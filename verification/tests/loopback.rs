//! End-to-end tests of the composed endpoint with its transmit line fed
//! straight back into its receive line.
//!
//! Timestamps follow the driving convention of 1000 clock units per
//! cycle, with outputs sampled half a period in: cycle `i` is stamped
//! `500 + 1000 * i`.

use uart_fsm::uart::{uart_update, Uart, UartInput, UartOutput, UartState};

fn quiet_input() -> UartInput {
    UartInput { reset: true, rx: true, data: 0, start: false }
}

fn loopback(previous: &UartOutput, template: UartInput) -> UartInput {
    UartInput { rx: previous.tx, ..template }
}

fn test_uart_at_speed(speed: usize) {
    let uart = Uart::new(9600 * speed as u128, 9600).unwrap();

    let mut outputs: Vec<(UartOutput, u64)> = Vec::new();
    let mut cycle = 0u64;
    let (mut state, mut output) = uart_update(uart, UartState::default(), quiet_input());
    outputs.push((output, 500 + 1000 * cycle));
    cycle += 1;
    let start = UartInput { reset: false, rx: true, data: 0b10100011, start: true };
    let (s, o) = uart_update(uart, state, start);
    state = s;
    output = o;
    cycle += 1;

    for _ in 0..(20 * speed) {
        let (s, o) = uart_update(uart, state, loopback(&output, quiet_input()));
        state = s;
        output = o;
        outputs.push((output, 500 + 1000 * cycle));
        cycle += 1;
    }

    // The reflected byte is read back correctly.
    let with_valid = outputs.iter().find(|(out, _)| out.valid).unwrap();
    assert!(with_valid.0.received_data == 0b10100011);
}

#[test]
fn uart_test_uart_sender_speed_1() {
    test_uart_at_speed(1);
}

#[test]
fn uart_test_uart_sender_speed_2() {
    test_uart_at_speed(2);
}

#[test]
fn uart_test_uart_sender_speed_3() {
    test_uart_at_speed(3);
}

#[test]
fn uart_test_uart_sender_speed_4() {
    test_uart_at_speed(4);
}

fn test_loopback_pulse_timing_at_speed(speed: usize) {
    // Drive the closed loop from reset: request byte 0b00010001 at cycle
    // 1 and check that the single valid pulse lands at cycle
    // `2 + 9 * speed`, i.e. at time `500 + 1000 * (2 + 9 * speed)`.
    let uart = Uart::new(9600 * speed as u128, 9600).unwrap();
    let mut state = UartState::default();
    let mut previous_tx = true;
    let mut pulses: Vec<(u8, u64)> = Vec::new();
    for cycle in 0..(30 * speed as u64 + 10) {
        let input = UartInput {
            reset: cycle == 0,
            rx: previous_tx,
            data: 0b00010001,
            start: cycle == 1,
        };
        let (next, out) = uart_update(uart, state, input);
        state = next;
        previous_tx = out.tx;
        if out.valid {
            pulses.push((out.received_data, 500 + 1000 * cycle));
        }
    }
    assert_eq!(pulses.len(), 1);
    assert_eq!(pulses[0].0, 0b00010001);
    assert_eq!(pulses[0].1, 500 + 1000 * (2 + 9 * speed as u64));
}

#[test]
fn loopback_pulse_timing_speed_1() {
    test_loopback_pulse_timing_at_speed(1);
}

#[test]
fn loopback_pulse_timing_speed_2() {
    test_loopback_pulse_timing_at_speed(2);
}

#[test]
fn loopback_pulse_timing_speed_5() {
    test_loopback_pulse_timing_at_speed(5);
}

#[test]
fn uart_initial_state_is_both_children_initial() {
    let state = UartState::default();
    assert_eq!(state.sender.counter, 0);
    assert_eq!(state.receiver.counter, 0);
    assert_eq!(state.sender.data, 0);
    assert_eq!(state.receiver.data, 0);
}

#[test]
fn uart_ready_during_loopback_transmission() {
    // While the byte is in flight the endpoint reports not-ready; once
    // the stop bit has passed it reports ready again.
    let speed = 2usize;
    let uart = Uart::new(9600 * speed as u128, 9600).unwrap();
    let mut state = UartState::default();
    let mut previous_tx = true;
    let mut ready_by_cycle = Vec::new();
    for cycle in 0..(12 * speed as u64 + 2) {
        let input = UartInput {
            reset: cycle == 0,
            rx: previous_tx,
            data: 0x5A,
            start: cycle == 1,
        };
        let (next, out) = uart_update(uart, state, input);
        state = next;
        previous_tx = out.tx;
        ready_by_cycle.push(out.ready);
    }
    assert!(ready_by_cycle[0]);
    for t in 1..(1 + 10 * speed) {
        assert!(!ready_by_cycle[t], "cycle {}", t);
    }
    assert!(ready_by_cycle[1 + 10 * speed]);
}
