//! Transmitter tests: drive the update function cycle by cycle and check
//! the framed line sequence and the readiness handshake.

use uart_fsm::uart_sender::{
    uart_sender_update, UartSender, UartSenderInput, UartSenderOutput, UartSenderState,
    UartSenderStateEnum,
};

fn idle_input() -> UartSenderInput {
    UartSenderInput { reset: false, data: 0, ready: false }
}

fn reset_input() -> UartSenderInput {
    UartSenderInput { reset: true, data: 0, ready: false }
}

fn transmit_input(data: u8) -> UartSenderInput {
    UartSenderInput { reset: false, data, ready: true }
}

/// Threads the state through one update per input and collects outputs.
fn run_sender(sender: UartSender, inputs: &[UartSenderInput]) -> Vec<UartSenderOutput> {
    let mut state = UartSenderState::default();
    let mut outputs = Vec::new();
    for input in inputs {
        let (next, out) = uart_sender_update(sender, state, *input);
        state = next;
        outputs.push(out);
    }
    outputs
}

fn test_uart_sender_at_speed(speed: usize) {
    let sender = UartSender::new(9600 * speed as u128, 9600).unwrap();

    let mut inputs = vec![reset_input(), idle_input(), transmit_input(0b01010011)];
    for _ in 0..(10 * speed + 1) {
        inputs.push(idle_input());
    }
    let results = run_sender(sender, &inputs);

    // The line starts high.
    assert_eq!(results[1].rs232, true);

    let start_cycle = 2usize;
    let middle_start = start_cycle + speed / 2;

    // The start bit is low.
    assert_eq!(results[middle_start].rs232, false);

    // The data bits of 0b01010011, least-significant first.
    assert_eq!(results[middle_start + 1 * speed].rs232, true);
    assert_eq!(results[middle_start + 2 * speed].rs232, true);
    assert_eq!(results[middle_start + 3 * speed].rs232, false);
    assert_eq!(results[middle_start + 4 * speed].rs232, false);
    assert_eq!(results[middle_start + 5 * speed].rs232, true);
    assert_eq!(results[middle_start + 6 * speed].rs232, false);
    assert_eq!(results[middle_start + 7 * speed].rs232, true);
    assert_eq!(results[middle_start + 8 * speed].rs232, false);

    // The stop bit is high.
    assert_eq!(results[middle_start + 9 * speed].rs232, true);

    // Readiness returns exactly one cycle after the stop bit ends.
    assert_eq!(results[start_cycle + 10 * speed - 1].ready, false);
    assert_eq!(results[start_cycle + 10 * speed].ready, true);
}

#[test]
fn uart_sender_test_uart_sender_speed_1() {
    test_uart_sender_at_speed(1);
}

#[test]
fn uart_sender_test_uart_sender_speed_2() {
    test_uart_sender_at_speed(2);
}

#[test]
fn uart_sender_test_uart_sender_speed_3() {
    test_uart_sender_at_speed(3);
}

#[test]
fn uart_sender_test_uart_sender_speed_4() {
    test_uart_sender_at_speed(4);
}

#[test]
fn sender_ready_is_withheld_during_whole_frame() {
    let speed = 3usize;
    let sender = UartSender::new(9600 * speed as u128, 9600).unwrap();
    let mut inputs = vec![transmit_input(0xFF)];
    for _ in 0..(10 * speed + 1) {
        inputs.push(idle_input());
    }
    let results = run_sender(sender, &inputs);
    for t in 0..(10 * speed) {
        assert_eq!(results[t].ready, false, "cycle {}", t);
    }
    assert_eq!(results[10 * speed].ready, true);
    assert_eq!(results[10 * speed].rs232, true);
}

#[test]
fn sender_stays_idle_without_request() {
    let sender = UartSender::new(19200, 9600).unwrap();
    let mut state = UartSenderState::default();
    for _ in 0..100 {
        let (next, out) = uart_sender_update(sender, state, idle_input());
        assert_eq!(out.ready, true);
        assert_eq!(out.rs232, true);
        assert_eq!(next, UartSenderState::default());
        state = next;
    }
}

#[test]
fn sender_initial_state_is_idle() {
    let state = UartSenderState::default();
    assert_eq!(state.counter, 0);
    assert_eq!(state.data, 0);
    assert_eq!(state.state, UartSenderStateEnum::Idle);
}
