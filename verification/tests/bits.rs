//! Tests of single-bit access to a byte, and a transmitter-to-receiver
//! round trip over a recorded line.

use uart_fsm::bits::{get_bit, set_bit};
use uart_fsm::uart_receiver::{uart_receiver_update, UartReceiver, UartReceiverInput,
    UartReceiverState};
use uart_fsm::uart_sender::{uart_sender_update, UartSender, UartSenderInput, UartSenderState};

#[test]
fn get_bit_reads_lsb_first() {
    let value = 0b01010011u8;
    let expected = [true, true, false, false, true, false, true, false];
    for i in 0..8 {
        assert_eq!(get_bit(value, i), expected[i as usize], "bit {}", i);
    }
}

#[test]
fn set_bit_touches_only_its_bit() {
    assert_eq!(set_bit(0, 3, true), 0b1000);
    assert_eq!(set_bit(0xFF, 0, false), 0xFE);
    assert_eq!(set_bit(0b1000, 3, false), 0);
    assert_eq!(set_bit(0b1000, 3, true), 0b1000);
    let mut value = 0u8;
    for i in 0..8 {
        value = set_bit(value, i, true);
    }
    assert_eq!(value, 0xFF);
}

#[test]
fn recorded_sender_line_is_decoded_by_receiver() {
    // Record the transmitter's line for one byte, then replay the record
    // into a fresh receiver: the byte must come back, with one pulse.
    let speed = 3usize;
    let byte = 0xA5u8;
    let sender = UartSender::new(9600 * speed as u128, 9600).unwrap();
    let receiver = UartReceiver::new(9600 * speed as u128, 9600).unwrap();

    let mut recorded = Vec::new();
    let mut sender_state = UartSenderState::default();
    for cycle in 0..(10 * speed + 4) {
        let input = UartSenderInput { reset: false, data: byte, ready: cycle == 2 };
        let (next, out) = uart_sender_update(sender, sender_state, input);
        sender_state = next;
        recorded.push(out.rs232);
    }

    let mut receiver_state = UartReceiverState::default();
    let mut pulses = Vec::new();
    for (cycle, level) in recorded.iter().enumerate() {
        let input = UartReceiverInput { reset: false, rs232: *level };
        let (next, out) = uart_receiver_update(receiver, receiver_state, input);
        receiver_state = next;
        if out.valid {
            pulses.push((cycle, out.data));
        }
    }
    assert_eq!(pulses.len(), 1);
    assert_eq!(pulses[0].1, byte);
    // The pulse lands nine bit periods after the start bit began.
    assert_eq!(pulses[0].0, 2 + 9 * speed);
}
