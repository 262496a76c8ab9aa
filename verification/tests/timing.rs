//! Tests of the timing derivation and its configuration checks.

use uart_fsm::timing::{BitTimingParameters, UartError, MAX_BITLENGTH};
use uart_fsm::uart::Uart;
use uart_fsm::uart_receiver::UartReceiver;
use uart_fsm::uart_sender::UartSender;

#[test]
fn bitlength_is_truncating_quotient() {
    let p = BitTimingParameters::new(19200, 9600).unwrap();
    assert_eq!(p.bitlength, 2);
    assert_eq!(p.half_bitlength, 0);

    let p = BitTimingParameters::new(9600 * 4, 9600).unwrap();
    assert_eq!(p.bitlength, 4);
    assert_eq!(p.half_bitlength, 1);

    let p = BitTimingParameters::new(12_000_000, 9600).unwrap();
    assert_eq!(p.bitlength, 1250);
    assert_eq!(p.half_bitlength, 624);

    // Truncation in both divisions.
    let p = BitTimingParameters::new(10_000, 9600).unwrap();
    assert_eq!(p.bitlength, 1);
    assert_eq!(p.half_bitlength, 0);

    let p = BitTimingParameters::new(9600 * 5 + 9599, 9600).unwrap();
    assert_eq!(p.bitlength, 5);
    assert_eq!(p.half_bitlength, 2);
}

#[test]
fn bit_rate_above_clock_is_rejected() {
    assert_eq!(
        BitTimingParameters::new(9600, 19200),
        Err(UartError::InvalidConfiguration)
    );
}

#[test]
fn zero_bit_rate_is_rejected() {
    assert_eq!(
        BitTimingParameters::new(9600, 0),
        Err(UartError::InvalidConfiguration)
    );
}

#[test]
fn oversized_bit_period_is_rejected() {
    let limit = MAX_BITLENGTH as u128;
    assert!(BitTimingParameters::new(limit, 1).is_ok());
    assert_eq!(
        BitTimingParameters::new(limit + 1, 1),
        Err(UartError::InvalidConfiguration)
    );
}

#[test]
fn component_constructors_share_the_derivation() {
    let sender = UartSender::new(19200, 9600).unwrap();
    let receiver = UartReceiver::new(19200, 9600).unwrap();
    let uart = Uart::new(19200, 9600).unwrap();
    assert_eq!(sender.timing.bitlength, 2);
    assert_eq!(receiver.timing, sender.timing);
    assert_eq!(uart.sender.timing, sender.timing);
    assert_eq!(uart.receiver.timing, sender.timing);

    assert_eq!(UartSender::new(1, 2).unwrap_err(), UartError::InvalidConfiguration);
    assert_eq!(UartReceiver::new(1, 2).unwrap_err(), UartError::InvalidConfiguration);
    assert_eq!(Uart::new(1, 2).unwrap_err(), UartError::InvalidConfiguration);
}
