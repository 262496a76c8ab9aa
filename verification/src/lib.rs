//! Cycle-accurate finite-state machines for an asynchronous serial line
//! (UART): a transmitter that frames one byte as a start bit, eight data
//! bits (least-significant first) and a stop bit, a receiver that samples
//! the line at bit centers to reassemble the byte, and a composition of
//! the two sharing one clock-to-baud timing configuration.
//!
//! Every state machine is a pure update function
//! `(parameters, state, input) -> (next_state, output)`; an external
//! driver owns the state and threads it from cycle to cycle.

pub mod bits;
pub mod timing;
pub mod uart;
pub mod uart_receiver;
pub mod uart_sender;
