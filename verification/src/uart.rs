//! Composition of one transmitter and one receiver sharing a reset line
//! and one timing configuration: a full-duplex serial endpoint. This
//! component only routes signals; all state logic lives in its two
//! children.

use vstd::prelude::*;

use crate::timing::{frame_level, UartError};
use crate::uart_receiver::{
    receiver_initial, receiver_next, receiver_output, uart_receiver_update, UartReceiver,
    UartReceiverInput, UartReceiverState,
};
use crate::uart_sender::{
    sender_initial, sender_next, sender_output, uart_sender_update, UartSender, UartSenderInput,
    UartSenderOutput, UartSenderState,
};

verus! {

/// Timing configurations of both children.
#[derive(Clone, Copy, PartialEq, Eq, Structural, Debug)]
pub struct Uart {
    /// The receiving half.
    pub receiver: UartReceiver,
    /// The transmitting half.
    pub sender: UartSender,
}

impl Uart {
    /// Both children's timings are usable.
    pub open spec fn wf(self) -> bool {
        self.receiver.wf() && self.sender.wf()
    }

    /// Creates a paired transmitter and receiver for the given clock rate
    /// and bit rate; rejects configurations whose bit period cannot be
    /// timed.
    pub fn new(clock_speed: u128, bit_rate: u128) -> (r: Result<Uart, UartError>)
        ensures
            r is Ok <==> 1 <= bit_rate <= clock_speed && clock_speed / bit_rate
                <= crate::timing::MAX_BITLENGTH,
            r matches Ok(p) ==> {
                &&& p.receiver.timing == p.sender.timing
                &&& p.sender.timing.bitlength == clock_speed / bit_rate
                &&& p.sender.timing.half_bitlength == (p.sender.timing.bitlength - 1) / 2
                &&& p.wf()
            },
    {
        let receiver = match UartReceiver::new(clock_speed, bit_rate) {
            Ok(receiver) => receiver,
            Err(e) => {
                return Err(e);
            },
        };
        let sender = match UartSender::new(clock_speed, bit_rate) {
            Ok(sender) => sender,
            Err(e) => {
                return Err(e);
            },
        };
        Ok(Uart { receiver, sender })
    }
}

/// Input sampled by the endpoint each cycle.
#[derive(Clone, Copy, PartialEq, Eq, Structural, Debug)]
pub struct UartInput {
    /// Reset request, forwarded to both children (which declare but never
    /// inspect it).
    pub reset: bool,
    /// Level of the incoming serial line this cycle.
    pub rx: bool,
    /// Byte to transmit.
    pub data: u8,
    /// Pulse high to start transmitting `data`.
    pub start: bool,
}

/// Output driven by the endpoint each cycle.
#[derive(Clone, Copy, PartialEq, Eq, Structural, Debug)]
pub struct UartOutput {
    /// Byte assembled by the receiving half.
    pub received_data: u8,
    /// High for exactly one cycle, when `received_data` is complete.
    pub valid: bool,
    /// High when the transmitting half can accept a new byte.
    pub ready: bool,
    /// Level driven onto the outgoing serial line this cycle.
    pub tx: bool,
}

/// States of both children, threaded together by the driver.
#[derive(Clone, Copy, PartialEq, Eq, Structural, Debug)]
pub struct UartState {
    /// State of the receiving half.
    pub receiver: UartReceiverState,
    /// State of the transmitting half.
    pub sender: UartSenderState,
}

/// The state an endpoint starts in: both halves in their initial states.
pub open spec fn uart_initial() -> UartState {
    UartState { receiver: receiver_initial(), sender: sender_initial() }
}

impl UartState {
    /// Both children's states are within bounds.
    pub open spec fn wf(self, params: Uart) -> bool {
        self.receiver.wf(params.receiver) && self.sender.wf(params.sender)
    }
}

impl Default for UartState {
    /// The initial state.
    fn default() -> (r: UartState)
        ensures
            r == uart_initial(),
    {
        UartState {
            receiver: UartReceiverState::default(),
            sender: UartSenderState::default(),
        }
    }
}

/// The receiver's slice of the endpoint input.
pub open spec fn uart_receiver_input(input: UartInput) -> UartReceiverInput {
    UartReceiverInput { reset: input.reset, rs232: input.rx }
}

/// The sender's slice of the endpoint input.
pub open spec fn uart_sender_input(input: UartInput) -> UartSenderInput {
    UartSenderInput { reset: input.reset, data: input.data, ready: input.start }
}

/// The composed transition: each child steps on its slice of the input.
pub open spec fn uart_next(params: Uart, state: UartState, input: UartInput) -> UartState
    recommends
        params.wf(),
        state.wf(params),
{
    UartState {
        receiver: receiver_next(params.receiver, state.receiver, uart_receiver_input(input)),
        sender: sender_next(params.sender, state.sender, uart_sender_input(input)),
    }
}

/// The composed output: a structural merge of both children's outputs.
pub open spec fn uart_output(params: Uart, state: UartState, input: UartInput) -> UartOutput {
    let next = uart_next(params, state, input);
    let r_out = receiver_output(state.receiver, next.receiver);
    let s_out = sender_output(next.sender);
    UartOutput {
        received_data: r_out.data,
        valid: r_out.valid,
        ready: s_out.ready,
        tx: s_out.rs232,
    }
}

/// Input fed to a looped-back endpoint at cycle `t`: reset is pulsed on
/// cycle 0, a transmit request for byte `d` on cycle 1, and the receive
/// line carries the endpoint's own transmit line of the previous cycle
/// (idle high before there is one).
pub open spec fn loopback_input(params: Uart, d: u8, t: int) -> UartInput
    decreases t, 0int,
{
    UartInput {
        reset: t == 0,
        rx: if t <= 0 {
            true
        } else {
            loopback_step(params, d, t - 1).1.tx
        },
        data: d,
        start: t == 1,
    }
}

/// State (after the cycle) and output of cycle `t` of a looped-back
/// endpoint that starts in the initial state.
pub open spec fn loopback_step(params: Uart, d: u8, t: int) -> (UartState, UartOutput)
    decreases t, 1int,
{
    let prev = if t <= 0 {
        uart_initial()
    } else {
        loopback_step(params, d, t - 1).0
    };
    let input = loopback_input(params, d, t);
    (uart_next(params, prev, input), uart_output(params, prev, input))
}

/// The transmitter's slice of the closed-loop input sequence.
pub open spec fn loopback_sender_inputs(params: Uart, d: u8) -> spec_fn(int) -> UartSenderInput {
    |t: int| uart_sender_input(loopback_input(params, d, t))
}

/// The receiver's slice of the closed-loop input sequence.
pub open spec fn loopback_receiver_inputs(params: Uart, d: u8) -> spec_fn(
    int,
) -> UartReceiverInput {
    |t: int| uart_receiver_input(loopback_input(params, d, t))
}

/// The composition adds no logic: in loopback operation each half runs
/// exactly its own slice of the closed-loop input sequence.
proof fn lemma_loopback_components(params: Uart, d: u8, t: int)
    requires
        params.wf(),
        0 <= t,
    ensures
        loopback_step(params, d, t).0.sender == crate::uart_sender::sender_state_at(
            params.sender,
            sender_initial(),
            loopback_sender_inputs(params, d),
            t + 1,
        ),
        loopback_step(params, d, t).0.receiver == crate::uart_receiver::receiver_state_at(
            params.receiver,
            receiver_initial(),
            loopback_receiver_inputs(params, d),
            t + 1,
        ),
        loopback_step(params, d, t).1.tx == crate::uart_sender::sender_output_at(
            params.sender,
            sender_initial(),
            loopback_sender_inputs(params, d),
            t,
        ).rs232,
        loopback_step(params, d, t).1.ready == crate::uart_sender::sender_output_at(
            params.sender,
            sender_initial(),
            loopback_sender_inputs(params, d),
            t,
        ).ready,
        loopback_step(params, d, t).1.valid == crate::uart_receiver::receiver_output_at(
            params.receiver,
            receiver_initial(),
            loopback_receiver_inputs(params, d),
            t,
        ).valid,
        loopback_step(params, d, t).1.received_data == crate::uart_receiver::receiver_output_at(
            params.receiver,
            receiver_initial(),
            loopback_receiver_inputs(params, d),
            t,
        ).data,
    decreases t,
{
    let s_in = loopback_sender_inputs(params, d);
    let r_in = loopback_receiver_inputs(params, d);
    assert(s_in(t) == uart_sender_input(loopback_input(params, d, t)));
    assert(r_in(t) == uart_receiver_input(loopback_input(params, d, t)));
    if t > 0 {
        lemma_loopback_components(params, d, t - 1);
    }
}

/// Loopback end-to-end: with the transmit line fed straight back into
/// the receive line and a single transmit request for byte `d` pulsed at
/// cycle 1, the endpoint raises `valid` at cycle `2 + 9*b` and at no
/// other cycle, and the byte it presents during that cycle is `d`.
pub proof fn lemma_uart_loopback(params: Uart, d: u8, t: int)
    requires
        params.wf(),
        params.receiver.timing == params.sender.timing,
        0 <= t,
    ensures
        loopback_step(params, d, t).1.valid <==> t == 2 + 9 * params.sender.timing.bitlength,
        t == 2 + 9 * params.sender.timing.bitlength ==> loopback_step(params, d, t).1.received_data
            == d,
{
    let b = params.sender.timing.bitlength as int;
    let s_in = loopback_sender_inputs(params, d);
    let r_in = loopback_receiver_inputs(params, d);
    let s0s = sender_initial();
    let s0r = receiver_initial();
    assert forall|u: int| #[trigger] s_in(u) == (UartSenderInput {
        reset: u == 0,
        data: d,
        ready: u == 1,
    }) by {
        assert(s_in(u) == uart_sender_input(loopback_input(params, d, u)));
    }
    assert(crate::uart_sender::sender_state_at(params.sender, s0s, s_in, 0) == s0s);
    assert(crate::uart_sender::sender_state_at(params.sender, s0s, s_in, 1)
        == crate::uart_sender::sender_next(params.sender, s0s, s_in(0)));
    assert(crate::uart_sender::sender_state_at(params.sender, s0s, s_in, 1) == s0s);
    crate::uart_sender::lemma_sender_transmission(params.sender, s0s, s_in, 1);
    assert(crate::uart_sender::sender_state_at(params.sender, s0s, s_in, 2 + 10 * b).state
        is Idle);
    // The receive line replays the transmit line one cycle late: idle
    // high, then the frame of `d` from cycle 2 on, then idle high again.
    assert forall|u: int| 0 <= u < 2 implies (#[trigger] r_in(u)).rs232 by {
        assert(r_in(u) == uart_receiver_input(loopback_input(params, d, u)));
        if u == 1 {
            lemma_loopback_components(params, d, 0);
        }
    }
    assert forall|u: int| 2 <= u < 2 + 10 * b implies (#[trigger] r_in(u)).rs232 == frame_level(
        b,
        d,
        u - 2,
    ) by {
        assert(r_in(u) == uart_receiver_input(loopback_input(params, d, u)));
        lemma_loopback_components(params, d, u - 1);
        assert(crate::uart_sender::sender_output_at(params.sender, s0s, s_in, u - 1)
            == (UartSenderOutput { ready: u - 1 == 1 + 10 * b, rs232: frame_level(b, d, u - 2) }));
    }
    assert forall|u: int| 2 + 10 * b <= u implies (#[trigger] r_in(u)).rs232 by {
        assert(r_in(u) == uart_receiver_input(loopback_input(params, d, u)));
        lemma_loopback_components(params, d, u - 1);
        if u == 2 + 10 * b {
            assert(frame_level(b, d, 10 * b));
        } else {
            crate::uart_sender::lemma_sender_idle(params.sender, s0s, s_in, 2 + 10 * b, u);
        }
    }
    // Hand the replayed frame to the receiver-correctness argument.
    crate::uart_receiver::lemma_receiver_frame(params.receiver, s0r, r_in, 2, d);
    lemma_loopback_components(params, d, t);
    if t >= 2 + 10 * b {
        crate::uart_receiver::lemma_receiver_ready_wait(
            params.receiver,
            s0r,
            r_in,
            2 + 9 * b + 1,
            t,
        );
        assert(crate::uart_receiver::receiver_state_at(params.receiver, s0r, r_in, t).state
            is Ready);
    }
}

/// One clock cycle of the endpoint: feeds the incoming line to the
/// receiver and the transmit request to the sender, then merges their
/// outputs.
pub fn uart_update(params: Uart, state: UartState, input: UartInput) -> (r: (
    UartState,
    UartOutput,
))
    requires
        params.wf(),
        state.wf(params),
    ensures
        r.0 == uart_next(params, state, input),
        r.1 == uart_output(params, state, input),
        r.0.wf(params),
{
    let (receiver_state, receiver_out) = uart_receiver_update(
        params.receiver,
        state.receiver,
        UartReceiverInput { reset: input.reset, rs232: input.rx },
    );
    let (sender_state, sender_out) = uart_sender_update(
        params.sender,
        state.sender,
        UartSenderInput { reset: input.reset, data: input.data, ready: input.start },
    );
    let next_state = UartState { receiver: receiver_state, sender: sender_state };
    let output = UartOutput {
        received_data: receiver_out.data,
        valid: receiver_out.valid,
        ready: sender_out.ready,
        tx: sender_out.rs232,
    };
    (next_state, output)
}

} // verus!
