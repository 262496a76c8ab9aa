//! Serial transmitter: a four-state machine that serializes one byte onto
//! a boolean line with start/stop framing.
//!
//! Each cycle, [`uart_sender_update`] maps the current state and input to
//! the next state and the output. The output is derived from the
//! *post-transition* state (a registered-output-ahead pattern), so the
//! line level of a bit appears on the very cycle its countdown begins.

use vstd::prelude::*;

use crate::bits::{bit_of, get_bit};
use crate::timing::{frame_level, BitTimingParameters, UartError};

verus! {

/// Timing configuration of the transmitter.
#[derive(Clone, Copy, PartialEq, Eq, Structural, Debug)]
pub struct UartSender {
    /// Cycles per bit and half-bit sampling offset.
    pub timing: BitTimingParameters,
}

impl UartSender {
    /// The timing is usable; see [`BitTimingParameters::wf`].
    pub open spec fn wf(self) -> bool {
        self.timing.wf()
    }

    /// Creates a transmitter configuration for the given clock rate and
    /// bit rate; rejects configurations whose bit period cannot be timed.
    pub fn new(clock_speed: u128, bit_rate: u128) -> (r: Result<UartSender, UartError>)
        ensures
            r is Ok <==> 1 <= bit_rate <= clock_speed && clock_speed / bit_rate
                <= crate::timing::MAX_BITLENGTH,
            r matches Ok(p) ==> {
                &&& p.timing.bitlength == clock_speed / bit_rate
                &&& p.timing.half_bitlength == (p.timing.bitlength - 1) / 2
                &&& p.wf()
            },
    {
        match BitTimingParameters::new(clock_speed, bit_rate) {
            Ok(timing) => Ok(UartSender { timing }),
            Err(e) => Err(e),
        }
    }
}

/// Input sampled by the transmitter each cycle.
#[derive(Clone, Copy, PartialEq, Eq, Structural, Debug)]
pub struct UartSenderInput {
    /// Reset request. Declared in the interface but never inspected by the
    /// transition logic; only the composition wires it through.
    pub reset: bool,
    /// Byte to send, latched when a transmission starts.
    pub data: u8,
    /// Request to start transmitting `data`. Honored only while the
    /// transmitter is idle.
    pub ready: bool,
}

/// Output driven by the transmitter each cycle.
#[derive(Clone, Copy, PartialEq, Eq, Structural, Debug)]
pub struct UartSenderOutput {
    /// High when the transmitter can accept a new byte.
    pub ready: bool,
    /// Level driven onto the serial line this cycle.
    pub rs232: bool,
}

/// Phase of the transmitter.
#[derive(Clone, Copy, PartialEq, Eq, Structural, Debug)]
pub enum UartSenderStateEnum {
    /// No transmission in progress; the line rests high.
    Idle,
    /// Emitting the start bit (line low).
    Start,
    /// Emitting data bit `i`, least-significant bit first.
    Data(u8),
    /// Emitting the stop bit (line high).
    Stop,
}

/// Full transmitter state threaded from cycle to cycle by the driver.
#[derive(Clone, Copy, PartialEq, Eq, Structural, Debug)]
pub struct UartSenderState {
    /// Cycles remaining in the current bit period.
    pub counter: u32,
    /// The byte being sent.
    pub data: u8,
    /// Current phase.
    pub state: UartSenderStateEnum,
}

/// The state a transmitter starts in: idle, nothing latched.
pub open spec fn sender_initial() -> UartSenderState {
    UartSenderState { counter: 0, data: 0, state: UartSenderStateEnum::Idle }
}

impl UartSenderState {
    /// Bounds every reachable state obeys: the bit index stays below 8 and
    /// the countdown stays below one bit period.
    pub open spec fn wf(self, params: UartSender) -> bool {
        &&& self.counter < params.timing.bitlength
        &&& (self.state matches UartSenderStateEnum::Data(i) ==> i < 8)
    }
}

impl Default for UartSenderState {
    /// The initial state.
    fn default() -> (r: UartSenderState)
        ensures
            r == sender_initial(),
    {
        UartSenderState { counter: 0, data: 0, state: UartSenderStateEnum::Idle }
    }
}

/// The transition table, evaluated against the current state: idle waits
/// for a start request; every timed phase counts its bit period down and
/// then advances start -> data 0 -> ... -> data 7 -> stop -> idle.
pub open spec fn sender_next(
    params: UartSender,
    state: UartSenderState,
    input: UartSenderInput,
) -> UartSenderState
    recommends
        params.wf(),
        state.wf(params),
{
    let fresh = (params.timing.bitlength - 1) as u32;
    match state.state {
        UartSenderStateEnum::Idle => if input.ready {
            UartSenderState {
                data: input.data,
                state: UartSenderStateEnum::Start,
                counter: fresh,
            }
        } else {
            state
        },
        UartSenderStateEnum::Start => if state.counter == 0 {
            UartSenderState {
                data: state.data,
                state: UartSenderStateEnum::Data(0),
                counter: fresh,
            }
        } else {
            UartSenderState {
                data: state.data,
                state: UartSenderStateEnum::Start,
                counter: (state.counter - 1) as u32,
            }
        },
        UartSenderStateEnum::Data(index) => if state.counter == 0 {
            if index == 7 {
                UartSenderState {
                    data: state.data,
                    state: UartSenderStateEnum::Stop,
                    counter: fresh,
                }
            } else {
                UartSenderState {
                    data: state.data,
                    state: UartSenderStateEnum::Data((index + 1) as u8),
                    counter: fresh,
                }
            }
        } else {
            UartSenderState {
                data: state.data,
                state: UartSenderStateEnum::Data(index),
                counter: (state.counter - 1) as u32,
            }
        },
        UartSenderStateEnum::Stop => if state.counter == 0 {
            UartSenderState {
                data: state.data,
                state: UartSenderStateEnum::Idle,
                counter: fresh,
            }
        } else {
            UartSenderState {
                data: state.data,
                state: UartSenderStateEnum::Stop,
                counter: (state.counter - 1) as u32,
            }
        },
    }
}

/// The output table, evaluated against the *post-transition* state: the
/// line is low during the start bit, carries bit `i` of the latched byte
/// during data phase `i`, and rests high otherwise; `ready` is high
/// exactly while idle.
pub open spec fn sender_output(next: UartSenderState) -> UartSenderOutput
    recommends
        next.state matches UartSenderStateEnum::Data(i) ==> i < 8,
{
    match next.state {
        UartSenderStateEnum::Idle => UartSenderOutput { ready: true, rs232: true },
        UartSenderStateEnum::Start => UartSenderOutput { ready: false, rs232: false },
        UartSenderStateEnum::Data(index) => UartSenderOutput {
            ready: false,
            rs232: bit_of(next.data, index),
        },
        UartSenderStateEnum::Stop => UartSenderOutput { ready: false, rs232: true },
    }
}

/// The transmitter state after `t` cycles, starting from `s0`, when cycle
/// `u` consumes `inputs(u)`.
pub open spec fn sender_state_at(
    params: UartSender,
    s0: UartSenderState,
    inputs: spec_fn(int) -> UartSenderInput,
    t: int,
) -> UartSenderState
    decreases t,
{
    if t <= 0 {
        s0
    } else {
        sender_next(params, sender_state_at(params, s0, inputs, t - 1), inputs(t - 1))
    }
}

/// The transmitter output of cycle `t` of that run; it is derived from
/// the post-transition state of cycle `t`.
pub open spec fn sender_output_at(
    params: UartSender,
    s0: UartSenderState,
    inputs: spec_fn(int) -> UartSenderInput,
    t: int,
) -> UartSenderOutput {
    sender_output(sender_state_at(params, s0, inputs, t + 1))
}

/// Every state such a run reaches is within bounds.
pub proof fn lemma_sender_run_wf(
    params: UartSender,
    s0: UartSenderState,
    inputs: spec_fn(int) -> UartSenderInput,
    t: int,
)
    requires
        params.wf(),
        s0.wf(params),
        0 <= t,
    ensures
        sender_state_at(params, s0, inputs, t).wf(params),
    decreases t,
{
    if t > 0 {
        lemma_sender_run_wf(params, s0, inputs, t - 1);
    }
}

/// Idempotence of the idle phase: from cycle `u0` on, as long as no start
/// request arrives, an idle transmitter keeps its exact state and keeps
/// announcing readiness with the line resting high.
pub proof fn lemma_sender_idle(
    params: UartSender,
    s0: UartSenderState,
    inputs: spec_fn(int) -> UartSenderInput,
    u0: int,
    t: int,
)
    requires
        params.wf(),
        0 <= u0 <= t,
        sender_state_at(params, s0, inputs, u0).state is Idle,
        forall|u: int| u0 <= u < t ==> !(#[trigger] inputs(u)).ready,
    ensures
        forall|u: int|
            u0 <= u <= t ==> sender_state_at(params, s0, inputs, u) == sender_state_at(
                params,
                s0,
                inputs,
                u0,
            ),
        forall|u: int|
            u0 <= u < t ==> sender_output_at(params, s0, inputs, u) == (UartSenderOutput {
                ready: true,
                rs232: true,
            }),
    decreases t - u0,
{
    if t > u0 {
        lemma_sender_idle(params, s0, inputs, u0, t - 1);
        assert(sender_state_at(params, s0, inputs, t - 1) == sender_state_at(
            params,
            s0,
            inputs,
            u0,
        ));
        assert(!inputs(t - 1).ready);
        assert(sender_state_at(params, s0, inputs, t) == sender_next(
            params,
            sender_state_at(params, s0, inputs, t - 1),
            inputs(t - 1),
        ));
    }
}

/// `state` with its countdown replaced.
pub open spec fn sender_with_counter(state: UartSenderState, counter: u32) -> UartSenderState {
    UartSenderState { counter, data: state.data, state: state.state }
}

/// The phase entered when a timed phase's countdown expires, with a fresh
/// bit-period countdown; the latched byte is kept.
pub open spec fn sender_advance(params: UartSender, state: UartSenderState) -> UartSenderState
    recommends
        !(state.state is Idle),
{
    let fresh = (params.timing.bitlength - 1) as u32;
    match state.state {
        UartSenderStateEnum::Idle => state,
        UartSenderStateEnum::Start => UartSenderState {
            data: state.data,
            state: UartSenderStateEnum::Data(0),
            counter: fresh,
        },
        UartSenderStateEnum::Data(index) => if index == 7 {
            UartSenderState { data: state.data, state: UartSenderStateEnum::Stop, counter: fresh }
        } else {
            UartSenderState {
                data: state.data,
                state: UartSenderStateEnum::Data((index + 1) as u8),
                counter: fresh,
            }
        },
        UartSenderStateEnum::Stop => UartSenderState {
            data: state.data,
            state: UartSenderStateEnum::Idle,
            counter: fresh,
        },
    }
}

/// A timed phase counts down one cycle at a time — the input cannot touch
/// it — and advances to the next phase the cycle after its countdown hits
/// zero.
pub proof fn lemma_sender_countdown(
    params: UartSender,
    s0: UartSenderState,
    inputs: spec_fn(int) -> UartSenderInput,
    u0: int,
    c: u32,
)
    requires
        params.wf(),
        0 <= u0,
        sender_state_at(params, s0, inputs, u0).wf(params),
        !(sender_state_at(params, s0, inputs, u0).state is Idle),
        sender_state_at(params, s0, inputs, u0).counter == c,
    ensures
        forall|u: int|
            u0 <= u <= u0 + c ==> sender_state_at(params, s0, inputs, u) == sender_with_counter(
                sender_state_at(params, s0, inputs, u0),
                (c - (u - u0)) as u32,
            ),
        sender_state_at(params, s0, inputs, u0 + c + 1) == sender_advance(
            params,
            sender_state_at(params, s0, inputs, u0),
        ),
    decreases c,
{
    let s = sender_state_at(params, s0, inputs, u0);
    if c == 0 {
        assert(sender_state_at(params, s0, inputs, u0 + 1) == sender_advance(params, s));
    } else {
        assert(sender_state_at(params, s0, inputs, u0 + 1) == sender_with_counter(
            s,
            (c - 1) as u32,
        ));
        lemma_sender_countdown(params, s0, inputs, u0 + 1, (c - 1) as u32);
    }
}

/// Entry state of frame phase `p` of a transmission of byte `d`: phase 0
/// is the start bit, phases 1 through 8 are data bits 0 through 7, phase
/// 9 is the stop bit, and phase 10 is the return to idle. Every entry
/// carries a fresh bit-period countdown.
pub open spec fn sender_phase_entry(params: UartSender, d: u8, p: int) -> UartSenderState
    recommends
        0 <= p <= 10,
{
    UartSenderState {
        counter: (params.timing.bitlength - 1) as u32,
        data: d,
        state: if p == 0 {
            UartSenderStateEnum::Start
        } else if p <= 8 {
            UartSenderStateEnum::Data((p - 1) as u8)
        } else if p == 9 {
            UartSenderStateEnum::Stop
        } else {
            UartSenderStateEnum::Idle
        },
    }
}

/// A start request at cycle `ts` to an idle transmitter puts the machine
/// at the entry of frame phase `p` exactly `p` bit periods after cycle
/// `ts + 1`.
pub proof fn lemma_sender_phase_entry(
    params: UartSender,
    s0: UartSenderState,
    inputs: spec_fn(int) -> UartSenderInput,
    ts: int,
    p: int,
)
    requires
        params.wf(),
        0 <= ts,
        sender_state_at(params, s0, inputs, ts).state is Idle,
        inputs(ts).ready,
        0 <= p <= 10,
    ensures
        sender_state_at(params, s0, inputs, ts + 1 + p * params.timing.bitlength)
            == sender_phase_entry(params, inputs(ts).data, p),
    decreases p,
{
    let b = params.timing.bitlength as int;
    if p == 0 {
        assert(ts + 1 + p * b == ts + 1) by (nonlinear_arith)
            requires
                p == 0,
        ;
        assert(sender_state_at(params, s0, inputs, ts + 1) == sender_phase_entry(
            params,
            inputs(ts).data,
            0,
        ));
    } else {
        lemma_sender_phase_entry(params, s0, inputs, ts, p - 1);
        let entry = ts + 1 + (p - 1) * b;
        assert((p - 1) * b + b == p * b) by (nonlinear_arith);
        lemma_sender_countdown(params, s0, inputs, entry, (params.timing.bitlength - 1) as u32);
        assert(sender_state_at(params, s0, inputs, ts + 1 + p * b) == sender_advance(
            params,
            sender_phase_entry(params, inputs(ts).data, p - 1),
        ));
    }
}

/// Transmitter round trip: a start request for byte `d` at cycle `ts` to
/// an idle transmitter drives the full frame of `d` onto the line — one
/// bit period per bit — with readiness withdrawn throughout and announced
/// again exactly at cycle `ts + 10 * b`, when the machine is idle again.
pub proof fn lemma_sender_transmission(
    params: UartSender,
    s0: UartSenderState,
    inputs: spec_fn(int) -> UartSenderInput,
    ts: int,
)
    requires
        params.wf(),
        0 <= ts,
        sender_state_at(params, s0, inputs, ts).state is Idle,
        inputs(ts).ready,
    ensures
        forall|u: int|
            ts <= u <= ts + 10 * params.timing.bitlength ==> sender_output_at(
                params,
                s0,
                inputs,
                u,
            ) == (UartSenderOutput {
                ready: u == ts + 10 * params.timing.bitlength,
                rs232: frame_level(
                    params.timing.bitlength as int,
                    inputs(ts).data,
                    u - ts,
                ),
            }),
        sender_state_at(params, s0, inputs, ts + 1 + 10 * params.timing.bitlength)
            == sender_phase_entry(params, inputs(ts).data, 10),
{
    let b = params.timing.bitlength as int;
    let d = inputs(ts).data;
    lemma_sender_phase_entry(params, s0, inputs, ts, 10);
    assert forall|u: int| ts <= u <= ts + 10 * b implies sender_output_at(params, s0, inputs, u)
        == (UartSenderOutput {
        ready: u == ts + 10 * b,
        rs232: frame_level(b, d, u - ts),
    }) by {
        if u == ts + 10 * b {
            assert(sender_state_at(params, s0, inputs, u + 1).state is Idle);
            assert(frame_level(b, d, u - ts)) by {
                assert(u - ts >= 9 * b) by (nonlinear_arith)
                    requires
                        u - ts == 10 * b && b >= 1,
                ;
            }
        } else {
            // Cycle u lies in frame phase p = (u - ts) / b, and its
            // post-transition state sits (u - ts) % b cycles into that
            // phase's countdown.
            let p = (u - ts) / b;
            vstd::arithmetic::div_mod::lemma_fundamental_div_mod(u - ts, b);
            let r = (u - ts) % b;
            assert(0 <= r < b);
            assert(u - ts == p * b + r);
            assert(0 <= p <= 9) by (nonlinear_arith)
                requires
                    0 <= p * b + r < 10 * b && 0 <= r < b && b >= 1,
            ;
            lemma_sender_phase_entry(params, s0, inputs, ts, p);
            let entry = ts + 1 + p * b;
            lemma_sender_countdown(params, s0, inputs, entry, (params.timing.bitlength - 1) as u32);
            assert(entry <= u + 1 <= entry + (b - 1));
            assert(sender_state_at(params, s0, inputs, u + 1) == sender_with_counter(
                sender_phase_entry(params, d, p),
                (b - 1 - (u + 1 - entry)) as u32,
            ));
            if p == 0 {
                assert(u - ts < b) by (nonlinear_arith)
                    requires
                        u - ts == p * b + r && p == 0 && r < b,
                ;
            } else if p <= 8 {
                assert(b <= u - ts < 9 * b) by (nonlinear_arith)
                    requires
                        u - ts == p * b + r && 1 <= p <= 8 && 0 <= r < b && b >= 1,
                ;
                assert((u - ts) / b - 1 == p - 1);
                assert(sender_output_at(params, s0, inputs, u).rs232 == bit_of(d, (p - 1) as u8));
            } else {
                assert(9 * b <= u - ts) by (nonlinear_arith)
                    requires
                        u - ts == p * b + r && p == 9 && 0 <= r,
                ;
            }
        }
    }
}

/// One clock cycle of the transmitter: applies the transition table to the
/// current state, then derives the output from the state just computed.
pub fn uart_sender_update(
    params: UartSender,
    state: UartSenderState,
    input: UartSenderInput,
) -> (r: (UartSenderState, UartSenderOutput))
    requires
        params.wf(),
        state.wf(params),
    ensures
        r.0 == sender_next(params, state, input),
        r.1 == sender_output(r.0),
        r.0.wf(params),
{
    let fresh = params.timing.bitlength - 1;
    let next_state = match state.state {
        UartSenderStateEnum::Idle => if input.ready {
            UartSenderState {
                data: input.data,
                state: UartSenderStateEnum::Start,
                counter: fresh,
            }
        } else {
            state
        },
        UartSenderStateEnum::Start => if state.counter == 0 {
            UartSenderState {
                data: state.data,
                state: UartSenderStateEnum::Data(0),
                counter: fresh,
            }
        } else {
            UartSenderState {
                data: state.data,
                state: UartSenderStateEnum::Start,
                counter: state.counter - 1,
            }
        },
        UartSenderStateEnum::Data(index) => if state.counter == 0 {
            if index == 7 {
                UartSenderState {
                    data: state.data,
                    state: UartSenderStateEnum::Stop,
                    counter: fresh,
                }
            } else {
                UartSenderState {
                    data: state.data,
                    state: UartSenderStateEnum::Data(index + 1),
                    counter: fresh,
                }
            }
        } else {
            UartSenderState {
                data: state.data,
                state: UartSenderStateEnum::Data(index),
                counter: state.counter - 1,
            }
        },
        UartSenderStateEnum::Stop => if state.counter == 0 {
            UartSenderState {
                data: state.data,
                state: UartSenderStateEnum::Idle,
                counter: fresh,
            }
        } else {
            UartSenderState {
                data: state.data,
                state: UartSenderStateEnum::Stop,
                counter: state.counter - 1,
            }
        },
    };
    let output = match next_state.state {
        UartSenderStateEnum::Idle => UartSenderOutput { ready: true, rs232: true },
        UartSenderStateEnum::Start => UartSenderOutput { ready: false, rs232: false },
        UartSenderStateEnum::Data(index) => UartSenderOutput {
            ready: false,
            rs232: get_bit(next_state.data, index),
        },
        UartSenderStateEnum::Stop => UartSenderOutput { ready: false, rs232: true },
    };
    (next_state, output)
}

} // verus!
