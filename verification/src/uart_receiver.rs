//! Serial receiver: a state machine that watches a boolean line for a
//! falling edge, samples each data bit at its temporal center, and raises
//! a one-cycle validity pulse once a whole byte is in.
//!
//! Each cycle, [`uart_receiver_update`] maps the current state and input
//! to the next state and the output. The output mixes the two sides of
//! the transition on purpose: the `data` field shows the
//! *post-transition* byte (it already contains a bit sampled this cycle),
//! while `valid` reflects the *pre-transition* state, so it pulses for
//! exactly the one cycle the machine spends in `Stop`.

use vstd::prelude::*;

use crate::bits::{bit_of, set_bit};
use crate::bits::with_bit;
use crate::timing::{frame_level, BitTimingParameters, UartError};

verus! {

/// Timing configuration of the receiver.
#[derive(Clone, Copy, PartialEq, Eq, Structural, Debug)]
pub struct UartReceiver {
    /// Cycles per bit and half-bit sampling offset.
    pub timing: BitTimingParameters,
}

impl UartReceiver {
    /// The timing is usable; see [`BitTimingParameters::wf`].
    pub open spec fn wf(self) -> bool {
        self.timing.wf()
    }

    /// Creates a receiver configuration for the given clock rate and bit
    /// rate; rejects configurations whose bit period cannot be timed.
    pub fn new(clock_speed: u128, bit_rate: u128) -> (r: Result<UartReceiver, UartError>)
        ensures
            r is Ok <==> 1 <= bit_rate <= clock_speed && clock_speed / bit_rate
                <= crate::timing::MAX_BITLENGTH,
            r matches Ok(p) ==> {
                &&& p.timing.bitlength == clock_speed / bit_rate
                &&& p.timing.half_bitlength == (p.timing.bitlength - 1) / 2
                &&& p.wf()
            },
    {
        match BitTimingParameters::new(clock_speed, bit_rate) {
            Ok(timing) => Ok(UartReceiver { timing }),
            Err(e) => Err(e),
        }
    }
}

/// Input sampled by the receiver each cycle.
#[derive(Clone, Copy, PartialEq, Eq, Structural, Debug)]
pub struct UartReceiverInput {
    /// Reset request. Declared in the interface but never inspected by the
    /// transition logic; only the composition wires it through.
    pub reset: bool,
    /// Level of the serial line this cycle.
    pub rs232: bool,
}

/// Output driven by the receiver each cycle.
#[derive(Clone, Copy, PartialEq, Eq, Structural, Debug)]
pub struct UartReceiverOutput {
    /// Byte assembled so far, including a bit sampled this very cycle.
    pub data: u8,
    /// High for exactly one cycle, when `data` holds a complete byte.
    pub valid: bool,
}

/// Phase of the receiver.
#[derive(Clone, Copy, PartialEq, Eq, Structural, Debug)]
pub enum UartReceiverStateEnum {
    /// Waiting for the falling edge of a start bit.
    Ready,
    /// Sampling data bit `i`, least-significant bit first.
    Data(u8),
    /// One cycle long; the assembled byte is valid during it.
    Stop,
}

/// Full receiver state threaded from cycle to cycle by the driver.
#[derive(Clone, Copy, PartialEq, Eq, Structural, Debug)]
pub struct UartReceiverState {
    /// Cycles remaining before the current bit period ends.
    pub counter: u32,
    /// Byte assembled so far.
    pub data: u8,
    /// Current phase.
    pub state: UartReceiverStateEnum,
}

/// The state a receiver starts in: ready, nothing assembled.
pub open spec fn receiver_initial() -> UartReceiverState {
    UartReceiverState { counter: 0, data: 0, state: UartReceiverStateEnum::Ready }
}

impl UartReceiverState {
    /// Bounds every reachable state obeys: the bit index stays below 8 and
    /// the countdown never exceeds the start-bit countdown
    /// `2 * bitlength - 2`.
    pub open spec fn wf(self, params: UartReceiver) -> bool {
        &&& self.counter <= 2 * params.timing.bitlength - 2
        &&& (self.state matches UartReceiverStateEnum::Data(i) ==> i < 8)
    }
}

impl Default for UartReceiverState {
    /// The initial state.
    fn default() -> (r: UartReceiverState)
        ensures
            r == receiver_initial(),
    {
        UartReceiverState { counter: 0, data: 0, state: UartReceiverStateEnum::Ready }
    }
}

/// The transition table, evaluated against the current state. A falling
/// edge seen while ready starts a countdown of `2 * bitlength - 2`
/// cycles: the edge was observed one cycle into the start bit, so the
/// first data-bit center lies a further bit period and a half ahead.
/// While sampling bit `i`, the line is read exactly when the countdown
/// passes the half-bit mark; when it reaches zero the machine moves to
/// the next bit, or to `Stop` after bit 7. `Stop` lasts one cycle.
pub open spec fn receiver_next(
    params: UartReceiver,
    state: UartReceiverState,
    input: UartReceiverInput,
) -> UartReceiverState
    recommends
        params.wf(),
        state.wf(params),
{
    match state.state {
        UartReceiverStateEnum::Ready => if input.rs232 == false {
            UartReceiverState {
                data: 0,
                state: UartReceiverStateEnum::Data(0),
                counter: (2 * params.timing.bitlength - 2) as u32,
            }
        } else {
            UartReceiverState {
                data: state.data,
                state: UartReceiverStateEnum::Ready,
                counter: 0,
            }
        },
        UartReceiverStateEnum::Data(index) => {
            let new_data = if state.counter == params.timing.half_bitlength {
                with_bit(state.data, index, input.rs232)
            } else {
                state.data
            };
            if state.counter == 0 {
                if index == 7 {
                    UartReceiverState {
                        data: new_data,
                        state: UartReceiverStateEnum::Stop,
                        counter: state.counter,
                    }
                } else {
                    UartReceiverState {
                        data: new_data,
                        state: UartReceiverStateEnum::Data((index + 1) as u8),
                        counter: (params.timing.bitlength - 1) as u32,
                    }
                }
            } else {
                UartReceiverState {
                    data: new_data,
                    state: UartReceiverStateEnum::Data(index),
                    counter: (state.counter - 1) as u32,
                }
            }
        },
        UartReceiverStateEnum::Stop => UartReceiverState {
            data: state.data,
            state: UartReceiverStateEnum::Ready,
            counter: 0,
        },
    }
}

/// The output: `data` from the post-transition state, `valid` from the
/// pre-transition state.
pub open spec fn receiver_output(
    state: UartReceiverState,
    next: UartReceiverState,
) -> UartReceiverOutput {
    UartReceiverOutput {
        data: next.data,
        valid: state.state is Stop,
    }
}

/// The receiver state after `t` cycles, starting from `s0`, when cycle
/// `u` consumes `inputs(u)`.
pub open spec fn receiver_state_at(
    params: UartReceiver,
    s0: UartReceiverState,
    inputs: spec_fn(int) -> UartReceiverInput,
    t: int,
) -> UartReceiverState
    decreases t,
{
    if t <= 0 {
        s0
    } else {
        receiver_next(params, receiver_state_at(params, s0, inputs, t - 1), inputs(t - 1))
    }
}

/// The receiver output of cycle `t` of that run: the byte from the
/// post-transition state, the validity pulse from the pre-transition
/// state.
pub open spec fn receiver_output_at(
    params: UartReceiver,
    s0: UartReceiverState,
    inputs: spec_fn(int) -> UartReceiverInput,
    t: int,
) -> UartReceiverOutput {
    receiver_output(
        receiver_state_at(params, s0, inputs, t),
        receiver_state_at(params, s0, inputs, t + 1),
    )
}

/// Every state such a run reaches is within bounds.
pub proof fn lemma_receiver_run_wf(
    params: UartReceiver,
    s0: UartReceiverState,
    inputs: spec_fn(int) -> UartReceiverInput,
    t: int,
)
    requires
        params.wf(),
        s0.wf(params),
        0 <= t,
    ensures
        receiver_state_at(params, s0, inputs, t).wf(params),
    decreases t,
{
    if t > 0 {
        lemma_receiver_run_wf(params, s0, inputs, t - 1);
    }
}

/// Resynchronization discipline: while a data bit is being received and
/// the countdown is away from the half-bit mark, the line level cannot
/// reach the machine at all — a brief glitch neither perturbs the
/// assembled byte nor the transition taken.
pub proof fn lemma_receiver_glitch_immune(
    params: UartReceiver,
    state: UartReceiverState,
    input1: UartReceiverInput,
    input2: UartReceiverInput,
)
    requires
        state.state is Data,
        state.counter != params.timing.half_bitlength,
    ensures
        receiver_next(params, state, input1) == receiver_next(params, state, input2),
        receiver_next(params, state, input1).data == state.data,
{
}

/// While the line stays high, a ready receiver stays ready — holding its
/// last assembled byte — and never pulses `valid`.
pub proof fn lemma_receiver_ready_wait(
    params: UartReceiver,
    s0: UartReceiverState,
    inputs: spec_fn(int) -> UartReceiverInput,
    u0: int,
    t: int,
)
    requires
        params.wf(),
        0 <= u0 <= t,
        receiver_state_at(params, s0, inputs, u0).state is Ready,
        forall|u: int| u0 <= u < t ==> (#[trigger] inputs(u)).rs232,
    ensures
        forall|u: int| u0 <= u <= t ==> receiver_state_at(params, s0, inputs, u).state is Ready,
        forall|u: int|
            u0 < u <= t ==> receiver_state_at(params, s0, inputs, u) == (UartReceiverState {
                counter: 0,
                data: receiver_state_at(params, s0, inputs, u0).data,
                state: UartReceiverStateEnum::Ready,
            }),
        forall|u: int| u0 <= u < t ==> !receiver_output_at(params, s0, inputs, u).valid,
    decreases t - u0,
{
    if t > u0 {
        lemma_receiver_ready_wait(params, s0, inputs, u0, t - 1);
        assert(inputs(t - 1).rs232);
        assert(receiver_state_at(params, s0, inputs, t) == receiver_next(
            params,
            receiver_state_at(params, s0, inputs, t - 1),
            inputs(t - 1),
        ));
    }
}

/// The state after the window of data bit `i` closes, its byte being
/// `d`: a fresh countdown on the next bit, or — after bit 7 — the
/// one-cycle `Stop` phase.
pub open spec fn receiver_bit_done(params: UartReceiver, i: u8, d: u8) -> UartReceiverState
    recommends
        i < 8,
{
    if i < 7 {
        UartReceiverState {
            counter: (params.timing.bitlength - 1) as u32,
            data: d,
            state: UartReceiverStateEnum::Data((i + 1) as u8),
        }
    } else {
        UartReceiverState { counter: 0, data: d, state: UartReceiverStateEnum::Stop }
    }
}

/// One data-bit window: from a countdown of `c` cycles on bit `i`, the
/// machine stays on bit `i` for `c + 1` cycles, reads the line exactly
/// when the countdown passes the half-bit mark — every other cycle's
/// level is discarded — and then closes the window with that one sample
/// written into bit `i`.
pub proof fn lemma_receiver_bit_window(
    params: UartReceiver,
    s0: UartReceiverState,
    inputs: spec_fn(int) -> UartReceiverInput,
    u0: int,
    c: u32,
    i: u8,
    d: u8,
)
    requires
        params.wf(),
        0 <= u0,
        receiver_state_at(params, s0, inputs, u0) == (UartReceiverState {
            counter: c,
            data: d,
            state: UartReceiverStateEnum::Data(i),
        }),
        i < 8,
    ensures
        forall|u: int|
            u0 <= u <= u0 + c ==> receiver_state_at(params, s0, inputs, u).state
                == UartReceiverStateEnum::Data(i),
        receiver_state_at(params, s0, inputs, u0 + c + 1) == receiver_bit_done(
            params,
            i,
            if params.timing.half_bitlength <= c {
                with_bit(d, i, inputs(u0 + c - params.timing.half_bitlength).rs232)
            } else {
                d
            },
        ),
    decreases c,
{
    let h = params.timing.half_bitlength;
    let s = receiver_state_at(params, s0, inputs, u0);
    if c == 0 {
        assert(receiver_state_at(params, s0, inputs, u0 + 1) == receiver_next(
            params,
            s,
            inputs(u0),
        ));
    } else {
        let d2 = if c == h {
            with_bit(d, i, inputs(u0).rs232)
        } else {
            d
        };
        assert(receiver_state_at(params, s0, inputs, u0 + 1) == receiver_next(
            params,
            s,
            inputs(u0),
        ));
        assert(receiver_state_at(params, s0, inputs, u0 + 1) == (UartReceiverState {
            counter: (c - 1) as u32,
            data: d2,
            state: UartReceiverStateEnum::Data(i),
        }));
        lemma_receiver_bit_window(params, s0, inputs, u0 + 1, (c - 1) as u32, i, d2);
    }
}

/// Chains the windows of data bits 0 through `i` along a line that
/// carries the frame of byte `d` from cycle `t0` on: the window of bit
/// `i` closes at cycle `t0 + (i+2)*b`, every bit sampled so far — read at
/// its half-bit center — equals the corresponding bit of `d`, and the
/// machine never leaves the data phases in between.
proof fn lemma_receiver_bit_chain(
    params: UartReceiver,
    s0: UartReceiverState,
    inputs: spec_fn(int) -> UartReceiverInput,
    t0: int,
    d: u8,
    i: u8,
)
    requires
        params.wf(),
        0 <= t0,
        receiver_state_at(params, s0, inputs, t0 + 1) == (UartReceiverState {
            counter: (2 * params.timing.bitlength - 2) as u32,
            data: 0,
            state: UartReceiverStateEnum::Data(0),
        }),
        forall|t: int|
            t0 <= t < t0 + 10 * params.timing.bitlength ==> (#[trigger] inputs(t)).rs232
                == frame_level(params.timing.bitlength as int, d, t - t0),
        i < 8,
    ensures
        receiver_state_at(
            params,
            s0,
            inputs,
            t0 + (i + 2) * params.timing.bitlength,
        ).state == if i < 7 {
            UartReceiverStateEnum::Data((i + 1) as u8)
        } else {
            UartReceiverStateEnum::Stop
        },
        receiver_state_at(params, s0, inputs, t0 + (i + 2) * params.timing.bitlength).counter
            == if i < 7 {
            (params.timing.bitlength - 1) as u32
        } else {
            0
        },
        forall|j: u8|
            j < 8 ==> #[trigger] bit_of(
                receiver_state_at(
                    params,
                    s0,
                    inputs,
                    t0 + (i + 2) * params.timing.bitlength,
                ).data,
                j,
            ) == (j <= i && bit_of(d, j)),
        forall|u: int|
            t0 + 1 <= u < t0 + (i + 2) * params.timing.bitlength ==> receiver_state_at(
                params,
                s0,
                inputs,
                u,
            ).state is Data,
    decreases i,
{
    let b = params.timing.bitlength as int;
    let h = params.timing.half_bitlength as int;
    assert(0 <= h <= b - 1);
    if i == 0 {
        lemma_receiver_bit_window(
            params,
            s0,
            inputs,
            t0 + 1,
            (2 * params.timing.bitlength - 2) as u32,
            0,
            0,
        );
        assert(t0 + 1 + (2 * b - 2) + 1 == t0 + 2 * b);
        let sample = t0 + 1 + (2 * b - 2) - h;
        assert(inputs(sample).rs232 == frame_level(b, d, sample - t0));
        assert(frame_level(b, d, sample - t0) == bit_of(d, 0)) by {
            assert(sample - t0 == 1 * b + (b - 1 - h)) by (nonlinear_arith)
                requires
                    sample - t0 == 2 * b - 1 - h,
            ;
            vstd::arithmetic::div_mod::lemma_fundamental_div_mod_converse(
                sample - t0,
                b,
                1,
                b - 1 - h,
            );
        }
        let done = receiver_bit_done(params, 0, with_bit(0, 0, inputs(sample).rs232));
        assert(receiver_state_at(params, s0, inputs, t0 + 2 * b) == done);
        assert(t0 + (i + 2) * b == t0 + 2 * b) by (nonlinear_arith)
            requires
                i == 0,
        ;
        assert forall|j: u8| j < 8 implies #[trigger] bit_of(done.data, j) == (j <= 0 && bit_of(
            d,
            j,
        )) by {
            crate::bits::lemma_with_bit_effect(0, 0, inputs(sample).rs232, j);
            crate::bits::lemma_zero_bits(j);
        }
    } else {
        lemma_receiver_bit_chain(params, s0, inputs, t0, d, (i - 1) as u8);
        assert((i - 1) + 2 == i + 1);
        let entry = t0 + (i + 1) * b;
        let prev = receiver_state_at(params, s0, inputs, entry);
        lemma_receiver_bit_window(
            params,
            s0,
            inputs,
            entry,
            (params.timing.bitlength - 1) as u32,
            i,
            prev.data,
        );
        assert((i + 1) * b + b == (i + 2) * b) by (nonlinear_arith);
        let sample = entry + (b - 1) - h;
        assert(t0 <= sample < t0 + 10 * b) by (nonlinear_arith)
            requires
                sample == t0 + (i + 1) * b + (b - 1) - h && 1 <= i < 8 && 0 <= h <= b - 1 && 1
                    <= b,
        ;
        assert(inputs(sample).rs232 == frame_level(b, d, sample - t0));
        assert(frame_level(b, d, sample - t0) == bit_of(d, i)) by {
            assert(sample - t0 == (i + 1) * b + (b - 1 - h)) by (nonlinear_arith)
                requires
                    sample - t0 == (i + 1) * b + (b - 1) - h,
            ;
            vstd::arithmetic::div_mod::lemma_fundamental_div_mod_converse(
                sample - t0,
                b,
                i + 1,
                b - 1 - h,
            );
            assert(b <= sample - t0 < 9 * b) by (nonlinear_arith)
                requires
                    sample - t0 == (i + 1) * b + (b - 1 - h) && 1 <= i < 8 && 0 <= b - 1 - h < b
                        && 1 <= b,
            ;
        }
        let done = receiver_bit_done(params, i, with_bit(prev.data, i, inputs(sample).rs232));
        assert(receiver_state_at(params, s0, inputs, t0 + (i + 2) * b) == done);
        assert forall|j: u8| j < 8 implies #[trigger] bit_of(done.data, j) == (j <= i && bit_of(
            d,
            j,
        )) by {
            crate::bits::lemma_with_bit_effect(prev.data, i, inputs(sample).rs232, j);
        }
        assert forall|u: int| t0 + 1 <= u < t0 + (i + 2) * b implies receiver_state_at(
            params,
            s0,
            inputs,
            u,
        ).state is Data by {
            if u >= entry {
                assert(entry <= u <= entry + (b - 1));
            }
        }
    }
}

/// Receiver correctness: a ready receiver behind an idle-high line that
/// then carries exactly the frame of byte `d` from cycle `t0` on raises
/// `valid` for exactly one cycle of the whole observation window — cycle
/// `t0 + 9*b`, the first stop-bit cycle — and the byte it presents
/// during that cycle is `d`. Afterwards it is ready again.
pub proof fn lemma_receiver_frame(
    params: UartReceiver,
    s0: UartReceiverState,
    inputs: spec_fn(int) -> UartReceiverInput,
    t0: int,
    d: u8,
)
    requires
        params.wf(),
        0 <= t0,
        s0.state is Ready,
        forall|t: int| 0 <= t < t0 ==> (#[trigger] inputs(t)).rs232,
        forall|t: int|
            t0 <= t < t0 + 10 * params.timing.bitlength ==> (#[trigger] inputs(t)).rs232
                == frame_level(params.timing.bitlength as int, d, t - t0),
    ensures
        receiver_output_at(params, s0, inputs, t0 + 9 * params.timing.bitlength).valid,
        receiver_output_at(params, s0, inputs, t0 + 9 * params.timing.bitlength).data == d,
        forall|t: int|
            0 <= t < t0 + 10 * params.timing.bitlength && t != t0 + 9 * params.timing.bitlength
                ==> !receiver_output_at(params, s0, inputs, t).valid,
        receiver_state_at(params, s0, inputs, t0 + 9 * params.timing.bitlength + 1).state
            is Ready,
{
    let b = params.timing.bitlength as int;
    let h = params.timing.half_bitlength as int;
    lemma_receiver_ready_wait(params, s0, inputs, 0, t0);
    assert(!inputs(t0).rs232);
    assert(receiver_state_at(params, s0, inputs, t0 + 1) == receiver_next(
        params,
        receiver_state_at(params, s0, inputs, t0),
        inputs(t0),
    ));
    assert(receiver_state_at(params, s0, inputs, t0 + 1) == (UartReceiverState {
        counter: (2 * params.timing.bitlength - 2) as u32,
        data: 0,
        state: UartReceiverStateEnum::Data(0),
    }));
    lemma_receiver_bit_chain(params, s0, inputs, t0, d, 7);
    assert((7 + 2) * b == 9 * b);
    let stop = receiver_state_at(params, s0, inputs, t0 + 9 * b);
    assert(stop.state is Stop && stop.counter == 0);
    assert(stop.data == d) by {
        assert(bit_of(stop.data, 0) == bit_of(d, 0));
        assert(bit_of(stop.data, 1) == bit_of(d, 1));
        assert(bit_of(stop.data, 2) == bit_of(d, 2));
        assert(bit_of(stop.data, 3) == bit_of(d, 3));
        assert(bit_of(stop.data, 4) == bit_of(d, 4));
        assert(bit_of(stop.data, 5) == bit_of(d, 5));
        assert(bit_of(stop.data, 6) == bit_of(d, 6));
        assert(bit_of(stop.data, 7) == bit_of(d, 7));
        crate::bits::lemma_byte_from_bits(stop.data, d);
    }
    assert(receiver_state_at(params, s0, inputs, t0 + 9 * b + 1) == receiver_next(
        params,
        stop,
        inputs(t0 + 9 * b),
    ));
    assert(receiver_state_at(params, s0, inputs, t0 + 9 * b + 1) == (UartReceiverState {
        counter: 0,
        data: d,
        state: UartReceiverStateEnum::Ready,
    }));
    if t0 + 9 * b + 1 <= t0 + 10 * b - 1 {
        lemma_receiver_ready_wait(params, s0, inputs, t0 + 9 * b + 1, t0 + 10 * b - 1);
    }
    assert forall|t: int| 0 <= t < t0 + 10 * b && t != t0 + 9 * b implies !receiver_output_at(
        params,
        s0,
        inputs,
        t,
    ).valid by {
        if t <= t0 {
            assert(receiver_state_at(params, s0, inputs, t).state is Ready);
        } else if t < t0 + 9 * b {
            assert(receiver_state_at(params, s0, inputs, t).state is Data);
        } else {
            assert(receiver_state_at(params, s0, inputs, t).state is Ready);
        }
    }
}

/// One clock cycle of the receiver: applies the transition table, then
/// derives the output from the post-transition byte and the
/// pre-transition phase.
pub fn uart_receiver_update(
    params: UartReceiver,
    state: UartReceiverState,
    input: UartReceiverInput,
) -> (r: (UartReceiverState, UartReceiverOutput))
    requires
        params.wf(),
        state.wf(params),
    ensures
        r.0 == receiver_next(params, state, input),
        r.1 == receiver_output(state, r.0),
        r.0.wf(params),
{
    let next_state = match state.state {
        UartReceiverStateEnum::Ready => if input.rs232 == false {
            UartReceiverState {
                data: 0,
                state: UartReceiverStateEnum::Data(0),
                counter: (params.timing.bitlength - 1) + (params.timing.bitlength - 1),
            }
        } else {
            UartReceiverState {
                data: state.data,
                state: UartReceiverStateEnum::Ready,
                counter: 0,
            }
        },
        UartReceiverStateEnum::Data(index) => {
            let new_data = if state.counter == params.timing.half_bitlength {
                set_bit(state.data, index, input.rs232)
            } else {
                state.data
            };
            if state.counter == 0 {
                if index == 7 {
                    UartReceiverState {
                        data: new_data,
                        state: UartReceiverStateEnum::Stop,
                        counter: state.counter,
                    }
                } else {
                    UartReceiverState {
                        data: new_data,
                        state: UartReceiverStateEnum::Data(index + 1),
                        counter: params.timing.bitlength - 1,
                    }
                }
            } else {
                UartReceiverState {
                    data: new_data,
                    state: UartReceiverStateEnum::Data(index),
                    counter: state.counter - 1,
                }
            }
        },
        UartReceiverStateEnum::Stop => UartReceiverState {
            data: state.data,
            state: UartReceiverStateEnum::Ready,
            counter: 0,
        },
    };
    let output = UartReceiverOutput {
        data: next_state.data,
        valid: matches!(state.state, UartReceiverStateEnum::Stop),
    };
    (next_state, output)
}

} // verus!
