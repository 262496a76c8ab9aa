//! Clock-to-baud timing configuration shared by the transmitter and the
//! receiver: how many clock cycles one bit occupies on the line, and the
//! offset of a bit's temporal center.

use vstd::prelude::*;

verus! {

/// Largest admissible cycles-per-bit value. The receiver counts down
/// `2 * bitlength - 2` cycles after detecting a start bit, and that count
/// must fit in its `u32` counter.
pub const MAX_BITLENGTH: u32 = 0x8000_0000;

/// A configuration that cannot be timed: the requested bit rate is zero,
/// exceeds the clock rate (so no whole clock cycle fits in one bit), or
/// yields a bit period too long for the cycle counters.
#[derive(Clone, Copy, PartialEq, Eq, Structural, Debug)]
pub enum UartError {
    InvalidConfiguration,
}

/// Level of the serial line during cycle `t` of a frame of byte `d`
/// (cycle 0 is the first start-bit cycle, `b` is the bit period): low for
/// one bit period, then each data bit — least-significant first — for one
/// period, then high for the stop bit.
pub open spec fn frame_level(b: int, d: u8, t: int) -> bool
    recommends
        1 <= b,
        0 <= t,
{
    if t < b {
        false
    } else if t < 9 * b {
        crate::bits::bit_of(d, (t / b - 1) as u8)
    } else {
        true
    }
}

/// Integer bit timing derived from a clock rate and a baud rate.
#[derive(Clone, Copy, PartialEq, Eq, Structural, Debug)]
pub struct BitTimingParameters {
    /// Duration of a single bit in clock cycles.
    pub bitlength: u32,
    /// Cycles from the start of a bit period to its sampling center.
    pub half_bitlength: u32,
}

impl BitTimingParameters {
    /// A usable timing: at least one cycle per bit, short enough for the
    /// counters, with the half-bit offset derived from the bit length.
    pub open spec fn wf(self) -> bool {
        &&& 1 <= self.bitlength <= MAX_BITLENGTH
        &&& self.half_bitlength == (self.bitlength - 1) / 2
    }

    /// Derives the cycles-per-bit count from a clock rate and a bit rate,
    /// both truncating integer divisions. A bit rate of zero, a bit rate
    /// above the clock rate, or a bit period beyond `MAX_BITLENGTH` is an
    /// invalid configuration and is rejected here, before it could feed a
    /// countdown that underflows or never ends.
    pub fn new(clock_speed: u128, bit_rate: u128) -> (r: Result<BitTimingParameters, UartError>)
        ensures
            r is Ok <==> 1 <= bit_rate <= clock_speed && clock_speed / bit_rate
                <= MAX_BITLENGTH,
            r matches Ok(p) ==> {
                &&& p.bitlength == clock_speed / bit_rate
                &&& p.half_bitlength == (p.bitlength - 1) / 2
                &&& p.wf()
            },
            r is Err ==> r == Err::<BitTimingParameters, UartError>(
                UartError::InvalidConfiguration,
            ),
    {
        if bit_rate == 0 || bit_rate > clock_speed {
            return Err(UartError::InvalidConfiguration);
        }
        let quotient = clock_speed / bit_rate;
        if quotient > MAX_BITLENGTH as u128 {
            return Err(UartError::InvalidConfiguration);
        }
        proof {
            assert(clock_speed / bit_rate >= 1) by (nonlinear_arith)
                requires
                    1 <= bit_rate <= clock_speed,
            ;
        }
        let bitlength = quotient as u32;
        Ok(BitTimingParameters { bitlength, half_bitlength: (bitlength - 1) / 2 })
    }
}

} // verus!
