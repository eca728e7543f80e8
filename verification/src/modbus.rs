//! Modbus RTU as the fans and the relay module speak it: the addresses, the request frames, the
//! timing between frames, and the checks on what comes back.

pub mod device;
pub mod exchange;
pub mod function;
pub mod register;

use vstd::prelude::*;

verus! {


/// The bits of silence Modbus requires between frames: 3.5 characters of 8 bits.
pub const DELAY_BITS: u64 = 28;

/// How many microseconds to wait between two frames at `baud_rate`: the time [`DELAY_BITS`] take
/// on the line, rounded up so the wait is never too short.
pub fn get_message_delay(baud_rate: u32) -> (delay: u64)
    requires
        baud_rate > 0,
    ensures
        delay == (1_000_000 * DELAY_BITS + baud_rate - 1) / baud_rate as int,
        delay * baud_rate >= 1_000_000 * DELAY_BITS,
        (delay - 1) * baud_rate < 1_000_000 * DELAY_BITS,
{
    let microseconds_for_bits: u64 = 1_000_000 * DELAY_BITS;
    let baud = baud_rate as u64;
    let quotient = microseconds_for_bits / baud;
    let remainder = microseconds_for_bits % baud;
    let delay = if remainder > 0 { quotient + 1 } else { quotient };
    proof {
        assert(microseconds_for_bits == quotient * baud + remainder) by (nonlinear_arith)
            requires
                quotient == microseconds_for_bits / baud,
                remainder == microseconds_for_bits % baud,
                baud > 0,
        ;
        assert((microseconds_for_bits + baud - 1) / baud as int == delay) by (nonlinear_arith)
            requires
                microseconds_for_bits == quotient * baud + remainder,
                0 <= remainder < baud,
                delay == (if remainder > 0 { quotient + 1 } else { quotient as int }),
                baud > 0,
        ;
        assert(delay * baud >= microseconds_for_bits && (delay - 1) * baud < microseconds_for_bits)
            by (nonlinear_arith)
            requires
                microseconds_for_bits == quotient * baud + remainder,
                0 <= remainder < baud,
                delay == (if remainder > 0 { quotient + 1 } else { quotient as int }),
                baud > 0,
        ;
    }
    delay
}

} // verus!
