//! Decoding the DHT11 humidity and temperature sensor's single-wire reply.
//!
//! The sensor answers a wake-up with a low and a high handshake pulse, then
//! sends 40 bits, most significant first; a bit is 1 when its high pulse
//! lasts longer than 30 µs. The fifth byte is the low byte of the sum of
//! the first four.
use vstd::prelude::*;

verus! {

/// Shortest handshake pulse accepted, in microseconds.
pub const HANDSHAKE_MIN_US: u64 = 20;

/// Longest handshake pulse accepted, in microseconds.
pub const HANDSHAKE_MAX_US: u64 = 100;

/// A data pulse longer than this many microseconds is a 1 bit.
pub const ONE_BIT_MIN_US: u64 = 30;

/// Bits in one reading.
pub const READING_BITS: usize = 40;

/// Why a reading failed.
#[derive(Debug, Clone, Copy, PartialEq, Eq, Structural)]
pub enum Dh11Error {
    /// The sensor did not change level in time.
    TimeOut,
    /// The checksum byte does not match the data.
    ChecksumError,
    /// A handshake pulse was too short or too long.
    TimeAnomaly,
}

/// The verdict on one handshake pulse; `None` is a pulse that timed out.
pub open spec fn handshake_verdict(width_us: Option<u64>) -> Result<(), Dh11Error> {
    match width_us {
        None => Err(Dh11Error::TimeOut),
        Some(w) => if HANDSHAKE_MIN_US <= w <= HANDSHAKE_MAX_US {
            Ok(())
        } else {
            Err(Dh11Error::TimeAnomaly)
        },
    }
}

/// The bit that a data pulse of `width_us` stands for.
pub open spec fn bit_of(width_us: u64) -> nat {
    if width_us > ONE_BIT_MIN_US {
        1
    } else {
        0
    }
}

/// The number whose binary digits, most significant first, are the bits of `p`.
pub open spec fn bits_value(p: Seq<u64>) -> nat
    decreases p.len(),
{
    if p.len() == 0 {
        0
    } else {
        2 * bits_value(p.drop_last()) + bit_of(p.last())
    }
}

/// Byte `j` of the reading sent as pulses `p`.
pub open spec fn reading_byte(p: Seq<u64>, j: int) -> u8 {
    bits_value(p.subrange(8 * j, 8 * j + 8)) as u8
}

/// The five bytes of the reading sent as pulses `p`.
pub open spec fn reading_of(p: Seq<u64>) -> Seq<u8> {
    seq![
        reading_byte(p, 0),
        reading_byte(p, 1),
        reading_byte(p, 2),
        reading_byte(p, 3),
        reading_byte(p, 4),
    ]
}

/// The last byte is the low byte of the sum of the first four.
pub open spec fn checksum_matches(b: Seq<u8>) -> bool {
    (b[0] + b[1] + b[2] + b[3]) % 256 == b[4]
}

spec fn pow2_of(n: nat) -> nat
    decreases n,
{
    if n == 0 {
        1
    } else {
        2 * pow2_of((n - 1) as nat)
    }
}

/// Checks one handshake pulse of the sensor's answer to a wake-up.
pub fn check_handshake_pulse(width_us: Option<u64>) -> (r: Result<(), Dh11Error>)
    ensures
        r == handshake_verdict(width_us),
{
    match width_us {
        None => Err(Dh11Error::TimeOut),
        Some(w) => {
            if w < HANDSHAKE_MIN_US || w > HANDSHAKE_MAX_US {
                Err(Dh11Error::TimeAnomaly)
            } else {
                Ok(())
            }
        },
    }
}

/// The byte sent as the eight pulses from `start` on.
fn byte_from_pulses(p: &[u64], start: usize) -> (b: u8)
    requires
        start + 8 <= p@.len(),
    ensures
        b == bits_value(p@.subrange(start as int, start + 8)),
{
    let n = p.len();
    let mut acc: u16 = 0;
    let mut k: usize = 0;
    while k < 8
        invariant
            n == p@.len(),
            start + 8 <= p@.len(),
            k <= 8,
            acc == bits_value(p@.subrange(start as int, start + k)),
            acc < pow2_of(k as nat),
        decreases 8 - k,
    {
        let bit: u16 = if p[start + k] > ONE_BIT_MIN_US {
            1
        } else {
            0
        };
        assert(p@.subrange(start as int, start + k + 1).drop_last() =~= p@.subrange(
            start as int,
            start + k,
        ));
        assert(pow2_of((k + 1) as nat) == 2 * pow2_of(k as nat));
        assert(pow2_of(k as nat) <= 128) by {
            reveal_with_fuel(pow2_of, 9);
        }
        acc = acc * 2 + bit;
        k = k + 1;
    }
    assert(pow2_of(8) == 256) by {
        reveal_with_fuel(pow2_of, 9);
    }
    acc as u8
}

/// Decodes the data pulse widths of one reading, in microseconds.
///
/// Fewer or more than 40 pulses means a bit was lost to a timeout.
pub fn decode_reading(pulses: &[u64]) -> (r: Result<[u8; 5], Dh11Error>)
    ensures
        match r {
            Ok(bytes) => pulses@.len() == READING_BITS && checksum_matches(reading_of(pulses@))
                && bytes@ == reading_of(pulses@),
            Err(e) => if pulses@.len() != READING_BITS {
                e == Dh11Error::TimeOut
            } else {
                e == Dh11Error::ChecksumError && !checksum_matches(reading_of(pulses@))
            },
        },
{
    if pulses.len() != READING_BITS {
        return Err(Dh11Error::TimeOut);
    }
    let mut bytes = [0u8; 5];
    let mut j: usize = 0;
    while j < 5
        invariant
            pulses@.len() == READING_BITS,
            j <= 5,
            forall|t: int| 0 <= t < j ==> #[trigger] bytes@[t] == reading_byte(pulses@, t),
        decreases 5 - j,
    {
        let b = byte_from_pulses(pulses, 8 * j);
        bytes[j] = b;
        j = j + 1;
    }
    assert(bytes@ =~= reading_of(pulses@));
    let sum: u16 = bytes[0] as u16 + bytes[1] as u16 + bytes[2] as u16 + bytes[3] as u16;
    if (sum % 256) as u8 != bytes[4] {
        return Err(Dh11Error::ChecksumError);
    }
    Ok(bytes)
}

} // verus!
