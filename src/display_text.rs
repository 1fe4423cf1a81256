//! Short ASCII lines for the status display: sensor values and relay states.
use vstd::arithmetic::div_mod::{
    lemma_div_denominator, lemma_fundamental_div_mod_converse_div, lemma_mod_breakdown, lemma_mod_mod,
    lemma_small_mod,
};
use vstd::prelude::*;

verus! {

/// The ASCII digit for `d`.
pub open spec fn digit_byte(d: nat) -> u8 {
    (48 + d) as u8
}

/// The decimal digits of `n`, without leading zeros.
pub open spec fn decimal(n: nat) -> Seq<u8>
    decreases n,
{
    if n < 10 {
        seq![digit_byte(n)]
    } else {
        decimal(n / 10).push(digit_byte(n % 10))
    }
}

proof fn lemma_decimal_len_monotone(a: nat, b: nat)
    requires
        a <= b,
    ensures
        decimal(a).len() <= decimal(b).len(),
        decimal(a).len() >= 1,
    decreases b,
{
    if b >= 10 && a >= 10 {
        lemma_decimal_len_monotone(a / 10, b / 10);
    }
}

/// `buffer` holds `text` at its front and is otherwise as `before` was.
pub open spec fn written(buffer: Seq<u8>, before: Seq<u8>, text: Seq<u8>) -> bool {
    &&& buffer.len() == before.len()
    &&& text.len() <= buffer.len()
    &&& buffer.subrange(0, text.len() as int) == text
    &&& buffer.subrange(text.len() as int, buffer.len() as int) == before.subrange(
        text.len() as int,
        before.len() as int,
    )
}

/// Writes the digits of `num` by dividing by `divisor`, then by each lower
/// power of ten, skipping leading zeros.
fn write_digits(buffer: &mut [u8], num: u16, divisor: u16) -> (len: usize)
    requires
        divisor == 100 || divisor == 10000,
        num as int > 0,
        num < divisor as int * 10,
        decimal(num as nat).len() <= old(buffer)@.len(),
    ensures
        len == decimal(num as nat).len(),
        written(final(buffer)@, old(buffer)@, decimal(num as nat)),
{
    let ghost orig = num as nat;
    let ghost before = buffer@;
    let mut rest = num;
    let mut d = divisor;
    let mut len: usize = 0;
    let mut started = false;
    let ghost mut hi: nat = divisor as nat * 10;
    proof {
        lemma_small_mod(orig, hi);
    }
    assert(buffer@.subrange(0, 0) =~= Seq::<u8>::empty());
    assert(buffer@ =~= before);
    while d > 0
        invariant
            d == 10000 || d == 1000 || d == 100 || d == 10 || d == 1 || d == 0,
            hi == if d == 0 {
                1
            } else {
                d as nat * 10
            },
            0 < orig < divisor as int * 10,
            divisor == 100 || divisor == 10000,
            d <= divisor,
            decimal(orig).len() <= buffer@.len(),
            buffer@.len() == before.len(),
            len <= buffer@.len(),
            rest as nat == orig % hi,
            started == (orig >= hi),
            len == if started {
                decimal(orig / hi).len()
            } else {
                0
            },
            buffer@.subrange(0, len as int) == if started {
                decimal(orig / hi)
            } else {
                Seq::<u8>::empty()
            },
            buffer@.subrange(len as int, buffer@.len() as int) == before.subrange(
                len as int,
                before.len() as int,
            ),
        decreases d,
    {
        let digit = rest / d;
        let ghost q = orig / (d as nat);
        proof {
            let di = d as int;
            lemma_div_denominator(orig as int, di, 10);
            lemma_mod_breakdown(orig as int, di, 10);
            lemma_mod_mod(orig as int, di, 10);
            lemma_fundamental_div_mod_converse_div(
                rest as int,
                di,
                (q % 10) as int,
                (orig % (d as nat)) as int,
            );
        }
        if digit > 0 || started {
            proof {
                lemma_decimal_len_monotone(q, orig);
                assert(q >= 1);
                if q >= 10 {
                    assert(decimal(q) == decimal(q / 10).push(digit_byte(q % 10)));
                } else {
                    assert(decimal(q) == seq![digit_byte(q)]);
                }
            }
            let ghost old_buf = buffer@;
            assert(old_buf.subrange(len + 1, old_buf.len() as int) =~= before.subrange(
                len + 1,
                before.len() as int,
            )) by {
                assert forall|j: int| len + 1 <= j < old_buf.len() implies old_buf[j] == before[j] by {
                    assert(old_buf.subrange(len as int, old_buf.len() as int)[j - len] == before.subrange(
                        len as int,
                        before.len() as int,
                    )[j - len]);
                }
            }
            buffer[len] = 48 + digit as u8;
            assert(buffer@.subrange(0, len + 1) =~= old_buf.subrange(0, len as int).push(
                digit_byte(q % 10),
            ));
            assert(buffer@.subrange(len + 1, buffer@.len() as int) =~= old_buf.subrange(
                len + 1,
                old_buf.len() as int,
            ));
            len = len + 1;
            started = true;
            assert(buffer@.subrange(0, len as int) =~= decimal(q));
        }
        rest = rest % d;
        d = d / 10;
        proof {
            hi = if d == 0 {
                1
            } else {
                d as nat * 10
            };
        }
    }
    assert(orig / 1 == orig);
    len
}

/// Writes the decimal digits of `num` at the front of `buffer` and returns
/// how many were written.
pub fn format_u8(buffer: &mut [u8], num: u8) -> (len: usize)
    requires
        decimal(num as nat).len() <= old(buffer)@.len(),
    ensures
        len == decimal(num as nat).len(),
        written(final(buffer)@, old(buffer)@, decimal(num as nat)),
{
    if num == 0 {
        let ghost before = buffer@;
        buffer[0] = 48;
        assert(buffer@.subrange(0, 1) =~= decimal(0));
        assert(buffer@.subrange(1, buffer@.len() as int) =~= before.subrange(1, before.len() as int));
        return 1;
    }
    write_digits(buffer, num as u16, 100)
}

/// Writes the decimal digits of `num` at the front of `buffer` and returns
/// how many were written.
pub fn format_u16(buffer: &mut [u8], num: u16) -> (len: usize)
    requires
        decimal(num as nat).len() <= old(buffer)@.len(),
    ensures
        len == decimal(num as nat).len(),
        written(final(buffer)@, old(buffer)@, decimal(num as nat)),
{
    if num == 0 {
        let ghost before = buffer@;
        buffer[0] = 48;
        assert(buffer@.subrange(0, 1) =~= decimal(0));
        assert(buffer@.subrange(1, buffer@.len() as int) =~= before.subrange(1, before.len() as int));
        return 1;
    }
    write_digits(buffer, num, 10000)
}

/// `label`, a colon, the digits of `value`, then `unit` when there is one.
pub open spec fn reading_text(label: u8, value: nat, unit: Option<u8>) -> Seq<u8> {
    let body = seq![label, 58u8] + decimal(value);
    match unit {
        Some(u) => body.push(u),
        None => body,
    }
}

/// The relay line: one letter per relay, upper case when it is on.
pub open spec fn relay_text(water: bool, light: bool, fan: bool, buzzer: bool) -> Seq<u8> {
    seq![
        if water { 87u8 } else { 119u8 },
        32u8,
        if light { 76u8 } else { 108u8 },
        32u8,
        if fan { 70u8 } else { 102u8 },
        32u8,
        if buzzer { 66u8 } else { 98u8 },
    ]
}

proof fn lemma_u16_digits(value: u16)
    ensures
        1 <= decimal(value as nat).len() <= 5,
{
    lemma_decimal_len_monotone(value as nat, 65535);
    assert(decimal(65535).len() == 5) by {
        reveal_with_fuel(decimal, 6);
    }
}

fn put_reading(buffer: &mut [u8], label: u8, value: u16, unit: Option<u8>) -> (len: usize)
    requires
        reading_text(label, value as nat, unit).len() <= old(buffer)@.len(),
    ensures
        len == reading_text(label, value as nat, unit).len(),
        written(final(buffer)@, old(buffer)@, reading_text(label, value as nat, unit)),
{
    let ghost before = buffer@;
    let ghost digs = decimal(value as nat);
    proof {
        lemma_u16_digits(value);
    }
    let mut digits = [0u8; 5];
    let n = format_u16(&mut digits, value);
    assert(digits@.subrange(0, n as int) == digs);
    buffer[0] = label;
    buffer[1] = 58;
    let mut i: usize = 0;
    while i < n
        invariant
            n == digs.len(),
            n <= 5,
            digits@.subrange(0, n as int) == digs,
            2 + n <= buffer@.len(),
            buffer@.len() == before.len(),
            i <= n,
            buffer@.subrange(0, 2 + i) == seq![label, 58u8] + digs.subrange(0, i as int),
            buffer@.subrange(2 + n, buffer@.len() as int) == before.subrange(
                2 + n,
                before.len() as int,
            ),
        decreases n - i,
    {
        let ghost prev = buffer@;
        assert(digits@[i as int] == digs[i as int]);
        buffer[2 + i] = digits[i];
        assert(buffer@.subrange(0, 2 + i + 1) =~= prev.subrange(0, 2 + i).push(digs[i as int]));
        assert(digs.subrange(0, i + 1) =~= digs.subrange(0, i as int).push(digs[i as int]));
        assert(buffer@.subrange(2 + n, buffer@.len() as int) =~= prev.subrange(
            2 + n,
            prev.len() as int,
        ));
        i = i + 1;
    }
    assert(digs.subrange(0, n as int) =~= digs);
    let mut len = 2 + n;
    match unit {
        Some(u) => {
            let ghost prev = buffer@;
            buffer[len] = u;
            assert(buffer@.subrange(0, len + 1) =~= prev.subrange(0, len as int).push(u));
            assert(buffer@.subrange(len + 1, buffer@.len() as int) =~= before.subrange(
                len + 1,
                before.len() as int,
            )) by {
                assert forall|j: int| len + 1 <= j < before.len() implies buffer@[j] == before[j] by {
                    assert(prev.subrange(len as int, prev.len() as int)[j - len] == before.subrange(
                        len as int,
                        before.len() as int,
                    )[j - len]);
                }
            }
            len = len + 1;
        },
        None => {},
    }
    assert(buffer@.subrange(0, len as int) =~= reading_text(label, value as nat, unit));
    len
}

/// Writes the temperature line, such as `T:25C`.
pub fn format_temp(buffer: &mut [u8], temp: u8) -> (len: usize)
    requires
        reading_text(84, temp as nat, Some(67u8)).len() <= old(buffer)@.len(),
    ensures
        len == reading_text(84, temp as nat, Some(67u8)).len(),
        written(final(buffer)@, old(buffer)@, reading_text(84, temp as nat, Some(67u8))),
{
    put_reading(buffer, 84, temp as u16, Some(67))
}

/// Writes the humidity line, such as `H:60%`.
pub fn format_humi(buffer: &mut [u8], humi: u8) -> (len: usize)
    requires
        reading_text(72, humi as nat, Some(37u8)).len() <= old(buffer)@.len(),
    ensures
        len == reading_text(72, humi as nat, Some(37u8)).len(),
        written(final(buffer)@, old(buffer)@, reading_text(72, humi as nat, Some(37u8))),
{
    put_reading(buffer, 72, humi as u16, Some(37))
}

/// Writes the soil moisture line, such as `S:42%`.
pub fn format_soil(buffer: &mut [u8], soil: u8) -> (len: usize)
    requires
        reading_text(83, soil as nat, Some(37u8)).len() <= old(buffer)@.len(),
    ensures
        len == reading_text(83, soil as nat, Some(37u8)).len(),
        written(final(buffer)@, old(buffer)@, reading_text(83, soil as nat, Some(37u8))),
{
    put_reading(buffer, 83, soil as u16, Some(37))
}

/// Writes the light line, such as `L:1200`.
pub fn format_light(buffer: &mut [u8], lux: u16) -> (len: usize)
    requires
        reading_text(76, lux as nat, None).len() <= old(buffer)@.len(),
    ensures
        len == reading_text(76, lux as nat, None).len(),
        written(final(buffer)@, old(buffer)@, reading_text(76, lux as nat, None)),
{
    put_reading(buffer, 76, lux, None)
}

/// Writes the relay line, such as `W l F b`.
pub fn format_relay_status(
    buffer: &mut [u8],
    water: bool,
    light: bool,
    fan: bool,
    buzzer: bool,
) -> (len: usize)
    requires
        7 <= old(buffer)@.len(),
    ensures
        len == 7,
        written(final(buffer)@, old(buffer)@, relay_text(water, light, fan, buzzer)),
{
    let ghost before = buffer@;
    buffer[0] = if water {
        87
    } else {
        119
    };
    buffer[1] = 32;
    buffer[2] = if light {
        76
    } else {
        108
    };
    buffer[3] = 32;
    buffer[4] = if fan {
        70
    } else {
        102
    };
    buffer[5] = 32;
    buffer[6] = if buzzer {
        66
    } else {
        98
    };
    assert(buffer@.subrange(0, 7) =~= relay_text(water, light, fan, buzzer));
    assert(buffer@.subrange(7, buffer@.len() as int) =~= before.subrange(7, before.len() as int));
    7
}

} // verus!
