use vstd::prelude::*;

verus! {

/// The character that writes the hexadecimal digit of value `value`, in
/// lower case.
pub open spec fn hex_digit(value: int) -> char {
    if value < 10 {
        ('0' as u32 + value) as char
    } else {
        ('a' as u32 + (value - 10)) as char
    }
}

/// The value of the hexadecimal digit `c`, written in either case.
pub open spec fn hex_value(c: char) -> Option<int> {
    if '0' <= c <= '9' {
        Some(c as u32 - '0' as u32)
    } else if 'a' <= c <= 'f' {
        Some(c as u32 - 'a' as u32 + 10)
    } else if 'A' <= c <= 'F' {
        Some(c as u32 - 'A' as u32 + 10)
    } else {
        None
    }
}

/// Sixteen to the power `digits`.
pub open spec fn pow16(digits: nat) -> nat
    decreases digits,
{
    if digits == 0 {
        1
    } else {
        16 * pow16((digits - 1) as nat)
    }
}

/// The last `width` hexadecimal digits of `n`, in lower case.
pub open spec fn hex_text(n: nat, width: nat) -> Seq<char>
    decreases width,
{
    if width == 0 {
        Seq::empty()
    } else {
        hex_text(n / 16, (width - 1) as nat).push(hex_digit((n % 16) as int))
    }
}

/// The number that the hexadecimal digits `text` spell, or `None` where
/// one of them is no hexadecimal digit.
pub open spec fn hex_number(text: Seq<char>) -> Option<nat>
    decreases text.len(),
{
    if text.len() == 0 {
        Some(0)
    } else {
        match (hex_number(text.drop_last()), hex_value(text.last())) {
            (Some(n), Some(v)) => Some((16 * n + v) as nat),
            _ => None,
        }
    }
}

/// A number spelled by hexadecimal digits is below sixteen to the power of
/// how many there are.
pub proof fn lemma_hex_number_bound(text: Seq<char>)
    ensures
        hex_number(text) matches Some(n) ==> n < pow16(text.len()),
    decreases text.len(),
{
    if text.len() > 0 {
        lemma_hex_number_bound(text.drop_last());
    }
}

/// Digits that hold a character that is no hexadecimal digit spell no
/// number.
pub proof fn lemma_hex_number_none(text: Seq<char>, at: int)
    requires
        0 <= at < text.len(),
        hex_value(text[at]) is None,
    ensures
        hex_number(text) is None,
    decreases text.len(),
{
    if at < text.len() - 1 {
        lemma_hex_number_none(text.drop_last(), at);
    }
}

/// The hexadecimal digits of a number spell that number, where there are
/// enough of them to hold it.
pub proof fn lemma_hex_round_trip(n: nat, width: nat)
    requires
        n < pow16(width),
    ensures
        hex_text(n, width).len() == width,
        hex_number(hex_text(n, width)) == Some(n),
    decreases width,
{
    if width > 0 {
        lemma_hex_round_trip(n / 16, (width - 1) as nat);
        let text = hex_text(n, width);
        assert(text.drop_last() =~= hex_text(n / 16, (width - 1) as nat));
        assert(hex_value(hex_digit((n % 16) as int)) == Some((n % 16) as int));
    }
}

/// Sixteen to the powers that count here: eight digits hold 32 bits and
/// sixteen digits hold 64.
pub proof fn lemma_pow16()
    ensures
        pow16(8) == 0x1_0000_0000,
        pow16(16) == 0x1_0000_0000_0000_0000,
{
    reveal_with_fuel(pow16, 9);
    assert(pow16(8) == 0x1_0000_0000);
    assert(pow16(16) == 0x1_0000_0000 * pow16(8)) by {
        assert(pow16(9) == 16 * pow16(8));
        assert(pow16(10) == 16 * pow16(9));
        assert(pow16(11) == 16 * pow16(10));
        assert(pow16(12) == 16 * pow16(11));
        assert(pow16(13) == 16 * pow16(12));
        assert(pow16(14) == 16 * pow16(13));
        assert(pow16(15) == 16 * pow16(14));
        assert(pow16(16) == 16 * pow16(15));
    }
}

/// The character that writes the last hexadecimal digit of `n`.
pub fn hex_digit_char(n: u8) -> (c: char)
    ensures
        c == hex_digit(n as int % 16),
{
    let value: u8 = n % 16;
    if value < 10 {
        (0x30u8 + value) as char
    } else {
        (0x61u8 + (value - 10)) as char
    }
}

/// The value of the hexadecimal digit `c`, if it is one.
pub fn hex_digit_value(c: char) -> (value: Option<u8>)
    ensures
        match value {
            Some(v) => hex_value(c) == Some(v as int) && v < 16,
            None => hex_value(c) is None,
        },
{
    let code: u32 = c as u32;
    if 0x30 <= code && code <= 0x39 {
        Some((code - 0x30) as u8)
    } else if 0x61 <= code && code <= 0x66 {
        Some((code - 0x61 + 10) as u8)
    } else if 0x41 <= code && code <= 0x46 {
        Some((code - 0x41 + 10) as u8)
    } else {
        None
    }
}

/// Writes the last `width` hexadecimal digits of `n` at the end of `text`.
pub fn push_hex(text: &mut String, n: u64, width: u8)
    ensures
        final(text)@ == old(text)@ + hex_text(n as nat, width as nat),
    decreases width,
{
    if width > 0 {
        push_hex(text, n / 16, width - 1);
        text.push(hex_digit_char((n % 16) as u8));
        assert((old(text)@ + hex_text((n / 16) as nat, (width - 1) as nat)).push(
            hex_digit((n % 16) as int),
        ) =~= old(text)@ + hex_text(n as nat, width as nat));
    } else {
        assert(old(text)@ + hex_text(n as nat, 0) =~= old(text)@);
    }
}

/// The number that the characters of `chars` from `from` up to `to` spell
/// in hexadecimal digits, if they are such digits. At most sixteen digits
/// are read, which a `u64` holds.
pub(crate) fn parse_hex(chars: &Vec<char>, from: usize, to: usize) -> (number: Option<u64>)
    requires
        from <= to <= chars@.len(),
        to - from <= 16,
    ensures
        match number {
            Some(n) => hex_number(chars@.subrange(from as int, to as int)) == Some(n as nat),
            None => hex_number(chars@.subrange(from as int, to as int)) is None,
        },
{
    let ghost digits = chars@.subrange(from as int, to as int);
    let mut n: u64 = 0;
    let mut i: usize = from;
    assert(digits.take(0) =~= Seq::<char>::empty());
    while i < to
        invariant
            from <= i <= to <= chars@.len(),
            to - from <= 16,
            digits == chars@.subrange(from as int, to as int),
            hex_number(digits.take(i - from)) == Some(n as nat),
        decreases to - i,
    {
        proof {
            lemma_hex_number_bound(digits.take(i - from));
            lemma_pow16();
            lemma_pow16_grows((i - from) as nat, 15);
            assert(digits.take(i - from + 1).drop_last() =~= digits.take(i - from));
            assert(digits.take(i - from + 1).last() == chars@[i as int]);
        }
        match hex_digit_value(chars[i]) {
            Some(v) => {
                n = 16 * n + v as u64;
            },
            None => {
                proof {
                    lemma_hex_number_none(digits, i - from);
                }
                return None;
            },
        }
        i = i + 1;
    }
    assert(digits.take(to - from) =~= digits);
    Some(n)
}

/// Sixteen to a power grows with the power.
pub proof fn lemma_pow16_grows(low: nat, high: nat)
    requires
        low <= high,
    ensures
        pow16(low) <= pow16(high),
        pow16(low) >= 1,
    decreases high - low,
{
    if low < high {
        lemma_pow16_grows(low + 1, high);
    } else {
        lemma_pow16_positive(low);
    }
}

/// Sixteen to any power is at least one.
pub proof fn lemma_pow16_positive(digits: nat)
    ensures
        pow16(digits) >= 1,
    decreases digits,
{
    if digits > 0 {
        lemma_pow16_positive((digits - 1) as nat);
    }
}

} // verus!
