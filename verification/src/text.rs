use vstd::prelude::*;
use vstd::utf8::*;

verus! {

/// Appending a character to a `String` adds it at the end of its text, as
/// `String::push` documents.
pub assume_specification[ String::push ](text: &mut String, c: char)
    ensures
        final(text)@ == old(text)@.push(c),
;

/// Calls `String::from_utf8`: the text that `bytes` encodes, or `None` where
/// `bytes` is not valid UTF-8.
#[verifier::external_body]
pub(crate) fn text_of_utf8(bytes: Vec<u8>) -> (text: Option<String>)
    ensures
        text is Some <==> valid_utf8(bytes@),
        text matches Some(s) ==> s@ == decode_utf8(bytes@),
{
    String::from_utf8(bytes).ok()
}

/// `text` in upper case, by Unicode's mapping of each character.
pub uninterp spec fn uppercase_of(text: Seq<char>) -> Seq<char>;

/// `text` in lower case, by Unicode's mapping of each character.
pub uninterp spec fn lowercase_of(text: Seq<char>) -> Seq<char>;

/// Calls `str::to_uppercase`.
#[verifier::external_body]
pub(crate) fn to_uppercase(text: &str) -> (upper: String)
    ensures
        upper@ == uppercase_of(text@),
{
    text.to_uppercase()
}

/// Calls `str::to_lowercase`.
#[verifier::external_body]
pub(crate) fn to_lowercase(text: &str) -> (lower: String)
    ensures
        lower@ == lowercase_of(text@),
{
    text.to_lowercase()
}

/// Whether `c` is white space: one of the 25 characters that Unicode gives
/// the property `White_Space`.
pub open spec fn is_whitespace(c: char) -> bool {
    let v = c as u32;
    ||| 0x09 <= v <= 0x0D
    ||| v == 0x20
    ||| v == 0x85
    ||| v == 0xA0
    ||| v == 0x1680
    ||| 0x2000 <= v <= 0x200A
    ||| v == 0x2028
    ||| v == 0x2029
    ||| v == 0x202F
    ||| v == 0x205F
    ||| v == 0x3000
}

/// Tests whether `c` is white space.
pub fn char_is_whitespace(c: char) -> (white: bool)
    ensures
        white == is_whitespace(c),
{
    let v: u32 = c as u32;
    (0x09 <= v && v <= 0x0D) || v == 0x20 || v == 0x85 || v == 0xA0 || v == 0x1680 || (0x2000 <= v
        && v <= 0x200A) || v == 0x2028 || v == 0x2029 || v == 0x202F || v == 0x205F || v == 0x3000
}

/// `line` without the white space at its end.
pub open spec fn trim_end(line: Seq<char>) -> Seq<char>
    decreases line.len(),
{
    if line.len() > 0 && is_whitespace(line.last()) {
        trim_end(line.drop_last())
    } else {
        line
    }
}

/// A trimmed line is a prefix of the line, ends in no white space, and
/// all that was cut off is white space.
pub proof fn lemma_trim_end(line: Seq<char>)
    ensures
        trim_end(line).len() <= line.len(),
        trim_end(line) == line.take(trim_end(line).len() as int),
        trim_end(line).len() > 0 ==> !is_whitespace(trim_end(line).last()),
        forall|i: int| trim_end(line).len() <= i < line.len() ==> is_whitespace(#[trigger] line[i]),
    decreases line.len(),
{
    if line.len() > 0 && is_whitespace(line.last()) {
        let rest = line.drop_last();
        lemma_trim_end(rest);
        assert(rest.take(trim_end(rest).len() as int) =~= line.take(trim_end(rest).len() as int));
        assert forall|i: int| trim_end(line).len() <= i < line.len() implies is_whitespace(
            #[trigger] line[i],
        ) by {
            if i < rest.len() {
                assert(rest[i] == line[i]);
            }
        }
    } else {
        assert(line.take(line.len() as int) =~= line);
    }
}

/// Length of `chars` without the white space at its end.
pub fn trimmed_len(chars: &Vec<char>) -> (len: usize)
    ensures
        len <= chars@.len(),
        chars@.take(len as int) == trim_end(chars@),
{
    let mut len: usize = chars.len();
    assert(chars@.take(len as int) =~= chars@);
    while len > 0 && char_is_whitespace(chars[len - 1])
        invariant
            len <= chars@.len(),
            trim_end(chars@.take(len as int)) == trim_end(chars@),
        decreases len,
    {
        assert(chars@.take(len as int).drop_last() =~= chars@.take(len - 1));
        len = len - 1;
    }
    len
}

/// The text made of the first `len` characters of `chars`, or of all of
/// them where there are fewer.
pub fn text_of_chars(chars: &Vec<char>, len: usize) -> (text: String)
    ensures
        text@ == chars@.take(if len <= chars@.len() { len as int } else { chars@.len() as int }),
{
    let len = if len <= chars.len() { len } else { chars.len() };
    let mut text = String::new();
    let mut i: usize = 0;
    while i < len
        invariant
            i <= len <= chars@.len(),
            text@ == chars@.take(i as int),
        decreases len - i,
    {
        text.push(chars[i]);
        assert(chars@.take(i as int).push(chars@[i as int]) =~= chars@.take(i + 1));
        i = i + 1;
    }
    text
}

/// The character that writes the digit `digit`.
pub open spec fn digit_of(digit: int) -> char {
    ('0' as u32 + digit) as char
}

/// The character that writes the last decimal digit of `n`.
pub fn digit_char(n: u8) -> (c: char)
    ensures
        c == digit_of(n as int % 10),
        '0' <= c <= '9',
{
    (0x30u8 + n % 10) as char
}

/// The decimal digits of `n`, without leading zeros.
pub open spec fn decimal_digits(n: nat) -> Seq<char>
    decreases n,
{
    if n < 10 {
        seq![digit_of(n as int)]
    } else {
        decimal_digits(n / 10).push(digit_of((n % 10) as int))
    }
}

/// How `n` is written in decimal: its digits, after a minus sign where it
/// is negative.
pub open spec fn decimal(n: int) -> Seq<char> {
    if n < 0 {
        seq!['-'] + decimal_digits((-n) as nat)
    } else {
        decimal_digits(n as nat)
    }
}

/// Writes the decimal digits of `n` at the end of `text`.
pub fn push_decimal_digits(text: &mut String, n: u64)
    ensures
        final(text)@ == old(text)@ + decimal_digits(n as nat),
    decreases n,
{
    if n >= 10 {
        push_decimal_digits(text, n / 10);
    }
    text.push(digit_char((n % 10) as u8));
    proof {
        if n < 10 {
            assert(old(text)@.push(digit_of(n as int)) =~= old(text)@ + decimal_digits(n as nat));
        } else {
            assert((old(text)@ + decimal_digits((n / 10) as nat)).push(digit_of((n % 10) as int))
                =~= old(text)@ + decimal_digits(n as nat));
        }
    }
}

/// Writes `n` in decimal at the end of `text`.
pub fn push_decimal(text: &mut String, n: i64)
    ensures
        final(text)@ == old(text)@ + decimal(n as int),
{
    if n < 0 {
        text.push('-');
        let magnitude: u64 = if n == i64::MIN {
            0x8000_0000_0000_0000u64
        } else {
            (-n) as u64
        };
        push_decimal_digits(text, magnitude);
        assert(old(text)@.push('-') + decimal_digits((-n) as nat) =~= old(text)@ + decimal(
            n as int,
        ));
    } else {
        push_decimal_digits(text, n as u64);
    }
}

} // verus!
