use crate::text::digit_char;
use rand::Rng;
use vstd::prelude::*;

verus! {

/// Whether `c` is one of the ten decimal digits.
pub open spec fn is_decimal_digit(c: char) -> bool {
    '0' <= c <= '9'
}

/// Whether `text` is made of decimal digits alone.
pub open spec fn all_decimal_digits(text: Seq<char>) -> bool {
    forall|i: int| 0 <= i < text.len() ==> is_decimal_digit(#[trigger] text[i])
}

/// Draws a number below ten from the thread's generator of the `rand`
/// crate, by `Rng::sample` on the uniform distribution over `0..10`.
/// Which number is drawn is not claimed.
#[verifier::external_body]
fn random_digit() -> (digit: u8)
    ensures
        digit < 10,
{
    rand::thread_rng().sample(rand::distributions::Uniform::from(0u8..10u8))
}

/// A code of `length` decimal digits, each drawn on its own.
pub fn generate_random_pin(length: usize) -> (pin: String)
    ensures
        pin@.len() == length,
        all_decimal_digits(pin@),
{
    let mut pin = String::new();
    let mut i: usize = 0;
    while i < length
        invariant
            i <= length,
            pin@.len() == i,
            all_decimal_digits(pin@),
        decreases length - i,
    {
        let c = digit_char(random_digit());
        pin.push(c);
        i = i + 1;
    }
    pin
}

} // verus!
