//! A minimal single-digit sampler: one clock reading, one optional digit.

use vstd::prelude::*;

use crate::clock::now_time_text;
use crate::digits::last_char_digit;

verus! {

/// Samples one decimal digit from a single reading of the time source:
/// `None` when the rendered text is empty or does not end in a digit
/// character, otherwise the value of its last character.
pub fn singl_number() -> (r: Option<u8>)
    ensures
        r matches Some(d) ==> d <= 9,
{
    let text = now_time_text();
    last_char_digit(text.as_str())
}

} // verus!

