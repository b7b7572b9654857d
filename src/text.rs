//! Small text helpers.
use vstd::prelude::*;

verus! {

/// The first `n` characters of `s` (all of it when it is shorter); not
/// grapheme aware.
pub fn first_n_chars(s: &str, n: usize) -> (r: &str)
    ensures
        r@ == s@.take(if n < s@.len() { n as int } else { s@.len() as int }),
{
    let len = s.unicode_len();
    let k = if n < len { n } else { len };
    s.substring_char(0, k)
}

} // verus!
