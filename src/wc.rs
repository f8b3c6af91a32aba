//! Word counting.

use vstd::prelude::*;

use crate::text::{chars_of, is_white, is_white_char};

verus! {

/// The number of maximal runs of non-whitespace characters in `s`.
pub open spec fn word_count(s: Seq<char>) -> nat
    decreases s.len(),
{
    if s.len() == 0 {
        0
    } else {
        word_count(s.drop_last()) + if !is_white(s.last()) && (s.len() == 1 || is_white(
            s[s.len() - 2],
        )) {
            1nat
        } else {
            0nat
        }
    }
}

/// The number of whitespace-separated words in `input`.
pub fn count_words_in_str(input: &str) -> (n: usize)
    ensures
        n == word_count(input@),
{
    let chars = chars_of(input);
    let mut count: usize = 0;
    let mut i: usize = 0;
    while i < chars.len()
        invariant
            i <= chars@.len(),
            chars@ == input@,
            count == word_count(chars@.subrange(0, i as int)),
            count <= i,
        decreases chars@.len() - i,
    {
        let ghost t = chars@.subrange(0, i + 1);
        assert(t.drop_last() =~= chars@.subrange(0, i as int));
        if !is_white_char(chars[i]) && (i == 0 || is_white_char(chars[i - 1])) {
            count = count + 1;
        }
        i = i + 1;
    }
    assert(chars@.subrange(0, chars@.len() as int) =~= chars@);
    count
}

} // verus!
