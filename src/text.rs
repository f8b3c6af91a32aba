//! Character sequences: whitespace, words, trimming, number parsing, and
//! conversion between `String` and `Vec<char>`.

use vstd::prelude::*;
use vstd::string::StrSliceExecFns;

verus! {

/// The characters with the Unicode property White_Space.
pub open spec fn is_white(c: char) -> bool {
    ('\u{9}' <= c <= '\u{d}') || c == ' ' || c == '\u{85}' || c == '\u{a0}' || c == '\u{1680}'
        || ('\u{2000}' <= c <= '\u{200a}') || c == '\u{2028}' || c == '\u{2029}' || c
        == '\u{202f}' || c == '\u{205f}' || c == '\u{3000}'
}

/// Whether `c` is a whitespace character.
pub fn is_white_char(c: char) -> (r: bool)
    ensures
        r == is_white(c),
{
    ('\u{9}' <= c && c <= '\u{d}') || c == ' ' || c == '\u{85}' || c == '\u{a0}' || c
        == '\u{1680}' || ('\u{2000}' <= c && c <= '\u{200a}') || c == '\u{2028}' || c
        == '\u{2029}' || c == '\u{202f}' || c == '\u{205f}' || c == '\u{3000}'
}

/// The length of `s` once its trailing whitespace is removed.
pub open spec fn trimmed_end(s: Seq<char>) -> nat
    decreases s.len(),
{
    if s.len() == 0 {
        0
    } else if is_white(s.last()) {
        trimmed_end(s.drop_last())
    } else {
        s.len()
    }
}

/// Where the word that ends at `end` begins: just after the nearest
/// whitespace before `end`, or at the start.
pub open spec fn word_start(s: Seq<char>, end: nat) -> nat
    decreases end,
{
    if end == 0 {
        0
    } else if is_white(s[end - 1]) {
        end
    } else {
        word_start(s, (end - 1) as nat)
    }
}

/// The last maximal run of non-whitespace characters of `s`, if any.
pub open spec fn last_word(s: Seq<char>) -> Option<Seq<char>> {
    let end = trimmed_end(s);
    if end == 0 {
        None
    } else {
        Some(s.subrange(word_start(s, end) as int, end as int))
    }
}

pub proof fn lemma_trimmed_end_bound(s: Seq<char>)
    ensures
        trimmed_end(s) <= s.len(),
        trimmed_end(s) > 0 ==> !is_white(s[trimmed_end(s) - 1]),
        forall|i: int| trimmed_end(s) <= i < s.len() ==> is_white(#[trigger] s[i]),
    decreases s.len(),
{
    if s.len() > 0 && is_white(s.last()) {
        lemma_trimmed_end_bound(s.drop_last());
        assert forall|i: int| trimmed_end(s) <= i < s.len() implies is_white(#[trigger] s[i]) by {
            if i < s.len() - 1 {
                assert(s[i] == s.drop_last()[i]);
            }
        }
    }
}

pub proof fn lemma_word_start_bound(s: Seq<char>, end: nat)
    requires
        end <= s.len(),
    ensures
        word_start(s, end) <= end,
        forall|i: int| word_start(s, end) <= i < end ==> !is_white(#[trigger] s[i]),
        word_start(s, end) > 0 ==> is_white(s[word_start(s, end) - 1]),
    decreases end,
{
    if end > 0 && !is_white(s[end - 1]) {
        lemma_word_start_bound(s, (end - 1) as nat);
    }
}

/// The last word of `s`: a non-empty run of non-whitespace characters that
/// only whitespace follows, and that starts `s` or follows whitespace.
pub proof fn lemma_last_word_shape(s: Seq<char>)
    ensures
        last_word(s) matches Some(w) ==> {
            &&& w.len() > 0
            &&& forall|i: int| 0 <= i < w.len() ==> !is_white(#[trigger] w[i])
        },
        last_word(s) is None <==> forall|i: int| 0 <= i < s.len() ==> is_white(#[trigger] s[i]),
{
    lemma_trimmed_end_bound(s);
    let end = trimmed_end(s);
    if end > 0 {
        lemma_word_start_bound(s, end);
        let w = s.subrange(word_start(s, end) as int, end as int);
        assert forall|i: int| 0 <= i < w.len() implies !is_white(#[trigger] w[i]) by {
            assert(w[i] == s[word_start(s, end) + i]);
        }
        assert(!is_white(s[end - 1]));
    }
}

/// Relies on `String::push`: it appends one character.
#[verifier::external_body]
fn push_char(s: &mut String, c: char)
    ensures
        final(s)@ == old(s)@.push(c),
{
    s.push(c)
}

/// Builds the string that holds `chars` in order.
pub fn string_from_chars(chars: &Vec<char>) -> (s: String)
    ensures
        s@ == chars@,
{
    let mut s = String::new();
    let mut i: usize = 0;
    while i < chars.len()
        invariant
            i <= chars.len(),
            s@ == chars@.subrange(0, i as int),
        decreases chars.len() - i,
    {
        push_char(&mut s, chars[i]);
        i = i + 1;
        assert(s@ =~= chars@.subrange(0, i as int));
    }
    assert(s@ =~= chars@);
    s
}

/// The characters of `s` in order.
pub fn chars_of(s: &str) -> (v: Vec<char>)
    ensures
        v@ == s@,
{
    let n = s.unicode_len();
    let mut v: Vec<char> = Vec::new();
    let mut i: usize = 0;
    while i < n
        invariant
            n == s@.len(),
            i <= n,
            v@ == s@.subrange(0, i as int),
        decreases n - i,
    {
        v.push(s.get_char(i));
        i = i + 1;
        assert(v@ =~= s@.subrange(0, i as int));
    }
    assert(v@ =~= s@);
    v
}

/// The last word of `chars`: the last maximal run of non-whitespace
/// characters, or `None` where `chars` holds only whitespace.
pub fn last_word_of(chars: &Vec<char>) -> (r: Option<Vec<char>>)
    ensures
        r matches Some(w) ==> last_word(chars@) == Some(w@),
        r is None ==> last_word(chars@) is None,
{
    let ghost s = chars@;
    let mut end: usize = chars.len();
    assert(s.subrange(0, end as int) =~= s);
    while end > 0 && is_white_char(chars[end - 1])
        invariant
            end <= s.len(),
            s == chars@,
            trimmed_end(s.subrange(0, end as int)) == trimmed_end(s),
        decreases end,
    {
        assert(s.subrange(0, end as int).drop_last() =~= s.subrange(0, end - 1));
        end = end - 1;
    }
    if end == 0 {
        assert(s.subrange(0, 0).len() == 0);
        return None;
    }
    assert(trimmed_end(s) == end);
    let mut start: usize = end;
    while start > 0 && !is_white_char(chars[start - 1])
        invariant
            start <= end <= s.len(),
            s == chars@,
            word_start(s, end as nat) == word_start(s, start as nat),
        decreases start,
    {
        start = start - 1;
    }
    let mut w: Vec<char> = Vec::new();
    let mut i: usize = start;
    while i < end
        invariant
            start <= i <= end <= s.len(),
            s == chars@,
            w@ == s.subrange(start as int, i as int),
        decreases end - i,
    {
        w.push(chars[i]);
        i = i + 1;
        assert(w@ =~= s.subrange(start as int, i as int));
    }
    Some(w)
}

/// The number of whitespace characters that begin `s`.
pub open spec fn leading_white(s: Seq<char>) -> nat
    decreases s.len(),
{
    if s.len() > 0 && is_white(s[0]) {
        1 + leading_white(s.drop_first())
    } else {
        0
    }
}

/// `s` without its leading and trailing whitespace.
pub open spec fn trimmed(s: Seq<char>) -> Seq<char> {
    if leading_white(s) >= trimmed_end(s) {
        Seq::empty()
    } else {
        s.subrange(leading_white(s) as int, trimmed_end(s) as int)
    }
}

pub open spec fn is_digit(c: char) -> bool {
    '0' <= c <= '9'
}

/// The value of a string of decimal digits.
pub open spec fn decimal_value(d: Seq<char>) -> nat
    decreases d.len(),
{
    if d.len() == 0 {
        0
    } else {
        decimal_value(d.drop_last()) * 10 + (d.last() as u32 - '0' as u32) as nat
    }
}

/// The digits of an unsigned number as written: an optional plus sign, then digits.
pub open spec fn unsigned_digits(s: Seq<char>) -> Seq<char> {
    if s.len() > 0 && s[0] == '+' {
        s.drop_first()
    } else {
        s
    }
}

/// Whether `s` is an unsigned decimal number no greater than `max`.
pub open spec fn is_unsigned_decimal(s: Seq<char>, max: nat) -> bool {
    let d = unsigned_digits(s);
    &&& d.len() > 0
    &&& forall|i: int| 0 <= i < d.len() ==> is_digit(#[trigger] d[i])
    &&& decimal_value(d) <= max
}

/// Relies on `str::trim`: it removes leading and trailing whitespace, as
/// Unicode's White_Space property defines it.
#[verifier::external_body]
pub(crate) fn trim_str(s: &str) -> (r: &str)
    ensures
        r@ == trimmed(s@),
{
    s.trim()
}

/// What `str::to_lowercase` makes of a string.
pub uninterp spec fn lower_of(s: Seq<char>) -> Seq<char>;

/// Relies on `str::to_lowercase`: the result depends on the characters alone.
#[verifier::external_body]
pub(crate) fn lowercase(s: &str) -> (r: String)
    ensures
        r@ == lower_of(s@),
{
    s.to_lowercase()
}

#[verifier::external_type_specification]
#[verifier::external_body]
pub struct ExParseIntError(std::num::ParseIntError);

/// Relies on `u64::from_str`: an optional plus sign then decimal digits,
/// whose value fits in 64 bits, and nothing else.
#[verifier::external_body]
pub(crate) fn parse_u64(s: &str) -> (r: Result<u64, std::num::ParseIntError>)
    ensures
        r is Ok <==> is_unsigned_decimal(s@, u64::MAX as nat),
        r matches Ok(v) ==> v == decimal_value(unsigned_digits(s@)),
{
    s.parse::<u64>()
}

/// Relies on `u16::from_str`: an optional plus sign then decimal digits,
/// whose value fits in 16 bits, and nothing else.
#[verifier::external_body]
pub(crate) fn parse_u16(s: &str) -> (r: Result<u16, std::num::ParseIntError>)
    ensures
        r is Ok <==> is_unsigned_decimal(s@, u16::MAX as nat),
        r matches Ok(v) ==> v == decimal_value(unsigned_digits(s@)),
{
    s.parse::<u16>()
}

} // verus!
