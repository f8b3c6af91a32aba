//! Password strength assessment against five rules.

use vstd::prelude::*;
use vstd::string::{StrSliceExecFns, StringExecFns};

use crate::text::{chars_of, is_white, is_white_char};

verus! {

/// How strong a password is.
#[derive(Clone, Copy, Debug, PartialEq, Eq, Structural)]
pub enum Strength {
    Weak,
    Medium,
    Strong,
}

/// One rule and whether the password passed it.
#[derive(Clone, Copy, Debug, PartialEq, Eq)]
pub struct RuleResult {
    pub description: &'static str,
    pub passed: bool,
}

/// The outcome of an assessment.
#[derive(Debug)]
pub struct Assessment {
    pub password: String,
    pub strength: Strength,
    pub score: u8,
    pub max_score: u8,
    pub results: Vec<RuleResult>,
}

/// The length from which a password counts as long enough.
pub const MIN_LENGTH: usize = 12;

pub open spec fn has_char(s: Seq<char>, p: spec_fn(char) -> bool) -> bool {
    exists|i: int| 0 <= i < s.len() && #[trigger] p(s[i])
}

pub open spec fn is_lower(c: char) -> bool {
    'a' <= c <= 'z'
}

pub open spec fn is_upper(c: char) -> bool {
    'A' <= c <= 'Z'
}

pub open spec fn is_digit(c: char) -> bool {
    '0' <= c <= '9'
}

/// Neither an ASCII letter or digit nor whitespace.
pub open spec fn is_symbol(c: char) -> bool {
    !is_lower(c) && !is_upper(c) && !is_digit(c) && !is_white(c)
}

/// Whether `s` passes each rule, in order: a lowercase letter, an uppercase
/// letter, a digit, a symbol, and at least twelve characters.
pub open spec fn rule_outcomes(s: Seq<char>) -> Seq<bool> {
    seq![
        has_char(s, |c: char| is_lower(c)),
        has_char(s, |c: char| is_upper(c)),
        has_char(s, |c: char| is_digit(c)),
        has_char(s, |c: char| is_symbol(c)),
        s.len() >= MIN_LENGTH,
    ]
}

pub open spec fn count_passed(r: Seq<bool>) -> nat
    decreases r.len(),
{
    if r.len() == 0 {
        0
    } else {
        count_passed(r.drop_last()) + if r.last() {
            1nat
        } else {
            0nat
        }
    }
}

/// The strength that a score gives.
pub open spec fn strength_for(score: nat) -> Strength {
    if score <= 2 {
        Strength::Weak
    } else if score <= 4 {
        Strength::Medium
    } else {
        Strength::Strong
    }
}

/// The descriptions of the rules, in order.
pub open spec fn rule_descriptions() -> Seq<Seq<char>> {
    seq![
        "has lowercase letter"@,
        "has uppercase letter"@,
        "has digit"@,
        "has symbol"@,
        "length >= 12"@,
    ]
}

fn bit(b: bool) -> (r: u8)
    ensures
        r == (if b {
            1nat
        } else {
            0nat
        }),
{
    if b {
        1
    } else {
        0
    }
}

/// Assesses `password` against the five rules; the score counts the rules
/// passed, and the strength is weak up to two, medium up to four, strong for five.
pub fn assess(password: &str) -> (a: Assessment)
    ensures
        a.password@ == password@,
        a.results@.len() == 5,
        forall|i: int|
            0 <= i < 5 ==> (#[trigger] a.results@[i]).passed == rule_outcomes(password@)[i]
                && a.results@[i].description@ == rule_descriptions()[i],
        a.score == count_passed(rule_outcomes(password@)),
        a.max_score == 5,
        a.strength == strength_for(a.score as nat),
{
    let chars = chars_of(password);
    let mut has_lower = false;
    let mut has_upper = false;
    let mut has_digit = false;
    let mut has_symbol = false;
    let mut i: usize = 0;
    while i < chars.len()
        invariant
            i <= chars@.len(),
            chars@ == password@,
            has_lower == has_char(chars@.subrange(0, i as int), |c: char| is_lower(c)),
            has_upper == has_char(chars@.subrange(0, i as int), |c: char| is_upper(c)),
            has_digit == has_char(chars@.subrange(0, i as int), |c: char| is_digit(c)),
            has_symbol == has_char(chars@.subrange(0, i as int), |c: char| is_symbol(c)),
        decreases chars@.len() - i,
    {
        let c = chars[i];
        let ghost before = chars@.subrange(0, i as int);
        let ghost after = chars@.subrange(0, i + 1);
        assert forall|j: int| 0 <= j < i implies after[j] == before[j] by {}
        assert(after[i as int] == c);
        let lower = 'a' <= c && c <= 'z';
        let upper = 'A' <= c && c <= 'Z';
        let digit = '0' <= c && c <= '9';
        let symbol = !lower && !upper && !digit && !is_white_char(c);
        has_lower = has_lower || lower;
        has_upper = has_upper || upper;
        has_digit = has_digit || digit;
        has_symbol = has_symbol || symbol;
        i = i + 1;
        proof {
            let pl = |c: char| is_lower(c);
            let pu = |c: char| is_upper(c);
            let pd = |c: char| is_digit(c);
            let ps = |c: char| is_symbol(c);
            if has_char(after, pl) && !lower {
                let j = choose|j: int| 0 <= j < after.len() && #[trigger] pl(after[j]);
                assert(j < i - 1 ==> pl(before[j]));
            }
            if has_char(after, pu) && !upper {
                let j = choose|j: int| 0 <= j < after.len() && #[trigger] pu(after[j]);
                assert(j < i - 1 ==> pu(before[j]));
            }
            if has_char(after, pd) && !digit {
                let j = choose|j: int| 0 <= j < after.len() && #[trigger] pd(after[j]);
                assert(j < i - 1 ==> pd(before[j]));
            }
            if has_char(after, ps) && !symbol {
                let j = choose|j: int| 0 <= j < after.len() && #[trigger] ps(after[j]);
                assert(j < i - 1 ==> ps(before[j]));
            }
            if has_char(before, pl) {
                let j = choose|j: int| 0 <= j < before.len() && #[trigger] pl(before[j]);
                assert(pl(after[j]));
            }
            if has_char(before, pu) {
                let j = choose|j: int| 0 <= j < before.len() && #[trigger] pu(before[j]);
                assert(pu(after[j]));
            }
            if has_char(before, pd) {
                let j = choose|j: int| 0 <= j < before.len() && #[trigger] pd(before[j]);
                assert(pd(after[j]));
            }
            if has_char(before, ps) {
                let j = choose|j: int| 0 <= j < before.len() && #[trigger] ps(before[j]);
                assert(ps(after[j]));
            }
            if lower {
                assert(pl(after[i - 1]));
            }
            if upper {
                assert(pu(after[i - 1]));
            }
            if digit {
                assert(pd(after[i - 1]));
            }
            if symbol {
                assert(ps(after[i - 1]));
            }
        }
    }
    assert(chars@.subrange(0, chars@.len() as int) =~= chars@);
    let long_enough = password.unicode_len() >= MIN_LENGTH;
    let mut results: Vec<RuleResult> = Vec::new();
    results.push(RuleResult { description: "has lowercase letter", passed: has_lower });
    results.push(RuleResult { description: "has uppercase letter", passed: has_upper });
    results.push(RuleResult { description: "has digit", passed: has_digit });
    results.push(RuleResult { description: "has symbol", passed: has_symbol });
    results.push(RuleResult { description: "length >= 12", passed: long_enough });
    let score: u8 = bit(has_lower) + bit(has_upper) + bit(has_digit) + bit(has_symbol) + bit(
        long_enough,
    );
    proof {
        let r = rule_outcomes(password@);
        assert(r.drop_last().drop_last().drop_last().drop_last().drop_last() =~= Seq::<
            bool,
        >::empty());
        assert(r.drop_last().drop_last().drop_last().drop_last().last() == has_lower);
        assert(r.drop_last().drop_last().drop_last().last() == has_upper);
        assert(r.drop_last().drop_last().last() == has_digit);
        assert(r.drop_last().last() == has_symbol);
        assert(r.last() == long_enough);
        reveal_with_fuel(count_passed, 6);
    }
    let strength = if score <= 2 {
        Strength::Weak
    } else if score <= 4 {
        Strength::Medium
    } else {
        Strength::Strong
    };
    Assessment {
        password: String::from_str(password),
        strength,
        score,
        max_score: 5,
        results,
    }
}

/// The process exit status for a strength: 0 strong, 1 medium, 2 weak.
pub fn exit_code(strength: Strength) -> (r: i32)
    ensures
        r == match strength {
            Strength::Weak => 2i32,
            Strength::Medium => 1i32,
            Strength::Strong => 0i32,
        },
{
    match strength {
        Strength::Weak => 2,
        Strength::Medium => 1,
        Strength::Strong => 0,
    }
}

} // verus!
