//! String concatenation two ways, and timing of a computation.

use vstd::prelude::*;
use vstd::string::StringExecFns;

verus! {

#[verifier::external_type_specification]
#[verifier::external_body]
pub struct ExInstant(std::time::Instant);

/// The parts written one after the other.
pub open spec fn joined(parts: Seq<&str>) -> Seq<char>
    decreases parts.len(),
{
    if parts.len() == 0 {
        Seq::empty()
    } else {
        joined(parts.drop_last()) + parts.last()@
    }
}

/// Concatenates `parts` by building a new string for each part.
pub fn concat_naive(parts: &[&str]) -> (r: String)
    ensures
        r@ == joined(parts@),
{
    let mut out = String::new();
    let mut i: usize = 0;
    while i < parts.len()
        invariant
            i <= parts@.len(),
            out@ == joined(parts@.subrange(0, i as int)),
        decreases parts@.len() - i,
    {
        let mut next = out.clone();
        next.append(parts[i]);
        out = next;
        assert(parts@.subrange(0, i + 1).drop_last() =~= parts@.subrange(0, i as int));
        i = i + 1;
    }
    assert(parts@.subrange(0, parts@.len() as int) =~= parts@);
    out
}

/// Relies on `String::with_capacity`: the new string is empty.
#[verifier::external_body]
fn string_with_capacity(capacity: usize) -> (s: String)
    ensures
        s@.len() == 0,
{
    String::with_capacity(capacity)
}

/// Concatenates `parts` into one string allocated up front.
pub fn concat_optimized(parts: &[&str]) -> (r: String)
    ensures
        r@ == joined(parts@),
{
    let mut total: usize = 0;
    let mut i: usize = 0;
    while i < parts.len()
        invariant
            i <= parts@.len(),
        decreases parts@.len() - i,
    {
        total = total.saturating_add(parts[i].len());
        i = i + 1;
    }
    let mut out = string_with_capacity(total);
    assert(out@ =~= joined(parts@.subrange(0, 0)));
    i = 0;
    while i < parts.len()
        invariant
            i <= parts@.len(),
            out@ == joined(parts@.subrange(0, i as int)),
        decreases parts@.len() - i,
    {
        out.append(parts[i]);
        assert(parts@.subrange(0, i + 1).drop_last() =~= parts@.subrange(0, i as int));
        i = i + 1;
    }
    assert(parts@.subrange(0, parts@.len() as int) =~= parts@);
    out
}

/// Relies on `Instant::now`: the current time; nothing is promised of it.
#[verifier::external_body]
fn instant_now() -> (t: std::time::Instant) {
    std::time::Instant::now()
}

/// Relies on `Instant::elapsed`: the time since `t`; nothing is promised of it.
#[verifier::external_body]
fn elapsed_since(t: &std::time::Instant) -> (d: std::time::Duration) {
    t.elapsed()
}

/// Runs `f` and returns its result together with how long it took.
pub fn measure<F, T>(f: F) -> (r: (T, std::time::Duration)) where F: FnOnce() -> T
    requires
        f.requires(()),
    ensures
        f.ensures((), r.0),
{
    let start = instant_now();
    let result = f();
    (result, elapsed_since(&start))
}

} // verus!
