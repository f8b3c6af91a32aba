//! Port lists such as `80,443,8000-8005`.

use vstd::prelude::*;

use crate::text::{
    chars_of, decimal_value, is_unsigned_decimal, parse_u16, string_from_chars, trim_str,
    trimmed, unsigned_digits,
};

verus! {

/// Where `c` first occurs in `s`, or the length of `s` where it does not.
pub open spec fn index_of(s: Seq<char>, c: char) -> nat
    decreases s.len(),
{
    if s.len() == 0 || s[0] == c {
        0
    } else {
        1 + index_of(s.drop_first(), c)
    }
}

/// The pieces of `s` between the separators `sep`, empty ones included.
pub open spec fn pieces(s: Seq<char>, sep: char) -> Seq<Seq<char>>
    decreases s.len(),
{
    if index_of(s, sep) < s.len() {
        seq![s.subrange(0, index_of(s, sep) as int)] + pieces(
            s.subrange(index_of(s, sep) + 1int, s.len() as int),
            sep,
        )
    } else {
        seq![s]
    }
}

/// Whether `s` reads as a port number.
pub open spec fn is_port(s: Seq<char>) -> bool {
    is_unsigned_decimal(s, u16::MAX as nat)
}

/// The port number that `s` reads as.
pub open spec fn port_value(s: Seq<char>) -> nat {
    decimal_value(unsigned_digits(s))
}

/// Whether the list item `item`, trimmed, names port `p`: a range `a-b` of
/// two port numbers names every port between them, in either order;
/// otherwise the item must be a single port number.
pub open spec fn item_names(item: Seq<char>, p: nat) -> bool {
    let t = trimmed(item);
    let dash = index_of(t, '-');
    let a = t.subrange(0, dash as int);
    let b = t.subrange(dash + 1int, t.len() as int);
    if t.len() == 0 {
        false
    } else if dash < t.len() && is_port(a) && is_port(b) {
        (port_value(a) <= p <= port_value(b)) || (port_value(b) <= p <= port_value(a))
    } else {
        is_port(t) && p == port_value(t)
    }
}

/// Whether the list `s` names port `p`.
pub open spec fn list_names(s: Seq<char>, p: nat) -> bool {
    exists|i: int| 0 <= i < pieces(s, ',').len() && item_names(#[trigger] pieces(s, ',')[i], p)
}

proof fn lemma_index_of(s: Seq<char>, c: char, k: int)
    requires
        0 <= k <= s.len(),
        forall|j: int| 0 <= j < k ==> s[j] != c,
        k < s.len() ==> s[k] == c,
    ensures
        index_of(s, c) == k,
    decreases k,
{
    if k > 0 {
        let t = s.drop_first();
        assert forall|j: int| 0 <= j < k - 1 implies t[j] != c by {
            assert(t[j] == s[j + 1]);
        }
        if k - 1 < t.len() {
            assert(t[k - 1] == s[k]);
        }
        lemma_index_of(t, c, k - 1);
    }
}

/// Splits `s` at each `sep`.
pub fn split_pieces(s: &str, sep: char) -> (r: Vec<String>)
    ensures
        r@.len() == pieces(s@, sep).len(),
        forall|i: int| 0 <= i < r@.len() ==> (#[trigger] r@[i])@ == pieces(s@, sep)[i],
{
    let chars = chars_of(s);
    let n = chars.len();
    let mut out: Vec<String> = Vec::new();
    let ghost mut done: Seq<Seq<char>> = Seq::empty();
    let mut current: Vec<char> = Vec::new();
    let mut start: usize = 0;
    let mut i: usize = 0;
    assert(chars@.subrange(0, n as int) =~= chars@);
    while i < n
        invariant
            n == chars@.len(),
            chars@ == s@,
            start <= i <= n,
            current@ == chars@.subrange(start as int, i as int),
            forall|j: int| start <= j < i ==> chars@[j] != sep,
            out@.len() == done.len(),
            forall|j: int| 0 <= j < out@.len() ==> (#[trigger] out@[j])@ == done[j],
            done + pieces(chars@.subrange(start as int, n as int), sep) == pieces(chars@, sep),
        decreases n - i,
    {
        if chars[i] == sep {
            let ghost rest = chars@.subrange(start as int, n as int);
            proof {
                lemma_index_of(rest, sep, i - start);
                assert(rest.subrange(0, i - start) =~= current@);
                assert(rest.subrange(i - start + 1, rest.len() as int) =~= chars@.subrange(
                    i + 1,
                    n as int,
                ));
            }
            out.push(string_from_chars(&current));
            proof {
                done = done.push(current@);
                assert(done + pieces(chars@.subrange(i + 1, n as int), sep) =~= done.drop_last()
                    + (seq![current@] + pieces(chars@.subrange(i + 1, n as int), sep)));
            }
            current = Vec::new();
            start = i + 1;
        } else {
            current.push(chars[i]);
        }
        i = i + 1;
        assert(current@ =~= chars@.subrange(start as int, i as int));
    }
    let ghost rest = chars@.subrange(start as int, n as int);
    proof {
        lemma_index_of(rest, sep, rest.len() as int);
        assert(rest =~= current@);
    }
    out.push(string_from_chars(&current));
    proof {
        done = done.push(current@);
        assert(done =~= pieces(chars@, sep));
    }
    out
}

/// Marks in `marks` the ports that `item` names.
fn mark_item(item: &str, marks: &mut Vec<bool>)
    requires
        old(marks)@.len() == 0x10000,
    ensures
        final(marks)@.len() == 0x10000,
        forall|p: int|
            0 <= p < 0x10000 ==> (#[trigger] final(marks)@[p] <==> (old(marks)@[p] || item_names(
                item@,
                p as nat,
            ))),
{
    let t = trim_str(item);
    let tc = chars_of(t);
    let n = tc.len();
    if n == 0 {
        return;
    }
    let mut dash: usize = 0;
    while dash < n && tc[dash] != '-'
        invariant
            dash <= n,
            n == tc@.len(),
            forall|j: int| 0 <= j < dash ==> tc@[j] != '-',
        decreases n - dash,
    {
        dash = dash + 1;
    }
    proof {
        lemma_index_of(tc@, '-', dash as int);
    }
    if dash < n {
        let mut a: Vec<char> = Vec::new();
        let mut b: Vec<char> = Vec::new();
        let mut j: usize = 0;
        while j < dash
            invariant
                j <= dash < n,
                n == tc@.len(),
                a@ == tc@.subrange(0, j as int),
            decreases dash - j,
        {
            a.push(tc[j]);
            j = j + 1;
            assert(a@ =~= tc@.subrange(0, j as int));
        }
        j = dash + 1;
        while j < n
            invariant
                dash < j <= n,
                n == tc@.len(),
                b@ == tc@.subrange(dash + 1, j as int),
            decreases n - j,
        {
            b.push(tc[j]);
            j = j + 1;
            assert(b@ =~= tc@.subrange(dash + 1, j as int));
        }
        let sa = string_from_chars(&a);
        let sb = string_from_chars(&b);
        match (parse_u16(sa.as_str()), parse_u16(sb.as_str())) {
            (Ok(x), Ok(y)) => {
                let (low, high) = if x <= y {
                    (x, y)
                } else {
                    (y, x)
                };
                let mut p: u32 = low as u32;
                let ghost before = marks@;
                while p <= high as u32
                    invariant
                        low <= p <= high as u32 + 1,
                        marks@.len() == 0x10000,
                        forall|q: int|
                            0 <= q < 0x10000 ==> (#[trigger] marks@[q] <==> (before[q] || (low
                                <= q < p))),
                    decreases high as u32 + 1 - p,
                {
                    marks.set(p as usize, true);
                    p = p + 1;
                }
                return;
            },
            _ => {},
        }
    }
    match parse_u16(t) {
        Ok(v) => {
            marks.set(v as usize, true);
        },
        Err(_) => {},
    }
}

/// The ports that a comma-separated list of ports and ranges names, each
/// once, in ascending order. Items that are not a port or a range of ports
/// are ignored.
pub fn parse_ports(spec: &str) -> (r: Vec<u16>)
    ensures
        forall|i: int, j: int| 0 <= i < j < r@.len() ==> r@[i] < r@[j],
        forall|p: u16| r@.contains(p) <==> list_names(spec@, p as nat),
{
    let items = split_pieces(spec, ',');
    let mut marks: Vec<bool> = Vec::new();
    let mut k: usize = 0;
    while k < 0x10000
        invariant
            k <= 0x10000,
            marks@.len() == k,
            forall|q: int| 0 <= q < k ==> !#[trigger] marks@[q],
        decreases 0x10000 - k,
    {
        marks.push(false);
        k = k + 1;
    }
    let ghost ps = pieces(spec@, ',');
    let mut i: usize = 0;
    while i < items.len()
        invariant
            i <= items@.len(),
            items@.len() == ps.len(),
            forall|j: int| 0 <= j < items@.len() ==> (#[trigger] items@[j])@ == ps[j],
            marks@.len() == 0x10000,
            forall|q: int|
                0 <= q < 0x10000 ==> (#[trigger] marks@[q] <==> exists|j: int|
                    0 <= j < i && item_names(#[trigger] ps[j], q as nat)),
        decreases items@.len() - i,
    {
        let ghost before = marks@;
        mark_item(items[i].as_str(), &mut marks);
        proof {
            assert forall|q: int| 0 <= q < 0x10000 implies (#[trigger] marks@[q] <==> exists|j: int|
                0 <= j < i + 1 && item_names(#[trigger] ps[j], q as nat)) by {
                if marks@[q] && !before[q] {
                    assert(item_names(ps[i as int], q as nat));
                }
                if exists|j: int| 0 <= j < i + 1 && item_names(#[trigger] ps[j], q as nat) {
                    let j = choose|j: int| 0 <= j < i + 1 && item_names(#[trigger] ps[j], q as nat);
                    if j < i {
                        assert(before[q]);
                    }
                }
            }
        }
        i = i + 1;
    }
    let mut out: Vec<u16> = Vec::new();
    let mut p: u32 = 0;
    while p < 0x10000
        invariant
            p <= 0x10000,
            marks@.len() == 0x10000,
            forall|a: int, b: int| 0 <= a < b < out@.len() ==> out@[a] < out@[b],
            forall|a: int| 0 <= a < out@.len() ==> out@[a] < p,
            forall|q: u16| q < p ==> (out@.contains(q) <==> marks@[q as int]),
            forall|q: u16| q >= p ==> !out@.contains(q),
        decreases 0x10000 - p,
    {
        let ghost before = out@;
        if marks[p as usize] {
            out.push(p as u16);
        }
        proof {
            assert forall|q: u16| out@.contains(q) <==> (before.contains(q) || (q == p
                && marks@[p as int])) by {
                if out@.contains(q) {
                    let a = choose|a: int| 0 <= a < out@.len() && out@[a] == q;
                    if a < before.len() {
                        assert(before[a] == q);
                    }
                }
                if before.contains(q) {
                    let a = choose|a: int| 0 <= a < before.len() && before[a] == q;
                    assert(out@[a] == q);
                }
                if q == p && marks@[p as int] {
                    assert(out@[out@.len() - 1] == q);
                }
            }
            assert forall|q: u16| q < p + 1 implies (out@.contains(q) <==> marks@[q as int]) by {
                if q < p {
                    assert(before.contains(q) <==> marks@[q as int]);
                } else {
                    assert(!before.contains(q));
                }
            }
        }
        p = p + 1;
    }
    proof {
        assert forall|q: u16| out@.contains(q) <==> list_names(spec@, q as nat) by {
            if marks@[q as int] {
                let j = choose|j: int| 0 <= j < i && item_names(#[trigger] ps[j], q as nat);
                assert(0 <= j < pieces(spec@, ',').len());
            }
            if list_names(spec@, q as nat) {
                let j = choose|j: int|
                    0 <= j < pieces(spec@, ',').len() && item_names(
                        #[trigger] pieces(spec@, ',')[j],
                        q as nat,
                    );
                assert(item_names(ps[j], q as nat));
            }
        }
    }
    out
}

} // verus!
