//! A line search: the command-line arguments, and the lines of a text that
//! hold a query.

use vstd::prelude::*;
use vstd::string::StringExecFns;

use crate::table::str_eq;
use crate::text::{chars_of, lower_of, lowercase, string_from_chars};

verus! {

/// What to search for and where.
#[derive(Debug)]
pub struct Config {
    pub query: String,
    pub filename: String,
    pub ignore_case: bool,
}

/// A line that holds the query, with its number counted from 1.
#[derive(Debug)]
pub struct Match {
    pub line_number: usize,
    pub line: String,
}

/// Whether an argument asks for case-insensitive search.
pub open spec fn is_ignore_case_flag(a: Seq<char>) -> bool {
    a == "--ignore-case"@ || a == "-i"@
}

impl Config {
    /// Reads the arguments: the program name, the query, the file name, then
    /// options, of which `--ignore-case` and `-i` turn on case-insensitive search.
    pub fn from_args(args: Vec<String>) -> (r: Result<Config, String>)
        ensures
            args@.len() < 2 ==> (r matches Err(e) && e@ == "missing query string"@),
            args@.len() == 2 ==> (r matches Err(e) && e@ == "missing file name to search"@),
            args@.len() > 2 ==> (r matches Ok(c) && c.query@ == args@[1]@ && c.filename@
                == args@[2]@ && (c.ignore_case <==> exists|i: int|
                3 <= i < args@.len() && is_ignore_case_flag(#[trigger] args@[i]@))),
    {
        if args.len() < 2 {
            return Err(String::from_str("missing query string"));
        }
        if args.len() < 3 {
            return Err(String::from_str("missing file name to search"));
        }
        let mut ignore_case = false;
        let mut i: usize = 3;
        while i < args.len()
            invariant
                3 <= i <= args@.len(),
                ignore_case <==> exists|j: int|
                    3 <= j < i && is_ignore_case_flag(#[trigger] args@[j]@),
            decreases args@.len() - i,
        {
            if str_eq(args[i].as_str(), "--ignore-case") || str_eq(args[i].as_str(), "-i") {
                ignore_case = true;
            }
            i = i + 1;
        }
        Ok(Config { query: args[1].clone(), filename: args[2].clone(), ignore_case })
    }
}

/// `q` occurs in `t` at position `i`.
pub open spec fn occurs_at(t: Seq<char>, q: Seq<char>, i: int) -> bool {
    0 <= i && i + q.len() <= t.len() && t.subrange(i, i + q.len()) == q
}

/// `q` occurs somewhere in `t`.
pub open spec fn occurs_in(t: Seq<char>, q: Seq<char>) -> bool {
    exists|i: int| occurs_at(t, q, i)
}

/// Where `q` first occurs in `t`, if it does.
pub fn find_first(t: &Vec<char>, q: &Vec<char>) -> (r: Option<usize>)
    ensures
        r matches Some(i) ==> occurs_at(t@, q@, i as int) && forall|k: int|
            0 <= k < i ==> !occurs_at(t@, q@, k),
        r is None ==> !occurs_in(t@, q@),
{
    if q.len() > t.len() {
        assert forall|i: int| !occurs_at(t@, q@, i) by {}
        return None;
    }
    if q.len() == 0 {
        assert(t@.subrange(0, 0) =~= q@);
        assert(occurs_at(t@, q@, 0));
        return Some(0);
    }
    let tlen = t.len();
    let last = tlen - q.len();
    let mut i: usize = 0;
    while i <= last
        invariant
            last == t@.len() - q@.len(),
            tlen == t@.len(),
            q@.len() > 0,
            i <= last + 1,
            forall|k: int| 0 <= k < i ==> !occurs_at(t@, q@, k),
        decreases last + 1 - i,
    {
        let mut j: usize = 0;
        let mut same = true;
        while j < q.len() && same
            invariant
                i <= last,
                last == t@.len() - q@.len(),
                tlen == t@.len(),
                i + q@.len() <= t@.len(),
                j <= q@.len(),
                same ==> forall|l: int| 0 <= l < j ==> t@[i + l] == q@[l],
                !same ==> j > 0 && t@[i + j - 1] != q@[j - 1],
            decreases q@.len() - j + if same { 1int } else { 0int },
        {
            if t[i + j] != q[j] {
                same = false;
            }
            j = j + 1;
        }
        if same {
            assert(t@.subrange(i as int, i + q@.len()) =~= q@);
            assert(occurs_at(t@, q@, i as int));
            return Some(i);
        }
        assert(!occurs_at(t@, q@, i as int)) by {
            if occurs_at(t@, q@, i as int) {
                assert(t@.subrange(i as int, i + q@.len())[j - 1] == t@[i + j - 1]);
            }
        }
        i = i + 1;
    }
    assert forall|k: int| !occurs_at(t@, q@, k) by {
        if occurs_at(t@, q@, k) {
            assert(0 <= k < i);
        }
    }
    None
}

/// Whether `query` occurs in `line`, character for character.
pub fn line_matches(line: &str, query: &str) -> (r: bool)
    ensures
        r == occurs_in(line@, query@),
{
    let t = chars_of(line);
    let q = chars_of(query);
    find_first(&t, &q).is_some()
}

/// Where the first line break of `s` is, or its length where it has none.
pub open spec fn newline_index(s: Seq<char>) -> nat
    decreases s.len(),
{
    if s.len() == 0 || s[0] == '\n' {
        0
    } else {
        1 + newline_index(s.drop_first())
    }
}

/// A line without the carriage return that ended it.
pub open spec fn strip_cr(l: Seq<char>) -> Seq<char> {
    if l.len() > 0 && l.last() == '\r' {
        l.drop_last()
    } else {
        l
    }
}

/// The lines of `s`: split at each `\n` (a `\r` before it goes too); a last
/// line without `\n` counts, an empty one after the last `\n` does not.
pub open spec fn lines_of(s: Seq<char>) -> Seq<Seq<char>>
    decreases s.len(),
{
    if s.len() == 0 {
        Seq::empty()
    } else if newline_index(s) < s.len() {
        seq![strip_cr(s.subrange(0, newline_index(s) as int))] + lines_of(
            s.subrange(newline_index(s) + 1int, s.len() as int),
        )
    } else {
        seq![s]
    }
}

proof fn lemma_newline_index(s: Seq<char>, k: int)
    requires
        0 <= k <= s.len(),
        forall|j: int| 0 <= j < k ==> s[j] != '\n',
        k < s.len() ==> s[k] == '\n',
    ensures
        newline_index(s) == k,
    decreases k,
{
    if k > 0 {
        let t = s.drop_first();
        assert forall|j: int| 0 <= j < k - 1 implies t[j] != '\n' by {
            assert(t[j] == s[j + 1]);
        }
        if k - 1 < t.len() {
            assert(t[k - 1] == s[k]);
        }
        lemma_newline_index(t, k - 1);
    }
}

fn strip_cr_chars(l: &mut Vec<char>)
    ensures
        final(l)@ == strip_cr(old(l)@),
{
    let n = l.len();
    if n > 0 && l[n - 1] == '\r' {
        l.pop();
    }
}

/// The lines of `text`.
pub fn split_lines(text: &str) -> (r: Vec<String>)
    ensures
        r@.len() == lines_of(text@).len(),
        forall|i: int| 0 <= i < r@.len() ==> (#[trigger] r@[i])@ == lines_of(text@)[i],
{
    let s = chars_of(text);
    let n = s.len();
    let mut out: Vec<String> = Vec::new();
    let ghost mut done: Seq<Seq<char>> = Seq::empty();
    let mut current: Vec<char> = Vec::new();
    let mut start: usize = 0;
    let mut i: usize = 0;
    assert(s@.subrange(0, n as int) =~= s@);
    while i < n
        invariant
            n == s@.len(),
            s@ == text@,
            start <= i <= n,
            current@ == s@.subrange(start as int, i as int),
            forall|j: int| start <= j < i ==> s@[j] != '\n',
            out@.len() == done.len(),
            forall|j: int| 0 <= j < out@.len() ==> (#[trigger] out@[j])@ == done[j],
            done + lines_of(s@.subrange(start as int, n as int)) == lines_of(s@),
        decreases n - i,
    {
        if s[i] == '\n' {
            let ghost rest = s@.subrange(start as int, n as int);
            proof {
                lemma_newline_index(rest, i - start);
                assert(rest.subrange(0, i - start) =~= current@);
                assert(rest.subrange(i - start + 1, rest.len() as int) =~= s@.subrange(
                    i + 1,
                    n as int,
                ));
            }
            strip_cr_chars(&mut current);
            out.push(string_from_chars(&current));
            proof {
                assert(lines_of(rest) == seq![current@] + lines_of(
                    s@.subrange(i + 1, n as int),
                ));
                done = done.push(current@);
                assert(done + lines_of(s@.subrange(i + 1, n as int)) =~= done.drop_last() + (
                seq![current@] + lines_of(s@.subrange(i + 1, n as int))));
            }
            current = Vec::new();
            start = i + 1;
        } else {
            current.push(s[i]);
        }
        i = i + 1;
        assert(current@ =~= s@.subrange(start as int, i as int));
    }
    if start < n {
        let ghost rest = s@.subrange(start as int, n as int);
        proof {
            lemma_newline_index(rest, rest.len() as int);
            assert(rest =~= current@);
        }
        out.push(string_from_chars(&current));
        proof {
            done = done.push(current@);
            assert(done =~= lines_of(s@));
        }
    } else {
        assert(s@.subrange(start as int, n as int).len() == 0);
        assert(done =~= lines_of(s@));
    }
    out
}

/// Whether a line is reported for `query`.
pub open spec fn line_hit(line: Seq<char>, query: Seq<char>, ignore_case: bool) -> bool {
    if ignore_case {
        occurs_in(lower_of(line), lower_of(query))
    } else {
        occurs_in(line, query)
    }
}

/// The numbered lines among the first `n` of `lines` that are reported.
pub open spec fn hits(lines: Seq<Seq<char>>, n: nat, query: Seq<char>, ignore_case: bool) -> Seq<
    (nat, Seq<char>),
>
    decreases n,
{
    if n == 0 {
        Seq::empty()
    } else {
        hits(lines, (n - 1) as nat, query, ignore_case) + if line_hit(
            lines[n - 1],
            query,
            ignore_case,
        ) {
            seq![(n, lines[n - 1])]
        } else {
            Seq::empty()
        }
    }
}

/// The lines of `content` that hold `query`, compared as lowercase where
/// `ignore_case` is set, with their numbers, in order.
pub fn search_in_reader(query: &str, content: &str, ignore_case: bool) -> (r: Vec<Match>)
    ensures
        r@.len() == hits(lines_of(content@), lines_of(content@).len(), query@, ignore_case).len(),
        forall|i: int|
            0 <= i < r@.len() ==> (#[trigger] r@[i]).line_number == hits(
                lines_of(content@),
                lines_of(content@).len(),
                query@,
                ignore_case,
            )[i].0 && r@[i].line@ == hits(
                lines_of(content@),
                lines_of(content@).len(),
                query@,
                ignore_case,
            )[i].1,
{
    let lines = split_lines(content);
    let ghost ls = lines_of(content@);
    let lowered_query = lowercase(query);
    let mut out: Vec<Match> = Vec::new();
    let mut i: usize = 0;
    while i < lines.len()
        invariant
            i <= lines@.len(),
            lines@.len() == ls.len(),
            forall|j: int| 0 <= j < lines@.len() ==> (#[trigger] lines@[j])@ == ls[j],
            lowered_query@ == lower_of(query@),
            out@.len() == hits(ls, i as nat, query@, ignore_case).len(),
            forall|j: int|
                0 <= j < out@.len() ==> (#[trigger] out@[j]).line_number == hits(
                    ls,
                    i as nat,
                    query@,
                    ignore_case,
                )[j].0 && out@[j].line@ == hits(ls, i as nat, query@, ignore_case)[j].1,
        decreases lines@.len() - i,
    {
        let hit = if ignore_case {
            let lowered = lowercase(lines[i].as_str());
            line_matches(lowered.as_str(), lowered_query.as_str())
        } else {
            line_matches(lines[i].as_str(), query)
        };
        let ghost before = out@;
        if hit {
            out.push(Match { line_number: i + 1, line: lines[i].clone() });
        }
        proof {
            let h = hits(ls, (i + 1) as nat, query@, ignore_case);
            assert(hits(ls, (i + 1) as nat, query@, ignore_case) == hits(
                ls,
                i as nat,
                query@,
                ignore_case,
            ) + if line_hit(ls[i as int], query@, ignore_case) {
                seq![((i + 1) as nat, ls[i as int])]
            } else {
                Seq::empty()
            });
            assert forall|j: int| 0 <= j < out@.len() implies (#[trigger] out@[j]).line_number
                == h[j].0 && out@[j].line@ == h[j].1 by {
                if j < before.len() {
                    assert(out@[j] == before[j]);
                }
            }
        }
        i = i + 1;
    }
    out
}

} // verus!
