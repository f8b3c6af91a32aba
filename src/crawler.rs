//! Following `link:<path>` markers in text files.

use vstd::prelude::*;

use crate::grep::{find_first, lines_of, occurs_at, occurs_in, split_lines};
use crate::text::{chars_of, string_from_chars, trim_str, trimmed};

verus! {

/// A file read by the crawler: its path, the paths it links to, and its length in bytes.
#[derive(Debug, PartialEq, Eq)]
pub struct PageResult {
    pub path: std::path::PathBuf,
    pub links: Vec<std::path::PathBuf>,
    pub content_len: usize,
}

/// The marker that introduces a link.
pub open spec fn marker() -> Seq<char> {
    seq!['l', 'i', 'n', 'k', ':']
}

/// Where the marker first occurs in `line`.
pub open spec fn marker_index(line: Seq<char>) -> int
    recommends
        occurs_in(line, marker()),
{
    choose|i: int| occurs_at(line, marker(), i) && forall|k: int| 0 <= k < i ==> !occurs_at(line, marker(), k)
}

/// The link a line names: the trimmed text after its first marker, where that is not empty.
pub open spec fn line_link(line: Seq<char>) -> Option<Seq<char>> {
    if occurs_in(line, marker()) && trimmed(
        line.subrange(marker_index(line) + 5, line.len() as int),
    ).len() > 0 {
        Some(trimmed(line.subrange(marker_index(line) + 5, line.len() as int)))
    } else {
        None
    }
}

/// The links that the first `n` of `lines` name, in order.
pub open spec fn links_in(lines: Seq<Seq<char>>, n: nat) -> Seq<Seq<char>>
    decreases n,
{
    if n == 0 {
        Seq::empty()
    } else {
        links_in(lines, (n - 1) as nat) + match line_link(lines[n - 1]) {
            Some(l) => seq![l],
            None => Seq::empty(),
        }
    }
}

fn line_target(line: &str) -> (r: Option<String>)
    ensures
        r matches Some(l) ==> line_link(line@) == Some(l@),
        r is None ==> line_link(line@) is None,
{
    let t = chars_of(line);
    let mut m: Vec<char> = Vec::new();
    m.push('l');
    m.push('i');
    m.push('n');
    m.push('k');
    m.push(':');
    assert(m@ =~= marker());
    match find_first(&t, &m) {
        None => None,
        Some(pos) => {
            proof {
                let mi = marker_index(line@);
                assert(occurs_at(line@, marker(), pos as int));
                assert(mi == pos as int) by {
                    if mi < pos {
                        assert(!occurs_at(line@, marker(), mi));
                    }
                }
            }
            let mut rest: Vec<char> = Vec::new();
            let tl = t.len();
            assert(pos + 5 <= tl);
            let mut j: usize = pos + 5;
            while j < t.len()
                invariant
                    pos + 5 <= j <= t@.len(),
                    rest@ == t@.subrange(pos + 5, j as int),
                decreases t@.len() - j,
            {
                rest.push(t[j]);
                j = j + 1;
                assert(rest@ =~= t@.subrange(pos + 5, j as int));
            }
            let rest_string = string_from_chars(&rest);
            let target = trim_str(rest_string.as_str());
            if target.unicode_len() == 0 {
                None
            } else {
                Some(string_from_chars(&chars_of(target)))
            }
        },
    }
}

/// The link targets that `content` names, one per line at most, in order.
pub fn link_targets(content: &str) -> (r: Vec<String>)
    ensures
        r@.len() == links_in(lines_of(content@), lines_of(content@).len()).len(),
        forall|i: int|
            0 <= i < r@.len() ==> (#[trigger] r@[i])@ == links_in(
                lines_of(content@),
                lines_of(content@).len(),
            )[i],
{
    let lines = split_lines(content);
    let ghost ls = lines_of(content@);
    let mut out: Vec<String> = Vec::new();
    let mut i: usize = 0;
    while i < lines.len()
        invariant
            i <= lines@.len(),
            lines@.len() == ls.len(),
            forall|j: int| 0 <= j < lines@.len() ==> (#[trigger] lines@[j])@ == ls[j],
            out@.len() == links_in(ls, i as nat).len(),
            forall|j: int| 0 <= j < out@.len() ==> (#[trigger] out@[j])@ == links_in(ls, i as nat)[j],
        decreases lines@.len() - i,
    {
        let ghost before = out@;
        match line_target(lines[i].as_str()) {
            Some(l) => out.push(l),
            None => {},
        }
        proof {
            let next = links_in(ls, (i + 1) as nat);
            assert forall|j: int| 0 <= j < out@.len() implies (#[trigger] out@[j])@ == next[j] by {
                if j < before.len() {
                    assert(out@[j] == before[j]);
                }
            }
        }
        i = i + 1;
    }
    out
}

} // verus!
