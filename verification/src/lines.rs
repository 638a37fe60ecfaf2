//! Splitting a text into lines and putting lines together.
use vstd::prelude::*;
use crate::text::{from_chars, join, to_chars};

verus! {

/// The first position, from `i` on, at which `sep` stands in `s`.
pub open spec fn find_from(s: Seq<char>, sep: Seq<char>, i: int) -> Option<int>
    decreases s.len() + 1 - i,
{
    if i < 0 || i + sep.len() > s.len() {
        None
    } else if s.subrange(i, i + sep.len()) == sep {
        Some(i)
    } else {
        find_from(s, sep, i + 1)
    }
}

/// Whether `sep` stands somewhere in `s`.
pub open spec fn occurs(s: Seq<char>, sep: Seq<char>) -> bool {
    find_from(s, sep, 0) is Some
}

/// The parts of `s` between the occurrences of `sep`, taken from the left.
pub open spec fn split(s: Seq<char>, sep: Seq<char>) -> Seq<Seq<char>>
    decreases s.len(),
{
    if sep.len() == 0 {
        seq![s]
    } else {
        proof {
            lemma_find_bound(s, sep, 0);
        }
        match find_from(s, sep, 0) {
            None => seq![s],
            Some(i) => seq![s.take(i)] + split(s.skip(i + sep.len()), sep),
        }
    }
}

/// The parts with `sep` between them.
pub open spec fn joined(parts: Seq<Seq<char>>, sep: Seq<char>) -> Seq<char>
    decreases parts.len(),
{
    if parts.len() == 0 {
        seq![]
    } else if parts.len() == 1 {
        parts[0]
    } else {
        parts[0] + sep + joined(parts.skip(1), sep)
    }
}

/// Each line behind `indent`.
pub open spec fn indented(lines: Seq<Seq<char>>, indent: Seq<char>) -> Seq<Seq<char>> {
    Seq::new(lines.len(), |i: int| indent + lines[i])
}

/// An occurrence lies inside the text and is one of `sep`.
pub proof fn lemma_find_bound(s: Seq<char>, sep: Seq<char>, i: int)
    ensures
        find_from(s, sep, i) matches Some(k) ==> i <= k && 0 <= k && k + sep.len() <= s.len()
            && s.subrange(k, k + sep.len()) == sep,
    decreases s.len() + 1 - i,
{
    if i < 0 || i + sep.len() > s.len() {
    } else if s.subrange(i, i + sep.len()) == sep {
    } else {
        lemma_find_bound(s, sep, i + 1);
    }
}

/// Splitting a text and joining the parts again gives the text back.
pub proof fn join_undoes_split(s: Seq<char>, sep: Seq<char>)
    ensures
        joined(split(s, sep), sep) == s,
        split(s, sep).len() >= 1,
    decreases s.len(),
{
    if sep.len() == 0 {
    } else {
        lemma_find_bound(s, sep, 0);
        match find_from(s, sep, 0) {
            None => {},
            Some(i) => {
                let rest = s.skip(i + sep.len());
                join_undoes_split(rest, sep);
                let parts = split(s, sep);
                assert(parts.skip(1) =~= split(rest, sep));
                assert(s.take(i) + sep + rest =~= s);
            },
        }
    }
}

fn stands_at(cs: &Vec<char>, sep: &Vec<char>, at: usize) -> (r: bool)
    requires
        at + sep@.len() <= cs@.len(),
    ensures
        r == (cs@.subrange(at as int, at + sep@.len()) == sep@),
{
    let n: usize = cs.len();
    let mut j: usize = 0;
    while j < sep.len()
        invariant
            j <= sep@.len(),
            n == cs@.len(),
            at + sep@.len() <= cs@.len(),
            cs@.subrange(at as int, at + j) =~= sep@.take(j as int),
        decreases sep@.len() - j,
    {
        if cs[at + j] != sep[j] {
            proof {
                assert(cs@.subrange(at as int, at + sep@.len())[j as int] != sep@[j as int]);
            }
            return false;
        }
        proof {
            assert(cs@.subrange(at as int, at + j + 1) =~= cs@.subrange(at as int, at + j).push(
                cs@[at + j],
            ));
            assert(sep@.take(j + 1) =~= sep@.take(j as int).push(sep@[j as int]));
        }
        j += 1;
    }
    proof {
        assert(sep@.take(sep@.len() as int) =~= sep@);
    }
    true
}

fn find(cs: &Vec<char>, sep: &Vec<char>, start: usize) -> (r: Option<usize>)
    requires
        start <= cs@.len(),
        sep@.len() > 0,
    ensures
        match find_from(cs@.skip(start as int), sep@, 0) {
            Some(k) => 0 <= k && r is Some && r->0 == start + k && start + k + sep@.len()
                <= cs@.len(),
            None => r is None,
        },
{
    let ghost rest = cs@.skip(start as int);
    let mut j: usize = start;
    while sep.len() <= cs.len() - j
        invariant
            start <= j <= cs@.len(),
            sep@.len() > 0,
            rest == cs@.skip(start as int),
            find_from(rest, sep@, j - start) == find_from(rest, sep@, 0),
        decreases cs@.len() - j,
    {
        let here = stands_at(cs, sep, j);
        proof {
            assert(rest.subrange(j - start, j - start + sep@.len()) =~= cs@.subrange(
                j as int,
                j + sep@.len(),
            ));
        }
        proof {
            lemma_find_bound(rest, sep@, 0);
        }
        if here {
            return Some(j);
        }
        j += 1;
    }
    None
}

/// Whether `sep` stands somewhere in `s`.
pub fn has(s: &str, sep: &str) -> (r: bool)
    requires
        sep@.len() > 0,
    ensures
        r == occurs(s@, sep@),
{
    let cs = to_chars(s);
    let sp = to_chars(sep);
    proof {
        assert(cs@.skip(0) =~= cs@);
    }
    let r = find(&cs, &sp, 0);
    r.is_some()
}

/// The parts of `s` between the occurrences of `sep`.
pub fn split_text(s: &str, sep: &str) -> (r: Vec<String>)
    requires
        sep@.len() > 0,
    ensures
        r.deep_view() == split(s@, sep@),
{
    let cs = to_chars(s);
    let sp = to_chars(sep);
    let mut r: Vec<String> = Vec::new();
    let mut start: usize = 0;
    proof {
        assert(cs@.skip(0) =~= cs@);
        assert(r.deep_view() + split(cs@, sp@) =~= split(cs@, sp@));
    }
    loop
        invariant_except_break
            r.deep_view() + split(cs@.skip(start as int), sp@) == split(s@, sp@),
        invariant
            start <= cs@.len(),
            sp@.len() > 0,
            sp@ == sep@,
            cs@ == s@,
        ensures
            r.deep_view() == split(s@, sep@),
        decreases cs@.len() - start,
    {
        let ghost rest = cs@.skip(start as int);
        let ghost before = r.deep_view();
        let found = find(&cs, &sp, start);
        match found {
            None => {
                let part = from_chars(&cs, start, cs.len());
                r.push(part);
                proof {
                    assert(rest =~= cs@.subrange(start as int, cs@.len() as int));
                    assert(r.deep_view() =~= before.push(rest));
                    assert(r.deep_view() =~= before + split(rest, sp@));
                }
                break;
            },
            Some(i) => {
                let total: usize = cs.len();
                let part = from_chars(&cs, start, i);
                r.push(part);
                assert(i + sp@.len() <= total);
                let next: usize = i + sp.len();
                proof {
                    let k = i - start;
                    assert(rest.take(k) =~= cs@.subrange(start as int, i as int));
                    assert(rest.skip(k + sp@.len()) =~= cs@.skip(next as int));
                    assert(r.deep_view() =~= before.push(rest.take(k)));
                    assert(r.deep_view() + split(cs@.skip(next as int), sp@) =~= before + split(
                        rest,
                        sp@,
                    ));
                }
                start = next;
            },
        }
    }
    r
}

/// The parts with `sep` between them.
pub fn join_text(parts: &Vec<String>, sep: &str) -> (r: String)
    ensures
        r@ == joined(parts.deep_view(), sep@),
{
    let n: usize = parts.len();
    if n == 0 {
        return String::new();
    }
    let ghost all = parts.deep_view();
    let mut r: String = parts[n - 1].clone();
    let mut i: usize = n - 1;
    proof {
        assert(all.skip(n - 1) =~= seq![all[n - 1]]);
    }
    while i > 0
        invariant
            i < n == parts@.len(),
            all == parts.deep_view(),
            r@ == joined(all.skip(i as int), sep@),
        decreases i,
    {
        i -= 1;
        let mut head: String = parts[i].clone();
        head.append(sep);
        head.append(r.as_str());
        proof {
            assert(all.skip(i as int).skip(1) =~= all.skip(i + 1));
            assert(all.skip(i as int)[0] == all[i as int]);
        }
        r = head;
    }
    proof {
        assert(all.skip(0) =~= all);
    }
    r
}

/// Puts `indent` before each line.
pub fn indent_lines(lines: &Vec<String>, indent: &str) -> (r: Vec<String>)
    ensures
        r.deep_view() == indented(lines.deep_view(), indent@),
{
    let mut r: Vec<String> = Vec::new();
    let mut i: usize = 0;
    while i < lines.len()
        invariant
            i <= lines@.len(),
            r@.len() == i,
            forall|k: int| 0 <= k < i ==> (#[trigger] r@[k])@ == indent@ + lines@[k]@,
        decreases lines@.len() - i,
    {
        r.push(join(indent, lines[i].as_str()));
        i += 1;
    }
    proof {
        assert(r.deep_view() =~= indented(lines.deep_view(), indent@));
    }
    r
}

/// Appends the lines of `more`.
pub fn extend_lines(lines: &mut Vec<String>, more: Vec<String>)
    ensures
        final(lines).deep_view() == old(lines).deep_view() + more.deep_view(),
{
    let mut more = more;
    let ghost m = more.deep_view();
    lines.append(&mut more);
    proof {
        assert(lines.deep_view() =~= old(lines).deep_view() + m);
    }
}

/// Appends one line.
pub fn push_line(lines: &mut Vec<String>, line: String)
    ensures
        final(lines).deep_view() == old(lines).deep_view().push(line@),
{
    lines.push(line);
    proof {
        assert(lines.deep_view() =~= old(lines).deep_view().push(line@));
    }
}

/// Whether the two texts hold the same lines.
pub fn same_lines(a: &Vec<String>, b: &Vec<String>) -> (r: bool)
    ensures
        r == (a.deep_view() == b.deep_view()),
{
    if a.len() != b.len() {
        proof {
            assert(a.deep_view().len() != b.deep_view().len());
        }
        return false;
    }
    let mut i: usize = 0;
    while i < a.len()
        invariant
            i <= a@.len(),
            a@.len() == b@.len(),
            forall|k: int| 0 <= k < i ==> (#[trigger] a@[k])@ == b@[k]@,
        decreases a@.len() - i,
    {
        if a[i] != b[i] {
            proof {
                assert(a.deep_view()[i as int] != b.deep_view()[i as int]);
            }
            return false;
        }
        i += 1;
    }
    proof {
        assert(a.deep_view() =~= b.deep_view());
    }
    true
}

} // verus!
