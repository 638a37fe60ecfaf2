//! What becomes of the lines of a file, by the changes that are made to it.
use vstd::prelude::*;
use crate::law_lines::stand_at;
use crate::lines::{find_from, joined, lemma_find_bound, split};
use crate::plan::{inserted, piece, pieces, rebuilt, removed, replaced, OpView};

verus! {

proof fn lemma_inserted(ops: Seq<OpView>, i: int, n: int, k: int, ls: Seq<Seq<char>>) -> (at: int)
    requires
        0 <= k < n <= ops.len(),
        ops[k] == OpView::Insert(i, ls),
    ensures
        stand_at(inserted(ops, i, n), at, ls),
    decreases n,
{
    let before = inserted(ops, i, n - 1);
    let all = inserted(ops, i, n);
    if k == n - 1 {
        assert forall|j: int| 0 <= j < ls.len() implies #[trigger] all[before.len() + j] == ls[j] by {}
        before.len() as int
    } else {
        let at = lemma_inserted(ops, i, n - 1, k, ls);
        assert forall|j: int| 0 <= j < ls.len() implies #[trigger] all[at + j] == ls[j] by {
            assert(before[at + j] == ls[j]);
        }
        at
    }
}

proof fn lemma_piece_stands(orig: Seq<Seq<char>>, ops: Seq<OpView>, i: int, n: int)
    requires
        0 <= i < n,
    ensures
        stand_at(pieces(orig, ops, n), pieces(orig, ops, i).len() as int, piece(orig, ops, i)),
    decreases n,
{
    let (a, b) = (pieces(orig, ops, n - 1), pieces(orig, ops, n));
    let at = pieces(orig, ops, i).len() as int;
    let p = piece(orig, ops, i);
    if i == n - 1 {
        assert forall|j: int| 0 <= j < p.len() implies #[trigger] b[at + j] == p[j] by {}
    } else {
        lemma_piece_stands(orig, ops, i, n - 1);
        assert forall|j: int| 0 <= j < p.len() implies #[trigger] b[at + j] == p[j] by {
            assert(a[at + j] == p[j]);
        }
    }
}

/// Lines that are put somewhere into a file are in it then, one behind the other.
pub proof fn lines_that_are_put_are_there(orig: Seq<Seq<char>>, ops: Seq<OpView>, i: int, ls: Seq<Seq<char>>)
    requires
        ops.contains(OpView::Insert(i, ls)),
        0 <= i <= orig.len(),
    ensures
        exists|at: int| #[trigger] stand_at(rebuilt(orig, ops), at, ls),
{
    let k = choose|k: int| 0 <= k < ops.len() && ops[k] == OpView::Insert(i, ls);
    let n = ops.len() as int;
    let at = lemma_inserted(ops, i, n, k, ls);
    let put = inserted(ops, i, n);
    let r = rebuilt(orig, ops);
    let body = pieces(orig, ops, orig.len() as int);
    if i < orig.len() {
        lemma_piece_stands(orig, ops, i, orig.len() as int);
        let p = piece(orig, ops, i);
        let start = pieces(orig, ops, i).len() as int;
        assert forall|j: int| 0 <= j < ls.len() implies #[trigger] r[start + at + j] == ls[j] by {
            assert(put[at + j] == ls[j]);
            assert(p[at + j] == put[at + j]);
            assert(body[start + (at + j)] == p[at + j]);
        }
        assert(stand_at(r, start + at, ls));
    } else {
        assert forall|j: int| 0 <= j < ls.len() implies #[trigger] r[body.len() + at + j] == ls[j] by {
            assert(put[at + j] == ls[j]);
        }
        assert(stand_at(r, body.len() + at, ls));
    }
}

proof fn lemma_not_removed(ops: Seq<OpView>, i: int, n: int)
    requires
        0 <= n <= ops.len(),
        !ops.contains(OpView::Delete(i)),
    ensures
        !removed(ops, i, n),
    decreases n,
{
    if n > 0 {
        lemma_not_removed(ops, i, n - 1);
        assert(ops[n - 1] != OpView::Delete(i)) by {
            if ops[n - 1] == OpView::Delete(i) {
                assert(ops.contains(OpView::Delete(i)));
            }
        }
    }
}

proof fn lemma_replaced(ops: Seq<OpView>, i: int, n: int, t: Seq<char>)
    requires
        0 <= n <= ops.len(),
        forall|k: int| 0 <= k < n ==> ((#[trigger] ops[k]) matches OpView::Replace(j, u) ==> j == i ==> u == t),
    ensures
        replaced(ops, i, n) matches Some(u) ==> u == t,
        (exists|k: int| 0 <= k < n && #[trigger] ops[k] == OpView::Replace(i, t)) ==> replaced(ops, i, n) == Some(t),
    decreases n,
{
    if n > 0 {
        lemma_replaced(ops, i, n - 1, t);
    }
}

/// A line that is written anew, and not taken away, stands in its place with the new text.
pub proof fn rewritten_line_is_there(orig: Seq<Seq<char>>, ops: Seq<OpView>, i: int, t: Seq<char>)
    requires
        0 <= i < orig.len(),
        ops.contains(OpView::Replace(i, t)),
        !ops.contains(OpView::Delete(i)),
        forall|u: Seq<char>| #[trigger] ops.contains(OpView::Replace(i, u)) ==> u == t,
    ensures
        ({
            let at = pieces(orig, ops, i + 1).len() - 1;
            0 <= at < rebuilt(orig, ops).len() && rebuilt(orig, ops)[at] == t
        }),
{
    let n = ops.len() as int;
    lemma_not_removed(ops, i, n);
    assert forall|k: int| 0 <= k < n implies ((#[trigger] ops[k]) matches OpView::Replace(j, u) ==> j == i ==> u == t) by {
        if let OpView::Replace(j, u) = ops[k] {
            if j == i {
                assert(ops.contains(OpView::Replace(i, u)));
            }
        }
    }
    lemma_replaced(ops, i, n, t);
    assert(replaced(ops, i, n) == Some(t)) by {
        let k = choose|k: int| 0 <= k < ops.len() && ops[k] == OpView::Replace(i, t);
        assert(ops[k] == OpView::Replace(i, t));
    }
    let p = piece(orig, ops, i);
    assert(p.last() == t && p.len() > 0);
    lemma_piece_stands(orig, ops, i, orig.len() as int);
    let start = pieces(orig, ops, i).len() as int;
    let body = pieces(orig, ops, orig.len() as int);
    assert(body[start + (p.len() - 1)] == p[p.len() - 1]);
}

proof fn lemma_removed_piece(ops: Seq<OpView>, i: int, n: int, k: int)
    requires
        0 <= k < n <= ops.len(),
        ops[k] == OpView::Delete(i),
    ensures
        removed(ops, i, n),
    decreases n,
{
    if k < n - 1 {
        lemma_removed_piece(ops, i, n - 1, k);
    }
}

proof fn lemma_same_pieces(a: Seq<Seq<char>>, b: Seq<Seq<char>>, ops: Seq<OpView>, n: int)
    requires
        0 <= n,
        forall|i: int| 0 <= i < n ==> #[trigger] piece(a, ops, i) == piece(b, ops, i),
    ensures
        pieces(a, ops, n) == pieces(b, ops, n),
    decreases n,
{
    if n > 0 {
        lemma_same_pieces(a, b, ops, n - 1);
        assert(piece(a, ops, n - 1) == piece(b, ops, n - 1));
    }
}

/// Nothing is left of a line that is taken away: the file comes out the same, whatever it said.
pub proof fn deleted_line_leaves_nothing(orig: Seq<Seq<char>>, ops: Seq<OpView>, i: int, other: Seq<char>)
    requires
        0 <= i < orig.len(),
        ops.contains(OpView::Delete(i)),
    ensures
        rebuilt(orig, ops) == rebuilt(orig.update(i, other), ops),
        pieces(orig, ops, i + 1) == pieces(orig, ops, i) + inserted(ops, i, ops.len() as int),
{
    let k = choose|k: int| 0 <= k < ops.len() && ops[k] == OpView::Delete(i);
    lemma_removed_piece(ops, i, ops.len() as int, k);
    let b = orig.update(i, other);
    assert forall|j: int| 0 <= j < orig.len() implies #[trigger] piece(orig, ops, j) == piece(b, ops, j) by {}
    lemma_same_pieces(orig, b, ops, orig.len() as int);
    assert(piece(orig, ops, i) =~= inserted(ops, i, ops.len() as int));
}

proof fn lemma_one_op(op: OpView, i: int)
    ensures
        inserted(seq![op], i, 1) =~= (match op {
            OpView::Insert(k, ls) => if k == i {
                ls
            } else {
                seq![]
            },
            _ => seq![],
        }),
        removed(seq![op], i, 1) == (op == OpView::Delete(i)),
        replaced(seq![op], i, 1) == (match op {
            OpView::Replace(k, t) => if k == i {
                Some(t)
            } else {
                None
            },
            _ => None,
        }),
{
    let ops = seq![op];
    assert(ops[0] == op);
    assert(inserted(ops, i, 0) =~= seq![]);
    assert(!removed(ops, i, 0));
    assert(replaced(ops, i, 0) is None);
    assert(inserted(ops, i, 1) =~= match op {
        OpView::Insert(k, ls) if k == i => inserted(ops, i, 0) + ls,
        _ => inserted(ops, i, 0),
    });
}

proof fn lemma_one_change(orig: Seq<Seq<char>>, op: OpView, n: int)
    requires
        0 <= n <= orig.len(),
    ensures
        pieces(orig, seq![op], n) =~= (match op {
            OpView::Replace(k, t) => if 0 <= k < n {
                orig.take(n).update(k, t)
            } else {
                orig.take(n)
            },
            OpView::Delete(k) => if 0 <= k < n {
                orig.take(n).remove(k)
            } else {
                orig.take(n)
            },
            OpView::Insert(k, ls) => if 0 <= k < n {
                orig.take(k) + ls + orig.take(n).skip(k)
            } else {
                orig.take(n)
            },
        }),
    decreases n,
{
    if n > 0 {
        lemma_one_change(orig, op, n - 1);
        lemma_one_op(op, n - 1);
        let p = piece(orig, seq![op], n - 1);
        assert(seq![op].len() == 1);
        assert(pieces(orig, seq![op], n) == pieces(orig, seq![op], n - 1) + p);
    }
}

/// A single change does to the lines of a file what it says.
pub proof fn a_change_does_what_it_says(orig: Seq<Seq<char>>, i: int, t: Seq<char>, ls: Seq<Seq<char>>)
    requires
        0 <= i < orig.len(),
    ensures
        rebuilt(orig, seq![OpView::Replace(i, t)]) == orig.update(i, t),
        rebuilt(orig, seq![OpView::Delete(i)]) == orig.remove(i),
        rebuilt(orig, seq![OpView::Insert(i, ls)]) == orig.take(i) + ls + orig.skip(i),
        rebuilt(orig, seq![OpView::Insert(orig.len() as int, ls)]) == orig + ls,
{
    let n = orig.len() as int;
    assert(orig.take(n) =~= orig);
    lemma_one_change(orig, OpView::Replace(i, t), n);
    lemma_one_op(OpView::Replace(i, t), n);
    assert(rebuilt(orig, seq![OpView::Replace(i, t)]) =~= orig.update(i, t));
    lemma_one_change(orig, OpView::Delete(i), n);
    lemma_one_op(OpView::Delete(i), n);
    assert(rebuilt(orig, seq![OpView::Delete(i)]) =~= orig.remove(i));
    lemma_one_change(orig, OpView::Insert(i, ls), n);
    lemma_one_op(OpView::Insert(i, ls), n);
    assert(rebuilt(orig, seq![OpView::Insert(i, ls)]) =~= orig.take(i) + ls + orig.skip(i));
    lemma_one_change(orig, OpView::Insert(n, ls), n);
    lemma_one_op(OpView::Insert(n, ls), n);
    assert(rebuilt(orig, seq![OpView::Insert(n, ls)]) =~= orig + ls);
}

/// Lines that are put at the same place stand there in the order in which they are put.
pub proof fn lines_are_put_in_order(
    orig: Seq<Seq<char>>,
    i: int,
    a: Seq<Seq<char>>,
    b: Seq<Seq<char>>,
)
    requires
        0 <= i < orig.len(),
    ensures
        rebuilt(orig, seq![OpView::Insert(i, a), OpView::Insert(i, b)]) == rebuilt(orig, seq![OpView::Insert(i, a + b)]),
{
    let two = seq![OpView::Insert(i, a), OpView::Insert(i, b)];
    let one = seq![OpView::Insert(i, a + b)];
    assert forall|j: int| inserted(two, j, 2) =~= #[trigger] inserted(one, j, 1) && !removed(two, j, 2) && !removed(
        one,
        j,
        1,
    ) && replaced(two, j, 2) is None && replaced(one, j, 1) is None by {
        lemma_one_op(OpView::Insert(i, a + b), j);
        assert(two[0] == OpView::Insert(i, a));
        assert(two[1] == OpView::Insert(i, b));
        assert(inserted(two, j, 0) =~= seq![]);
        assert(inserted(two, j, 1) =~= if j == i { a } else { seq![] });
        assert(inserted(two, j, 2) =~= if j == i { a + b } else { seq![] });
        assert(!removed(two, j, 0));
        assert(!removed(two, j, 1));
        assert(!removed(two, j, 2));
        assert(replaced(two, j, 0) is None);
        assert(replaced(two, j, 1) is None);
        assert(replaced(two, j, 2) is None);
    }
    assert forall|j: int| 0 <= j < orig.len() implies piece(orig, two, j) == #[trigger] piece(orig, one, j) by {
        assert(inserted(two, j, 2) =~= inserted(one, j, 1));
        assert(two.len() == 2 && one.len() == 1);
    }
    lemma_two_plans(orig, two, one, orig.len() as int);
    assert(inserted(two, orig.len() as int, 2) =~= inserted(one, orig.len() as int, 1));
}

proof fn lemma_two_plans(orig: Seq<Seq<char>>, a: Seq<OpView>, b: Seq<OpView>, n: int)
    requires
        0 <= n,
        forall|j: int| 0 <= j < n ==> piece(orig, a, j) == #[trigger] piece(orig, b, j),
    ensures
        pieces(orig, a, n) == pieces(orig, b, n),
    decreases n,
{
    if n > 0 {
        lemma_two_plans(orig, a, b, n - 1);
        assert(piece(orig, a, n - 1) == piece(orig, b, n - 1));
    }
}

proof fn lemma_find_first(s: Seq<char>, sep: Seq<char>, i: int)
    requires
        0 <= i,
    ensures
        find_from(s, sep, i) matches Some(k) ==> forall|j: int|
            i <= j < k ==> (#[trigger] s.subrange(j, j + sep.len())) != sep,
        find_from(s, sep, i) is None ==> forall|j: int|
            i <= j && j + sep.len() <= s.len() ==> (#[trigger] s.subrange(j, j + sep.len())) != sep,
    decreases s.len() + 1 - i,
{
    if i + sep.len() <= s.len() && s.subrange(i, i + sep.len()) != sep {
        lemma_find_first(s, sep, i + 1);
    }
}

/// The parts of a text that is split at a character do not hold that character; put together again
/// they are the text.
pub proof fn split_parts_hold_no_separator(s: Seq<char>, c: char)
    ensures
        forall|i: int| 0 <= i < split(s, seq![c]).len() ==> !(#[trigger] split(s, seq![c])[i]).contains(c),
        joined(split(s, seq![c]), seq![c]) == s,
    decreases s.len(),
{
    let sep = seq![c];
    crate::lines::join_undoes_split(s, sep);
    lemma_find_bound(s, sep, 0);
    lemma_find_first(s, sep, 0);
    match find_from(s, sep, 0) {
        None => {
            assert forall|j: int| 0 <= j < s.len() implies s[j] != c by {
                assert(s.subrange(j, j + 1) != sep);
                if s[j] == c {
                    assert(s.subrange(j, j + 1) =~= sep);
                }
            }
        },
        Some(k) => {
            let head = s.take(k);
            assert forall|j: int| 0 <= j < head.len() implies head[j] != c by {
                assert(s.subrange(j, j + 1) != sep);
                if s[j] == c {
                    assert(s.subrange(j, j + 1) =~= sep);
                }
            }
            let rest = s.skip(k + 1);
            split_parts_hold_no_separator(rest, c);
            let all = split(s, sep);
            assert(all == seq![head] + split(rest, sep));
            assert forall|i: int| 0 <= i < all.len() implies !(#[trigger] all[i]).contains(c) by {
                if i > 0 {
                    assert(all[i] == split(rest, sep)[i - 1]);
                }
            }
        },
    }
}

} // verus!
