//! Names that are not taken yet.
use vstd::prelude::*;
use vstd::set_lib::lemma_len_subset;
use crate::number::{decimal, lemma_digits_read_back, show_unsigned};
use crate::text::join;

verus! {

/// The `i`-th candidate for a name: the stem itself, then the stem with a number.
pub open spec fn candidate(stem: Seq<char>, i: nat) -> Seq<char> {
    if i == 0 {
        stem
    } else {
        stem + "_"@ + decimal(i as int)
    }
}

/// Whether the `i`-th candidate is the first one that is free.
pub open spec fn first_free(taken: Seq<Seq<char>>, stem: Seq<char>, i: nat) -> bool {
    &&& !taken.contains(candidate(stem, i))
    &&& forall|j: nat| j < i ==> taken.contains(#[trigger] candidate(stem, j))
}

/// The first candidate that is free.
pub open spec fn free_name(taken: Seq<Seq<char>>, stem: Seq<char>) -> Seq<char> {
    candidate(stem, choose|i: nat| first_free(taken, stem, i))
}

/// Numbered names differ.
proof fn lemma_candidates_differ(stem: Seq<char>, i: nat, j: nat)
    requires
        i != j,
    ensures
        candidate(stem, i) != candidate(stem, j),
{
    reveal_strlit("_");
    if i == 0 || j == 0 {
        let k = if i == 0 {
            j
        } else {
            i
        };
        lemma_digits_read_back(k, 10);
        assert(candidate(stem, k).len() > stem.len());
    } else {
        if candidate(stem, i) == candidate(stem, j) {
            let n = (stem + "_"@).len() as int;
            assert(candidate(stem, i).skip(n) =~= decimal(i as int));
            assert(candidate(stem, j).skip(n) =~= decimal(j as int));
            lemma_digits_read_back(i, 10);
            lemma_digits_read_back(j, 10);
        }
    }
}

/// There is only one first free candidate.
pub proof fn lemma_first_free(taken: Seq<Seq<char>>, stem: Seq<char>, i: nat)
    requires
        first_free(taken, stem, i),
    ensures
        free_name(taken, stem) == candidate(stem, i),
{
    let k = choose|k: nat| first_free(taken, stem, k);
    assert(first_free(taken, stem, k));
    if k < i {
        assert(taken.contains(candidate(stem, k)));
    } else if i < k {
        assert(taken.contains(candidate(stem, i)));
    }
}

proof fn lemma_search(taken: Seq<Seq<char>>, stem: Seq<char>, i: nat, seen: Set<Seq<char>>) -> (r: nat)
    requires
        i <= taken.len(),
        seen.finite(),
        seen.len() == i,
        forall|x: Seq<char>| seen.contains(x) ==> taken.contains(x),
        forall|x: Seq<char>| seen.contains(x) ==> exists|j: nat| j < i && x == #[trigger] candidate(stem, j),
        forall|j: nat| j < i ==> taken.contains(#[trigger] candidate(stem, j)),
    ensures
        first_free(taken, stem, r),
    decreases taken.len() - i,
{
    let name = candidate(stem, i);
    if !taken.contains(name) {
        i
    } else {
        assert(!seen.contains(name)) by {
            if seen.contains(name) {
                let j = choose|j: nat| j < i && name == #[trigger] candidate(stem, j);
                lemma_candidates_differ(stem, i, j);
            }
        }
        let more = seen.insert(name);
        assert forall|x: Seq<char>| more.contains(x) implies exists|j: nat|
            j < i + 1 && x == #[trigger] candidate(stem, j) by {
            if seen.contains(x) {
                let j = choose|j: nat| j < i && x == #[trigger] candidate(stem, j);
                assert(j < i + 1 && x == candidate(stem, j));
            } else {
                assert(x == candidate(stem, i));
            }
        }
        taken.lemma_cardinality_of_set();
        assert(more.subset_of(taken.to_set()));
        vstd::set_lib::lemma_len_subset(more, taken.to_set());
        lemma_search(taken, stem, i + 1, more)
    }
}

/// There always is a free name, and it is not taken. It is the stem, or the stem with a number behind
/// it, and every name with a smaller number is taken.
pub proof fn lemma_free_name_is_free(taken: Seq<Seq<char>>, stem: Seq<char>)
    ensures
        !taken.contains(free_name(taken, stem)),
        free_name(taken, stem) == stem || exists|i: nat|
            i > 0 && free_name(taken, stem) == #[trigger] (stem + "_"@ + decimal(i as int)) && taken.contains(stem)
                && forall|j: nat| 0 < j < i ==> taken.contains(#[trigger] (stem + "_"@ + decimal(j as int))),
{
    let i = lemma_search(taken, stem, 0, Set::empty());
    lemma_first_free(taken, stem, i);
    if i > 0 {
        assert(free_name(taken, stem) == stem + "_"@ + decimal(i as int));
        assert(taken.contains(candidate(stem, 0)));
        assert forall|j: nat| 0 < j < i implies taken.contains(#[trigger] (stem + "_"@ + decimal(j as int))) by {
            assert(taken.contains(candidate(stem, j)));
        }
    }
}

/// Whether `name` is among the names.
pub fn is_taken(taken: &Vec<String>, name: &String) -> (r: bool)
    ensures
        r == taken.deep_view().contains(name@),
{
    let mut i: usize = 0;
    while i < taken.len()
        invariant
            i <= taken@.len(),
            forall|k: int| 0 <= k < i ==> (#[trigger] taken.deep_view()[k]) != name@,
        decreases taken@.len() - i,
    {
        if taken[i] == *name {
            proof {
                assert(taken.deep_view()[i as int] == name@);
            }
            return true;
        }
        i += 1;
    }
    false
}

/// The first free name made from a stem. There always is one, and it is not taken.
pub fn pick_name(taken: &Vec<String>, stem: &str) -> (r: String)
    ensures
        r@ == free_name(taken.deep_view(), stem@),
        !taken.deep_view().contains(r@),
{
    let ghost names = taken.deep_view();
    let n: usize = taken.len();
    let mut i: usize = 0;
    let ghost mut seen: Set<Seq<char>> = Set::empty();
    proof {
        names.lemma_cardinality_of_set();
    }
    loop
        invariant
            i <= n == taken@.len(),
            names == taken.deep_view(),
            names.to_set().len() <= n,
            seen.finite(),
            seen.len() == i,
            forall|x: Seq<char>| seen.contains(x) ==> names.contains(x),
            forall|x: Seq<char>|
                seen.contains(x) ==> exists|j: nat| j < i && x == #[trigger] candidate(stem@, j),
            forall|j: nat| j < i ==> names.contains(#[trigger] candidate(stem@, j)),
        decreases n - i,
    {
        let name = if i == 0 {
            stem.to_owned()
        } else {
            let mut s = join(stem, "_");
            s.append(show_unsigned(i as u128).as_str());
            s
        };
        if !is_taken(taken, &name) {
            proof {
                assert(first_free(names, stem@, i as nat));
                lemma_first_free(names, stem@, i as nat);
            }
            return name;
        }
        proof {
            assert(!seen.contains(name@)) by {
                if seen.contains(name@) {
                    let j = choose|j: nat| j < i && name@ == #[trigger] candidate(stem@, j);
                    lemma_candidates_differ(stem@, i as nat, j);
                }
            }
            let was = seen;
            seen = seen.insert(name@);
            assert forall|x: Seq<char>| seen.contains(x) implies exists|j: nat|
                j < i + 1 && x == #[trigger] candidate(stem@, j) by {
                if was.contains(x) {
                    let j = choose|j: nat| j < i && x == #[trigger] candidate(stem@, j);
                    assert(j < i + 1 && x == candidate(stem@, j));
                } else {
                    assert(x == candidate(stem@, i as nat));
                }
            }
            assert forall|x: Seq<char>| seen.contains(x) implies names.to_set().contains(x) by {
                assert(names.contains(x));
            }
            lemma_len_subset(seen, names.to_set());
        }
        i += 1;
    }
}

} // verus!
