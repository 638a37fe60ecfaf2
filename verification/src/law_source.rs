//! What an edit does to the whole source: which RIF it is about, and what a new name takes along.
use vstd::prelude::*;
use crate::action::EditActionView;
use crate::apply::{applied, rif_applied, Applied, FollowView, RifApplied};
use crate::law_rif::rif_edit;
use crate::model::rif::{PathEntryView, RifEntryView, SourceView, TopView};
use crate::rename::{bare_name, path_keyed, paths_renamed, rif_renamed};
use crate::search::{first, lemma_first, lemma_is_first, lemma_no_first};
use crate::source::{locate_alias, locate_rif, rif_aliases, rif_keyed};
use crate::vals::RifDefValsView;

verus! {

/// Whether a RIF is known under a name at a place, and no other in front of it.
pub open spec fn is_keyed(src: SourceView, key: Seq<char>, k: int) -> bool {
    &&& 0 <= k < src.rifs.len()
    &&& src.rifs[k].key == key
    &&& forall|j: int| 0 <= j < k ==> (#[trigger] src.rifs[j]).key != key
}

/// Whether no RIF is known under a name.
pub open spec fn not_keyed(src: SourceView, key: Seq<char>) -> bool {
    forall|j: int| 0 <= j < src.rifs.len() ==> (#[trigger] src.rifs[j]).key != key
}

proof fn lemma_keyed(src: SourceView, key: Seq<char>)
    ensures
        forall|k: int| #[trigger] is_keyed(src, key, k) ==> first(src.rifs, rif_keyed(key)) == Some(k),
        not_keyed(src, key) ==> first(src.rifs, rif_keyed(key)) is None,
        first(src.rifs, rif_keyed(key)) is None ==> not_keyed(src, key),
        first(src.rifs, rif_keyed(key)) matches Some(k) ==> is_keyed(src, key, k),
{
    let q = rif_keyed(key);
    lemma_first(src.rifs, q);
    assert forall|k: int| #[trigger] is_keyed(src, key, k) implies first(src.rifs, q) == Some(k) by {
        lemma_is_first(src.rifs, q, k);
    }
    if not_keyed(src, key) {
        lemma_no_first(src.rifs, q);
    }
    match first(src.rifs, q) {
        None => {
            assert forall|j: int| 0 <= j < src.rifs.len() implies (#[trigger] src.rifs[j]).key != key by {
                assert(!q(src.rifs[j]));
            }
        },
        Some(k) => {
            assert forall|j: int| 0 <= j < k implies (#[trigger] src.rifs[j]).key != key by {
                assert(!q(src.rifs[j]));
            }
        },
    }
}

/// A RIF is found under its own name first. Otherwise it is found with `_rif` or `_rif_mux` behind the
/// name, or `rif_` or `rif_mux_` in front of it, in that order; and where there is none of these, there
/// is no RIF.
pub proof fn a_rif_is_found_under_its_names(src: SourceView, name: Seq<char>, k: int)
    ensures
        is_keyed(src, name, k) ==> locate_rif(src.rifs, name) == Some(k),
        not_keyed(src, name) ==> {
            &&& is_keyed(src, name + "_rif"@, k) ==> locate_rif(src.rifs, name) == Some(k)
            &&& not_keyed(src, name + "_rif"@) ==> {
                &&& is_keyed(src, name + "_rif_mux"@, k) ==> locate_rif(src.rifs, name) == Some(k)
                &&& not_keyed(src, name + "_rif_mux"@) ==> {
                    &&& is_keyed(src, "rif_"@ + name, k) ==> locate_rif(src.rifs, name) == Some(k)
                    &&& not_keyed(src, "rif_"@ + name) ==> {
                        &&& is_keyed(src, "rif_mux_"@ + name, k) ==> locate_rif(src.rifs, name) == Some(k)
                        &&& not_keyed(src, "rif_mux_"@ + name) ==> locate_rif(src.rifs, name) is None
                    }
                }
            }
        },
{
    let a = rif_aliases(name);
    lemma_keyed(src, name);
    lemma_keyed(src, name + "_rif"@);
    lemma_keyed(src, name + "_rif_mux"@);
    lemma_keyed(src, "rif_"@ + name);
    lemma_keyed(src, "rif_mux_"@ + name);
    assert(a.len() == 5);
    assert(a[0] == name && a[1] == name + "_rif"@ && a[2] == name + "_rif_mux"@ && a[3] == "rif_"@ + name && a[4]
        == "rif_mux_"@ + name);
    assert(locate_alias(src.rifs, a, 5) is None);
    let l4 = locate_alias(src.rifs, a, 4);
    let l3 = locate_alias(src.rifs, a, 3);
    let l2 = locate_alias(src.rifs, a, 2);
    let l1 = locate_alias(src.rifs, a, 1);
    let l0 = locate_alias(src.rifs, a, 0);
    assert(l4 == match first(src.rifs, rif_keyed(a[4])) {
        Some(x) => Some(x),
        None => None,
    });
    assert(l3 == match first(src.rifs, rif_keyed(a[3])) {
        Some(x) => Some(x),
        None => l4,
    });
    assert(l2 == match first(src.rifs, rif_keyed(a[2])) {
        Some(x) => Some(x),
        None => l3,
    });
    assert(l1 == match first(src.rifs, rif_keyed(a[1])) {
        Some(x) => Some(x),
        None => l2,
    });
    assert(l0 == match first(src.rifs, rif_keyed(a[0])) {
        Some(x) => Some(x),
        None => l1,
    });
}

/// The RIF that an edit is about.
pub open spec fn about(a: EditActionView) -> Seq<char> {
    match a {
        EditActionView::UpdateField { rif_type, .. } => rif_type,
        EditActionView::AddField { rif_type, .. } => rif_type,
        EditActionView::DeleteField { rif_type, .. } => rif_type,
        EditActionView::MoveField { rif_type, .. } => rif_type,
        EditActionView::UpdateEnum { rif_type, .. } => rif_type,
        EditActionView::UpdateRegDef { rif_type, .. } => rif_type,
        EditActionView::ConvertPageToManual { rif_type, .. } => rif_type,
        EditActionView::SwapRegAddr { rif_type, .. } => rif_type,
        EditActionView::UpdateRegDefWithMoves { rif_type, .. } => rif_type,
        EditActionView::UpdateRegInstArray { rif_type, .. } => rif_type,
        EditActionView::AddRegister { rif_type, .. } => rif_type,
        EditActionView::DeleteRegister { rif_type, .. } => rif_type,
        EditActionView::UpdateRegIntrDesc { rif_type, .. } => rif_type,
        EditActionView::UpdateFieldIntrDesc { rif_type, .. } => rif_type,
        EditActionView::UpdateRegOverride { rif_type, .. } => rif_type,
        EditActionView::UpdateFieldOverride { rif_type, .. } => rif_type,
        EditActionView::UpdateRifDef { rif_type, .. } => rif_type,
        EditActionView::UpdateRifClocking { rif_type, .. } => rif_type,
        EditActionView::UpdateRifParamsAndGenerics { rif_type, .. } => rif_type,
    }
}

/// Whether an edit gives its RIF another name.
pub open spec fn renames(a: EditActionView) -> bool {
    a matches EditActionView::UpdateRifDef { rif_type, vals } && vals.name != rif_type
}

/// An edit that gives its RIF no other name changes that RIF alone, the way the edit is made within it.
/// Where it has nothing to work on, or is refused there, the source stays.
pub proof fn edit_changes_its_rif_alone(src: SourceView, a: EditActionView, k: int)
    requires
        is_keyed(src, about(a), k),
        !renames(a),
    ensures
        match rif_applied(src.rifs[k].rif, a) {
            RifApplied::Staged(o, f) => applied(src, a) matches Applied::Staged(s, records, follow) && {
                &&& s == (SourceView {
                    rifs: src.rifs.update(k, RifEntryView { key: src.rifs[k].key, rif: o.rif }),
                    ..src
                })
                &&& records == o.records
                &&& follow == f
            },
            RifApplied::Refused(e) => applied(src, a) == Applied::Refused(e),
            RifApplied::Nothing => applied(src, a) is Nothing,
        },
{
    a_rif_is_found_under_its_names(src, about(a), k);
    assert(a.target() == about(a));
}

/// Where no RIF is known under the name, there is nothing to edit.
pub proof fn edit_needs_its_rif(src: SourceView, a: EditActionView)
    requires
        locate_rif(src.rifs, about(a)) is None,
    ensures
        applied(src, a) is Nothing,
{
    assert(a.target() == about(a));
}

/// A RIF is not given the name of another one.
pub proof fn taken_name_is_refused(
    src: SourceView,
    rif_type: Seq<char>,
    v: RifDefValsView,
    k: int,
    j: int,
)
    requires
        is_keyed(src, rif_type, k),
        v.name != rif_type,
        0 <= j < src.rifs.len(),
        src.rifs[j].key == v.name,
    ensures
        applied(src, EditActionView::UpdateRifDef { rif_type, vals: v }) == Applied::Refused(
            "A RIF named '"@ + v.name + "' already exists"@,
        ),
{
    a_rif_is_found_under_its_names(src, rif_type, k);
    lemma_keyed(src, v.name);
    assert(!not_keyed(src, v.name)) by {
        assert(src.rifs[j].key == v.name);
    }
}

/// The directory that is listed for a file, by the name of the RIF without its mark.
pub open spec fn listed(s: Seq<PathEntryView>, key: Seq<char>, dir: Seq<char>) -> bool {
    exists|i: int|
        0 <= i < s.len() && (#[trigger] s[i]).key == key && s[i].dir == dir && forall|j: int|
            0 <= j < i ==> (#[trigger] s[j]).key != key
}

proof fn lemma_paths(s: Seq<PathEntryView>, old_key: Seq<char>, new_key: Seq<char>, dir: Seq<char>)
    requires
        listed(s, old_key, dir),
    ensures
        listed(paths_renamed(s, old_key, new_key), new_key, dir),
{
    let q = path_keyed(old_key);
    let k = choose|i: int|
        0 <= i < s.len() && (#[trigger] s[i]).key == old_key && s[i].dir == dir && forall|j: int|
            0 <= j < i ==> (#[trigger] s[j]).key != old_key;
    assert forall|j: int| 0 <= j < k implies !q(#[trigger] s[j]) by {}
    lemma_is_first(s, q, k);
    let rest = s.remove(k);
    let t = paths_renamed(s, old_key, new_key);
    let r = path_keyed(new_key);
    lemma_first(rest, r);
    match first(rest, r) {
        Some(m) => {
            assert(t[m].key == new_key && t[m].dir == dir);
            assert forall|j: int| 0 <= j < m implies (#[trigger] t[j]).key != new_key by {
                assert(t[j] == rest[j]);
                assert(!r(rest[j]));
            }
        },
        None => {
            let m = rest.len() as int;
            assert(t[m].key == new_key && t[m].dir == dir);
            assert forall|j: int| 0 <= j < m implies (#[trigger] t[j]).key != new_key by {
                assert(t[j] == rest[j]);
                assert(!r(rest[j]));
            }
        },
    }
}

/// A RIF that gets a new name is known under it then, with the values of the edit; the top and every
/// item of a multiplexer that named it name it so, and the directory of its file is listed under the
/// new name. All other RIFs, and what else multiplexers hold, stay as they are, and the selection and the
/// owner of the edits follow.
pub proof fn new_name_is_used_everywhere(
    src: SourceView,
    rif_type: Seq<char>,
    v: RifDefValsView,
    k: int,
)
    requires
        is_keyed(src, rif_type, k),
        v.name != rif_type,
        not_keyed(src, v.name),
    ensures
        applied(src, EditActionView::UpdateRifDef { rif_type, vals: v }) matches Applied::Staged(s, records, follow) && {
            &&& follow == (FollowView::RifUpdated { new_name: Some(v.name) })
            &&& s.rifs.len() == src.rifs.len()
            &&& s.rifs[k].key == v.name
            &&& rif_edit(src.rifs[k].rif, v) matches RifApplied::Staged(o, _) && s.rifs[k].rif == o.rif && records
                == o.records
            &&& forall|j: int| 0 <= j < src.rifs.len() && j != k ==> #[trigger] s.rifs[j] == src.rifs[j]
            &&& src.top == TopView::Rif(rif_type) ==> s.top == TopView::Rif(v.name)
            &&& src.top != TopView::Rif(rif_type) ==> s.top == src.top
            &&& s.rifmux.len() == src.rifmux.len()
            &&& forall|m: int|
                0 <= m < src.rifmux.len() ==> (#[trigger] s.rifmux[m]).name == src.rifmux[m].name
                    && s.rifmux[m].items.len() == src.rifmux[m].items.len()
            &&& forall|m: int, i: int|
                0 <= m < src.rifmux.len() && 0 <= i < src.rifmux[m].items.len() ==> {
                    let was = src.rifmux[m].items[i];
                    let now = #[trigger] s.rifmux[m].items[i];
                    &&& was.rif == Some(rif_type) ==> now.rif == Some(v.name)
                    &&& was.rif != Some(rif_type) ==> now == was
                }
            &&& forall|dir: Seq<char>|
                listed(src.paths, bare_name(rif_type), dir) ==> #[trigger] listed(s.paths, bare_name(v.name), dir)
        },
{
    a_rif_is_found_under_its_names(src, rif_type, k);
    lemma_keyed(src, v.name);
    let a = EditActionView::UpdateRifDef { rif_type, vals: v };
    let o = rif_edit(src.rifs[k].rif, v)->Staged_0;
    let mid = crate::apply::with_rif(src, k, o.rif);
    lemma_keyed(mid, rif_type);
    assert(is_keyed(mid, rif_type, k)) by {
        assert forall|j: int| 0 <= j < k implies (#[trigger] mid.rifs[j]).key != rif_type by {
            assert(mid.rifs[j] == src.rifs[j]);
        }
    }
    let s = rif_renamed(mid, rif_type, v.name);
    assert(applied(src, a) == Applied::Staged(
        s,
        o.records,
        FollowView::RifUpdated { new_name: Some(v.name) },
    ));
    assert forall|dir: Seq<char>| listed(src.paths, bare_name(rif_type), dir) implies #[trigger] listed(
        s.paths,
        bare_name(v.name),
        dir,
    ) by {
        lemma_paths(src.paths, bare_name(rif_type), bare_name(v.name), dir);
    }
}

/// The name of a RIF without its mark: `rif_` or `rifmux_` in front of it, or `_rif` or `_rifmux` behind
/// it. A name without a mark stays.
pub proof fn marks_are_left_off(s: Seq<char>)
    ensures
        bare_name("rif_"@ + s) == s,
        bare_name(s).len() <= s.len(),
        !"rif_"@.is_prefix_of(s + "_rif"@) ==> bare_name(s + "_rif"@) == s,
        ("rif_"@.is_prefix_of(s) || "_rif"@.is_suffix_of(s) || "rifmux_"@.is_prefix_of(s) || "_rifmux"@.is_suffix_of(
            s,
        )) || bare_name(s) == s,
{
    reveal_strlit("rif_");
    reveal_strlit("_rif");
    reveal_strlit("rifmux_");
    reveal_strlit("_rifmux");
    let a = "rif_"@ + s;
    assert("rif_"@.is_prefix_of(a)) by {
        assert(a.subrange(0, 4) =~= "rif_"@);
    }
    assert(a.skip(4) =~= s);
    let b = s + "_rif"@;
    assert("_rif"@.is_suffix_of(b)) by {
        assert(b.subrange(b.len() - 4, b.len() as int) =~= "_rif"@);
    }
    assert(b.take(b.len() - 4) =~= s);
}

} // verus!
