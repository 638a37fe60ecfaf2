//! What edits of instances and of the registers of a page do.
use vstd::prelude::*;
use crate::action::EditActionView;
use crate::apply::{rif_applied, FollowView, RifApplied};
use crate::edits::RecordView;
use crate::law_place::{is_inst, lemma_inst, lemma_no_inst, names_stand_once_or_nowhere, no_inst, places};
use crate::law_reg::reg_edit;
use crate::law_rif::{lemma_both, lemma_only};
use crate::model::page::{InstanceView, PageView};
use crate::model::register::{RegItemView, RegisterDefView};
use crate::model::rif::RifDefView;
use crate::model::values::{
    AddrKind, AddrView, BitPosView, DimView, ExprView, External, InstMode, OffsetView, ResetView, SwKindView,
    Vis, WriteLockView,
};
use crate::reg_update::only_if;
use crate::search::{first, lemma_first, lemma_is_first, lemma_no_first};
use crate::source::{def_named, inst_named, locate_inst, page_named};
use crate::stage_reg::{
    add_reg_outcome, companion_records, companions_moved, convert_outcome, delete_reg_outcome, doomed_def,
    doomed_inst, inst_array_outcome, page_without_inst, references, swap_outcome, update_reg_outcome,
    update_reg_with_moves_outcome, AddRegKindView, CompanionView,
};
use crate::syntax::inst_decl;
use crate::text::trimmed;
use crate::vals::RegDefValsView;

verus! {

/// An address at a fixed place.
pub open spec fn fixed(addr: u64) -> AddrView {
    AddrView { kind: AddrKind::Absolute, offset: OffsetView::Value(addr) }
}

/// Whether two RIFs differ in nothing but the addresses of instances.
pub open spec fn same_but_addresses(a: RifDefView, b: RifDefView) -> bool {
    &&& b == (RifDefView { pages: b.pages, ..a })
    &&& b.pages.len() == a.pages.len()
    &&& forall|q: int|
        0 <= q < a.pages.len() ==> (#[trigger] b.pages[q]) == (PageView {
            instances: b.pages[q].instances,
            ..a.pages[q]
        }) && b.pages[q].instances.len() == a.pages[q].instances.len()
    &&& forall|q: int, k: int|
        0 <= q < a.pages.len() && 0 <= k < a.pages[q].instances.len() ==> (#[trigger] b.pages[q].instances[k]) == (
        InstanceView { addr: b.pages[q].instances[k].addr, ..a.pages[q].instances[k] })
}

/// Whether a companion is the instance at a place.
pub open spec fn moves_inst(rif: RifDefView, c: CompanionView, q: int, k: int) -> bool {
    is_inst(rif, c.name, q, k)
}

/// Whether `b` is `a` with each companion at the address that was given for it: the last one.
pub open spec fn moved_by(a: RifDefView, b: RifDefView, cs: Seq<CompanionView>) -> bool {
    &&& same_but_addresses(a, b)
    &&& forall|j: int, q: int, k: int|
        0 <= j < cs.len() && #[trigger] moves_inst(a, cs[j], q, k) && (forall|i: int|
            j < i < cs.len() ==> !#[trigger] moves_inst(a, cs[i], q, k)) ==> b.pages[q].instances[k].addr == fixed(
            cs[j].addr,
        )
    &&& forall|q: int, k: int|
        0 <= q < a.pages.len() && 0 <= k < a.pages[q].instances.len() && (forall|i: int|
            0 <= i < cs.len() ==> !#[trigger] moves_inst(a, cs[i], q, k)) ==> #[trigger] b.pages[q].instances[k]
            == a.pages[q].instances[k]
}

/// The notes about companions: each of them that is in the file.
pub open spec fn companion_note(a: RifDefView, cs: Seq<CompanionView>, x: RecordView) -> bool {
    x matches RecordView::InstDirty(l) && exists|j: int, q: int, k: int|
        0 <= j < cs.len() && #[trigger] moves_inst(a, cs[j], q, k) && a.pages[q].instances[k].decl_line == Some(l)
}

proof fn lemma_same_places(a: RifDefView, b: RifDefView, name: Seq<char>)
    requires
        same_but_addresses(a, b),
    ensures
        forall|q: int, k: int| #[trigger] is_inst(a, name, q, k) <==> is_inst(b, name, q, k),
        no_inst(a, name) <==> no_inst(b, name),
{
    assert forall|q: int, k: int| #[trigger] places(a, q, k, name) == places(b, q, k, name) by {
        if 0 <= q < a.pages.len() && 0 <= k < a.pages[q].instances.len() {
            assert(b.pages[q].instances[k].inst_name == a.pages[q].instances[k].inst_name);
        }
        if 0 <= q < a.pages.len() {
            assert(b.pages[q].instances.len() == a.pages[q].instances.len());
        }
    }
    assert forall|q: int, k: int| #[trigger] places(b, q, k, name) == places(a, q, k, name) by {
        assert(places(a, q, k, name) == places(b, q, k, name));
    }
    assert forall|q: int, k: int| #[trigger] is_inst(a, name, q, k) implies is_inst(b, name, q, k) by {}
    assert forall|q: int, k: int| #[trigger] is_inst(b, name, q, k) implies is_inst(a, name, q, k) by {}
}

proof fn lemma_unique_inst(rif: RifDefView, name: Seq<char>, q: int, k: int)
    requires
        is_inst(rif, name, q, k),
    ensures
        forall|x: int, y: int| #[trigger] is_inst(rif, name, x, y) ==> x == q && y == k,
{
    lemma_inst(rif, name, q, k);
    assert forall|x: int, y: int| #[trigger] is_inst(rif, name, x, y) implies x == q && y == k by {
        lemma_inst(rif, name, x, y);
    }
}

proof fn lemma_comp_step(a: RifDefView, s: RifDefView, c: CompanionView)
    requires
        same_but_addresses(a, s),
    ensures
        ({
            let t = match locate_inst(s, c.name) {
                Some(at) => crate::source::with_inst(
                    s,
                    at,
                    InstanceView { addr: fixed(c.addr), ..crate::source::inst_at(s, at) },
                ),
                None => s,
            };
            &&& same_but_addresses(a, t)
            &&& forall|q: int, k: int| #[trigger]
                moves_inst(a, c, q, k) ==> locate_inst(s, c.name) == Some((q, k)) && t.pages[q].instances[k].addr
                    == fixed(c.addr)
            &&& forall|q: int, k: int|
                0 <= q < a.pages.len() && 0 <= k < a.pages[q].instances.len() && !moves_inst(a, c, q, k)
                    ==> #[trigger] t.pages[q].instances[k] == s.pages[q].instances[k]
            &&& locate_inst(s, c.name) is None ==> forall|q: int, k: int| !#[trigger] moves_inst(a, c, q, k)
            &&& locate_inst(s, c.name) matches Some(at) ==> moves_inst(a, c, at.0, at.1)
        }),
{
    lemma_same_places(a, s, c.name);
    names_stand_once_or_nowhere(a, c.name);
    if no_inst(a, c.name) {
        lemma_no_inst(s, c.name);
        assert forall|q: int, k: int| !#[trigger] moves_inst(a, c, q, k) by {
            assert(!places(a, q, k, c.name));
        }
    } else {
        let (q, k) = choose|q: int, k: int| #[trigger] is_inst(a, c.name, q, k);
        lemma_unique_inst(a, c.name, q, k);
        assert(is_inst(s, c.name, q, k));
        lemma_inst(s, c.name, q, k);
        assert(moves_inst(a, c, q, k));
    }
}

proof fn lemma_comp_same(a: RifDefView, cs: Seq<CompanionView>, n: int)
    requires
        0 <= n <= cs.len(),
    ensures
        same_but_addresses(a, companions_moved(a, cs, n)),
    decreases n,
{
    if n > 0 {
        lemma_comp_same(a, cs, n - 1);
        lemma_comp_step(a, companions_moved(a, cs, n - 1), cs[n - 1]);
    }
}

proof fn lemma_comp_last(a: RifDefView, cs: Seq<CompanionView>, n: int, j: int, q: int, k: int)
    requires
        0 <= j < n <= cs.len(),
        moves_inst(a, cs[j], q, k),
        forall|i: int| j < i < n ==> !#[trigger] moves_inst(a, cs[i], q, k),
    ensures
        companions_moved(a, cs, n).pages[q].instances[k].addr == fixed(cs[j].addr),
    decreases n,
{
    lemma_comp_same(a, cs, n - 1);
    lemma_comp_step(a, companions_moved(a, cs, n - 1), cs[n - 1]);
    if j < n - 1 {
        lemma_comp_last(a, cs, n - 1, j, q, k);
        assert(!moves_inst(a, cs[n - 1], q, k));
    }
}

proof fn lemma_comp_none(a: RifDefView, cs: Seq<CompanionView>, n: int, q: int, k: int)
    requires
        0 <= n <= cs.len(),
        0 <= q < a.pages.len(),
        0 <= k < a.pages[q].instances.len(),
        forall|i: int| 0 <= i < n ==> !#[trigger] moves_inst(a, cs[i], q, k),
    ensures
        companions_moved(a, cs, n).pages[q].instances[k] == a.pages[q].instances[k],
    decreases n,
{
    if n > 0 {
        lemma_comp_same(a, cs, n - 1);
        lemma_comp_step(a, companions_moved(a, cs, n - 1), cs[n - 1]);
        lemma_comp_none(a, cs, n - 1, q, k);
        assert(!moves_inst(a, cs[n - 1], q, k));
    }
}

proof fn lemma_comp_notes(a: RifDefView, cs: Seq<CompanionView>, n: int, x: RecordView)
    requires
        0 <= n <= cs.len(),
    ensures
        companion_records(a, cs, n).contains(x) <==> companion_note(a, cs.take(n), x),
    decreases n,
{
    if n > 0 {
        lemma_comp_notes(a, cs, n - 1, x);
        lemma_comp_same(a, cs, n - 1);
        let s = companions_moved(a, cs, n - 1);
        lemma_comp_step(a, s, cs[n - 1]);
        lemma_note_grows(a, cs, n, x);
        let head = companion_records(a, cs, n - 1);
        let last: Seq<RecordView> = match locate_inst(s, cs[n - 1].name) {
            Some(at) => match crate::source::inst_at(s, at).decl_line {
                Some(line) => seq![RecordView::InstDirty(line)],
                None => seq![],
            },
            None => seq![],
        };
        assert(companion_records(a, cs, n) == head + last);
        lemma_both(head, last, x);
        if let Some(at) = locate_inst(s, cs[n - 1].name) {
            assert(moves_inst(a, cs[n - 1], at.0, at.1));
            assert(crate::source::inst_at(s, at) == s.pages[at.0].instances[at.1]);
            assert(s.pages[at.0].instances[at.1].decl_line == a.pages[at.0].instances[at.1].decl_line);
            if let Some(line) = crate::source::inst_at(s, at).decl_line {
                assert(last[0] == RecordView::InstDirty(line));
            }
        }
    }
}

proof fn lemma_companions(a: RifDefView, cs: Seq<CompanionView>, n: int)
    requires
        n == cs.len(),
    ensures
        moved_by(a, companions_moved(a, cs, n), cs),
        forall|x: RecordView| #[trigger] companion_records(a, cs, n).contains(x) <==> companion_note(a, cs, x),
{
    lemma_comp_same(a, cs, n);
    let b = companions_moved(a, cs, n);
    assert forall|j: int, q: int, k: int|
        0 <= j < cs.len() && #[trigger] moves_inst(a, cs[j], q, k) && (forall|i: int|
            j < i < cs.len() ==> !#[trigger] moves_inst(a, cs[i], q, k)) implies b.pages[q].instances[k].addr == fixed(
        cs[j].addr,
    ) by {
        lemma_comp_last(a, cs, n, j, q, k);
    }
    assert forall|q: int, k: int|
        0 <= q < a.pages.len() && 0 <= k < a.pages[q].instances.len() && (forall|i: int|
            0 <= i < cs.len() ==> !#[trigger] moves_inst(a, cs[i], q, k)) implies #[trigger] b.pages[q].instances[k]
        == a.pages[q].instances[k] by {
        lemma_comp_none(a, cs, n, q, k);
    }
    assert(cs.take(n) =~= cs);
    assert forall|x: RecordView| #[trigger] companion_records(a, cs, n).contains(x) <==> companion_note(a, cs, x) by {
        lemma_comp_notes(a, cs, n, x);
    }
}

proof fn lemma_note_grows(a: RifDefView, cs: Seq<CompanionView>, n: int, x: RecordView)
    requires
        0 < n <= cs.len(),
    ensures
        companion_note(a, cs.take(n), x) <==> companion_note(a, cs.take(n - 1), x) || (x matches RecordView::InstDirty(l)
            && exists|q: int, k: int| #[trigger]
            moves_inst(a, cs[n - 1], q, k) && a.pages[q].instances[k].decl_line == Some(l)),
{
    let (cb, ca) = (cs.take(n - 1), cs.take(n));
    if let RecordView::InstDirty(l) = x {
        if companion_note(a, ca, x) {
            let (j, q, k) = choose|j: int, q: int, k: int|
                0 <= j < ca.len() && #[trigger] moves_inst(a, ca[j], q, k) && a.pages[q].instances[k].decl_line
                    == Some(l);
            if j < n - 1 {
                assert(moves_inst(a, cb[j], q, k));
            } else {
                assert(moves_inst(a, cs[n - 1], q, k));
            }
        }
        if companion_note(a, cb, x) {
            let (j, q, k) = choose|j: int, q: int, k: int|
                0 <= j < cb.len() && #[trigger] moves_inst(a, cb[j], q, k) && a.pages[q].instances[k].decl_line
                    == Some(l);
            assert(moves_inst(a, ca[j], q, k));
        }
        if exists|q: int, k: int| #[trigger]
            moves_inst(a, cs[n - 1], q, k) && a.pages[q].instances[k].decl_line == Some(l) {
            let (q, k) = choose|q: int, k: int| #[trigger]
                moves_inst(a, cs[n - 1], q, k) && a.pages[q].instances[k].decl_line == Some(l);
            assert(moves_inst(a, ca[n - 1], q, k));
        }
    }
}

/// The edit of a register that moves other instances out of the way does what the edit alone does, and
/// then gives each of the others its new address. Both are noted, and nothing else.
pub proof fn register_edit_moves_the_others(
    rif: RifDefView,
    orig_name: Seq<char>,
    inst_name: Seq<char>,
    v: RegDefValsView,
    cs: Seq<CompanionView>,
)
    ensures
        ({
            let moving = rif_applied(
                rif,
                EditActionView::UpdateRegDefWithMoves {
                    rif_type: rif.name,
                    orig_name,
                    inst_name,
                    vals: v,
                    companions: cs,
                },
            );
            match reg_edit(rif, orig_name, inst_name, v) {
                RifApplied::Staged(a, f) => moving matches RifApplied::Staged(b, g) && {
                    &&& moved_by(a.rif, b.rif, cs)
                    &&& g == f
                    &&& forall|x: RecordView| #[trigger]
                        b.records.contains(x) <==> a.records.contains(x) || companion_note(a.rif, cs, x)
                },
                _ => moving is Nothing,
            }
        }),
{
    reveal(update_reg_with_moves_outcome);
    if let Some(o) = update_reg_outcome(rif, orig_name, inst_name, v) {
        let n = cs.len() as int;
        assert(cs.take(n) =~= cs);
        lemma_companions(o.rif, cs, n);
        let b = update_reg_with_moves_outcome(rif, orig_name, inst_name, v, cs)->0;
        assert forall|x: RecordView| #[trigger] b.records.contains(x) <==> o.records.contains(x) || companion_note(
            o.rif,
            cs,
            x,
        ) by {
            lemma_both(o.records, companion_records(o.rif, cs, n), x);
        }
    }
}

/// Another array size for an instance.
pub open spec fn array_edit(
    rif: RifDefView,
    inst_name: Seq<char>,
    array: Option<ExprView>,
    cs: Seq<CompanionView>,
) -> RifApplied {
    rif_applied(
        rif,
        EditActionView::UpdateRegInstArray { rif_type: rif.name, inst_name, array, companions: cs },
    )
}

/// The RIF with another instance at a place.
pub open spec fn with_instance(rif: RifDefView, p: int, k: int, i: InstanceView) -> RifDefView {
    RifDefView {
        pages: rif.pages.update(
            p,
            PageView { instances: rif.pages[p].instances.update(k, i), ..rif.pages[p] },
        ),
        ..rif
    }
}

/// An instance gets the array size that was entered, or none; then each companion gets its address.
/// Nothing else changes. What prints otherwise, and each companion, is noted, and nothing else.
pub proof fn instance_gets_its_size(
    rif: RifDefView,
    inst_name: Seq<char>,
    array: Option<ExprView>,
    cs: Seq<CompanionView>,
    p: int,
    k: int,
)
    requires
        is_inst(rif, inst_name, p, k),
    ensures
        ({
            let i = rif.pages[p].instances[k];
            let sized = |e: ExprView| InstanceView { array: e, ..i };
            exists|e: ExprView|
                (array == Some(e) || (array is None && e.text.len() == 0 && e.rif.len() == 0)) && {
                    let mid = with_instance(rif, p, k, #[trigger] sized(e));
                    array_edit(rif, inst_name, array, cs) matches RifApplied::Staged(o, follow) && {
                        &&& moved_by(mid, o.rif, cs)
                        &&& follow == FollowView::RegsMoved
                        &&& forall|x: RecordView| #[trigger]
                            o.records.contains(x) <==> companion_note(mid, cs, x) || (x matches RecordView::InstDirty(l)
                                && i.decl_line == Some(l) && inst_decl(sized(e)) != inst_decl(i))
                    }
                }
        }),
{
    reveal(inst_array_outcome);
    lemma_inst(rif, inst_name, p, k);
    let i = rif.pages[p].instances[k];
    let sized = |e: ExprView| InstanceView { array: e, ..i };
    let e = match array {
        Some(e) => e,
        None => crate::stage_reg::no_expr(),
    };
    let mid = with_instance(rif, p, k, sized(e));
    let n = cs.len() as int;
    assert(cs.take(n) =~= cs);
    lemma_companions(mid, cs, n);
    let o = inst_array_outcome(rif, inst_name, array, cs)->0;
    let own: Seq<RecordView> = match i.decl_line {
        Some(line) => only_if(inst_decl(sized(e)) != inst_decl(i), RecordView::InstDirty(line)),
        None => seq![],
    };
    assert(o.records == own + companion_records(mid, cs, n));
    assert forall|x: RecordView| #[trigger]
        o.records.contains(x) <==> companion_note(mid, cs, x) || (x matches RecordView::InstDirty(l) && i.decl_line
            == Some(l) && inst_decl(sized(e)) != inst_decl(i)) by {
        lemma_both(own, companion_records(mid, cs, n), x);
        if let Some(line) = i.decl_line {
            lemma_only(inst_decl(sized(e)) != inst_decl(i), RecordView::InstDirty(line), x);
        }
    }
}

/// Where the instance is not there, it gets no size.
pub proof fn sized_instance_is_there(
    rif: RifDefView,
    inst_name: Seq<char>,
    array: Option<ExprView>,
    cs: Seq<CompanionView>,
)
    requires
        no_inst(rif, inst_name),
    ensures
        array_edit(rif, inst_name, array, cs) is Nothing,
{
    reveal(inst_array_outcome);
    lemma_no_inst(rif, inst_name);
}

/// The exchange of two addresses.
pub open spec fn address_swap(rif: RifDefView, a: Seq<char>, b: Seq<char>) -> RifApplied {
    rif_applied(rif, EditActionView::SwapRegAddr { rif_type: rif.name, a_inst_name: a, b_inst_name: b })
}

/// Two instances that exchange their addresses have each other's address, and nothing else changes.
/// Both are noted, as far as they are in the file, and nothing else.
pub proof fn swapped_instances_have_each_others_address(
    rif: RifDefView,
    a: Seq<char>,
    b: Seq<char>,
    pa: int,
    ka: int,
    pb: int,
    kb: int,
)
    requires
        is_inst(rif, a, pa, ka),
        is_inst(rif, b, pb, kb),
    ensures
        address_swap(rif, a, b) matches RifApplied::Staged(o, follow) && {
            let (i, j) = (rif.pages[pa].instances[ka], rif.pages[pb].instances[kb]);
            &&& same_but_addresses(rif, o.rif)
            &&& o.rif.pages[pa].instances[ka].addr == j.addr
            &&& o.rif.pages[pb].instances[kb].addr == i.addr
            &&& forall|q: int, k: int|
                0 <= q < rif.pages.len() && 0 <= k < rif.pages[q].instances.len() && (q, k) != (pa, ka) && (q, k) != (
                    pb,
                    kb,
                ) ==> #[trigger] o.rif.pages[q].instances[k] == rif.pages[q].instances[k]
            &&& follow == FollowView::RegsMoved
            &&& forall|x: RecordView| #[trigger]
                o.records.contains(x) <==> (x matches RecordView::InstDirty(l) && (i.decl_line == Some(l) || j.decl_line
                    == Some(l)))
        },
{
    reveal(swap_outcome);
    lemma_inst(rif, a, pa, ka);
    lemma_inst(rif, b, pb, kb);
    let (i, j) = (rif.pages[pa].instances[ka], rif.pages[pb].instances[kb]);
    let o = swap_outcome(rif, a, b)->0;
    let (x1, x2) = (crate::stage_reg::readdressed(i), crate::stage_reg::readdressed(j));
    assert forall|x: RecordView| #[trigger]
        o.records.contains(x) <==> (x matches RecordView::InstDirty(l) && (i.decl_line == Some(l) || j.decl_line == Some(
            l,
        ))) by {
        lemma_both(x1, x2, x);
        if let Some(line) = i.decl_line {
            assert(x1[0] == RecordView::InstDirty(line));
        }
        if let Some(line) = j.decl_line {
            assert(x2[0] == RecordView::InstDirty(line));
        }
    }
}

/// Where one of the instances is not there, nothing is exchanged.
pub proof fn swapped_instances_are_there(rif: RifDefView, a: Seq<char>, b: Seq<char>)
    requires
        no_inst(rif, a) || no_inst(rif, b),
    ensures
        address_swap(rif, a, b) is Nothing,
{
    reveal(swap_outcome);
    if no_inst(rif, a) {
        lemma_no_inst(rif, a);
    } else {
        lemma_no_inst(rif, b);
    }
}

/// Whether a page stands at a place, and no other of that name in front of it.
pub open spec fn is_page(rif: RifDefView, name: Seq<char>, p: int) -> bool {
    &&& 0 <= p < rif.pages.len()
    &&& rif.pages[p].name == name
    &&& forall|q: int| 0 <= q < p ==> (#[trigger] rif.pages[q]).name != name
}

/// Whether no page has a name.
pub open spec fn no_page(rif: RifDefView, name: Seq<char>) -> bool {
    forall|q: int| 0 <= q < rif.pages.len() ==> (#[trigger] rif.pages[q]).name != name
}

proof fn lemma_page(rif: RifDefView, name: Seq<char>, p: int)
    ensures
        is_page(rif, name, p) ==> first(rif.pages, page_named(name)) == Some(p),
        no_page(rif, name) ==> first(rif.pages, page_named(name)) is None,
{
    if is_page(rif, name, p) {
        lemma_is_first(rif.pages, page_named(name), p);
    }
    if no_page(rif, name) {
        lemma_no_first(rif.pages, page_named(name));
    }
}

/// Whether `after` is `before` with another page at one place, and nothing else changed.
pub open spec fn only_page(before: RifDefView, after: RifDefView, p: int, page: PageView) -> bool {
    after == (RifDefView { pages: before.pages.update(p, page), ..before })
}

/// The conversion of a page to explicit addresses.
pub open spec fn page_conversion(
    rif: RifDefView,
    page_name: Seq<char>,
    converted: Result<Seq<InstanceView>, Seq<char>>,
) -> RifApplied {
    rif_applied(rif, EditActionView::ConvertPageToManual { rif_type: rif.name, page_name, converted })
}

/// A page that is converted has the instances of the conversion, and its addresses are explicit then;
/// nothing else changes, and nothing is noted. Where the conversion failed, the page stays, and its
/// error is shown.
pub proof fn converted_page_has_the_instances(
    rif: RifDefView,
    page_name: Seq<char>,
    converted: Result<Seq<InstanceView>, Seq<char>>,
    p: int,
)
    requires
        is_page(rif, page_name, p),
    ensures
        converted matches Ok(instances) ==> (page_conversion(rif, page_name, converted) matches RifApplied::Staged(
            o,
            follow,
        ) && {
            &&& only_page(
                rif,
                o.rif,
                p,
                PageView { instances, inst_auto: InstMode::Manual, ..rif.pages[p] },
            )
            &&& o.records.len() == 0
            &&& follow == (FollowView::PageConverted { rif_type: rif.name, page_name })
        }),
        converted matches Err(e) ==> page_conversion(rif, page_name, converted) == RifApplied::Refused(e),
{
    reveal(convert_outcome);
    lemma_page(rif, page_name, p);
}

/// Where the page is not there, nothing is converted.
pub proof fn converted_page_is_there(
    rif: RifDefView,
    page_name: Seq<char>,
    converted: Result<Seq<InstanceView>, Seq<char>>,
)
    requires
        no_page(rif, page_name),
    ensures
        page_conversion(rif, page_name, converted) is Nothing,
{
    lemma_page(rif, page_name, 0);
}

/// The addition of a register.
pub open spec fn reg_addition(
    rif: RifDefView,
    page_name: Seq<char>,
    kind: AddRegKindView,
    name: Seq<char>,
    addr: u64,
) -> RifApplied {
    rif_applied(rif, EditActionView::AddRegister { rif_type: rif.name, page_name, kind, name, addr })
}

/// Whether an instance is new: of a register, at an address, without array or overrides, and not in the
/// file yet.
pub open spec fn is_new_inst(i: InstanceView, name: Seq<char>, reg_type: Seq<char>, addr: u64) -> bool {
    &&& i.inst_name == name
    &&& i.reg_type == reg_type
    &&& i.addr == fixed(addr)
    &&& i.array.text.len() == 0 && i.array.rif.len() == 0
    &&& i.reg_override is None
    &&& i.decl_line is None
    &&& i.ovr_src.desc_block is None
    &&& i.ovr_src.fields.len() == 0
}

/// Whether a definition is new: plain, with one field of one bit, and not in the file yet.
pub open spec fn is_new_def(d: RegisterDefView, name: Seq<char>) -> bool {
    &&& d.name == name
    &&& d.group_name == name
    &&& d.group_pkg is None
    &&& d.description.public.len() == 0 && d.description.private.len() == 0
    &&& d.pulse.len() == 0
    &&& d.interrupt.len() == 0
    &&& d.visibility == Vis::Full
    &&& d.clk is None && d.rst is None
    &&& d.lock == WriteLockView::Open
    &&& d.array == DimView::Value(0)
    &&& d.external == External::Internal
    &&& d.src.decl_line is None
    &&& d.fields.len() == 1
    &&& d.fields[0].name == "field0"@
    &&& d.fields[0].pos == BitPosView::Size(DimView::Value(1))
    &&& d.fields[0].reset == seq![ResetView::Unsigned(0)]
    &&& d.fields[0].sw_kind == SwKindView::ReadWrite
    &&& d.fields[0].src.decl_line is None
}

/// A register that is added comes last on its page, under the name without blanks around it: a new
/// definition, with an instance at the address where addresses are explicit; or just another instance
/// of a register, in a group of its own. Nothing else changes and nothing is noted. It is selected,
/// below its page where there are several.
pub proof fn added_register_comes_last(
    rif: RifDefView,
    page_name: Seq<char>,
    kind: AddRegKindView,
    name: Seq<char>,
    addr: u64,
    p: int,
)
    requires
        is_page(rif, page_name, p),
    ensures
        reg_addition(rif, page_name, kind, name, addr) matches RifApplied::Staged(o, follow) && {
            let (a, b) = (rif.pages[p], o.rif.pages[p]);
            let own = trimmed(name);
            let (m, n) = (a.registers.len() as int, a.instances.len() as int);
            &&& only_page(
                rif,
                o.rif,
                p,
                PageView { registers: b.registers, instances: b.instances, ..a },
            )
            &&& o.records.len() == 0
            &&& follow == (FollowView::RegAdded {
                page_name: if rif.pages.len() > 1 {
                    Some(page_name)
                } else {
                    None
                },
                name: own,
            })
            &&& kind is New ==> {
                &&& b.registers.len() == m + 1 && b.registers.take(m) == a.registers
                &&& b.registers[m] matches RegItemView::Def(d) && is_new_def(d, own)
                &&& a.inst_auto != InstMode::Manual ==> b.instances == a.instances
                &&& a.inst_auto == InstMode::Manual ==> b.instances.len() == n + 1 && b.instances.take(n)
                    == a.instances && is_new_inst(b.instances[n], own, own, addr)
                    && b.instances[n].group_name.len() == 0
            }
            &&& kind matches AddRegKindView::Instance { reg_type } ==> {
                &&& b.registers == a.registers
                &&& b.instances.len() == n + 1 && b.instances.take(n) == a.instances
                &&& is_new_inst(b.instances[n], own, reg_type, addr)
                &&& b.instances[n].group_name == own
            }
        },
{
    reveal(add_reg_outcome);
    lemma_page(rif, page_name, p);
    let o = add_reg_outcome(rif, page_name, kind, trimmed(name), addr)->0;
    let (a, b) = (rif.pages[p], o.rif.pages[p]);
    let (m, n) = (a.registers.len() as int, a.instances.len() as int);
    if kind is New {
        assert(b.registers.take(m) =~= a.registers);
        if a.inst_auto == InstMode::Manual {
            assert(b.instances.take(n) =~= a.instances);
        }
    } else {
        assert(b.instances.take(n) =~= a.instances);
    }
}

/// Where the page is not there, no register is added.
pub proof fn added_register_needs_its_page(
    rif: RifDefView,
    page_name: Seq<char>,
    kind: AddRegKindView,
    name: Seq<char>,
    addr: u64,
)
    requires
        no_page(rif, page_name),
    ensures
        reg_addition(rif, page_name, kind, name, addr) is Nothing,
{
    reveal(add_reg_outcome);
    lemma_page(rif, page_name, 0);
}

/// The deletion of a register.
pub open spec fn reg_deletion(
    rif: RifDefView,
    page_name: Seq<char>,
    reg_type: Seq<char>,
    inst_name: Option<Seq<char>>,
) -> RifApplied {
    rif_applied(rif, EditActionView::DeleteRegister { rif_type: rif.name, page_name, reg_type, inst_name })
}

/// The first instance of a page with a name, where there is a name and such an instance.
pub open spec fn is_doomed(p: PageView, inst_name: Option<Seq<char>>, k: int) -> bool {
    &&& 0 <= k < p.instances.len()
    &&& inst_name == Some(p.instances[k].inst_name)
    &&& forall|j: int| 0 <= j < k ==> Some((#[trigger] p.instances[j]).inst_name) != inst_name
}

/// Whether an instance of a page, other than the one to delete, is of a register.
pub open spec fn is_used(p: PageView, reg_type: Seq<char>, inst_name: Option<Seq<char>>) -> bool {
    exists|j: int|
        0 <= j < p.instances.len() && (#[trigger] p.instances[j]).reg_type == reg_type && !is_doomed(p, inst_name, j)
}

/// The first definition of a register on a page.
pub open spec fn is_def_on(p: PageView, reg_type: Seq<char>, r: int) -> bool {
    &&& 0 <= r < p.registers.len()
    &&& p.registers[r] matches RegItemView::Def(d) && d.name == reg_type
    &&& forall|j: int| 0 <= j < r ==> !((#[trigger] p.registers[j]) matches RegItemView::Def(d) && d.name == reg_type)
}

proof fn lemma_doomed(p: PageView, inst_name: Option<Seq<char>>)
    ensures
        doomed_inst(p, inst_name) matches Some(k) ==> is_doomed(p, inst_name, k),
        forall|k: int| #[trigger] is_doomed(p, inst_name, k) ==> doomed_inst(p, inst_name) == Some(k),
{
    if let Some(n) = inst_name {
        let q = inst_named(n);
        lemma_first(p.instances, q);
        if let Some(k) = first(p.instances, q) {
            assert forall|j: int| 0 <= j < k implies Some((#[trigger] p.instances[j]).inst_name) != inst_name by {
                assert(!q(p.instances[j]));
            }
        }
        assert forall|k: int| #[trigger] is_doomed(p, inst_name, k) implies doomed_inst(p, inst_name) == Some(k) by {
            assert forall|j: int| 0 <= j < k implies !q(#[trigger] p.instances[j]) by {}
            lemma_is_first(p.instances, q, k);
        }
    }
}

proof fn lemma_doomed_def(p: PageView, reg_type: Seq<char>, inst_name: Option<Seq<char>>)
    ensures
        is_used(p, reg_type, inst_name) <==> references(page_without_inst(p, inst_name).instances, reg_type),
        doomed_def(p, reg_type, inst_name) matches Some(r) ==> is_def_on(p, reg_type, r) && !is_used(
            p,
            reg_type,
            inst_name,
        ),
        forall|r: int| #[trigger]
            is_def_on(p, reg_type, r) && !is_used(p, reg_type, inst_name) ==> doomed_def(p, reg_type, inst_name)
                == Some(r),
{
    lemma_doomed(p, inst_name);
    let left = page_without_inst(p, inst_name).instances;
    if is_used(p, reg_type, inst_name) {
        let j = choose|j: int|
            0 <= j < p.instances.len() && (#[trigger] p.instances[j]).reg_type == reg_type && !is_doomed(
                p,
                inst_name,
                j,
            );
        match doomed_inst(p, inst_name) {
            Some(k) => {
                if j < k {
                    assert(left[j].reg_type == reg_type);
                } else {
                    assert(left[j - 1].reg_type == reg_type);
                }
            },
            None => {
                assert(left[j].reg_type == reg_type);
            },
        }
    }
    if references(left, reg_type) {
        let j = choose|j: int| 0 <= j < left.len() && (#[trigger] left[j]).reg_type == reg_type;
        match doomed_inst(p, inst_name) {
            Some(k) => {
                let m = if j < k {
                    j
                } else {
                    j + 1
                };
                assert(p.instances[m].reg_type == reg_type);
                assert(!is_doomed(p, inst_name, m));
            },
            None => {
                assert(p.instances[j].reg_type == reg_type);
                assert(!is_doomed(p, inst_name, j));
            },
        }
    }
    let q = def_named(reg_type);
    lemma_first(p.registers, q);
    if let Some(r) = first(p.registers, q) {
        assert(q(p.registers[r]));
        assert forall|j: int| 0 <= j < r implies !((#[trigger] p.registers[j]) matches RegItemView::Def(d) && d.name
            == reg_type) by {
            assert(!q(p.registers[j]));
        }
    }
    assert forall|r: int| #[trigger] is_def_on(p, reg_type, r) && !is_used(p, reg_type, inst_name) implies doomed_def(
        p,
        reg_type,
        inst_name,
    ) == Some(r) by {
        assert forall|j: int| 0 <= j < r implies !q(#[trigger] p.registers[j]) by {}
        lemma_is_first(p.registers, q, r);
    }
}

/// A register that is deleted is gone from its page: the instance of that name, and the definition once
/// no other instance of the page uses it. Nothing else changes. The lines of what is gone are noted, as
/// far as it is in the file, and nothing else.
pub proof fn deleted_register_is_gone(
    rif: RifDefView,
    page_name: Seq<char>,
    reg_type: Seq<char>,
    inst_name: Option<Seq<char>>,
    p: int,
    k: int,
    r: int,
)
    requires
        is_page(rif, page_name, p),
        is_doomed(rif.pages[p], inst_name, k) || (is_def_on(rif.pages[p], reg_type, r) && !is_used(
            rif.pages[p],
            reg_type,
            inst_name,
        )),
    ensures
        reg_deletion(rif, page_name, reg_type, inst_name) matches RifApplied::Staged(o, follow) && {
            let (a, b) = (rif.pages[p], o.rif.pages[p]);
            let unused = !is_used(a, reg_type, inst_name);
            &&& only_page(
                rif,
                o.rif,
                p,
                PageView { registers: b.registers, instances: b.instances, ..a },
            )
            &&& follow == (FollowView::RegDeleted {
                name: match inst_name {
                    Some(n) => n,
                    None => reg_type,
                },
            })
            &&& forall|j: int| #[trigger] is_doomed(a, inst_name, j) ==> b.instances == a.instances.remove(j)
            &&& (forall|j: int| !#[trigger] is_doomed(a, inst_name, j)) ==> b.instances == a.instances
            &&& forall|j: int| #[trigger] is_def_on(a, reg_type, j) && unused ==> b.registers == a.registers.remove(j)
            &&& !unused || (forall|j: int| !#[trigger] is_def_on(a, reg_type, j)) ==> b.registers == a.registers
            &&& forall|x: RecordView| #[trigger]
                o.records.contains(x) <==> match x {
                    RecordView::RegDeleted(l) => unused && exists|j: int| #[trigger]
                        is_def_on(a, reg_type, j) && a.registers[j]->Def_0.src.decl_line == Some(l),
                    RecordView::InstDeleted(l) => exists|j: int| #[trigger]
                        is_doomed(a, inst_name, j) && a.instances[j].decl_line == Some(l),
                    _ => false,
                }
        },
{
    reveal(delete_reg_outcome);
    lemma_page(rif, page_name, p);
    let a = rif.pages[p];
    lemma_doomed(a, inst_name);
    lemma_doomed_def(a, reg_type, inst_name);
    let inst = doomed_inst(a, inst_name);
    let def = doomed_def(a, reg_type, inst_name);
    let o = delete_reg_outcome(rif, page_name, reg_type, inst_name)->0;
    let x1: Seq<RecordView> = match def {
        Some(j) => match a.registers[j]->Def_0.src.decl_line {
            Some(line) => seq![RecordView::RegDeleted(line)],
            None => seq![],
        },
        None => seq![],
    };
    let x2: Seq<RecordView> = match inst {
        Some(j) => match a.instances[j].decl_line {
            Some(line) => seq![RecordView::InstDeleted(line)],
            None => seq![],
        },
        None => seq![],
    };
    assert(o.records == x1 + x2);
    let unused = !is_used(a, reg_type, inst_name);
    assert forall|x: RecordView| #[trigger]
        o.records.contains(x) <==> match x {
            RecordView::RegDeleted(l) => unused && exists|j: int| #[trigger]
                is_def_on(a, reg_type, j) && a.registers[j]->Def_0.src.decl_line == Some(l),
            RecordView::InstDeleted(l) => exists|j: int| #[trigger]
                is_doomed(a, inst_name, j) && a.instances[j].decl_line == Some(l),
            _ => false,
        } by {
        lemma_both(x1, x2, x);
        if let Some(j) = def {
            if let Some(line) = a.registers[j]->Def_0.src.decl_line {
                assert(x1[0] == RecordView::RegDeleted(line));
            }
        }
        if let Some(j) = inst {
            if let Some(line) = a.instances[j].decl_line {
                assert(x2[0] == RecordView::InstDeleted(line));
            }
        }
    }
}

/// Where there is neither an instance of that name on the page nor a definition that nothing uses,
/// nothing is deleted.
pub proof fn deleted_register_was_there(
    rif: RifDefView,
    page_name: Seq<char>,
    reg_type: Seq<char>,
    inst_name: Option<Seq<char>>,
    p: int,
)
    requires
        no_page(rif, page_name) || (is_page(rif, page_name, p) && (forall|k: int|
            !#[trigger] is_doomed(rif.pages[p], inst_name, k)) && (is_used(rif.pages[p], reg_type, inst_name) || (
        forall|r: int| !#[trigger] is_def_on(rif.pages[p], reg_type, r)))),
    ensures
        reg_deletion(rif, page_name, reg_type, inst_name) is Nothing,
{
    reveal(delete_reg_outcome);
    lemma_page(rif, page_name, p);
    if !no_page(rif, page_name) {
        lemma_doomed(rif.pages[p], inst_name);
        lemma_doomed_def(rif.pages[p], reg_type, inst_name);
    }
}

} // verus!
