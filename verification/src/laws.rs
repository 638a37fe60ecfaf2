//! What edits leave alone.
use vstd::prelude::*;
use crate::field_update::{field_after, only_counters};
use crate::model::page::{InstanceView, PageView};
use crate::model::register::{FieldDefView, RegisterDefView};
use crate::model::rif::RifDefView;
use crate::model::values::{ExprView, HwKind, IntrOvr, SwKindView};
use crate::reg_update::{drops_interrupt, reg_after};
use crate::search::{lemma_first, lemma_is_first};
use crate::source::{
    def_named, field_named, inst_at, lemma_locate_inst, lemma_locate_reg, locate_inst, locate_reg, page_defines,
    page_named, reg_at, with_inst, with_reg,
};
use crate::stage_field::{move_fields_outcome, moved, FieldMoveView};
use crate::stage_ovr::{field_override_outcome, reg_override_outcome};
use crate::stage_reg::{
    add_reg_outcome, companions_moved, inst_array_outcome, no_expr, swap_outcome, update_reg_outcome,
    AddRegKindView, CompanionView,
};
use crate::vals::{FieldOverrideValsView, FieldValsView, RegDefValsView, RegOverrideValsView};

verus! {

/// Whether two fields differ in nothing but their position.
pub open spec fn same_but_position(a: FieldDefView, b: FieldDefView) -> bool {
    b == (FieldDefView { pos: b.pos, ..a })
}

proof fn lemma_moved(fields: Seq<FieldDefView>, moves: Seq<FieldMoveView>, n: int)
    requires
        0 <= n <= moves.len(),
    ensures
        moved(fields, moves, n).len() == fields.len(),
        forall|i: int|
            0 <= i < fields.len() ==> same_but_position(fields[i], #[trigger] moved(fields, moves, n)[i]),
    decreases n,
{
    if n > 0 {
        lemma_moved(fields, moves, n - 1);
        lemma_first(moved(fields, moves, n - 1), field_named(moves[n - 1].name));
    }
}

/// Fields that change places keep everything but their position: a field that is part of a
/// larger one stays that part.
pub proof fn moves_change_only_positions(rif: RifDefView, reg_type: Seq<char>, moves: Seq<FieldMoveView>)
    requires
        move_fields_outcome(rif, reg_type, moves) is Some,
    ensures
        ({
            let at = locate_reg(rif, reg_type)->0;
            let before = reg_at(rif, at);
            let after = reg_at(move_fields_outcome(rif, reg_type, moves)->0.rif, at);
            &&& after == (RegisterDefView { fields: after.fields, ..before })
            &&& after.fields.len() == before.fields.len()
            &&& forall|i: int|
                0 <= i < before.fields.len() ==> same_but_position(before.fields[i], #[trigger] after.fields[i])
        }),
{
    reveal(move_fields_outcome);
    lemma_locate_reg(rif, reg_type);
    lemma_moved(reg_at(rif, locate_reg(rif, reg_type)->0).fields, moves, moves.len() as int);
}

/// Whether two RIFs define the same registers on their pages.
pub open spec fn same_definitions(a: RifDefView, b: RifDefView) -> bool {
    &&& a.pages.len() == b.pages.len()
    &&& forall|p: int| 0 <= p < a.pages.len() ==> (#[trigger] b.pages[p]).registers == a.pages[p].registers
}

proof fn lemma_companions(rif: RifDefView, cs: Seq<CompanionView>, n: int)
    requires
        0 <= n <= cs.len(),
    ensures
        same_definitions(rif, companions_moved(rif, cs, n)),
    decreases n,
{
    if n > 0 {
        lemma_companions(rif, cs, n - 1);
        lemma_locate_inst(companions_moved(rif, cs, n - 1), cs[n - 1].name);
    }
}

/// Another array size for an instance leaves every definition alone, and so do the instances
/// that make room for it.
pub proof fn instance_size_leaves_definitions(
    rif: RifDefView,
    inst_name: Seq<char>,
    array: Option<ExprView>,
    cs: Seq<CompanionView>,
)
    requires
        inst_array_outcome(rif, inst_name, array, cs) is Some,
    ensures
        same_definitions(rif, inst_array_outcome(rif, inst_name, array, cs)->0.rif),
{
    reveal(inst_array_outcome);
    lemma_locate_inst(rif, inst_name);
    let at = locate_inst(rif, inst_name)->0;
    let after = InstanceView {
        array: match array {
            Some(e) => e,
            None => no_expr(),
        },
        ..inst_at(rif, at)
    };
    lemma_companions(with_inst(rif, at, after), cs, cs.len() as int);
}

/// Two instances that exchange their addresses leave every definition alone.
pub proof fn swap_leaves_definitions(rif: RifDefView, a: Seq<char>, b: Seq<char>)
    requires
        swap_outcome(rif, a, b) is Some,
    ensures
        same_definitions(rif, swap_outcome(rif, a, b)->0.rif),
{
    reveal(swap_outcome);
    lemma_locate_inst(rif, a);
    lemma_locate_inst(rif, b);
}

/// Another instance of a register leaves every definition alone.
pub proof fn new_instance_leaves_definitions(
    rif: RifDefView,
    page_name: Seq<char>,
    reg_type: Seq<char>,
    name: Seq<char>,
    addr: u64,
)
    requires
        add_reg_outcome(rif, page_name, AddRegKindView::Instance { reg_type }, name, addr) is Some,
    ensures
        same_definitions(
            rif,
            add_reg_outcome(rif, page_name, AddRegKindView::Instance { reg_type }, name, addr)->0.rif,
        ),
{
    reveal(add_reg_outcome);
    lemma_first(rif.pages, page_named(page_name));
}

/// Whether `b` differs from `a` in nothing but the overrides of the instance at a place.
pub open spec fn same_but_overrides(a: RifDefView, b: RifDefView, at: (int, int)) -> bool {
    &&& same_definitions(a, b)
    &&& forall|p: int, k: int|
        0 <= p < a.pages.len() && 0 <= k < a.pages[p].instances.len() && (p, k) != at ==> (
        #[trigger] b.pages[p].instances[k]) == a.pages[p].instances[k]
    &&& inst_at(b, at) == (InstanceView { reg_override: inst_at(b, at).reg_override, ..inst_at(a, at) })
}

/// What an instance overrides for its register concerns no other instance.
pub proof fn register_overrides_stay_with_their_instance(
    rif: RifDefView,
    inst_name: Seq<char>,
    v: RegOverrideValsView,
)
    requires
        reg_override_outcome(rif, inst_name, v) is Some,
    ensures
        same_but_overrides(
            rif,
            reg_override_outcome(rif, inst_name, v)->0.rif,
            locate_inst(rif, inst_name)->0,
        ),
{
    reveal(reg_override_outcome);
    lemma_locate_inst(rif, inst_name);
}

/// What an instance overrides for a field concerns no other instance.
pub proof fn field_overrides_stay_with_their_instance(
    rif: RifDefView,
    inst_name: Seq<char>,
    field: Seq<char>,
    v: FieldOverrideValsView,
)
    requires
        field_override_outcome(rif, inst_name, field, v) is Some,
    ensures
        same_but_overrides(
            rif,
            field_override_outcome(rif, inst_name, field, v)->0.rif,
            locate_inst(rif, inst_name)->0,
        ),
{
    reveal(field_override_outcome);
    lemma_locate_inst(rif, inst_name);
}

proof fn lemma_only_counters(s: Seq<HwKind>)
    ensures
        forall|k: int| 0 <= k < only_counters(s).len() ==> (#[trigger] only_counters(s)[k]) is Counter,
    decreases s.len(),
{
    if s.len() > 0 {
        lemma_only_counters(s.drop_last());
    }
}

/// A register that is no interrupt any more leaves nothing of it in its fields, and no second
/// interrupt either.
pub proof fn a_dropped_interrupt_leaves_no_trace(d: RegisterDefView, orig_name: Seq<char>, v: RegDefValsView)
    requires
        drops_interrupt(d, v),
    ensures
        ({
            let after = reg_after(d, orig_name, v);
            &&& after.interrupt.len() == 0
            &&& after.fields.len() == d.fields.len()
            &&& forall|i: int| #![trigger after.fields[i]]
                0 <= i < after.fields.len() ==> {
                    let f = after.fields[i];
                    &&& f.sw_kind == SwKindView::ReadWrite
                    &&& f.intr_ovr == (IntrOvr { trigger: None, clear: None })
                    &&& f.intr_desc is None
                    &&& forall|k: int| 0 <= k < f.hw_kind.len() ==> !((#[trigger] f.hw_kind[k]) is Interrupt)
                }
        }),
{
    let after = reg_after(d, orig_name, v);
    assert forall|i: int| #![trigger after.fields[i]] 0 <= i < after.fields.len() implies forall|k: int|
        0 <= k < after.fields[i].hw_kind.len() ==> !((#[trigger] after.fields[i].hw_kind[k]) is Interrupt) by {
        lemma_only_counters(d.fields[i].hw_kind);
    }
}

/// Reset values that were not edited survive, however many there are, as long as the array keeps
/// its size.
pub proof fn unedited_resets_survive(f: FieldDefView, v: FieldValsView)
    requires
        v.reset is None,
        v.array == f.array,
    ensures
        field_after(f, v).reset == f.reset,
{
}

/// The RIF with every instance that differs put back as it was.
pub open spec fn instances_back(after: RifDefView, before: RifDefView) -> RifDefView {
    RifDefView {
        pages: Seq::new(
            after.pages.len(),
            |p: int|
                PageView {
                    instances: Seq::new(
                        after.pages[p].instances.len(),
                        |k: int|
                            if after.pages[p].instances[k] != before.pages[p].instances[k] {
                                before.pages[p].instances[k]
                            } else {
                                after.pages[p].instances[k]
                            },
                    ),
                    ..after.pages[p]
                },
        ),
        ..after
    }
}

proof fn lemma_renamed_place(rif: RifDefView, after: RifDefView, old_name: Seq<char>, new_name: Seq<char>)
    requires
        locate_reg(rif, old_name) is Some,
        new_name == old_name || locate_reg(rif, new_name) is None,
        ({
            let at = locate_reg(rif, old_name)->0;
            &&& after.pages.len() == rif.pages.len()
            &&& forall|p: int|
                0 <= p < rif.pages.len() && p != at.0 ==> (#[trigger] after.pages[p]).registers
                    == rif.pages[p].registers
            &&& after.pages[at.0].registers == rif.pages[at.0].registers.update(
                at.1,
                after.pages[at.0].registers[at.1],
            )
            &&& after.pages[at.0].registers[at.1] is Def
            &&& reg_at(after, at).name == new_name
        }),
    ensures
        locate_reg(after, new_name) == locate_reg(rif, old_name),
{
    lemma_locate_reg(rif, old_name);
    let at = locate_reg(rif, old_name)->0;
    let (q, r) = (page_defines(old_name), page_defines(new_name));
    let (d, n) = (def_named(old_name), def_named(new_name));
    lemma_first(rif.pages, q);
    lemma_first(rif.pages, r);
    let was = rif.pages[at.0].registers;
    let now = after.pages[at.0].registers;
    lemma_first(was, d);
    lemma_first(was, n);
    assert forall|k: int| 0 <= k < at.1 implies !n(#[trigger] now[k]) by {
        assert(now[k] == was[k]);
        assert(!d(was[k]));
        if new_name != old_name {
            assert(!r(rif.pages[at.0]));
        }
    }
    lemma_is_first(now, n, at.1);
    assert forall|p: int| 0 <= p < at.0 implies !r(#[trigger] after.pages[p]) by {
        assert(after.pages[p].registers == rif.pages[p].registers);
        assert(!q(rif.pages[p]));
        if new_name != old_name {
            assert(!r(rif.pages[p]));
        }
    }
    assert(r(after.pages[at.0]));
    lemma_is_first(after.pages, r, at.0);
}

/// An edit of a register can be taken back, as long as its new name is not that of another
/// definition. It happens just where there is a definition of the old name; the definition is
/// then found under the new name, and putting it back, and every instance that changed, gives the
/// source as it was.
pub proof fn register_edit_can_be_taken_back(
    rif: RifDefView,
    orig_name: Seq<char>,
    inst_name: Seq<char>,
    v: RegDefValsView,
)
    requires
        v.name == orig_name || locate_reg(rif, v.name) is None,
    ensures
        match update_reg_outcome(rif, orig_name, inst_name, v) {
            Some(o) => {
                &&& locate_reg(rif, orig_name) is Some
                &&& locate_reg(o.rif, v.name) == locate_reg(rif, orig_name)
                &&& ({
                    let at = locate_reg(o.rif, v.name)->0;
                    instances_back(with_reg(o.rif, at, reg_at(rif, at)), rif) == rif
                })
            },
            None => locate_reg(rif, orig_name) is None,
        },
{
    reveal(update_reg_outcome);
    if locate_reg(rif, orig_name) is Some {
        lemma_locate_reg(rif, orig_name);
        let at = locate_reg(rif, orig_name)->0;
        let after = update_reg_outcome(rif, orig_name, inst_name, v)->0.rif;
        lemma_renamed_place(rif, after, orig_name, v.name);
        let back = instances_back(with_reg(after, at, reg_at(rif, at)), rif);
        assert forall|p: int| 0 <= p < rif.pages.len() implies (#[trigger] back.pages[p]) == rif.pages[p] by {
            assert(back.pages[p].instances =~= rif.pages[p].instances);
            assert(back.pages[p].registers =~= rif.pages[p].registers);
        }
        assert(back.pages =~= rif.pages);
    }
}

} // verus!
