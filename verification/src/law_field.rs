//! What edits of fields do.
use vstd::prelude::*;
use crate::action::EditActionView;
use crate::apply::{rif_applied, FollowView, RifApplied};
use crate::bridge::{field_decl, field_prop_line};
use crate::edits::{BlockEditView, LineEditView, RecordView};
use crate::field_update::{field_after, only_counters, without_counters};
use crate::law_place::{
    is_def, is_field, lemma_def, lemma_field, lemma_no_def, lemma_no_field, no_def, no_field, only_def,
    only_field, the_def,
};
use crate::model::props::FieldProp;
use crate::model::register::{FieldDefView, RegisterDefView};
use crate::model::rif::RifDefView;
use crate::model::values::{
    BitPosView, DimView, EnumRefView, External, HwAcc, HwKind, IntrClear, LimitValueView, RawVis, ResetView,
    SwKindView, Trigger, WriteLockView,
};
use crate::names::{candidate, first_free, free_name, lemma_first_free, lemma_free_name_is_free};
use crate::printed::field_line;
use crate::search::{first, lemma_first, lemma_is_first};
use crate::source::field_named;
use crate::stage_field::{
    add_field_outcome, delete_field_outcome, field_names, move_fields_outcome, move_records, moved, moves_any,
    update_field_outcome, FieldMoveView,
};
use crate::syntax::{desc_block, short_desc};
use crate::vals::FieldValsView;

verus! {

/// The edit of a field.
pub open spec fn field_edit(
    rif: RifDefView,
    reg_type: Seq<char>,
    orig_name: Seq<char>,
    v: FieldValsView,
) -> RifApplied {
    rif_applied(
        rif,
        EditActionView::UpdateField { rif_type: rif.name, reg_type, orig_name, vals: v },
    )
}

/// The field at a place once it was edited.
pub open spec fn edited_field(
    rif: RifDefView,
    reg_type: Seq<char>,
    orig_name: Seq<char>,
    v: FieldValsView,
    p: int,
    r: int,
    k: int,
) -> FieldDefView {
    the_def(field_edit(rif, reg_type, orig_name, v)->Staged_0.rif, p, r).fields[k]
}

proof fn lemma_field_edit(
    rif: RifDefView,
    reg_type: Seq<char>,
    orig_name: Seq<char>,
    v: FieldValsView,
    p: int,
    r: int,
    k: int,
)
    requires
        is_def(rif, reg_type, p, r),
        is_field(the_def(rif, p, r), orig_name, k),
    ensures
        field_edit(rif, reg_type, orig_name, v) == RifApplied::Staged(
            update_field_outcome(rif, reg_type, orig_name, v)->0,
            FollowView::FieldUpdated { orig_name, new_name: v.name },
        ),
        update_field_outcome(rif, reg_type, orig_name, v) is Some,
        edited_field(rif, reg_type, orig_name, v, p, r, k) == field_after(the_def(rif, p, r).fields[k], v),
{
    reveal(update_field_outcome);
    lemma_def(rif, reg_type, p, r);
    lemma_field(the_def(rif, p, r), orig_name, k);
}

/// The edit of a field changes that field, in its place, and nothing else in the RIF. The selection
/// follows its name.
pub proof fn field_edit_changes_that_field(
    rif: RifDefView,
    reg_type: Seq<char>,
    orig_name: Seq<char>,
    v: FieldValsView,
    p: int,
    r: int,
    k: int,
)
    requires
        is_def(rif, reg_type, p, r),
        is_field(the_def(rif, p, r), orig_name, k),
    ensures
        field_edit(rif, reg_type, orig_name, v) matches RifApplied::Staged(o, follow) && only_field(
            rif,
            o.rif,
            p,
            r,
            k,
            edited_field(rif, reg_type, orig_name, v, p, r, k),
        ) && follow == (FollowView::FieldUpdated { orig_name, new_name: v.name }),
{
    lemma_field_edit(rif, reg_type, orig_name, v, p, r, k);
    reveal(update_field_outcome);
    lemma_def(rif, reg_type, p, r);
    lemma_field(the_def(rif, p, r), orig_name, k);
}

/// Where the register or the field is not there, there is nothing to edit.
pub proof fn field_edit_needs_the_field(
    rif: RifDefView,
    reg_type: Seq<char>,
    orig_name: Seq<char>,
    v: FieldValsView,
    p: int,
    r: int,
)
    requires
        no_def(rif, reg_type) || (is_def(rif, reg_type, p, r) && no_field(the_def(rif, p, r), orig_name)),
    ensures
        field_edit(rif, reg_type, orig_name, v) is Nothing,
{
    reveal(update_field_outcome);
    if no_def(rif, reg_type) {
        lemma_no_def(rif, reg_type);
    } else {
        lemma_def(rif, reg_type, p, r);
        lemma_no_field(the_def(rif, p, r), orig_name);
    }
}

/// The edit of a field gives it every plain value that was entered, and leaves alone what cannot be
/// entered.
pub proof fn field_edit_sets_the_values(
    rif: RifDefView,
    reg_type: Seq<char>,
    orig_name: Seq<char>,
    v: FieldValsView,
    p: int,
    r: int,
    k: int,
)
    requires
        is_def(rif, reg_type, p, r),
        is_field(the_def(rif, p, r), orig_name, k),
    ensures
        ({
            let f = the_def(rif, p, r).fields[k];
            let g = edited_field(rif, reg_type, orig_name, v, p, r, k);
            &&& g.name == v.name
            &&& g.pos == v.pos
            &&& g.array == v.array
            &&& g.array_pos_incr == v.array_pos_incr
            &&& g.signed == v.signed
            &&& g.description.public == v.desc
            &&& g.description.private == f.description.private
            &&& g.enum_kind == v.enum_kind
            &&& g.lock == v.lock
            &&& g.limit == v.limit
            &&& g.nb_frac == v.nb_frac
            &&& v.visibility matches Some(x) ==> g.visibility == x
            &&& v.visibility is None ==> g.visibility == f.visibility
            &&& g.partial == f.partial
            &&& g.intr_desc == f.intr_desc
            &&& g.src.decl_line == f.src.decl_line
            &&& g.src.prop_lines == f.src.prop_lines
            &&& g.src.desc_blocks == f.src.desc_blocks
            &&& g.src.has_inline_desc <==> f.src.has_inline_desc || short_desc(g.description, false) != short_desc(
                f.description,
                false,
            )
        }),
{
    lemma_field_edit(rif, reg_type, orig_name, v, p, r, k);
}

/// A reset value that was entered is the only one that the field has then. Otherwise the field keeps
/// its reset values; where the size of its array changed, it keeps no more than the first.
pub proof fn field_edit_sets_the_reset(
    rif: RifDefView,
    reg_type: Seq<char>,
    orig_name: Seq<char>,
    v: FieldValsView,
    p: int,
    r: int,
    k: int,
)
    requires
        is_def(rif, reg_type, p, r),
        is_field(the_def(rif, p, r), orig_name, k),
    ensures
        ({
            let f = the_def(rif, p, r).fields[k];
            let g = edited_field(rif, reg_type, orig_name, v, p, r, k);
            &&& v.reset matches Some(x) ==> g.reset == seq![x]
            &&& v.reset is None && v.array == f.array ==> g.reset == f.reset
            &&& v.reset is None && f.reset.len() <= 1 ==> g.reset == f.reset
            &&& v.reset is None && v.array != f.array && f.reset.len() > 0 ==> g.reset == seq![f.reset[0]]
        }),
{
    lemma_field_edit(rif, reg_type, orig_name, v, p, r, k);
    let f = the_def(rif, p, r).fields[k];
    let g = edited_field(rif, reg_type, orig_name, v, p, r, k);
    if v.reset is None && v.array != f.array && f.reset.len() > 0 {
        assert(g.reset =~= seq![f.reset[0]]);
    }
}

/// Whether a hardware function is a counter.
pub open spec fn is_count() -> spec_fn(HwKind) -> bool {
    |h: HwKind| h is Counter
}

/// Whether a hardware function is something else than a counter.
pub open spec fn is_no_count() -> spec_fn(HwKind) -> bool {
    |h: HwKind| !(h is Counter)
}

proof fn lemma_counters(s: Seq<HwKind>)
    ensures
        without_counters(s) == s.filter(is_no_count()),
        only_counters(s) == s.filter(is_count()),
        without_counters(s).filter(is_count()).len() == 0,
        without_counters(s).filter(is_no_count()) == without_counters(s),
    decreases s.len(),
{
    reveal(Seq::filter);
    if s.len() > 0 {
        lemma_counters(s.drop_last());
        let t = without_counters(s.drop_last());
        assert(t.push(s.last()).drop_last() =~= t);
    }
}

/// The counter that was entered is the only one that the field has then; without one it has none.
/// Its other hardware functions stay, in their order. A field with a hardware function is at least
/// written by hardware.
pub proof fn field_edit_sets_the_counter(
    rif: RifDefView,
    reg_type: Seq<char>,
    orig_name: Seq<char>,
    v: FieldValsView,
    p: int,
    r: int,
    k: int,
)
    requires
        is_def(rif, reg_type, p, r),
        is_field(the_def(rif, p, r), orig_name, k),
        v.intr_ovr is None,
    ensures
        ({
            let f = the_def(rif, p, r).fields[k];
            let g = edited_field(rif, reg_type, orig_name, v, p, r, k);
            &&& g.hw_kind.filter(is_count()) == (match v.counter {
                Some(c) => seq![HwKind::Counter(c)],
                None => seq![],
            })
            &&& g.hw_kind.filter(is_no_count()) == f.hw_kind.filter(is_no_count())
            &&& f.hw_kind.len() == 0 || v.hw_acc != HwAcc::RO ==> g.hw_acc == v.hw_acc
            &&& f.hw_kind.len() > 0 && v.hw_acc == HwAcc::RO ==> g.hw_acc == HwAcc::RW
        }),
{
    lemma_field_edit(rif, reg_type, orig_name, v, p, r, k);
    let f = the_def(rif, p, r).fields[k];
    let g = edited_field(rif, reg_type, orig_name, v, p, r, k);
    lemma_counters(f.hw_kind);
    reveal(Seq::filter);
    let t = without_counters(f.hw_kind);
    if let Some(c) = v.counter {
        assert(g.hw_kind.drop_last() =~= t);
        assert(g.hw_kind.filter(is_count()) =~= seq![HwKind::Counter(c)]);
    } else {
        assert(g.hw_kind.filter(is_count()) =~= seq![]);
    }
}

/// Software access is what was entered, or the password. Where an interrupt was entered, the field
/// keeps it, and what clears it decides the access.
pub proof fn field_edit_sets_the_access(
    rif: RifDefView,
    reg_type: Seq<char>,
    orig_name: Seq<char>,
    v: FieldValsView,
    p: int,
    r: int,
    k: int,
)
    requires
        is_def(rif, reg_type, p, r),
        is_field(the_def(rif, p, r), orig_name, k),
    ensures
        ({
            let f = the_def(rif, p, r).fields[k];
            let g = edited_field(rif, reg_type, orig_name, v, p, r, k);
            let entered = match v.password {
                Some(x) => SwKindView::Password(x),
                None => v.sw_kind,
            };
            &&& v.intr_ovr is None ==> g.sw_kind == entered && g.intr_ovr == f.intr_ovr
            &&& v.intr_ovr matches Some(ovr) ==> {
                let clear = if ovr.clear is Some {
                    ovr.clear
                } else {
                    v.reg_intr_default.clear
                };
                &&& g.intr_ovr == ovr
                &&& clear == Some(IntrClear::Read) ==> g.sw_kind == SwKindView::ReadClr
                &&& clear == Some(IntrClear::Write0) ==> g.sw_kind == SwKindView::W0Clr
                &&& clear == Some(IntrClear::Write1) ==> g.sw_kind == SwKindView::W1Clr
                &&& clear == Some(IntrClear::Hw) || clear is None ==> g.sw_kind == entered
            }
        }),
{
    lemma_field_edit(rif, reg_type, orig_name, v, p, r, k);
}

/// The interrupt that was entered is the first hardware function of the field; what was not entered
/// of it comes from the register, and a trigger that comes from neither is a high level. The other
/// functions are those of the edit without an interrupt, and a clear by hardware comes last.
pub proof fn field_edit_sets_the_interrupt(
    rif: RifDefView,
    reg_type: Seq<char>,
    orig_name: Seq<char>,
    v: FieldValsView,
    p: int,
    r: int,
    k: int,
)
    requires
        is_def(rif, reg_type, p, r),
        is_field(the_def(rif, p, r), orig_name, k),
        v.intr_ovr is Some,
    ensures
        ({
            let plain = FieldValsView { intr_ovr: None, ..v };
            let g = edited_field(rif, reg_type, orig_name, v, p, r, k);
            let h = edited_field(rif, reg_type, orig_name, plain, p, r, k);
            let ovr = v.intr_ovr->0;
            let trigger = if ovr.trigger is Some {
                ovr.trigger
            } else {
                v.reg_intr_default.trigger
            };
            let clear = if ovr.clear is Some {
                ovr.clear
            } else {
                v.reg_intr_default.clear
            };
            let n: int = if h.hw_kind.len() == 0 {
                1
            } else {
                h.hw_kind.len() as int
            };
            &&& trigger matches Some(t) ==> g.hw_kind[0] == HwKind::Interrupt(t)
            &&& trigger is None && h.hw_kind.len() == 0 ==> g.hw_kind[0] == HwKind::Interrupt(Trigger::High)
            &&& trigger is None && h.hw_kind.len() > 0 ==> g.hw_kind[0] == h.hw_kind[0]
            &&& forall|j: int| 1 <= j < h.hw_kind.len() ==> #[trigger] g.hw_kind[j] == h.hw_kind[j]
            &&& clear == Some(IntrClear::Hw) ==> g.hw_kind.len() == n + 1 && g.hw_kind[n] == HwKind::Clear
            &&& clear != Some(IntrClear::Hw) ==> g.hw_kind.len() == n
            &&& g == (FieldDefView {
                hw_kind: g.hw_kind,
                sw_kind: g.sw_kind,
                intr_ovr: g.intr_ovr,
                ..h
            })
        }),
{
    lemma_field_edit(rif, reg_type, orig_name, v, p, r, k);
    lemma_field_edit(rif, reg_type, orig_name, FieldValsView { intr_ovr: None, ..v }, p, r, k);
}

/// What the edit of a line asks for, by what is printed now.
pub open spec fn line_now(line: Option<Seq<char>>) -> LineEditView {
    match line {
        Some(t) => LineEditView::Write(t),
        None => LineEditView::Remove,
    }
}

/// The line of a property of a field. A lock that cannot be printed has none.
pub open spec fn prop_now(f: FieldDefView, q: FieldProp) -> Option<Seq<char>> {
    if q != FieldProp::Lock {
        field_prop_line(f, q)
    } else {
        match f.lock {
            WriteLockView::Expr(t) => Some("lock "@ + t),
            WriteLockView::Open => None,
            WriteLockView::Complex => None,
        }
    }
}

/// What the edit of a block asks for, by what is printed now.
pub open spec fn block_now(lines: Option<Seq<Seq<char>>>) -> BlockEditView {
    match lines {
        Some(ls) => BlockEditView::Write(ls),
        None => BlockEditView::Remove,
    }
}

/// The edit of a field of the file is noted: its declaration where it prints otherwise, the line of
/// each property that was changed, as it prints now, and the description block where it prints
/// otherwise. Nothing else is noted, and nothing at all for a field that is not in the file yet.
pub proof fn field_edit_is_noted(
    rif: RifDefView,
    reg_type: Seq<char>,
    orig_name: Seq<char>,
    v: FieldValsView,
    p: int,
    r: int,
    k: int,
)
    requires
        is_def(rif, reg_type, p, r),
        is_field(the_def(rif, p, r), orig_name, k),
    ensures
        ({
            let f = the_def(rif, p, r).fields[k];
            let g = edited_field(rif, reg_type, orig_name, v, p, r, k);
            let rs = field_edit(rif, reg_type, orig_name, v)->Staged_0.records;
            match f.src.decl_line {
                Some(line) => {
                    &&& rs.contains(RecordView::FieldDirty(line)) <==> field_decl(g) != field_decl(f)
                    &&& forall|q: FieldProp|
                        v.changed.contains(q) ==> #[trigger] rs.contains(
                            RecordView::FieldLine(
                                line,
                                q,
                                line_now(prop_now(g, q)),
                            ),
                        )
                    &&& rs.contains(RecordView::FieldDesc(line, block_now(desc_block(g.description)))) <==> desc_block(
                        g.description,
                    ) != desc_block(f.description)
                    &&& forall|j: int|
                        0 <= j < rs.len() ==> {
                            ||| #[trigger] rs[j] == RecordView::FieldDirty(line)
                            ||| rs[j] == RecordView::FieldDesc(line, block_now(desc_block(g.description)))
                            ||| (rs[j] matches RecordView::FieldLine(l, q, _) && l == line && v.changed.contains(q))
                        }
                },
                None => rs.len() == 0,
            }
        }),
{
    lemma_field_edit(rif, reg_type, orig_name, v, p, r, k);
    reveal(update_field_outcome);
    lemma_def(rif, reg_type, p, r);
    lemma_field(the_def(rif, p, r), orig_name, k);
    let f = the_def(rif, p, r).fields[k];
    let g = edited_field(rif, reg_type, orig_name, v, p, r, k);
    let rs = field_edit(rif, reg_type, orig_name, v)->Staged_0.records;
    if let Some(line) = f.src.decl_line {
        let head: int = if field_decl(g) != field_decl(f) {
            1
        } else {
            0
        };
        let n = v.changed.len() as int;
        if head == 1 {
            assert(rs[0] == RecordView::FieldDirty(line));
        }
        assert forall|q: FieldProp| v.changed.contains(q) implies #[trigger] rs.contains(
            RecordView::FieldLine(line, q, line_now(prop_now(g, q))),
        ) by {
            assert(prop_now(g, q) == field_line(g, q));
            let j = choose|j: int| 0 <= j < v.changed.len() && v.changed[j] == q;
            assert(rs[head + j] == RecordView::FieldLine(line, q, line_now(prop_now(g, q))));
        }
        assert forall|j: int| 0 <= j < n implies #[trigger] rs[head + j] is FieldLine by {}
        if desc_block(g.description) != desc_block(f.description) {
            assert(rs[head + n] == RecordView::FieldDesc(line, block_now(desc_block(g.description))));
        }
        assert forall|j: int| 0 <= j < rs.len() implies {
            ||| #[trigger] rs[j] == RecordView::FieldDirty(line)
            ||| rs[j] == RecordView::FieldDesc(line, block_now(desc_block(g.description)))
            ||| (rs[j] matches RecordView::FieldLine(l, q, _) && l == line && v.changed.contains(q))
        } by {
            if head <= j < head + n {
                assert(rs[head + (j - head)] is FieldLine);
                assert(v.changed.contains(v.changed[j - head]));
            }
        }
    }
}

/// The addition of a field.
pub open spec fn field_addition(rif: RifDefView, reg_type: Seq<char>) -> RifApplied {
    rif_applied(rif, EditActionView::AddField { rif_type: rif.name, reg_type })
}

/// A new field comes last in its register, under a name that no other field there has, and is
/// selected. It is one bit that software reads and writes, reset to zero; in an interrupt register
/// it is an interrupt. It is not in the file yet, so nothing is noted.
pub proof fn added_field_comes_last(rif: RifDefView, reg_type: Seq<char>, p: int, r: int)
    requires
        is_def(rif, reg_type, p, r),
    ensures
        ({
            let d = the_def(rif, p, r);
            let n = d.fields.len() as int;
            field_addition(rif, reg_type) matches RifApplied::Staged(o, follow) && {
                let e = the_def(o.rif, p, r);
                let g = e.fields[n];
                &&& only_def(
                    rif,
                    o.rif,
                    p,
                    r,
                    RegisterDefView { fields: d.fields.push(g), external: e.external, ..d },
                )
                &&& o.records.len() == 0
                &&& follow == (FollowView::FieldAdded { name: g.name })
                &&& no_field(d, g.name)
                &&& no_field(d, "new_field"@) ==> g.name == "new_field"@
                &&& g.pos == BitPosView::Size(DimView::Value(1))
                &&& g.array == DimView::Value(0) && g.array_pos_incr == 0
                &&& g.reset == seq![ResetView::Unsigned(0)]
                &&& !g.signed && g.nb_frac == 0
                &&& g.description.public.len() == 0 && g.description.private.len() == 0
                &&& g.enum_kind == EnumRefView::Plain
                &&& g.hw_acc == HwAcc::RO
                &&& g.lock == WriteLockView::Open
                &&& g.visibility == RawVis::Full
                &&& g.limit.value == LimitValueView::Any && g.limit.bypass.len() == 0
                &&& g.intr_desc is None && g.intr_ovr.trigger is None && g.intr_ovr.clear is None
                &&& g.partial.0 is None && g.partial.1 == 0
                &&& g.src.decl_line is None
                &&& d.interrupt.len() == 0 ==> g.sw_kind == SwKindView::ReadWrite && g.hw_kind.len() == 0
                &&& d.interrupt.len() > 0 ==> {
                    let t = d.interrupt[0];
                    &&& g.hw_kind[0] == HwKind::Interrupt(t.trigger)
                    &&& t.clear == IntrClear::Read ==> g.sw_kind == SwKindView::ReadClr && g.hw_kind.len() == 1
                    &&& t.clear == IntrClear::Write0 ==> g.sw_kind == SwKindView::W0Clr && g.hw_kind.len() == 1
                    &&& t.clear == IntrClear::Write1 ==> g.sw_kind == SwKindView::W1Clr && g.hw_kind.len() == 1
                    &&& t.clear == IntrClear::Hw ==> g.sw_kind == SwKindView::ReadWrite && g.hw_kind =~= seq![
                        HwKind::Interrupt(t.trigger),
                        HwKind::Clear,
                    ]
                }
                &&& g.sw_kind == SwKindView::ReadWrite && d.external == External::Write ==> e.external
                    == External::ReadWrite
                &&& g.sw_kind == SwKindView::ReadWrite && d.external != External::Write ==> e.external == d.external
                &&& d.external == External::Internal || d.external == External::Done ==> e.external == d.external
                &&& g.sw_kind == SwKindView::ReadClr && d.external == External::Write ==> e.external
                    == External::ReadWrite
                &&& g.sw_kind == SwKindView::ReadClr && d.external == External::ReadWrite && n == 0 ==> e.external
                    == External::Read
                &&& g.sw_kind == SwKindView::ReadClr && d.external == External::ReadWrite && n > 0 ==> e.external
                    == External::ReadWrite
                &&& g.sw_kind == SwKindView::ReadClr && d.external == External::Read ==> e.external == External::Read
                &&& (g.sw_kind == SwKindView::W0Clr || g.sw_kind == SwKindView::W1Clr) && d.external == External::Read
                    ==> e.external == External::ReadWrite
                &&& (g.sw_kind == SwKindView::W0Clr || g.sw_kind == SwKindView::W1Clr) && d.external != External::Read
                    ==> e.external == d.external
            }
        }),
{
    reveal(add_field_outcome);
    lemma_def(rif, reg_type, p, r);
    let d = the_def(rif, p, r);
    let names = field_names(d);
    lemma_free_name_is_free(names, "new_field"@);
    let name = free_name(names, "new_field"@);
    assert forall|j: int| 0 <= j < d.fields.len() implies (#[trigger] d.fields[j]).name != name by {
        assert(names[j] == d.fields[j].name);
    }
    if no_field(d, "new_field"@) {
        assert(!names.contains("new_field"@)) by {
            if names.contains("new_field"@) {
                let j = choose|j: int| 0 <= j < names.len() && names[j] == "new_field"@;
                assert(d.fields[j].name == "new_field"@);
            }
        }
        assert(candidate("new_field"@, 0) == "new_field"@);
        assert(first_free(names, "new_field"@, 0));
        lemma_first_free(names, "new_field"@, 0);
    }
}

/// Where the register is not there, no field is added.
pub proof fn added_field_needs_its_register(rif: RifDefView, reg_type: Seq<char>)
    requires
        no_def(rif, reg_type),
    ensures
        field_addition(rif, reg_type) is Nothing,
{
    reveal(add_field_outcome);
    lemma_no_def(rif, reg_type);
}

/// The deletion of a field.
pub open spec fn field_deletion(rif: RifDefView, reg_type: Seq<char>, field_name: Seq<char>) -> RifApplied {
    rif_applied(rif, EditActionView::DeleteField { rif_type: rif.name, reg_type, field_name })
}

/// A deleted field is gone from its register, and nothing else changes; the fields behind it move
/// up. Its line is noted, where it has one, and nothing else. Nothing is selected then.
pub proof fn deleted_field_is_gone(
    rif: RifDefView,
    reg_type: Seq<char>,
    name: Seq<char>,
    p: int,
    r: int,
    k: int,
)
    requires
        is_def(rif, reg_type, p, r),
        is_field(the_def(rif, p, r), name, k),
    ensures
        ({
            let d = the_def(rif, p, r);
            field_deletion(rif, reg_type, name) matches RifApplied::Staged(o, follow) && {
                let e = the_def(o.rif, p, r);
                &&& only_def(rif, o.rif, p, r, RegisterDefView { fields: e.fields, ..d })
                &&& e.fields.len() == d.fields.len() - 1
                &&& forall|j: int| 0 <= j < k ==> #[trigger] e.fields[j] == d.fields[j]
                &&& forall|j: int| k <= j < e.fields.len() ==> #[trigger] e.fields[j] == d.fields[j + 1]
                &&& follow == FollowView::FieldDeleted
                &&& d.fields[k].src.decl_line matches Some(line) ==> o.records == seq![
                    RecordView::FieldDeleted(line),
                ]
                &&& d.fields[k].src.decl_line is None ==> o.records.len() == 0
            }
        }),
{
    reveal(delete_field_outcome);
    lemma_def(rif, reg_type, p, r);
    lemma_field(the_def(rif, p, r), name, k);
}

/// Where the register or the field is not there, nothing is deleted.
pub proof fn deleted_field_was_there(rif: RifDefView, reg_type: Seq<char>, name: Seq<char>, p: int, r: int)
    requires
        no_def(rif, reg_type) || (is_def(rif, reg_type, p, r) && no_field(the_def(rif, p, r), name)),
    ensures
        field_deletion(rif, reg_type, name) is Nothing,
{
    reveal(delete_field_outcome);
    if no_def(rif, reg_type) {
        lemma_no_def(rif, reg_type);
    } else {
        lemma_def(rif, reg_type, p, r);
        lemma_no_field(the_def(rif, p, r), name);
    }
}

/// New places for fields.
pub open spec fn field_moving(rif: RifDefView, reg_type: Seq<char>, moves: Seq<FieldMoveView>) -> RifApplied {
    rif_applied(rif, EditActionView::MoveField { rif_type: rif.name, reg_type, moves })
}

proof fn lemma_moves(fields: Seq<FieldDefView>, moves: Seq<FieldMoveView>, n: int)
    requires
        0 <= n <= moves.len(),
    ensures
        moved(fields, moves, n).len() == fields.len(),
        forall|k: int|
            0 <= k < fields.len() ==> (#[trigger] moved(fields, moves, n)[k]) == (FieldDefView {
                pos: moved(fields, moves, n)[k].pos,
                ..fields[k]
            }),
    decreases n,
{
    if n > 0 {
        lemma_moves(fields, moves, n - 1);
        lemma_first(moved(fields, moves, n - 1), field_named(moves[n - 1].name));
    }
}

/// Whether a move is of the field at a place.
pub open spec fn moves_field(d: RegisterDefView, m: FieldMoveView, k: int) -> bool {
    is_field(d, m.name, k)
}

proof fn lemma_move_found(d: RegisterDefView, moves: Seq<FieldMoveView>, n: int)
    requires
        0 <= n < moves.len(),
    ensures
        forall|k: int| #[trigger]
            moves_field(d, moves[n], k) ==> first(moved(d.fields, moves, n), field_named(moves[n].name)) == Some(k),
        first(moved(d.fields, moves, n), field_named(moves[n].name)) matches Some(k) ==> moves_field(
            d,
            moves[n],
            k,
        ),
{
    let s = moved(d.fields, moves, n);
    let q = field_named(moves[n].name);
    lemma_moves(d.fields, moves, n);
    lemma_first(s, q);
    assert forall|k: int| #[trigger] moves_field(d, moves[n], k) implies first(s, q) == Some(k) by {
        assert forall|j: int| 0 <= j < k implies !q(#[trigger] s[j]) by {
            assert(s[j].name == d.fields[j].name);
        }
        assert(s[k].name == d.fields[k].name);
        lemma_is_first(s, q, k);
    }
    if let Some(k) = first(s, q) {
        assert(s[k].name == d.fields[k].name);
        assert forall|j: int| 0 <= j < k implies (#[trigger] d.fields[j]).name != moves[n].name by {
            assert(s[j].name == d.fields[j].name);
            assert(!q(s[j]));
        }
    }
}

proof fn lemma_last_move(d: RegisterDefView, moves: Seq<FieldMoveView>, n: int, j: int, k: int)
    requires
        0 <= j < n <= moves.len(),
        moves_field(d, moves[j], k),
        forall|i: int| j < i < n ==> !#[trigger] moves_field(d, moves[i], k),
    ensures
        moved(d.fields, moves, n)[k].pos == moves[j].pos,
    decreases n,
{
    lemma_moves(d.fields, moves, n - 1);
    lemma_move_found(d, moves, n - 1);
    if j < n - 1 {
        lemma_last_move(d, moves, n - 1, j, k);
        assert(!moves_field(d, moves[n - 1], k));
    }
}

proof fn lemma_no_move(d: RegisterDefView, moves: Seq<FieldMoveView>, n: int, k: int)
    requires
        0 <= n <= moves.len(),
        0 <= k < d.fields.len(),
        forall|i: int| 0 <= i < n ==> !#[trigger] moves_field(d, moves[i], k),
    ensures
        moved(d.fields, moves, n)[k].pos == d.fields[k].pos,
    decreases n,
{
    if n > 0 {
        lemma_moves(d.fields, moves, n - 1);
        lemma_move_found(d, moves, n - 1);
        lemma_no_move(d, moves, n - 1, k);
        assert(!moves_field(d, moves[n - 1], k));
    }
}

/// Whether a note is about a field that one of the first `n` moves is of.
pub open spec fn notes_move(d: RegisterDefView, moves: Seq<FieldMoveView>, n: int, note: RecordView) -> bool {
    exists|j: int, k: int|
        0 <= j < n && #[trigger] moves_field(d, moves[j], k) && (d.fields[k].src.decl_line matches Some(line)
            && note == RecordView::FieldDirty(line))
}

proof fn lemma_moves_noted(d: RegisterDefView, moves: Seq<FieldMoveView>, n: int)
    requires
        0 <= n <= moves.len(),
    ensures
        forall|j: int, k: int|
            0 <= j < n && #[trigger] moves_field(d, moves[j], k) ==> (d.fields[k].src.decl_line matches Some(line)
                ==> move_records(d.fields, moves, n).contains(RecordView::FieldDirty(line))),
        forall|i: int|
            0 <= i < move_records(d.fields, moves, n).len() ==> notes_move(
                d,
                moves,
                n,
                #[trigger] move_records(d.fields, moves, n)[i],
            ),
    decreases n,
{
    if n > 0 {
        lemma_moves_noted(d, moves, n - 1);
        lemma_moves(d.fields, moves, n - 1);
        lemma_move_found(d, moves, n - 1);
        let head = move_records(d.fields, moves, n - 1);
        let all = move_records(d.fields, moves, n);
        assert forall|j: int, k: int|
            0 <= j < n && #[trigger] moves_field(d, moves[j], k) && d.fields[k].src.decl_line is Some implies all.contains(
            RecordView::FieldDirty(d.fields[k].src.decl_line->0),
        ) by {
            let r = RecordView::FieldDirty(d.fields[k].src.decl_line->0);
            if j < n - 1 {
                let i = choose|i: int| 0 <= i < head.len() && head[i] == r;
                assert(all[i] == r);
            } else {
                assert(moved(d.fields, moves, n - 1)[k].src == d.fields[k].src);
                assert(all[head.len() as int] == r);
            }
        }
        assert forall|i: int| 0 <= i < all.len() implies notes_move(d, moves, n, #[trigger] all[i]) by {
            if i < head.len() {
                assert(all[i] == head[i]);
                assert(notes_move(d, moves, n - 1, head[i]));
                let (j, k) = choose|j: int, k: int|
                    0 <= j < n - 1 && #[trigger] moves_field(d, moves[j], k) && (
                    d.fields[k].src.decl_line matches Some(line) && head[i] == RecordView::FieldDirty(line));
                assert(moves_field(d, moves[j], k));
            } else {
                let k = first(moved(d.fields, moves, n - 1), field_named(moves[n - 1].name))->0;
                assert(moves_field(d, moves[n - 1], k));
                assert(moved(d.fields, moves, n - 1)[k].src == d.fields[k].src);
            }
        }
    }
}

/// Fields that are moved get their new positions: the last one that was given for them. The other
/// fields, and everything else of all fields, stay as they are. Each moved field of the file is
/// noted, and nothing else.
pub proof fn moved_fields_get_their_positions(
    rif: RifDefView,
    reg_type: Seq<char>,
    moves: Seq<FieldMoveView>,
    p: int,
    r: int,
    m: int,
    x: int,
)
    requires
        is_def(rif, reg_type, p, r),
        0 <= m < moves.len(),
        moves_field(the_def(rif, p, r), moves[m], x),
    ensures
        ({
            let d = the_def(rif, p, r);
            field_moving(rif, reg_type, moves) matches RifApplied::Staged(o, follow) && {
                let e = the_def(o.rif, p, r);
                &&& only_def(rif, o.rif, p, r, RegisterDefView { fields: e.fields, ..d })
                &&& e.fields.len() == d.fields.len()
                &&& forall|k: int|
                    0 <= k < d.fields.len() ==> (#[trigger] e.fields[k]) == (FieldDefView {
                        pos: e.fields[k].pos,
                        ..d.fields[k]
                    })
                &&& forall|j: int, k: int|
                    0 <= j < moves.len() && #[trigger] moves_field(d, moves[j], k) && (forall|i: int|
                        j < i < moves.len() ==> !#[trigger] moves_field(d, moves[i], k)) ==> e.fields[k].pos
                        == moves[j].pos
                &&& forall|k: int|
                    0 <= k < d.fields.len() && (forall|i: int|
                        0 <= i < moves.len() ==> !#[trigger] moves_field(d, moves[i], k))
                        ==> #[trigger] e.fields[k] == d.fields[k]
                &&& forall|j: int, k: int|
                    0 <= j < moves.len() && #[trigger] moves_field(d, moves[j], k) ==> (
                    d.fields[k].src.decl_line matches Some(line) ==> o.records.contains(RecordView::FieldDirty(line)))
                &&& forall|i: int|
                    0 <= i < o.records.len() ==> notes_move(d, moves, moves.len() as int, #[trigger] o.records[i])
                &&& follow == FollowView::FieldsMoved
            }
        }),
{
    reveal(move_fields_outcome);
    lemma_def(rif, reg_type, p, r);
    let d = the_def(rif, p, r);
    let n = moves.len() as int;
    lemma_move_found(d, moves, m);
    assert(moves_any(d.fields, moves)) by {
        assert(first(moved(d.fields, moves, m), field_named(moves[m].name)) is Some);
    }
    lemma_moves(d.fields, moves, n);
    lemma_moves_noted(d, moves, n);
    let after = moved(d.fields, moves, n);
    assert forall|j: int, k: int|
        0 <= j < moves.len() && #[trigger] moves_field(d, moves[j], k) && (forall|i: int|
            j < i < moves.len() ==> !#[trigger] moves_field(d, moves[i], k)) implies after[k].pos == moves[j].pos by {
        lemma_last_move(d, moves, n, j, k);
    }
    assert forall|k: int|
        0 <= k < d.fields.len() && (forall|i: int| 0 <= i < moves.len() ==> !#[trigger] moves_field(d, moves[i], k))
        implies #[trigger] after[k] == d.fields[k] by {
        lemma_no_move(d, moves, n, k);
    }
}

/// Where the register is not there, or has none of the fields, nothing is moved.
pub proof fn moved_fields_are_there(
    rif: RifDefView,
    reg_type: Seq<char>,
    moves: Seq<FieldMoveView>,
    p: int,
    r: int,
)
    requires
        no_def(rif, reg_type) || (is_def(rif, reg_type, p, r) && forall|j: int|
            0 <= j < moves.len() ==> no_field(the_def(rif, p, r), (#[trigger] moves[j]).name)),
    ensures
        field_moving(rif, reg_type, moves) is Nothing,
{
    reveal(move_fields_outcome);
    if no_def(rif, reg_type) {
        lemma_no_def(rif, reg_type);
    } else {
        lemma_def(rif, reg_type, p, r);
        let d = the_def(rif, p, r);
        assert forall|j: int| 0 <= j < moves.len() implies first(
            moved(d.fields, moves, j),
            field_named((#[trigger] moves[j]).name),
        ) is None by {
            lemma_move_found(d, moves, j);
            assert(no_field(d, moves[j].name));
            if let Some(k) = first(moved(d.fields, moves, j), field_named(moves[j].name)) {
                assert(moves_field(d, moves[j], k));
                assert(d.fields[k].name == moves[j].name);
            }
        }
        assert(!moves_any(d.fields, moves));
    }
}

} // verus!
