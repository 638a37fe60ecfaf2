//! What was edited reaches the file.
use vstd::prelude::*;
use crate::bridge::{field_decl, reg_decl};
use crate::edits::{recorded_all, LineEditView, PendingEditsView, RecordView, RifClockLineKind};
use crate::field_update::{block_edit, field_after, line_edit, prop_records};
use crate::file_io::{def_at, deleted_line_is_removed, file_ops, has_def, has_field, has_inst};
use crate::held::{noted_edit_is_held, overtakes, stands};
use crate::model::page::{FieldOvrView, InstanceView, PageView, RegOvrView};
use crate::model::props::{FieldOverrideProp, FieldProp, RegOverrideProp, RifProp};
use crate::model::register::{FieldDefView, RegisterDefView};
use crate::model::rif::{ClockingView, EnumItemView, RifDefView};
use crate::model::values::{ExprView, IntrKind, ResetView};
use crate::plan::{block_last, in_file, indent_at, indent_below, removed, OpView};
use crate::planned::{done, inst_done, line_done, pending_edit_is_done};
use crate::printed::{field_line, reg_line};
use crate::reg_update::{
    field_converted, field_descs_gone, field_line_gone, gathered, reg_after, reg_field_records, reg_lines,
    reg_own_records, reg_records,
};
use crate::save_page::ovr_line;
use crate::save_reg::block_end;
use crate::search::{first, lemma_first};
use crate::source::{
    enum_named, field_named, inst_at, lemma_locate_inst, lemma_locate_reg, locate_inst, locate_reg, page_named,
    reg_at, with_inst,
};
use crate::stage_field::{
    delete_field_outcome, move_fields_outcome, move_records, update_field_outcome, FieldMoveView, Outcome,
};
use crate::stage_ovr::{
    field_intr_desc_outcome, field_override_outcome, field_ovr_after, field_ovr_of, ovr_named, ovr_of,
    reg_intr_desc_outcome, reg_override_outcome, reg_ovr_after, reg_ovr_lines,
};
use crate::stage_reg::{
    companion_records, delete_reg_outcome, doomed_def, doomed_inst, inst_array_outcome, no_expr, redeclared,
    redeclared_on, swap_outcome, update_reg_outcome, update_reg_with_moves_outcome, CompanionView,
};
use crate::stage_rif::{
    clock_records, clocking_outcome, enum_records, params_outcome, reset_lines, reset_records, resets_gone,
    rif_after, rif_lines, rif_records, update_enum_outcome,
};
use crate::syntax::{
    desc_block, field_ovr_line, inst_decl, override_desc_block, reg_ovr_line, rif_desc_block, rif_prop_line,
};
use crate::vals::{
    FieldOverrideValsView, FieldValsView, GenericEntryView, ParamEntryView, RegDefValsView, RegOverrideValsView,
    RifDefValsView,
};

verus! {

/// Whether everything that an edit asks for is done when it is saved, whatever other edits wait.
pub open spec fn saved(orig: Seq<Seq<char>>, o: Outcome, e: PendingEditsView) -> bool {
    forall|k: int|
        0 <= k < o.records.len() ==> done(
            orig,
            o.rif,
            file_ops(orig, o.rif, recorded_all(e, o.records)),
            #[trigger] o.records[k],
        )
}

/// An edit that was noted is done when the edits are saved, unless a later one says something else
/// of the same line or block.
pub proof fn noted_edit_is_saved(
    orig: Seq<Seq<char>>,
    rif: RifDefView,
    e: PendingEditsView,
    rs: Seq<RecordView>,
    k: int,
)
    requires
        e.wf(),
        orig.len() <= usize::MAX,
        0 <= k < rs.len(),
        stands(rs, k),
    ensures
        done(orig, rif, file_ops(orig, rif, recorded_all(e, rs)), rs[k]),
{
    noted_edit_is_held(e, rs, k);
    pending_edit_is_done(orig, rif, recorded_all(e, rs), rs[k]);
}

/// Whether two notes that are about the same line or block say the same.
pub open spec fn consistent(q: spec_fn(RecordView) -> bool) -> bool {
    forall|a: RecordView, b: RecordView| #[trigger] q(a) && #[trigger] q(b) ==> !overtakes(a, b)
}

/// Whether all notes are of one sort.
pub open spec fn all_notes(rs: Seq<RecordView>, q: spec_fn(RecordView) -> bool) -> bool {
    forall|k: int| 0 <= k < rs.len() ==> q(#[trigger] rs[k])
}

proof fn lemma_saved(orig: Seq<Seq<char>>, o: Outcome, e: PendingEditsView, q: spec_fn(RecordView) -> bool)
    requires
        e.wf(),
        orig.len() <= usize::MAX,
        consistent(q),
        all_notes(o.records, q),
    ensures
        saved(orig, o, e),
{
    assert forall|k: int| 0 <= k < o.records.len() implies done(
        orig,
        o.rif,
        file_ops(orig, o.rif, recorded_all(e, o.records)),
        #[trigger] o.records[k],
    ) by {
        assert(stands(o.records, k)) by {
            assert(q(o.records[k]));
        }
        noted_edit_is_saved(orig, o.rif, e, o.records, k);
    }
}

/// Marks never contradict each other.
pub open spec fn mark() -> spec_fn(RecordView) -> bool {
    |r: RecordView|
        r is FieldDirty || r is FieldDeleted || r is EnumDirty || r is EnumDeleted || r is RegDeleted || r is InstDirty
            || r is InstDeleted
}

/// What an edit of a field notes.
pub open spec fn field_note(after: FieldDefView) -> spec_fn(RecordView) -> bool {
    |r: RecordView|
        match r {
            RecordView::FieldDirty(_) => true,
            RecordView::FieldLine(_, p, x) => x == line_edit(field_line(after, p)),
            RecordView::FieldDesc(_, x) => x == block_edit(desc_block(after.description)),
            _ => false,
        }
}

/// Everything that an edit of a field changes is done to the file when it is saved: its
/// declaration, its property lines and its description.
pub proof fn field_edit_is_saved(
    orig: Seq<Seq<char>>,
    rif: RifDefView,
    reg_type: Seq<char>,
    orig_name: Seq<char>,
    v: FieldValsView,
    e: PendingEditsView,
)
    requires
        e.wf(),
        orig.len() <= usize::MAX,
        update_field_outcome(rif, reg_type, orig_name, v) is Some,
    ensures
        saved(orig, update_field_outcome(rif, reg_type, orig_name, v)->0, e),
{
    reveal(update_field_outcome);
    let d = reg_at(rif, locate_reg(rif, reg_type)->0);
    let f = d.fields[first(d.fields, field_named(orig_name))->0];
    lemma_saved(
        orig,
        update_field_outcome(rif, reg_type, orig_name, v)->0,
        e,
        field_note(field_after(f, v)),
    );
}

proof fn lemma_move_notes(fields: Seq<FieldDefView>, moves: Seq<FieldMoveView>, n: int)
    ensures
        all_notes(move_records(fields, moves, n), mark()),
    decreases n,
{
    if n > 0 {
        lemma_move_notes(fields, moves, n - 1);
    }
}

/// Every field that changed its place is written when that is saved.
pub proof fn field_moves_are_saved(
    orig: Seq<Seq<char>>,
    rif: RifDefView,
    reg_type: Seq<char>,
    moves: Seq<FieldMoveView>,
    e: PendingEditsView,
)
    requires
        e.wf(),
        orig.len() <= usize::MAX,
        move_fields_outcome(rif, reg_type, moves) is Some,
    ensures
        saved(orig, move_fields_outcome(rif, reg_type, moves)->0, e),
{
    reveal(move_fields_outcome);
    let d = reg_at(rif, locate_reg(rif, reg_type)->0);
    lemma_move_notes(d.fields, moves, moves.len() as int);
    lemma_saved(orig, move_fields_outcome(rif, reg_type, moves)->0, e, mark());
}

/// A deleted field goes from the file, with its block, when that is saved.
pub proof fn field_deletion_is_saved(
    orig: Seq<Seq<char>>,
    rif: RifDefView,
    reg_type: Seq<char>,
    name: Seq<char>,
    e: PendingEditsView,
)
    requires
        e.wf(),
        orig.len() <= usize::MAX,
        delete_field_outcome(rif, reg_type, name) is Some,
    ensures
        saved(orig, delete_field_outcome(rif, reg_type, name)->0, e),
{
    reveal(delete_field_outcome);
    lemma_saved(orig, delete_field_outcome(rif, reg_type, name)->0, e, mark());
}

proof fn lemma_enum_notes(was: Seq<EnumItemView>, now: Seq<EnumItemView>, n: int)
    ensures
        all_notes(enum_records(was, now, n), mark()),
    decreases n,
{
    if n > 0 {
        lemma_enum_notes(was, now, n - 1);
    }
}

/// Every entry of an enum that changed or went is written or taken away when that is saved.
pub proof fn enum_edit_is_saved(
    orig: Seq<Seq<char>>,
    rif: RifDefView,
    name: Seq<char>,
    values: Seq<EnumItemView>,
    e: PendingEditsView,
)
    requires
        e.wf(),
        orig.len() <= usize::MAX,
    ensures
        saved(orig, update_enum_outcome(rif, name, values), e),
{
    reveal(update_enum_outcome);
    if let Some(k) = first(rif.enum_defs, enum_named(name)) {
        lemma_enum_notes(rif.enum_defs[k].values, values, rif.enum_defs[k].values.len() as int);
    }
    lemma_saved(orig, update_enum_outcome(rif, name, values), e, mark());
}

/// What an edit of a register notes.
pub open spec fn reg_note(after: RegisterDefView) -> spec_fn(RecordView) -> bool {
    |r: RecordView|
        match r {
            RecordView::RegDirty(_) => true,
            RecordView::FieldDirty(_) => true,
            RecordView::InstDirty(_) => true,
            RecordView::RegLine(_, p, x) => x == line_edit(reg_line(after, p)),
            RecordView::RegDesc(_, x) => x == block_edit(desc_block(after.description)),
            RecordView::RegIntrDesc(_, _, x) => x is Remove,
            RecordView::FieldIntrDesc(_, _, x) => x is Remove,
            RecordView::FieldLine(_, _, x) => x is Remove,
            _ => false,
        }
}

proof fn lemma_reg_line_notes(before: RegisterDefView, after: RegisterDefView, line: usize, n: int)
    ensures
        all_notes(reg_lines(before, after, line, n), reg_note(after)),
    decreases n,
{
    if n > 0 {
        lemma_reg_line_notes(before, after, line, n - 1);
    }
}

proof fn lemma_gathered_notes<T>(
    s: Seq<T>,
    f: spec_fn(T) -> Seq<RecordView>,
    n: int,
    q: spec_fn(RecordView) -> bool,
)
    requires
        0 <= n <= s.len(),
        forall|k: int| 0 <= k < n ==> all_notes(f(#[trigger] s[k]), q),
    ensures
        all_notes(gathered(s, f, n), q),
    decreases n,
{
    if n > 0 {
        lemma_gathered_notes(s, f, n - 1, q);
        assert(all_notes(f(s[n - 1]), q));
    }
}

proof fn lemma_redeclared_on_notes(before: Seq<PageView>, after: Seq<PageView>, n: int, q: spec_fn(RecordView) -> bool)
    requires
        forall|r: RecordView| r is InstDirty ==> #[trigger] q(r),
    ensures
        all_notes(redeclared_on(before, after, n), q),
    decreases n,
{
    if n > 0 {
        lemma_redeclared_on_notes(before, after, n - 1, q);
        lemma_redeclared_inst(
            before[n - 1].instances,
            after[n - 1].instances,
            before[n - 1].instances.len() as int,
        );
    }
}

proof fn lemma_redeclared_inst(before: Seq<InstanceView>, after: Seq<InstanceView>, n: int)
    ensures
        forall|k: int|
            0 <= k < redeclared(before, after, n).len() ==> (#[trigger] redeclared(before, after, n)[k]) is InstDirty,
    decreases n,
{
    if n > 0 {
        lemma_redeclared_inst(before, after, n - 1);
    }
}

proof fn lemma_reg_notes(d: RegisterDefView, orig_name: Seq<char>, v: RegDefValsView)
    ensures
        all_notes(reg_records(d, orig_name, v), reg_note(reg_after(d, orig_name, v))),
{
    let after = reg_after(d, orig_name, v);
    let q = reg_note(after);
    let n = d.fields.len() as int;
    if let Some(line) = d.src.decl_line {
        lemma_reg_line_notes(d, after, line, 10);
    }
    assert(all_notes(reg_own_records(d, orig_name, v), q));
    lemma_gathered_notes(d.fields, field_descs_gone(), n, q);
    lemma_gathered_notes(d.fields, field_line_gone(), n, q);
    lemma_gathered_notes(d.fields, field_converted(d, v), n, q);
    assert(all_notes(reg_field_records(d, v), q));
}

/// Everything that an edit of a register changes is done to the file when it is saved: its
/// declaration, its property lines and its descriptions, the lines of its fields that go with an
/// interrupt, and the declaration of every instance that follows a new name or address.
pub proof fn register_edit_is_saved(
    orig: Seq<Seq<char>>,
    rif: RifDefView,
    orig_name: Seq<char>,
    inst_name: Seq<char>,
    v: RegDefValsView,
    e: PendingEditsView,
)
    requires
        e.wf(),
        orig.len() <= usize::MAX,
        update_reg_outcome(rif, orig_name, inst_name, v) is Some,
    ensures
        saved(orig, update_reg_outcome(rif, orig_name, inst_name, v)->0, e),
{
    lemma_reg_edit_notes(rif, orig_name, inst_name, v);
    let d = reg_at(rif, locate_reg(rif, orig_name)->0);
    lemma_saved(
        orig,
        update_reg_outcome(rif, orig_name, inst_name, v)->0,
        e,
        reg_note(reg_after(d, orig_name, v)),
    );
}

proof fn lemma_reg_edit_notes(rif: RifDefView, orig_name: Seq<char>, inst_name: Seq<char>, v: RegDefValsView)
    requires
        update_reg_outcome(rif, orig_name, inst_name, v) is Some,
    ensures
        all_notes(
            update_reg_outcome(rif, orig_name, inst_name, v)->0.records,
            reg_note(reg_after(reg_at(rif, locate_reg(rif, orig_name)->0), orig_name, v)),
        ),
{
    reveal(update_reg_outcome);
    let d = reg_at(rif, locate_reg(rif, orig_name)->0);
    let o = update_reg_outcome(rif, orig_name, inst_name, v)->0;
    lemma_reg_notes(d, orig_name, v);
    lemma_redeclared_on_notes(
        rif.pages,
        o.rif.pages,
        rif.pages.len() as int,
        reg_note(reg_after(d, orig_name, v)),
    );
}

proof fn lemma_companion_notes(rif: RifDefView, cs: Seq<CompanionView>, n: int)
    ensures
        forall|k: int|
            0 <= k < companion_records(rif, cs, n).len() ==> (#[trigger] companion_records(rif, cs, n)[k]) is InstDirty,
    decreases n,
{
    if n > 0 {
        lemma_companion_notes(rif, cs, n - 1);
    }
}

/// The same holds where other instances make room for the register.
pub proof fn register_edit_with_moves_is_saved(
    orig: Seq<Seq<char>>,
    rif: RifDefView,
    orig_name: Seq<char>,
    inst_name: Seq<char>,
    v: RegDefValsView,
    cs: Seq<CompanionView>,
    e: PendingEditsView,
)
    requires
        e.wf(),
        orig.len() <= usize::MAX,
        update_reg_with_moves_outcome(rif, orig_name, inst_name, v, cs) is Some,
    ensures
        saved(orig, update_reg_with_moves_outcome(rif, orig_name, inst_name, v, cs)->0, e),
{
    reveal(update_reg_with_moves_outcome);
    lemma_reg_edit_notes(rif, orig_name, inst_name, v);
    let d = reg_at(rif, locate_reg(rif, orig_name)->0);
    lemma_companion_notes(update_reg_outcome(rif, orig_name, inst_name, v)->0.rif, cs, cs.len() as int);
    lemma_saved(
        orig,
        update_reg_with_moves_outcome(rif, orig_name, inst_name, v, cs)->0,
        e,
        reg_note(reg_after(d, orig_name, v)),
    );
}

/// Another array size for an instance is written when it is saved, with the instances that make
/// room for it.
pub proof fn array_size_is_saved(
    orig: Seq<Seq<char>>,
    rif: RifDefView,
    inst_name: Seq<char>,
    array: Option<ExprView>,
    cs: Seq<CompanionView>,
    e: PendingEditsView,
)
    requires
        e.wf(),
        orig.len() <= usize::MAX,
        inst_array_outcome(rif, inst_name, array, cs) is Some,
    ensures
        saved(orig, inst_array_outcome(rif, inst_name, array, cs)->0, e),
{
    reveal(inst_array_outcome);
    let at = locate_inst(rif, inst_name)->0;
    let after = InstanceView {
        array: match array {
            Some(x) => x,
            None => no_expr(),
        },
        ..inst_at(rif, at)
    };
    lemma_companion_notes(with_inst(rif, at, after), cs, cs.len() as int);
    lemma_saved(orig, inst_array_outcome(rif, inst_name, array, cs)->0, e, mark());
}

/// A deleted register goes from the file when that is saved, with its block, and so does its
/// instance.
pub proof fn register_deletion_is_saved(
    orig: Seq<Seq<char>>,
    rif: RifDefView,
    page_name: Seq<char>,
    reg_type: Seq<char>,
    inst_name: Option<Seq<char>>,
    e: PendingEditsView,
)
    requires
        e.wf(),
        orig.len() <= usize::MAX,
        delete_reg_outcome(rif, page_name, reg_type, inst_name) is Some,
    ensures
        saved(orig, delete_reg_outcome(rif, page_name, reg_type, inst_name)->0, e),
{
    reveal(delete_reg_outcome);
    lemma_saved(orig, delete_reg_outcome(rif, page_name, reg_type, inst_name)->0, e, mark());
}

proof fn lemma_one_saved(orig: Seq<Seq<char>>, o: Outcome, e: PendingEditsView)
    requires
        e.wf(),
        orig.len() <= usize::MAX,
        o.records.len() <= 1,
    ensures
        saved(orig, o, e),
{
    if o.records.len() == 1 {
        noted_edit_is_saved(orig, o.rif, e, o.records, 0);
    }
}

/// Another description for a register derived from an interrupt is written when it is saved.
pub proof fn derived_register_description_is_saved(
    orig: Seq<Seq<char>>,
    rif: RifDefView,
    reg_type: Seq<char>,
    kind: IntrKind,
    text: Seq<char>,
    e: PendingEditsView,
)
    requires
        e.wf(),
        orig.len() <= usize::MAX,
        reg_intr_desc_outcome(rif, reg_type, kind, text) is Some,
    ensures
        saved(orig, reg_intr_desc_outcome(rif, reg_type, kind, text)->0, e),
{
    reveal(reg_intr_desc_outcome);
    lemma_one_saved(orig, reg_intr_desc_outcome(rif, reg_type, kind, text)->0, e);
}

/// Another description for a field in a register derived from an interrupt is written when it is
/// saved.
pub proof fn derived_field_description_is_saved(
    orig: Seq<Seq<char>>,
    rif: RifDefView,
    reg_type: Seq<char>,
    field_name: Seq<char>,
    kind: IntrKind,
    text: Seq<char>,
    e: PendingEditsView,
)
    requires
        e.wf(),
        orig.len() <= usize::MAX,
        field_intr_desc_outcome(rif, reg_type, field_name, kind, text) is Some,
    ensures
        saved(orig, field_intr_desc_outcome(rif, reg_type, field_name, kind, text)->0, e),
{
    reveal(field_intr_desc_outcome);
    lemma_one_saved(orig, field_intr_desc_outcome(rif, reg_type, field_name, kind, text)->0, e);
}

/// What an edit of the overrides of a register notes.
pub open spec fn ovr_note(after: RegOvrView) -> spec_fn(RecordView) -> bool {
    |r: RecordView|
        match r {
            RecordView::RegOvrLine(_, p, x) => x == line_edit(reg_ovr_line(after, p)),
            RecordView::RegOvrDesc(_, x) => x == block_edit(override_desc_block(after.description)),
            _ => false,
        }
}

proof fn lemma_ovr_notes(before: RegOvrView, after: RegOvrView, line: usize, n: int)
    ensures
        all_notes(reg_ovr_lines(before, after, line, n), ovr_note(after)),
    decreases n,
{
    if n > 0 {
        lemma_ovr_notes(before, after, line, n - 1);
    }
}

/// What an instance overrides for its register is written when it is saved, or taken out of the
/// file, also where nothing is overridden any more.
pub proof fn register_override_is_saved(
    orig: Seq<Seq<char>>,
    rif: RifDefView,
    inst_name: Seq<char>,
    v: RegOverrideValsView,
    e: PendingEditsView,
)
    requires
        e.wf(),
        orig.len() <= usize::MAX,
        reg_override_outcome(rif, inst_name, v) is Some,
    ensures
        saved(orig, reg_override_outcome(rif, inst_name, v)->0, e),
{
    reveal(reg_override_outcome);
    let i = inst_at(rif, locate_inst(rif, inst_name)->0);
    let after = reg_ovr_after(ovr_of(i), v);
    if let Some(line) = i.decl_line {
        lemma_ovr_notes(ovr_of(i), after, line, 4);
    }
    lemma_saved(orig, reg_override_outcome(rif, inst_name, v)->0, e, ovr_note(after));
}

/// What an edit of the overrides of a field notes.
pub open spec fn field_ovr_note(after: FieldOvrView, reset: ResetView) -> spec_fn(RecordView) -> bool {
    |r: RecordView|
        match r {
            RecordView::FieldOvrLine(_, _, p, x) => x == line_edit(field_ovr_line(after, p, reset)),
            _ => false,
        }
}

/// What an instance overrides for a field is written when it is saved, or taken out of the file,
/// also where nothing is overridden any more.
pub proof fn field_override_is_saved(
    orig: Seq<Seq<char>>,
    rif: RifDefView,
    inst_name: Seq<char>,
    field: Seq<char>,
    v: FieldOverrideValsView,
    e: PendingEditsView,
)
    requires
        e.wf(),
        orig.len() <= usize::MAX,
        field_override_outcome(rif, inst_name, field, v) is Some,
    ensures
        saved(orig, field_override_outcome(rif, inst_name, field, v)->0, e),
{
    reveal(field_override_outcome);
    let i = inst_at(rif, locate_inst(rif, inst_name)->0);
    let after = field_ovr_after(field_ovr_of(ovr_of(i), field), v);
    lemma_saved(
        orig,
        field_override_outcome(rif, inst_name, field, v)->0,
        e,
        field_ovr_note(after, v.field_reset),
    );
}

/// What an edit of a RIF notes.
pub open spec fn rif_note(after: RifDefView) -> spec_fn(RecordView) -> bool {
    |r: RecordView|
        match r {
            RecordView::RifDirty(_) => true,
            RecordView::RifLine(p, x) => x == line_edit(rif_prop_line(after, p)),
            RecordView::RifDesc(x) => x == block_edit(rif_desc_block(after.description)),
            _ => false,
        }
}

proof fn lemma_rif_notes(before: RifDefView, after: RifDefView, n: int)
    ensures
        all_notes(rif_lines(before, after, n), rif_note(after)),
    decreases n,
{
    if n > 0 {
        lemma_rif_notes(before, after, n - 1);
    }
}

/// Everything that an edit of a RIF changes is done to the file when it is saved: its declaration,
/// its property lines and its description.
pub proof fn rif_edit_is_saved(orig: Seq<Seq<char>>, rif: RifDefView, v: RifDefValsView, e: PendingEditsView)
    requires
        e.wf(),
        orig.len() <= usize::MAX,
    ensures
        saved(orig, (Outcome { rif: rif_after(rif, v), records: rif_records(rif, rif_after(rif, v)) }), e),
{
    let after = rif_after(rif, v);
    lemma_rif_notes(rif, after, 10);
    lemma_saved(orig, (Outcome { rif: after, records: rif_records(rif, after) }), e, rif_note(after));
}

/// The property of a clock line.
pub open spec fn clock_prop(k: RifClockLineKind) -> RifProp {
    match k {
        RifClockLineKind::SwClock => RifProp::SwClock,
        RifClockLineKind::HwClock => RifProp::HwClock,
        RifClockLineKind::SwClkEn => RifProp::SwClkEn,
        RifClockLineKind::HwClkEn => RifProp::HwClkEn,
        RifClockLineKind::SwClear => RifProp::SwClear,
        RifClockLineKind::HwClear => RifProp::HwClear,
    }
}

/// What an edit of the clocks notes.
pub open spec fn clock_note(after: RifDefView) -> spec_fn(RecordView) -> bool {
    |r: RecordView|
        match r {
            RecordView::ClockLine(k, x) => x == line_edit(rif_prop_line(after, clock_prop(k))),
            RecordView::ResetDeleted(_) => true,
            RecordView::ResetLines(hw, ls) => ls == if hw {
                reset_lines("hwReset"@, after.hw_clocking)
            } else {
                reset_lines("swReset"@, after.sw_clocking)
            },
            _ => false,
        }
}

proof fn lemma_reset_notes(cs: Seq<ClockingView>, n: int)
    ensures
        forall|k: int| 0 <= k < resets_gone(cs, n).len() ==> (#[trigger] resets_gone(cs, n)[k]) is ResetDeleted,
    decreases n,
{
    if n > 0 {
        lemma_reset_notes(cs, n - 1);
    }
}

/// The lines of clocks and resets that changed are written, put or taken away when that is saved.
pub proof fn clocking_is_saved(
    orig: Seq<Seq<char>>,
    rif: RifDefView,
    sw: Seq<ClockingView>,
    hw: Seq<ClockingView>,
    e: PendingEditsView,
)
    requires
        e.wf(),
        orig.len() <= usize::MAX,
    ensures
        saved(orig, clocking_outcome(rif, sw, hw), e),
{
    reveal(clocking_outcome);
    let o = clocking_outcome(rif, sw, hw);
    let q = clock_note(o.rif);
    lemma_reset_notes(rif.sw_clocking, rif.sw_clocking.len() as int);
    lemma_reset_notes(rif.hw_clocking, rif.hw_clocking.len() as int);
    assert(all_notes(clock_records(rif, o.rif), q));
    assert(all_notes(reset_records(rif.sw_clocking, sw, false), q));
    assert(all_notes(reset_records(rif.hw_clocking, hw, true), q));
    lemma_saved(orig, o, e, q);
}

/// The lines of parameters and generics that changed are written, put or taken away when that is
/// saved. Where two rows of the table come from the same line, the later one is written.
pub proof fn parameters_are_saved(
    orig: Seq<Seq<char>>,
    rif: RifDefView,
    params: Seq<ParamEntryView>,
    generics: Seq<GenericEntryView>,
    e: PendingEditsView,
    k: int,
)
    requires
        e.wf(),
        orig.len() <= usize::MAX,
        0 <= k < params_outcome(rif, params, generics).records.len(),
        stands(params_outcome(rif, params, generics).records, k),
    ensures
        ({
            let o = params_outcome(rif, params, generics);
            done(orig, o.rif, file_ops(orig, o.rif, recorded_all(e, o.records)), o.records[k])
        }),
{
    let o = params_outcome(rif, params, generics);
    noted_edit_is_saved(orig, o.rif, e, o.records, k);
}

/// A field whose declaration prints otherwise after an edit is written that way when the edit is
/// saved, in its place in the file, whatever other edits wait.
pub proof fn edited_field_reaches_the_file(
    orig: Seq<Seq<char>>,
    rif: RifDefView,
    reg_type: Seq<char>,
    orig_name: Seq<char>,
    v: FieldValsView,
    e: PendingEditsView,
    line: usize,
)
    requires
        e.wf(),
        orig.len() <= usize::MAX,
        update_field_outcome(rif, reg_type, orig_name, v) is Some,
        ({
            let d = reg_at(rif, locate_reg(rif, reg_type)->0);
            let f = d.fields[first(d.fields, field_named(orig_name))->0];
            &&& f.src.decl_line == Some(line)
            &&& field_decl(field_after(f, v)) != field_decl(f)
        }),
        in_file(line, orig.len()),
    ensures
        ({
            let d = reg_at(rif, locate_reg(rif, reg_type)->0);
            let f = d.fields[first(d.fields, field_named(orig_name))->0];
            let o = update_field_outcome(rif, reg_type, orig_name, v)->0;
            file_ops(orig, o.rif, recorded_all(e, o.records)).contains(
                OpView::Replace(line - 1, indent_at(orig, line) + field_decl(field_after(f, v))),
            )
        }),
{
    reveal(update_field_outcome);
    lemma_locate_reg(rif, reg_type);
    let at = locate_reg(rif, reg_type)->0;
    let d = reg_at(rif, at);
    lemma_first(d.fields, field_named(orig_name));
    let k = first(d.fields, field_named(orig_name))->0;
    let o = update_field_outcome(rif, reg_type, orig_name, v)->0;
    field_edit_is_saved(orig, rif, reg_type, orig_name, v, e);
    assert(o.records[0] == RecordView::FieldDirty(line));
    assert(has_field(o.rif, at.0, at.1, k));
    assert(def_at(o.rif, at.0, at.1).fields[k] == field_after(d.fields[k], v));
}

/// A property of a field that was changed is written when that is saved, on the line that it has in
/// the file; where nothing of it is left, the line goes.
pub proof fn edited_property_reaches_the_file(
    orig: Seq<Seq<char>>,
    rif: RifDefView,
    reg_type: Seq<char>,
    orig_name: Seq<char>,
    v: FieldValsView,
    e: PendingEditsView,
    p: FieldProp,
    decl: usize,
    line: usize,
)
    requires
        e.wf(),
        orig.len() <= usize::MAX,
        update_field_outcome(rif, reg_type, orig_name, v) is Some,
        v.changed.contains(p),
        ({
            let d = reg_at(rif, locate_reg(rif, reg_type)->0);
            let f = d.fields[first(d.fields, field_named(orig_name))->0];
            f.src.decl_line == Some(decl) && f.src.prop_lines[p.index()] == Some(line)
        }),
        in_file(decl, orig.len()),
        in_file(line, orig.len()),
    ensures
        ({
            let d = reg_at(rif, locate_reg(rif, reg_type)->0);
            let f = d.fields[first(d.fields, field_named(orig_name))->0];
            let o = update_field_outcome(rif, reg_type, orig_name, v)->0;
            let ops = file_ops(orig, o.rif, recorded_all(e, o.records));
            match field_line(field_after(f, v), p) {
                Some(t) => ops.contains(OpView::Replace(line - 1, indent_at(orig, line) + t)),
                None => removed(ops, line - 1, ops.len() as int),
            }
        }),
{
    reveal(update_field_outcome);
    lemma_locate_reg(rif, reg_type);
    let at = locate_reg(rif, reg_type)->0;
    let d = reg_at(rif, at);
    lemma_first(d.fields, field_named(orig_name));
    let k = first(d.fields, field_named(orig_name))->0;
    let f = d.fields[k];
    let after = field_after(f, v);
    let o = update_field_outcome(rif, reg_type, orig_name, v)->0;
    let ops = file_ops(orig, o.rif, recorded_all(e, o.records));
    field_edit_is_saved(orig, rif, reg_type, orig_name, v, e);
    let j = choose|j: int| 0 <= j < v.changed.len() && v.changed[j] == p;
    let head: int = if field_decl(after) != field_decl(f) {
        1
    } else {
        0
    };
    assert(prop_records(after, decl, v.changed)[j] == RecordView::FieldLine(
        decl,
        p,
        line_edit(field_line(after, p)),
    ));
    assert(o.records[head + j] == RecordView::FieldLine(decl, p, line_edit(field_line(after, p))));
    assert(has_field(o.rif, at.0, at.1, k));
    assert(def_at(o.rif, at.0, at.1).fields[k] == after);
    assert(line_done(
        orig,
        ops,
        Some(line),
        line_edit(field_line(after, p)),
        block_end(orig, decl),
        indent_below(orig, decl),
    ));
    if field_line(after, p) is None {
        deleted_line_is_removed(ops, line - 1);
    }
}

/// A register whose declaration prints otherwise after an edit is written that way when the edit
/// is saved, in its place in the file, whatever other edits wait.
pub proof fn edited_register_reaches_the_file(
    orig: Seq<Seq<char>>,
    rif: RifDefView,
    orig_name: Seq<char>,
    inst_name: Seq<char>,
    v: RegDefValsView,
    e: PendingEditsView,
    line: usize,
)
    requires
        e.wf(),
        orig.len() <= usize::MAX,
        update_reg_outcome(rif, orig_name, inst_name, v) is Some,
        ({
            let d = reg_at(rif, locate_reg(rif, orig_name)->0);
            &&& d.src.decl_line == Some(line)
            &&& reg_decl(reg_after(d, orig_name, v)) != reg_decl(d)
        }),
        in_file(line, orig.len()),
    ensures
        ({
            let d = reg_at(rif, locate_reg(rif, orig_name)->0);
            let o = update_reg_outcome(rif, orig_name, inst_name, v)->0;
            file_ops(orig, o.rif, recorded_all(e, o.records)).contains(
                OpView::Replace(line - 1, indent_at(orig, line) + reg_decl(reg_after(d, orig_name, v))),
            )
        }),
{
    register_edit_is_saved(orig, rif, orig_name, inst_name, v, e);
    reveal(update_reg_outcome);
    lemma_locate_reg(rif, orig_name);
    let at = locate_reg(rif, orig_name)->0;
    let d = reg_at(rif, at);
    let o = update_reg_outcome(rif, orig_name, inst_name, v)->0;
    assert(reg_own_records(d, orig_name, v)[0] == RecordView::RegDirty(line));
    assert(reg_records(d, orig_name, v)[0] == RecordView::RegDirty(line));
    assert(o.records[0] == RecordView::RegDirty(line));
    assert(has_def(o.rif, at.0, at.1));
    assert(def_at(o.rif, at.0, at.1) == reg_after(d, orig_name, v));
}

proof fn lemma_redeclared(before: Seq<InstanceView>, after: Seq<InstanceView>, n: int, k: int, line: usize)
    requires
        0 <= k < n <= before.len(),
        before[k].decl_line == Some(line),
        inst_decl(after[k]) != inst_decl(before[k]),
    ensures
        redeclared(before, after, n).contains(RecordView::InstDirty(line)),
    decreases n,
{
    let head = redeclared(before, after, n - 1);
    let all = redeclared(before, after, n);
    if k == n - 1 {
        assert(all[head.len() as int] == RecordView::InstDirty(line));
    } else {
        lemma_redeclared(before, after, n - 1, k, line);
        let j = choose|j: int| 0 <= j < head.len() && head[j] == RecordView::InstDirty(line);
        assert(all[j] == RecordView::InstDirty(line));
    }
}

proof fn lemma_redeclared_on(before: Seq<PageView>, after: Seq<PageView>, n: int, p: int, k: int, line: usize)
    requires
        0 <= p < n <= before.len(),
        0 <= k < before[p].instances.len(),
        before[p].instances[k].decl_line == Some(line),
        inst_decl(after[p].instances[k]) != inst_decl(before[p].instances[k]),
    ensures
        redeclared_on(before, after, n).contains(RecordView::InstDirty(line)),
    decreases n,
{
    let head = redeclared_on(before, after, n - 1);
    let here = before[n - 1].instances;
    let last = redeclared(here, after[n - 1].instances, here.len() as int);
    let all = redeclared_on(before, after, n);
    if p == n - 1 {
        lemma_redeclared(here, after[p].instances, here.len() as int, k, line);
        let j = choose|j: int| 0 <= j < last.len() && last[j] == RecordView::InstDirty(line);
        assert(all[head.len() + j] == RecordView::InstDirty(line));
    } else {
        lemma_redeclared_on(before, after, n - 1, p, k, line);
        let j = choose|j: int| 0 <= j < head.len() && head[j] == RecordView::InstDirty(line);
        assert(all[j] == RecordView::InstDirty(line));
    }
}

/// Every instance of the file whose declaration prints otherwise after an edit of a register, such
/// as each instance of a register with a new name, is written that way when the edit is saved.
pub proof fn followed_name_reaches_the_file(
    orig: Seq<Seq<char>>,
    rif: RifDefView,
    orig_name: Seq<char>,
    inst_name: Seq<char>,
    v: RegDefValsView,
    e: PendingEditsView,
    p: int,
    k: int,
    line: usize,
)
    requires
        e.wf(),
        orig.len() <= usize::MAX,
        update_reg_outcome(rif, orig_name, inst_name, v) is Some,
        has_inst(rif, p, k),
        rif.pages[p].instances[k].decl_line == Some(line),
        in_file(line, orig.len()),
        inst_decl(update_reg_outcome(rif, orig_name, inst_name, v)->0.rif.pages[p].instances[k]) != inst_decl(
            rif.pages[p].instances[k],
        ),
    ensures
        ({
            let o = update_reg_outcome(rif, orig_name, inst_name, v)->0;
            file_ops(orig, o.rif, recorded_all(e, o.records)).contains(
                OpView::Replace(line - 1, indent_at(orig, line) + inst_decl(o.rif.pages[p].instances[k])),
            )
        }),
{
    register_edit_is_saved(orig, rif, orig_name, inst_name, v, e);
    reveal(update_reg_outcome);
    lemma_locate_reg(rif, orig_name);
    let d = reg_at(rif, locate_reg(rif, orig_name)->0);
    let o = update_reg_outcome(rif, orig_name, inst_name, v)->0;
    let head = reg_records(d, orig_name, v);
    let tail = redeclared_on(rif.pages, o.rif.pages, rif.pages.len() as int);
    lemma_redeclared_on(rif.pages, o.rif.pages, rif.pages.len() as int, p, k, line);
    let j = choose|j: int| 0 <= j < tail.len() && tail[j] == RecordView::InstDirty(line);
    assert(o.records[head.len() + j] == RecordView::InstDirty(line));
    assert(has_inst(o.rif, p, k));
    assert(o.rif.pages[p].instances[k].decl_line == Some(line));
}

/// Two instances of the file that exchange their addresses are both written when that is saved.
pub proof fn swapped_addresses_reach_the_file(
    orig: Seq<Seq<char>>,
    rif: RifDefView,
    a: Seq<char>,
    b: Seq<char>,
    e: PendingEditsView,
    line_a: usize,
    line_b: usize,
)
    requires
        e.wf(),
        orig.len() <= usize::MAX,
        swap_outcome(rif, a, b) is Some,
        inst_at(rif, locate_inst(rif, a)->0).decl_line == Some(line_a),
        inst_at(rif, locate_inst(rif, b)->0).decl_line == Some(line_b),
        in_file(line_a, orig.len()),
        in_file(line_b, orig.len()),
    ensures
        ({
            let o = swap_outcome(rif, a, b)->0;
            let ops = file_ops(orig, o.rif, recorded_all(e, o.records));
            let (ia, ib) = (inst_at(o.rif, locate_inst(rif, a)->0), inst_at(o.rif, locate_inst(rif, b)->0));
            &&& ops.contains(OpView::Replace(line_a - 1, indent_at(orig, line_a) + inst_decl(ia)))
            &&& ops.contains(OpView::Replace(line_b - 1, indent_at(orig, line_b) + inst_decl(ib)))
            &&& ia.addr == inst_at(rif, locate_inst(rif, b)->0).addr
            &&& ib.addr == inst_at(rif, locate_inst(rif, a)->0).addr
        }),
{
    reveal(swap_outcome);
    lemma_locate_inst(rif, a);
    lemma_locate_inst(rif, b);
    let (at_a, at_b) = (locate_inst(rif, a)->0, locate_inst(rif, b)->0);
    let o = swap_outcome(rif, a, b)->0;
    assert(o.records[0] == RecordView::InstDirty(line_a));
    assert(o.records[1] == RecordView::InstDirty(line_b));
    lemma_saved(orig, o, e, mark());
    assert(has_inst(o.rif, at_a.0, at_a.1));
    assert(has_inst(o.rif, at_b.0, at_b.1));
}

/// A field of the file that was deleted goes with its whole block when that is saved.
pub proof fn deleted_field_leaves_the_file(
    orig: Seq<Seq<char>>,
    rif: RifDefView,
    reg_type: Seq<char>,
    name: Seq<char>,
    e: PendingEditsView,
    line: usize,
    i: int,
)
    requires
        e.wf(),
        orig.len() <= usize::MAX,
        delete_field_outcome(rif, reg_type, name) is Some,
        ({
            let d = reg_at(rif, locate_reg(rif, reg_type)->0);
            d.fields[first(d.fields, field_named(name))->0].src.decl_line == Some(line)
        }),
        in_file(line, orig.len()),
        line - 1 <= i <= block_last(orig, line - 1),
    ensures
        ({
            let o = delete_field_outcome(rif, reg_type, name)->0;
            let ops = file_ops(orig, o.rif, recorded_all(e, o.records));
            removed(ops, i, ops.len() as int)
        }),
{
    field_deletion_is_saved(orig, rif, reg_type, name, e);
    reveal(delete_field_outcome);
    let o = delete_field_outcome(rif, reg_type, name)->0;
    assert(o.records[0] == RecordView::FieldDeleted(line));
    deleted_line_is_removed(file_ops(orig, o.rif, recorded_all(e, o.records)), i);
}

/// A register of the file that was deleted goes with its whole block when that is saved, and so
/// does the instance that was deleted with it.
pub proof fn deleted_register_leaves_the_file(
    orig: Seq<Seq<char>>,
    rif: RifDefView,
    page_name: Seq<char>,
    reg_type: Seq<char>,
    inst_name: Option<Seq<char>>,
    e: PendingEditsView,
    line: usize,
    i: int,
)
    requires
        e.wf(),
        orig.len() <= usize::MAX,
        delete_reg_outcome(rif, page_name, reg_type, inst_name) is Some,
        ({
            let page = rif.pages[first(rif.pages, page_named(page_name))->0];
            ||| doomed_def(page, reg_type, inst_name) matches Some(k) && page.registers[k]->Def_0.src.decl_line
                == Some(line)
            ||| doomed_inst(page, inst_name) matches Some(k) && page.instances[k].decl_line == Some(line)
        }),
        in_file(line, orig.len()),
        line - 1 <= i <= block_last(orig, line - 1),
    ensures
        ({
            let o = delete_reg_outcome(rif, page_name, reg_type, inst_name)->0;
            let ops = file_ops(orig, o.rif, recorded_all(e, o.records));
            removed(ops, i, ops.len() as int)
        }),
{
    register_deletion_is_saved(orig, rif, page_name, reg_type, inst_name, e);
    reveal(delete_reg_outcome);
    let o = delete_reg_outcome(rif, page_name, reg_type, inst_name)->0;
    let page = rif.pages[first(rif.pages, page_named(page_name))->0];
    let n = o.records.len();
    if n == 2 {
        assert(o.records[0] is RegDeleted && o.records[1] is InstDeleted);
    } else {
        assert(n == 1);
        assert(o.records[0] is RegDeleted || o.records[0] is InstDeleted);
    }
    deleted_line_is_removed(file_ops(orig, o.rif, recorded_all(e, o.records)), i);
}

proof fn lemma_ovr_noted(before: RegOvrView, after: RegOvrView, line: usize, n: int, p: RegOverrideProp)
    requires
        p.index() < n <= 4,
        reg_ovr_line(before, p) != reg_ovr_line(after, p),
    ensures
        reg_ovr_lines(before, after, line, n).contains(
            RecordView::RegOvrLine(line, p, line_edit(reg_ovr_line(after, p))),
        ),
    decreases n,
{
    let r = RecordView::RegOvrLine(line, p, line_edit(reg_ovr_line(after, p)));
    let head = reg_ovr_lines(before, after, line, n - 1);
    let all = reg_ovr_lines(before, after, line, n);
    if p.index() == n - 1 {
        assert(RegOverrideProp::at_index(n - 1) == p);
        assert(all[head.len() as int] == r);
    } else {
        lemma_ovr_noted(before, after, line, n - 1, p);
        let j = choose|j: int| 0 <= j < head.len() && head[j] == r;
        assert(all[j] == r);
    }
}

/// The line of a property that an instance overrode, and overrides no more, goes from the file when
/// that is saved, also where it was the last thing that the instance overrode.
pub proof fn cleared_override_leaves_the_file(
    orig: Seq<Seq<char>>,
    rif: RifDefView,
    inst_name: Seq<char>,
    v: RegOverrideValsView,
    e: PendingEditsView,
    p: RegOverrideProp,
    decl: usize,
    line: usize,
)
    requires
        e.wf(),
        orig.len() <= usize::MAX,
        reg_override_outcome(rif, inst_name, v) is Some,
        ({
            let i = inst_at(rif, locate_inst(rif, inst_name)->0);
            &&& i.decl_line == Some(decl)
            &&& i.ovr_src.prop_lines[p.index()] == Some(line)
            &&& reg_ovr_line(ovr_of(i), p) is Some
            &&& reg_ovr_line(reg_ovr_after(ovr_of(i), v), p) is None
        }),
        in_file(decl, orig.len()),
        in_file(line, orig.len()),
    ensures
        ({
            let o = reg_override_outcome(rif, inst_name, v)->0;
            let ops = file_ops(orig, o.rif, recorded_all(e, o.records));
            removed(ops, line - 1, ops.len() as int)
        }),
{
    register_override_is_saved(orig, rif, inst_name, v, e);
    reveal(reg_override_outcome);
    lemma_locate_inst(rif, inst_name);
    let at = locate_inst(rif, inst_name)->0;
    let i = inst_at(rif, at);
    let after = reg_ovr_after(ovr_of(i), v);
    let o = reg_override_outcome(rif, inst_name, v)->0;
    let ops = file_ops(orig, o.rif, recorded_all(e, o.records));
    let lines = reg_ovr_lines(ovr_of(i), after, decl, 4);
    let r = RecordView::RegOvrLine(decl, p, LineEditView::Remove);
    lemma_ovr_noted(ovr_of(i), after, decl, 4, p);
    let j = choose|j: int| 0 <= j < lines.len() && lines[j] == r;
    assert(o.records[j] == r);
    assert(has_inst(o.rif, at.0, at.1));
    assert(inst_done(orig, ops, o.rif.pages[at.0].instances[at.1], decl, r));
    deleted_line_is_removed(ops, line - 1);
}

/// The line of a field property that an instance overrode, and overrides no more, goes from the file
/// when that is saved, also where it was the last thing that the instance overrode.
pub proof fn cleared_field_override_leaves_the_file(
    orig: Seq<Seq<char>>,
    rif: RifDefView,
    inst_name: Seq<char>,
    field: Seq<char>,
    v: FieldOverrideValsView,
    e: PendingEditsView,
    p: FieldOverrideProp,
    decl: usize,
    line: usize,
)
    requires
        e.wf(),
        orig.len() <= usize::MAX,
        field_override_outcome(rif, inst_name, field, v) is Some,
        ({
            let i = inst_at(rif, locate_inst(rif, inst_name)->0);
            let before = field_ovr_of(ovr_of(i), field);
            &&& i.decl_line == Some(decl)
            &&& ovr_line(i.ovr_src, field, p) == Some(line)
            &&& field_ovr_line(before, p, v.field_reset) is Some
            &&& field_ovr_line(field_ovr_after(before, v), p, v.field_reset) is None
        }),
        in_file(decl, orig.len()),
        in_file(line, orig.len()),
    ensures
        ({
            let o = field_override_outcome(rif, inst_name, field, v)->0;
            let ops = file_ops(orig, o.rif, recorded_all(e, o.records));
            removed(ops, line - 1, ops.len() as int)
        }),
{
    field_override_is_saved(orig, rif, inst_name, field, v, e);
    reveal(field_override_outcome);
    lemma_locate_inst(rif, inst_name);
    let at = locate_inst(rif, inst_name)->0;
    let i = inst_at(rif, at);
    lemma_first(ovr_of(i).fields, ovr_named(field));
    let o = field_override_outcome(rif, inst_name, field, v)->0;
    let ops = file_ops(orig, o.rif, recorded_all(e, o.records));
    let r = RecordView::FieldOvrLine(decl, field, p, LineEditView::Remove);
    let j: int = if p == FieldOverrideProp::Description {
        0
    } else {
        o.records.len() - 1
    };
    assert(o.records[j] == r);
    assert(has_inst(o.rif, at.0, at.1));
    assert(inst_done(orig, ops, o.rif.pages[at.0].instances[at.1], decl, r));
    deleted_line_is_removed(ops, line - 1);
}

} // verus!
