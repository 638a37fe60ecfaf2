//! Where the edits that wait to be saved change the file.
use vstd::prelude::*;
use crate::bridge::{field_decl, reg_decl};
use crate::edits::{LineEditView, PendingEditsView, RecordView, RifClockLineKind};
use crate::file_io::{
    def_at, file_ops, has_def, has_entry, has_field, has_inst, lemma_either, lemma_page_op, lemma_rif_op,
};
use crate::held::has_ovr_edit;
use crate::lines::indented;
use crate::model::page::{InstanceView, OvrSrcView};
use crate::model::props::{FieldOverrideProp, FieldProp, RegOverrideProp, RegProp, RifProp};
use crate::model::register::{FieldDefView, RegItemView};
use crate::model::rif::{EnumItemView, NamedLineView, RifDefView};
use crate::model::values::IntrKind;
use crate::plan::{block_last, in_file, indentation, OpView};
use crate::planned::{
    block_done, line_done, lines_put, new_entry_is_put, new_field_is_put, new_instance_is_put,
    new_register_is_put, pending_edit_is_done,
};
use crate::save_page::{
    entry_place, last_entry_line, last_inst_line, last_reg_line, new_inst_lines, new_inst_ops, new_reg_ops,
    whole_inst, whole_reg,
};
use crate::save_reg::{field_entries, field_lines, last_field_line};
use crate::save_rif::{
    clock_anchor, clock_ops, largest_line, lines_gone, reset_ops, rif_decl_ops, rif_desc_ops, rif_ops,
    rif_prop_ops, row_ops, single_ops,
};
use crate::syntax::{enum_line, inst_decl};

verus! {

/// The indentation of what belongs to the item declared at a line.
pub open spec fn below(orig: Seq<Seq<char>>, l: usize) -> Seq<char> {
    indentation(orig[l - 1]) + "  "@
}

/// The place behind the block of the item declared at a line.
pub open spec fn behind(orig: Seq<Seq<char>>, l: usize) -> int {
    block_last(orig, l - 1) + 1
}

/// The edits of a field of the file change the file where it has the field: a marked declaration is
/// written with its indentation; a property line or description block is written where it stands or
/// taken away, and a new one goes behind the block of the field, one step further in.
pub proof fn field_edits_change_the_field(
    orig: Seq<Seq<char>>,
    rif: RifDefView,
    e: PendingEditsView,
    p: int,
    r: int,
    k: int,
    l: usize,
)
    requires
        orig.len() <= usize::MAX,
        has_field(rif, p, r, k),
        def_at(rif, p, r).fields[k].src.decl_line == Some(l),
        in_file(l, orig.len()),
    ensures
        ({
            let f = def_at(rif, p, r).fields[k];
            let ops = file_ops(orig, rif, e);
            &&& e.dirty.contains(l) ==> ops.contains(
                OpView::Replace(l - 1, indentation(orig[l - 1]) + field_decl(f)),
            )
            &&& e.prop_edits.contains_key(l) ==> {
                &&& forall|q: FieldProp|
                    q != FieldProp::EnumKind ==> line_done(
                        orig,
                        ops,
                        f.src.prop_lines[#[trigger] q.index()],
                        e.prop_edits[l][q.index()],
                        behind(orig, l),
                        below(orig, l),
                    )
                &&& match (f.src.prop_lines[5], e.prop_edits[l][5]) {
                    (None, LineEditView::Write(t)) => ops.contains(
                        OpView::Insert(
                            behind(orig, l),
                            seq![below(orig, l) + t] + field_entries(rif, f, below(orig, l) + "  "@),
                        ),
                    ),
                    (Some(m), LineEditView::Write(t)) => in_file(m, orig.len()) ==> ops.contains(
                        OpView::Replace(m - 1, indentation(orig[m - 1]) + t),
                    ) && ops.contains(OpView::Insert(m as int, field_entries(rif, f, below(orig, m)))),
                    (Some(m), LineEditView::Remove) => in_file(m, orig.len()) ==> ops.contains(
                        OpView::Delete(m - 1),
                    ),
                    _ => true,
                }
            }
            &&& e.desc_block_edits.contains_key(l) ==> block_done(
                orig,
                ops,
                f.src.desc_blocks.public,
                e.desc_block_edits[l],
                behind(orig, l),
                below(orig, l),
            )
            &&& e.field_intr_desc_block_edits.contains_key(l) ==> {
                let es = e.field_intr_desc_block_edits[l];
                let b = f.src.desc_blocks;
                &&& es[0] matches Some(x) ==> block_done(orig, ops, b.intr_enable, x, behind(orig, l), below(orig, l))
                &&& es[1] matches Some(x) ==> block_done(orig, ops, b.intr_mask, x, behind(orig, l), below(orig, l))
                &&& es[2] matches Some(x) ==> block_done(orig, ops, b.intr_pending, x, behind(orig, l), below(orig, l))
            }
        }),
{
    let f = def_at(rif, p, r).fields[k];
    let ops = file_ops(orig, rif, e);
    if e.dirty.contains(l) {
        pending_edit_is_done(orig, rif, e, RecordView::FieldDirty(l));
    }
    if e.prop_edits.contains_key(l) {
        assert forall|q: FieldProp| q != FieldProp::EnumKind implies line_done(
            orig,
            ops,
            f.src.prop_lines[#[trigger] q.index()],
            e.prop_edits[l][q.index()],
            behind(orig, l),
            below(orig, l),
        ) by {
            pending_edit_is_done(orig, rif, e, RecordView::FieldLine(l, q, e.prop_edits[l][q.index()]));
        }
        let q = FieldProp::EnumKind;
        assert(q.index() == 5);
        pending_edit_is_done(orig, rif, e, RecordView::FieldLine(l, q, e.prop_edits[l][5]));
    }
    if e.desc_block_edits.contains_key(l) {
        pending_edit_is_done(orig, rif, e, RecordView::FieldDesc(l, e.desc_block_edits[l]));
    }
    if e.field_intr_desc_block_edits.contains_key(l) {
        let es = e.field_intr_desc_block_edits[l];
        if let Some(x) = es[0] {
            pending_edit_is_done(orig, rif, e, RecordView::FieldIntrDesc(l, IntrKind::Enable, x));
        }
        if let Some(x) = es[1] {
            pending_edit_is_done(orig, rif, e, RecordView::FieldIntrDesc(l, IntrKind::Mask, x));
        }
        if let Some(x) = es[2] {
            pending_edit_is_done(orig, rif, e, RecordView::FieldIntrDesc(l, IntrKind::Pending, x));
        }
    }
}

/// The edits of a register of the file change the file where it has the register: a marked declaration
/// is written with its indentation; a property line or description block is written where it stands or
/// taken away, and a new one goes directly behind the declaration, one step further in; but the line of a
/// secondary interrupt goes behind that of the primary one, where there is one.
pub proof fn register_edits_change_the_register(
    orig: Seq<Seq<char>>,
    rif: RifDefView,
    e: PendingEditsView,
    p: int,
    r: int,
    l: usize,
)
    requires
        orig.len() <= usize::MAX,
        has_def(rif, p, r),
        def_at(rif, p, r).src.decl_line == Some(l),
        in_file(l, orig.len()),
    ensures
        ({
            let d = def_at(rif, p, r);
            let ops = file_ops(orig, rif, e);
            &&& e.reg_dirty.contains(l) ==> ops.contains(
                OpView::Replace(l - 1, indentation(orig[l - 1]) + reg_decl(d)),
            )
            &&& e.reg_prop_edits.contains_key(l) ==> {
                &&& forall|q: RegProp|
                    q != RegProp::InterruptAlt ==> line_done(
                        orig,
                        ops,
                        d.src.prop_lines[#[trigger] q.index()],
                        e.reg_prop_edits[l][q.index()],
                        l as int,
                        below(orig, l),
                    )
                &&& line_done(
                    orig,
                    ops,
                    d.src.prop_lines[1],
                    e.reg_prop_edits[l][1],
                    match d.src.prop_lines[0] {
                        Some(m) => m as int,
                        None => l as int,
                    },
                    below(orig, l),
                )
            }
            &&& e.reg_desc_block_edits.contains_key(l) ==> block_done(
                orig,
                ops,
                d.src.desc_blocks.public,
                e.reg_desc_block_edits[l],
                l as int,
                below(orig, l),
            )
            &&& e.reg_intr_desc_block_edits.contains_key(l) ==> {
                let es = e.reg_intr_desc_block_edits[l];
                let b = d.src.desc_blocks;
                &&& es[0] matches Some(x) ==> block_done(orig, ops, b.intr_enable, x, l as int, below(orig, l))
                &&& es[1] matches Some(x) ==> block_done(orig, ops, b.intr_mask, x, l as int, below(orig, l))
                &&& es[2] matches Some(x) ==> block_done(orig, ops, b.intr_pending, x, l as int, below(orig, l))
            }
        }),
{
    let d = def_at(rif, p, r);
    let ops = file_ops(orig, rif, e);
    if e.reg_dirty.contains(l) {
        pending_edit_is_done(orig, rif, e, RecordView::RegDirty(l));
    }
    if e.reg_prop_edits.contains_key(l) {
        assert forall|q: RegProp| q != RegProp::InterruptAlt implies line_done(
            orig,
            ops,
            d.src.prop_lines[#[trigger] q.index()],
            e.reg_prop_edits[l][q.index()],
            l as int,
            below(orig, l),
        ) by {
            pending_edit_is_done(orig, rif, e, RecordView::RegLine(l, q, e.reg_prop_edits[l][q.index()]));
        }
        let q = RegProp::InterruptAlt;
        assert(q.index() == 1 && RegProp::Interrupt.index() == 0);
        pending_edit_is_done(orig, rif, e, RecordView::RegLine(l, q, e.reg_prop_edits[l][1]));
    }
    if e.reg_desc_block_edits.contains_key(l) {
        pending_edit_is_done(orig, rif, e, RecordView::RegDesc(l, e.reg_desc_block_edits[l]));
    }
    if e.reg_intr_desc_block_edits.contains_key(l) {
        let es = e.reg_intr_desc_block_edits[l];
        if let Some(x) = es[0] {
            pending_edit_is_done(orig, rif, e, RecordView::RegIntrDesc(l, IntrKind::Enable, x));
        }
        if let Some(x) = es[1] {
            pending_edit_is_done(orig, rif, e, RecordView::RegIntrDesc(l, IntrKind::Mask, x));
        }
        if let Some(x) = es[2] {
            pending_edit_is_done(orig, rif, e, RecordView::RegIntrDesc(l, IntrKind::Pending, x));
        }
    }
}

/// The line of the file that overrides a property of a field.
pub open spec fn ovr_stands(o: OvrSrcView, field: Seq<char>, q: FieldOverrideProp, m: Option<usize>) -> bool {
    ||| m is None && forall|j: int| 0 <= j < o.fields.len() ==> (#[trigger] o.fields[j]).field != field
    ||| exists|j: int|
        0 <= j < o.fields.len() && (#[trigger] o.fields[j]).field == field && m == o.fields[j].prop_lines[q.index()]
            && forall|i: int| 0 <= i < j ==> (#[trigger] o.fields[i]).field != field
}

/// The edits of an instance of the file change the file where it has the instance: a marked declaration
/// is written with its indentation; the line of an override is written where it stands or taken away,
/// and a new one goes directly behind the declaration, one step further in.
pub proof fn instance_edits_change_the_instance(
    orig: Seq<Seq<char>>,
    rif: RifDefView,
    e: PendingEditsView,
    p: int,
    k: int,
    l: usize,
)
    requires
        orig.len() <= usize::MAX,
        has_inst(rif, p, k),
        rif.pages[p].instances[k].decl_line == Some(l),
        in_file(l, orig.len()),
    ensures
        ({
            let i = rif.pages[p].instances[k];
            let ops = file_ops(orig, rif, e);
            &&& e.reg_inst_dirty.contains(l) ==> ops.contains(
                OpView::Replace(l - 1, indentation(orig[l - 1]) + inst_decl(i)),
            )
            &&& e.reg_override_edits.contains_key(l) ==> forall|q: RegOverrideProp|
                line_done(
                    orig,
                    ops,
                    i.ovr_src.prop_lines[#[trigger] q.index()],
                    e.reg_override_edits[l][q.index()],
                    l as int,
                    below(orig, l),
                )
            &&& e.reg_override_desc_block_edits.contains_key(l) ==> block_done(
                orig,
                ops,
                i.ovr_src.desc_block,
                e.reg_override_desc_block_edits[l],
                l as int,
                below(orig, l),
            )
            &&& e.field_override_edits.contains_key(l) ==> forall|n: int, m: Option<usize>|
                #![trigger ovr_stands(i.ovr_src, e.field_override_edits[l][n].field, FieldOverrideProp::Description, m)]
                0 <= n < e.field_override_edits[l].len() && ovr_stands(
                    i.ovr_src,
                    e.field_override_edits[l][n].field,
                    FieldOverrideProp::Description,
                    m,
                ) ==> line_done(orig, ops, m, e.field_override_edits[l][n].desc, l as int, below(orig, l))
            &&& e.field_override_edits.contains_key(l) ==> forall|n: int, m: Option<usize>|
                #![trigger ovr_stands(i.ovr_src, e.field_override_edits[l][n].field, FieldOverrideProp::Reset, m)]
                0 <= n < e.field_override_edits[l].len() && ovr_stands(
                    i.ovr_src,
                    e.field_override_edits[l][n].field,
                    FieldOverrideProp::Reset,
                    m,
                ) ==> line_done(orig, ops, m, e.field_override_edits[l][n].reset, l as int, below(orig, l))
        }),
{
    let i = rif.pages[p].instances[k];
    let ops = file_ops(orig, rif, e);
    if e.reg_inst_dirty.contains(l) {
        pending_edit_is_done(orig, rif, e, RecordView::InstDirty(l));
    }
    if e.reg_override_edits.contains_key(l) {
        assert forall|q: RegOverrideProp| line_done(
            orig,
            ops,
            i.ovr_src.prop_lines[#[trigger] q.index()],
            e.reg_override_edits[l][q.index()],
            l as int,
            below(orig, l),
        ) by {
            pending_edit_is_done(orig, rif, e, RecordView::RegOvrLine(l, q, e.reg_override_edits[l][q.index()]));
        }
    }
    if e.reg_override_desc_block_edits.contains_key(l) {
        pending_edit_is_done(orig, rif, e, RecordView::RegOvrDesc(l, e.reg_override_desc_block_edits[l]));
    }
    if e.field_override_edits.contains_key(l) {
        let es = e.field_override_edits[l];
        assert forall|n: int, m: Option<usize>|
            #![trigger ovr_stands(i.ovr_src, es[n].field, FieldOverrideProp::Description, m)]
            0 <= n < es.len() && ovr_stands(i.ovr_src, es[n].field, FieldOverrideProp::Description, m) implies line_done(
            orig,
            ops,
            m,
            es[n].desc,
            l as int,
            below(orig, l),
        ) by {
            let q = FieldOverrideProp::Description;
            lemma_ovr_stands(i.ovr_src, es[n].field, q, m);
            assert(has_ovr_edit(es, es[n].field, q, es[n].desc)) by {
                assert(es[n].field == es[n].field && crate::held::ovr_part(es[n], q) == es[n].desc);
            }
            pending_edit_is_done(orig, rif, e, RecordView::FieldOvrLine(l, es[n].field, q, es[n].desc));
        }
        assert forall|n: int, m: Option<usize>|
            #![trigger ovr_stands(i.ovr_src, es[n].field, FieldOverrideProp::Reset, m)]
            0 <= n < es.len() && ovr_stands(i.ovr_src, es[n].field, FieldOverrideProp::Reset, m) implies line_done(
            orig,
            ops,
            m,
            es[n].reset,
            l as int,
            below(orig, l),
        ) by {
            let q = FieldOverrideProp::Reset;
            lemma_ovr_stands(i.ovr_src, es[n].field, q, m);
            assert(has_ovr_edit(es, es[n].field, q, es[n].reset)) by {
                assert(es[n].field == es[n].field && crate::held::ovr_part(es[n], q) == es[n].reset);
            }
            pending_edit_is_done(orig, rif, e, RecordView::FieldOvrLine(l, es[n].field, q, es[n].reset));
        }
    }
}

proof fn lemma_ovr_stands(o: OvrSrcView, field: Seq<char>, q: FieldOverrideProp, m: Option<usize>)
    requires
        ovr_stands(o, field, q, m),
    ensures
        crate::save_page::ovr_line(o, field, q) == m,
{
    let s = crate::save_page::src_named(field);
    if exists|j: int|
        0 <= j < o.fields.len() && (#[trigger] o.fields[j]).field == field && m == o.fields[j].prop_lines[q.index()]
            && forall|i: int| 0 <= i < j ==> (#[trigger] o.fields[i]).field != field {
        let j = choose|j: int|
            0 <= j < o.fields.len() && (#[trigger] o.fields[j]).field == field && m == o.fields[j].prop_lines[q.index()]
                && forall|i: int| 0 <= i < j ==> (#[trigger] o.fields[i]).field != field;
        assert forall|i: int| 0 <= i < j implies !s(#[trigger] o.fields[i]) by {}
        crate::search::lemma_is_first(o.fields, s, j);
    } else {
        assert forall|i: int| 0 <= i < o.fields.len() implies !s(#[trigger] o.fields[i]) by {}
        crate::search::lemma_no_first(o.fields, s);
    }
}

/// The edits of a RIF as a whole change the file where it has the RIF. New property lines and a new
/// description go directly behind the declaration; enables, clears and resets of clocks go behind the
/// line of those clocks, where there is one; the lines of parameters and generics are written where
/// they stand.
pub proof fn rif_edits_change_the_rif(orig: Seq<Seq<char>>, rif: RifDefView, e: PendingEditsView, l: usize)
    requires
        orig.len() <= usize::MAX,
        rif.src.decl_line == Some(l),
        in_file(l, orig.len()),
    ensures
        ({
            let ops = file_ops(orig, rif, e);
            let lines = rif.src.prop_lines;
            let es = e.rif_clock_line_edits;
            let (sw, hw) = (
                match lines[4] {
                    Some(m) => m as int,
                    None => l as int,
                },
                match lines[7] {
                    Some(m) => m as int,
                    None => l as int,
                },
            );
            &&& e.rif_dirty.contains(l) ==> ops.contains(OpView::Replace(l - 1, "rif: "@ + rif.name))
            &&& forall|q: RifProp|
                line_done(
                    orig,
                    ops,
                    lines[#[trigger] q.index()],
                    e.rif_prop_edits[q.index()],
                    l as int,
                    below(orig, l),
                )
            &&& e.rif_desc_block_edits matches Some(x) ==> block_done(
                orig,
                ops,
                rif.src.desc_block,
                x,
                l as int,
                below(orig, l),
            )
            &&& line_done(orig, ops, lines[4], es[0], l as int, below(orig, l))
            &&& line_done(orig, ops, lines[7], es[1], l as int, below(orig, l))
            &&& line_done(orig, ops, lines[5], es[2], sw, below(orig, l))
            &&& line_done(orig, ops, lines[8], es[3], hw, below(orig, l))
            &&& line_done(orig, ops, lines[6], es[4], sw, below(orig, l))
            &&& line_done(orig, ops, lines[9], es[5], hw, below(orig, l))
            &&& forall|m: usize| #[trigger]
                e.rif_reset_deleted.contains(m) && in_file(m, orig.len()) ==> ops.contains(OpView::Delete(m - 1))
            &&& e.rif_reset_sw matches Some(ls) ==> ls.len() > 0 ==> ops.contains(
                OpView::Insert(sw, Seq::new(ls.len(), |i: int| below(orig, l) + ls[i])),
            )
            &&& e.rif_reset_hw matches Some(ls) ==> ls.len() > 0 ==> ops.contains(
                OpView::Insert(hw, Seq::new(ls.len(), |i: int| below(orig, l) + ls[i])),
            )
            &&& forall|m: usize| #[trigger]
                e.rif_param_edits.contains_key(m) ==> line_done(orig, ops, Some(m), e.rif_param_edits[m], 0, seq![])
            &&& forall|m: usize| #[trigger]
                e.rif_generic_edits.contains_key(m) ==> line_done(
                    orig,
                    ops,
                    Some(m),
                    e.rif_generic_edits[m],
                    0,
                    seq![],
                )
        }),
{
    let ops = file_ops(orig, rif, e);
    let lines = rif.src.prop_lines;
    let es = e.rif_clock_line_edits;
    if e.rif_dirty.contains(l) {
        pending_edit_is_done(orig, rif, e, RecordView::RifDirty(l));
    }
    assert forall|q: RifProp| line_done(
        orig,
        ops,
        lines[#[trigger] q.index()],
        e.rif_prop_edits[q.index()],
        l as int,
        below(orig, l),
    ) by {
        pending_edit_is_done(orig, rif, e, RecordView::RifLine(q, e.rif_prop_edits[q.index()]));
    }
    if let Some(x) = e.rif_desc_block_edits {
        pending_edit_is_done(orig, rif, e, RecordView::RifDesc(x));
    }
    assert(RifClockLineKind::SwClock.index() == 0 && RifClockLineKind::HwClock.index() == 1
        && RifClockLineKind::SwClkEn.index() == 2 && RifClockLineKind::HwClkEn.index() == 3
        && RifClockLineKind::SwClear.index() == 4 && RifClockLineKind::HwClear.index() == 5);
    pending_edit_is_done(orig, rif, e, RecordView::ClockLine(RifClockLineKind::SwClock, es[0]));
    pending_edit_is_done(orig, rif, e, RecordView::ClockLine(RifClockLineKind::HwClock, es[1]));
    pending_edit_is_done(orig, rif, e, RecordView::ClockLine(RifClockLineKind::SwClkEn, es[2]));
    pending_edit_is_done(orig, rif, e, RecordView::ClockLine(RifClockLineKind::HwClkEn, es[3]));
    pending_edit_is_done(orig, rif, e, RecordView::ClockLine(RifClockLineKind::SwClear, es[4]));
    pending_edit_is_done(orig, rif, e, RecordView::ClockLine(RifClockLineKind::HwClear, es[5]));
    assert forall|m: usize| #[trigger] e.rif_reset_deleted.contains(m) && in_file(m, orig.len()) implies ops.contains(
        OpView::Delete(m - 1),
    ) by {
        pending_edit_is_done(orig, rif, e, RecordView::ResetDeleted(m));
    }
    if let Some(ls) = e.rif_reset_sw {
        pending_edit_is_done(orig, rif, e, RecordView::ResetLines(false, ls));
        assert(indented(ls, below(orig, l)) =~= Seq::new(ls.len(), |i: int| below(orig, l) + ls[i]));
    }
    if let Some(ls) = e.rif_reset_hw {
        pending_edit_is_done(orig, rif, e, RecordView::ResetLines(true, ls));
        assert(indented(ls, below(orig, l)) =~= Seq::new(ls.len(), |i: int| below(orig, l) + ls[i]));
    }
    assert forall|m: usize| #[trigger] e.rif_param_edits.contains_key(m) implies line_done(
        orig,
        ops,
        Some(m),
        e.rif_param_edits[m],
        0,
        seq![],
    ) by {
        pending_edit_is_done(orig, rif, e, RecordView::ParamLine(m, e.rif_param_edits[m]));
    }
    assert forall|m: usize| #[trigger] e.rif_generic_edits.contains_key(m) implies line_done(
        orig,
        ops,
        Some(m),
        e.rif_generic_edits[m],
        0,
        seq![],
    ) by {
        pending_edit_is_done(orig, rif, e, RecordView::GenericLine(m, e.rif_generic_edits[m]));
    }
}

/// What was deleted goes from the file: fields, registers and instances with their blocks, enum entries
/// with their lines. An enum entry that is marked is written with its indentation.
pub proof fn deleted_items_leave_the_file(
    orig: Seq<Seq<char>>,
    rif: RifDefView,
    e: PendingEditsView,
    l: usize,
    i: int,
)
    requires
        orig.len() <= usize::MAX,
        in_file(l, orig.len()),
        l - 1 <= i <= block_last(orig, l - 1),
    ensures
        ({
            let ops = file_ops(orig, rif, e);
            &&& e.deleted.contains(l) || e.reg_deleted.contains(l) || e.reg_inst_deleted.contains(l) ==> ops.contains(
                OpView::Delete(i),
            )
            &&& e.enum_deleted.contains(l) ==> ops.contains(OpView::Delete(l - 1))
            &&& e.enum_dirty.contains(l) ==> forall|d: int, k: int| #[trigger]
                has_entry(rif, d, k) && rif.enum_defs[d].values[k].decl_line == Some(l) ==> ops.contains(
                    OpView::Replace(l - 1, indentation(orig[l - 1]) + enum_line(rif.enum_defs[d].values[k])),
                )
        }),
{
    if e.deleted.contains(l) {
        pending_edit_is_done(orig, rif, e, RecordView::FieldDeleted(l));
    }
    if e.reg_deleted.contains(l) {
        pending_edit_is_done(orig, rif, e, RecordView::RegDeleted(l));
    }
    if e.reg_inst_deleted.contains(l) {
        pending_edit_is_done(orig, rif, e, RecordView::InstDeleted(l));
    }
    if e.enum_deleted.contains(l) {
        pending_edit_is_done(orig, rif, e, RecordView::EnumDeleted(l));
    }
    if e.enum_dirty.contains(l) {
        pending_edit_is_done(orig, rif, e, RecordView::EnumDirty(l));
    }
}

/// Whether new rows of a table are put behind a place, one step further in than the properties.
pub open spec fn rows_put(
    orig: Seq<Seq<char>>,
    ops: Seq<OpView>,
    rows: Seq<Seq<char>>,
    lines: Seq<NamedLineView>,
    header_line: Option<usize>,
    header: Seq<char>,
    l: usize,
) -> bool {
    let new_lines = Seq::new(rows.len(), |i: int| below(orig, l) + "  "@ + rows[i]);
    rows.len() > 0 ==> {
        &&& forall|m: int|
            0 <= m < lines.len() && in_file((#[trigger] lines[m]).line, orig.len()) && (forall|j: int|
                0 <= j < lines.len() ==> (#[trigger] lines[j]).line <= lines[m].line) ==> ops.contains(
                OpView::Insert(lines[m].line as int, new_lines),
            )
        &&& lines.len() == 0 ==> match header_line {
            Some(h) if in_file(h, orig.len()) => ops.contains(OpView::Insert(h as int, new_lines)),
            _ => ops.contains(OpView::Insert(l as int, seq![below(orig, l) + header] + new_lines)),
        }
    }
}

proof fn lemma_largest(lines: Seq<NamedLineView>, n: int)
    requires
        0 <= n <= lines.len(),
    ensures
        n == 0 <==> largest_line(lines, n) is None,
        largest_line(lines, n) matches Some(m) ==> (forall|j: int| 0 <= j < n ==> (#[trigger] lines[j]).line <= m) && exists|
            j: int,
        |
            0 <= j < n && (#[trigger] lines[j]).line == m,
    decreases n,
{
    if n > 0 {
        lemma_largest(lines, n - 1);
        let m = largest_line(lines, n)->0;
        if m == lines[n - 1].line {
            assert(lines[n - 1].line == m);
        }
    }
}

proof fn lemma_rows(
    orig: Seq<Seq<char>>,
    ops: Seq<OpView>,
    rows: Seq<Seq<char>>,
    lines: Seq<NamedLineView>,
    header_line: Option<usize>,
    header: Seq<char>,
    l: usize,
)
    requires
        forall|op: OpView| row_ops(orig, rows, lines, header_line, header, l).contains(op) ==> #[trigger] ops.contains(op),
    ensures
        rows_put(orig, ops, rows, lines, header_line, header, l),
{
    let part = row_ops(orig, rows, lines, header_line, header, l);
    let new_lines = Seq::new(rows.len(), |i: int| below(orig, l) + "  "@ + rows[i]);
    assert(indented(rows, below(orig, l) + "  "@) =~= new_lines);
    lemma_largest(lines, lines.len() as int);
    if rows.len() > 0 {
        assert(part.contains(part[0]));
        assert forall|m: int|
            0 <= m < lines.len() && in_file((#[trigger] lines[m]).line, orig.len()) && (forall|j: int|
                0 <= j < lines.len() ==> (#[trigger] lines[j]).line <= lines[m].line) implies ops.contains(
            OpView::Insert(lines[m].line as int, new_lines),
        ) by {
            let top = largest_line(lines, lines.len() as int)->0;
            assert(lines[m].line <= top);
            let j = choose|j: int| 0 <= j < lines.len() && (#[trigger] lines[j]).line == top;
            assert(lines[j].line <= lines[m].line);
            assert(part[0] == OpView::Insert(lines[m].line as int, new_lines));
        }
    }
}

/// New rows of the parameters and generics go behind the last row of their table, in their order, or
/// behind its header where there is no row; where there is no table, they go behind the declaration of
/// the RIF, below a new header.
pub proof fn new_rows_go_behind_their_table(orig: Seq<Seq<char>>, rif: RifDefView, e: PendingEditsView, l: usize)
    requires
        rif.src.decl_line == Some(l),
        in_file(l, orig.len()),
    ensures
        ({
            let ops = file_ops(orig, rif, e);
            let s = rif.src;
            &&& rows_put(
                orig,
                ops,
                e.rif_param_inserts,
                s.param_lines,
                s.params_header_line,
                "parameters :"@,
                l,
            )
            &&& rows_put(
                orig,
                ops,
                e.rif_generic_inserts,
                s.generic_lines,
                s.generics_header_line,
                "generics :"@,
                l,
            )
        }),
{
    let ops = file_ops(orig, rif, e);
    let s = rif.src;
    let n = orig.len();
    let a = single_ops(orig, e.rif_param_edits, n);
    let b = row_ops(orig, e.rif_param_inserts, s.param_lines, s.params_header_line, "parameters :"@, l);
    let c = single_ops(orig, e.rif_generic_edits, n);
    let d = row_ops(orig, e.rif_generic_inserts, s.generic_lines, s.generics_header_line, "generics :"@, l);
    let head = rif_decl_ops(rif, e, l) + rif_prop_ops(orig, rif, e, l, 10) + rif_desc_ops(orig, rif, e, l) + clock_ops(
        orig,
        rif,
        e,
        l,
    ) + lines_gone(orig, e.rif_reset_deleted) + reset_ops(
        e.rif_reset_sw,
        clock_anchor(rif, false, l) as int,
        below(orig, l),
    ) + reset_ops(e.rif_reset_hw, clock_anchor(rif, true, l) as int, below(orig, l));
    assert(rif_ops(orig, rif, e) == head + (a + b + c + d));
    assert forall|op: OpView| b.contains(op) || d.contains(op) implies #[trigger] ops.contains(op) by {
        if b.contains(op) {
            lemma_either(a, b, op);
            lemma_either(a + b, c, op);
        }
        lemma_either(a + b + c, d, op);
        lemma_either(head, a + b + c + d, op);
        lemma_rif_op(orig, rif, e, op);
    }
    lemma_rows(orig, ops, e.rif_param_inserts, s.param_lines, s.params_header_line, "parameters :"@, l);
    lemma_rows(orig, ops, e.rif_generic_inserts, s.generic_lines, s.generics_header_line, "generics :"@, l);
}

proof fn lemma_last_field(fields: Seq<FieldDefView>, n: int, k: int, l: usize)
    requires
        0 <= k < n <= fields.len(),
        fields[k].src.decl_line == Some(l),
        forall|j: int|
            0 <= j < n ==> ((#[trigger] fields[j]).src.decl_line matches Some(m) ==> m <= l),
    ensures
        last_field_line(fields, n) == Some(l),
    decreases n,
{
    if k < n - 1 {
        lemma_last_field(fields, n - 1, k, l);
    } else {
        lemma_last_field_bound(fields, n - 1, l);
    }
}

proof fn lemma_last_field_bound(fields: Seq<FieldDefView>, n: int, l: usize)
    requires
        0 <= n <= fields.len(),
        forall|j: int|
            0 <= j < n ==> ((#[trigger] fields[j]).src.decl_line matches Some(m) ==> m <= l),
    ensures
        last_field_line(fields, n) matches Some(m) ==> m <= l,
    decreases n,
{
    if n > 0 {
        lemma_last_field_bound(fields, n - 1, l);
    }
}

/// A field that is not in the file yet is put, whole, behind the block of the last field of its register
/// that is, with the same indentation.
pub proof fn new_field_goes_behind_the_last(
    orig: Seq<Seq<char>>,
    rif: RifDefView,
    e: PendingEditsView,
    p: int,
    r: int,
    k: int,
    last: int,
    l: usize,
)
    requires
        has_field(rif, p, r, k),
        def_at(rif, p, r).fields[k].src.decl_line is None,
        has_field(rif, p, r, last),
        def_at(rif, p, r).fields[last].src.decl_line == Some(l),
        in_file(l, orig.len()),
        forall|j: int|
            0 <= j < def_at(rif, p, r).fields.len() ==> ((
            #[trigger] def_at(rif, p, r).fields[j]).src.decl_line matches Some(m) ==> m <= l),
    ensures
        lines_put(
            file_ops(orig, rif, e),
            behind(orig, l),
            field_lines(rif, def_at(rif, p, r).fields[k], indentation(orig[l - 1])),
        ),
{
    let fields = def_at(rif, p, r).fields;
    lemma_last_field(fields, fields.len() as int, last, l);
    new_field_is_put(orig, rif, e, p, r, k, behind(orig, l), indentation(orig[l - 1]));
}

proof fn lemma_last_reg(items: Seq<RegItemView>, n: int, l: usize)
    requires
        0 <= n <= items.len(),
        forall|j: int|
            0 <= j < n ==> ((#[trigger] items[j]) matches RegItemView::Def(d) ==> (d.src.decl_line matches Some(m) ==> m
                <= l)),
    ensures
        last_reg_line(items, n) matches Some(m) ==> m <= l,
        (exists|k: int|
            0 <= k < n && ((#[trigger] items[k]) matches RegItemView::Def(d) && d.src.decl_line == Some(l)))
            ==> last_reg_line(items, n) == Some(l),
    decreases n,
{
    if n > 0 {
        lemma_last_reg(items, n - 1, l);
    }
}

/// A register that is not in the file yet is put, whole, behind the block of the last register of its
/// page that is, with the same indentation.
pub proof fn new_register_goes_behind_the_last(
    orig: Seq<Seq<char>>,
    rif: RifDefView,
    e: PendingEditsView,
    p: int,
    r: int,
    last: int,
    l: usize,
)
    requires
        has_def(rif, p, r),
        def_at(rif, p, r).src.decl_line is None,
        has_def(rif, p, last),
        def_at(rif, p, last).src.decl_line == Some(l),
        in_file(l, orig.len()),
        forall|j: int|
            0 <= j < rif.pages[p].registers.len() ==> ((
            #[trigger] rif.pages[p].registers[j]) matches RegItemView::Def(d) ==> (d.src.decl_line matches Some(m) ==> m
                <= l)),
    ensures
        lines_put(
            file_ops(orig, rif, e),
            behind(orig, l),
            whole_reg(rif, def_at(rif, p, r), indentation(orig[l - 1])),
        ),
{
    let items = rif.pages[p].registers;
    lemma_last_reg(items, items.len() as int, l);
    assert(items[last] matches RegItemView::Def(d) && d.src.decl_line == Some(l));
    new_register_is_put(orig, rif, e, p, r, behind(orig, l), indentation(orig[l - 1]));
}

proof fn lemma_last_inst(insts: Seq<InstanceView>, len: nat, n: int, l: usize)
    requires
        0 <= n <= insts.len(),
        forall|j: int|
            0 <= j < n ==> ((#[trigger] insts[j]).decl_line matches Some(m) ==> in_file(m, len) ==> m <= l),
    ensures
        last_inst_line(insts, len, n) matches Some(m) ==> m <= l,
        (exists|k: int| 0 <= k < n && (#[trigger] insts[k]).decl_line == Some(l) && in_file(l, len)) ==> last_inst_line(
            insts,
            len,
            n,
        ) == Some(l),
        (forall|k: int|
            0 <= k < n ==> ((#[trigger] insts[k]).decl_line matches Some(m) ==> !in_file(m, len))) ==> last_inst_line(
            insts,
            len,
            n,
        ) is None,
    decreases n,
{
    if n > 0 {
        lemma_last_inst(insts, len, n - 1, l);
    }
}

/// An instance that is not in the file yet is put, whole, behind the last instance of its page that is,
/// with the same indentation; where none is, it goes behind the header, one step further in.
pub proof fn new_instance_goes_behind_the_last(
    orig: Seq<Seq<char>>,
    rif: RifDefView,
    e: PendingEditsView,
    p: int,
    k: int,
    header: usize,
    last: Option<usize>,
)
    requires
        has_inst(rif, p, k),
        rif.pages[p].instances[k].decl_line is None,
        rif.pages[p].instances_line == Some(header),
        in_file(header, orig.len()),
        forall|j: int|
            0 <= j < rif.pages[p].instances.len() ==> ((
            #[trigger] rif.pages[p].instances[j]).decl_line matches Some(m) ==> in_file(m, orig.len()) ==> (
            last matches Some(l) && m <= l)),
        last matches Some(l) ==> in_file(l, orig.len()) && exists|j: int|
            0 <= j < rif.pages[p].instances.len() && (#[trigger] rif.pages[p].instances[j]).decl_line == Some(l),
    ensures
        last matches Some(l) ==> lines_put(
            file_ops(orig, rif, e),
            l as int,
            whole_inst(rif, rif.pages[p].instances[k], indentation(orig[l - 1])),
        ),
        last is None ==> lines_put(
            file_ops(orig, rif, e),
            header as int,
            whole_inst(rif, rif.pages[p].instances[k], below(orig, header)),
        ),
{
    let insts = rif.pages[p].instances;
    lemma_last_inst(
        insts,
        orig.len(),
        insts.len() as int,
        match last {
            Some(l) => l,
            None => 0,
        },
    );
    new_instance_is_put(orig, rif, e, p, k, header);
}

proof fn lemma_last_entry(values: Seq<EnumItemView>, len: nat, n: int, l: usize)
    requires
        0 <= n <= values.len(),
        forall|j: int|
            0 <= j < n ==> ((#[trigger] values[j]).decl_line matches Some(m) ==> in_file(m, len) ==> m <= l),
    ensures
        last_entry_line(values, len, n) matches Some(m) ==> m <= l,
        (exists|k: int| 0 <= k < n && (#[trigger] values[k]).decl_line == Some(l) && in_file(l, len)) ==> last_entry_line(
            values,
            len,
            n,
        ) == Some(l),
        (forall|k: int|
            0 <= k < n ==> ((#[trigger] values[k]).decl_line matches Some(m) ==> !in_file(m, len))) ==> last_entry_line(
            values,
            len,
            n,
        ) is None,
    decreases n,
{
    if n > 0 {
        lemma_last_entry(values, len, n - 1, l);
    }
}

/// An entry that is not in the file yet, of an enum that is, is put behind the last entry of the enum
/// that is, with the same indentation; where none is, it goes behind the line that names the enum, one
/// step further in.
pub proof fn new_entry_goes_behind_the_last(
    orig: Seq<Seq<char>>,
    rif: RifDefView,
    e: PendingEditsView,
    d: int,
    k: int,
    header: usize,
    last: Option<usize>,
)
    requires
        has_entry(rif, d, k),
        rif.enum_defs[d].values[k].decl_line is None,
        rif.enum_defs[d].decl_line == Some(header),
        in_file(header, orig.len()),
        forall|j: int|
            0 <= j < rif.enum_defs[d].values.len() ==> ((
            #[trigger] rif.enum_defs[d].values[j]).decl_line matches Some(m) ==> in_file(m, orig.len()) ==> (
            last matches Some(l) && m <= l)),
        last matches Some(l) ==> in_file(l, orig.len()) && exists|j: int|
            0 <= j < rif.enum_defs[d].values.len() && (#[trigger] rif.enum_defs[d].values[j]).decl_line == Some(l),
    ensures
        last matches Some(l) ==> lines_put(
            file_ops(orig, rif, e),
            l as int,
            seq![indentation(orig[l - 1]) + enum_line(rif.enum_defs[d].values[k])],
        ),
        last is None ==> lines_put(
            file_ops(orig, rif, e),
            header as int,
            seq![below(orig, header) + enum_line(rif.enum_defs[d].values[k])],
        ),
{
    let values = rif.enum_defs[d].values;
    lemma_last_entry(
        values,
        orig.len(),
        values.len() as int,
        match last {
            Some(l) => l,
            None => 0,
        },
    );
    new_entry_is_put(orig, rif, e, d, k, header);
}

/// A page that gets new instances says then that its addresses are explicit.
pub proof fn new_instances_make_addresses_explicit(
    orig: Seq<Seq<char>>,
    rif: RifDefView,
    e: PendingEditsView,
    p: int,
    k: int,
    header: usize,
)
    requires
        has_inst(rif, p, k),
        rif.pages[p].instances[k].decl_line is None,
        rif.pages[p].instances_line == Some(header),
        in_file(header, orig.len()),
    ensures
        ({
            let explicit = indentation(orig[header - 1]) + "instances:"@;
            orig[header - 1] != explicit ==> file_ops(orig, rif, e).contains(OpView::Replace(header - 1, explicit))
        }),
{
    let page = rif.pages[p];
    let n = page.instances.len() as int;
    let (at, indent) = entry_place(orig, last_inst_line(page.instances, orig.len(), n), header);
    let f = new_inst_lines(rif, indent);
    let ls = crate::plan::lines_of(page.instances, f, n);
    lemma_some_line(page.instances, f, n, k);
    let part = new_inst_ops(orig, rif, page);
    let explicit = indentation(orig[header - 1]) + "instances:"@;
    if orig[header - 1] != explicit {
        let op = OpView::Replace(header - 1, explicit);
        assert(part[0] == op);
        assert(part.contains(op));
        let insts = crate::plan::ops_of(page.instances, crate::save_page::each_inst(orig, e), n);
        lemma_either(insts + new_reg_ops(orig, rif, page), part, op);
        lemma_page_op(orig, rif, e, p, op);
    }
}

proof fn lemma_some_line<T>(s: Seq<T>, f: spec_fn(T) -> Seq<Seq<char>>, n: int, k: int)
    requires
        0 <= k < n <= s.len(),
        f(s[k]).len() > 0,
    ensures
        crate::plan::lines_of(s, f, n).len() > 0,
    decreases n,
{
    if k < n - 1 {
        lemma_some_line(s, f, n - 1, k);
    }
}

} // verus!
