//! What waits to be saved is done to the lines of the file.
use vstd::prelude::*;
use crate::bridge::{field_decl, reg_decl};
use crate::edits::{
    intr_index, BlockEditView, FieldOvrEditView, LineEditView, PendingEditsView, RecordView, RifClockLineKind,
};
use crate::file_io::{
    def_at, file_ops, has_def, has_entry, has_field, has_inst, lemma_block_gone, lemma_either, lemma_entry_op,
    lemma_enum_op, lemma_field_op, lemma_gone_op, lemma_inst_op, lemma_line_gone, lemma_ops_contain,
    lemma_page_op, lemma_reg_op, lemma_reg_own_op, lemma_rif_op,
};
use crate::held::{holds, ovr_part};
use crate::lines::indented;
use crate::model::page::{InstanceView, OvrSrcView};
use crate::model::props::{FieldOverrideProp, FieldProp};
use crate::model::register::{DescBlocks, FieldDefView, RegisterDefView};
use crate::model::rif::{NamedLineView, RifDefView};
use crate::model::values::IntrKind;
use crate::plan::{block_last, block_ops, in_file, indent_at, indent_below, line_ops, lines_of, ops_of, OpView};
use crate::save_page::{
    each_entry, each_field_ovr, each_inst, entry_place, inst_ops, last_entry_line, last_inst_line,
    last_reg_line, new_entry_lines, new_entry_ops, new_inst_lines, new_inst_ops, new_reg_lines, new_reg_ops,
    ovr_line, ovr_ops, ovr_prop_ops, whole_inst, whole_reg,
};
use crate::save_reg::{
    block_end, derived_ops, each_field, end_of, enum_line_ops, field_entries, field_lines, field_ops,
    field_prop_ops, intr_ops, last_field_line, new_field_lines, new_field_ops, reg_own_ops, reg_prop_ops,
    reg_prop_place,
};
use crate::save_rif::{
    clock_anchor, clock_ops, lines_gone, reset_ops, rif_decl_ops, rif_desc_ops, rif_ops, rif_prop_ops, row_ops,
    single_ops, table_ops,
};
use crate::syntax::{enum_line, inst_decl, rif_decl};

verus! {

/// Whether the changes do to a line what an edit asks for. A line of the file is written anew with
/// its own indentation, or taken away; where there is none, one is put at `at`.
pub open spec fn line_done(
    orig: Seq<Seq<char>>,
    ops: Seq<OpView>,
    existing: Option<usize>,
    x: LineEditView,
    at: int,
    indent: Seq<char>,
) -> bool {
    match (existing, x) {
        (Some(l), LineEditView::Write(t)) => in_file(l, orig.len()) ==> ops.contains(
            OpView::Replace(l - 1, indent_at(orig, l) + t),
        ),
        (Some(l), LineEditView::Remove) => in_file(l, orig.len()) ==> ops.contains(OpView::Delete(l - 1)),
        (None, LineEditView::Write(t)) => ops.contains(OpView::Insert(at, seq![indent + t])),
        _ => true,
    }
}

/// Whether the changes do to a description block what an edit asks for. Every line of a block of
/// the file goes, and the new block takes its place; where there is none, one is put at `at`.
pub open spec fn block_done(
    orig: Seq<Seq<char>>,
    ops: Seq<OpView>,
    existing: Option<(usize, usize)>,
    x: BlockEditView,
    at: int,
    indent: Seq<char>,
) -> bool {
    match existing {
        Some((s, t)) => in_file(s, orig.len()) && in_file(t, orig.len()) ==> {
            &&& forall|i: int| s - 1 <= i < t ==> #[trigger] ops.contains(OpView::Delete(i))
            &&& x matches BlockEditView::Write(ls) ==> ops.contains(
                OpView::Insert(s - 1, indented(ls, indent_at(orig, s))),
            )
        },
        None => x matches BlockEditView::Write(ls) ==> ops.contains(OpView::Insert(at, indented(ls, indent))),
    }
}

/// Whether the changes take away a line and the whole block that it starts.
pub open spec fn block_taken(orig: Seq<Seq<char>>, ops: Seq<OpView>, line: usize) -> bool {
    in_file(line, orig.len()) ==> forall|i: int|
        line - 1 <= i <= block_last(orig, line - 1) ==> #[trigger] ops.contains(OpView::Delete(i))
}

/// Whether the changes put a row somewhere.
pub open spec fn row_put(ops: Seq<OpView>, row: Seq<char>) -> bool {
    exists|at: int, ls: Seq<Seq<char>>| #[trigger] ops.contains(OpView::Insert(at, ls)) && ls.contains(row)
}

/// The lines that a derived description stands on.
pub open spec fn derived_block(blocks: DescBlocks, kind: IntrKind) -> Option<(usize, usize)> {
    match kind {
        IntrKind::Enable => blocks.intr_enable,
        IntrKind::Mask => blocks.intr_mask,
        _ => blocks.intr_pending,
    }
}

/// Whether the changes do to the line of a field property what an edit asks for. The line that
/// names an enum brings the entries of a new enum along.
pub open spec fn field_line_done(
    orig: Seq<Seq<char>>,
    rif: RifDefView,
    ops: Seq<OpView>,
    f: FieldDefView,
    line: usize,
    p: FieldProp,
    x: LineEditView,
) -> bool {
    let existing = f.src.prop_lines[p.index()];
    let (at, indent) = (block_end(orig, line), indent_below(orig, line));
    if p == FieldProp::EnumKind {
        match (existing, x) {
            (None, LineEditView::Write(t)) => ops.contains(
                OpView::Insert(at, seq![indent + t] + field_entries(rif, f, indent + "  "@)),
            ),
            (Some(l), LineEditView::Write(_)) => {
                &&& line_done(orig, ops, existing, x, at, indent)
                &&& in_file(l, orig.len()) ==> ops.contains(
                    OpView::Insert(l as int, field_entries(rif, f, indent_below(orig, l))),
                )
            },
            _ => line_done(orig, ops, existing, x, at, indent),
        }
    } else {
        line_done(orig, ops, existing, x, at, indent)
    }
}

/// Whether the changes do what an edit of a field declared at a line asks for.
pub open spec fn field_done(
    orig: Seq<Seq<char>>,
    rif: RifDefView,
    ops: Seq<OpView>,
    f: FieldDefView,
    line: usize,
    r: RecordView,
) -> bool {
    let (at, indent) = (block_end(orig, line), indent_below(orig, line));
    match r {
        RecordView::FieldDirty(_) => ops.contains(
            OpView::Replace(line - 1, indent_at(orig, line) + field_decl(f)),
        ),
        RecordView::FieldLine(_, p, x) => field_line_done(orig, rif, ops, f, line, p, x),
        RecordView::FieldDesc(_, x) => block_done(orig, ops, f.src.desc_blocks.public, x, at, indent),
        RecordView::FieldIntrDesc(_, k, x) => intr_index(k) is Some ==> block_done(
            orig,
            ops,
            derived_block(f.src.desc_blocks, k),
            x,
            at,
            indent,
        ),
        _ => true,
    }
}

/// Whether the changes do what an edit of a register declared at a line asks for.
pub open spec fn reg_done(
    orig: Seq<Seq<char>>,
    ops: Seq<OpView>,
    d: RegisterDefView,
    line: usize,
    r: RecordView,
) -> bool {
    let indent = indent_below(orig, line);
    match r {
        RecordView::RegDirty(_) => ops.contains(OpView::Replace(line - 1, indent_at(orig, line) + reg_decl(d))),
        RecordView::RegLine(_, p, x) => line_done(
            orig,
            ops,
            d.src.prop_lines[p.index()],
            x,
            reg_prop_place(d, p.index(), line) as int,
            indent,
        ),
        RecordView::RegDesc(_, x) => block_done(orig, ops, d.src.desc_blocks.public, x, line as int, indent),
        RecordView::RegIntrDesc(_, k, x) => intr_index(k) is Some ==> block_done(
            orig,
            ops,
            derived_block(d.src.desc_blocks, k),
            x,
            line as int,
            indent,
        ),
        _ => true,
    }
}

/// Whether the changes do what an edit of an instance declared at a line asks for.
pub open spec fn inst_done(
    orig: Seq<Seq<char>>,
    ops: Seq<OpView>,
    i: InstanceView,
    line: usize,
    r: RecordView,
) -> bool {
    let indent = indent_below(orig, line);
    match r {
        RecordView::InstDirty(_) => ops.contains(
            OpView::Replace(line - 1, indent_at(orig, line) + inst_decl(i)),
        ),
        RecordView::RegOvrLine(_, p, x) => line_done(
            orig,
            ops,
            i.ovr_src.prop_lines[p.index()],
            x,
            line as int,
            indent,
        ),
        RecordView::RegOvrDesc(_, x) => block_done(orig, ops, i.ovr_src.desc_block, x, line as int, indent),
        RecordView::FieldOvrLine(_, field, p, x) => line_done(
            orig,
            ops,
            ovr_line(i.ovr_src, field, p),
            x,
            line as int,
            indent,
        ),
        _ => true,
    }
}

/// The line of a clock property of the RIF.
pub open spec fn clock_line(r: RifDefView, k: RifClockLineKind) -> Option<usize> {
    match k {
        RifClockLineKind::SwClock => r.src.prop_lines[4],
        RifClockLineKind::HwClock => r.src.prop_lines[7],
        RifClockLineKind::SwClkEn => r.src.prop_lines[5],
        RifClockLineKind::HwClkEn => r.src.prop_lines[8],
        RifClockLineKind::SwClear => r.src.prop_lines[6],
        RifClockLineKind::HwClear => r.src.prop_lines[9],
    }
}

/// Where a new clock line goes: a clock behind the declaration, the others behind their clock.
pub open spec fn clock_place(r: RifDefView, k: RifClockLineKind, line: usize) -> usize {
    match k {
        RifClockLineKind::SwClock => line,
        RifClockLineKind::HwClock => line,
        RifClockLineKind::SwClkEn => clock_anchor(r, false, line),
        RifClockLineKind::HwClkEn => clock_anchor(r, true, line),
        RifClockLineKind::SwClear => clock_anchor(r, false, line),
        RifClockLineKind::HwClear => clock_anchor(r, true, line),
    }
}

/// Whether the changes do what an edit of a RIF declared at a line asks for.
pub open spec fn rif_done(
    orig: Seq<Seq<char>>,
    ops: Seq<OpView>,
    rif: RifDefView,
    line: usize,
    r: RecordView,
) -> bool {
    let indent = indent_below(orig, line);
    match r {
        RecordView::RifDirty(l) => l == line ==> ops.contains(OpView::Replace(line - 1, rif_decl(rif.name))),
        RecordView::RifLine(p, x) => line_done(
            orig,
            ops,
            rif.src.prop_lines[p.index()],
            x,
            line as int,
            indent,
        ),
        RecordView::RifDesc(x) => block_done(orig, ops, rif.src.desc_block, x, line as int, indent),
        RecordView::ClockLine(k, x) => line_done(
            orig,
            ops,
            clock_line(rif, k),
            x,
            clock_place(rif, k, line) as int,
            indent,
        ),
        RecordView::ResetDeleted(l) => in_file(l, orig.len()) ==> ops.contains(OpView::Delete(l - 1)),
        RecordView::ResetLines(hw, ls) => ls.len() > 0 ==> ops.contains(
            OpView::Insert(clock_anchor(rif, hw, line) as int, indented(ls, indent)),
        ),
        RecordView::ParamLine(l, x) => line_done(orig, ops, Some(l), x, 0, seq![]),
        RecordView::GenericLine(l, x) => line_done(orig, ops, Some(l), x, 0, seq![]),
        RecordView::ParamInsert(t) => row_put(ops, indent + "  "@ + t),
        RecordView::GenericInsert(t) => row_put(ops, indent + "  "@ + t),
        _ => true,
    }
}

/// The line of the declaration that an edit of a field, a register or an instance is about.
pub open spec fn owner_line(r: RecordView) -> Option<usize> {
    match r {
        RecordView::FieldDirty(l) => Some(l),
        RecordView::FieldLine(l, _, _) => Some(l),
        RecordView::FieldDesc(l, _) => Some(l),
        RecordView::FieldIntrDesc(l, _, _) => Some(l),
        RecordView::RegDirty(l) => Some(l),
        RecordView::RegLine(l, _, _) => Some(l),
        RecordView::RegDesc(l, _) => Some(l),
        RecordView::RegIntrDesc(l, _, _) => Some(l),
        RecordView::InstDirty(l) => Some(l),
        RecordView::RegOvrLine(l, _, _) => Some(l),
        RecordView::RegOvrDesc(l, _) => Some(l),
        RecordView::FieldOvrLine(l, _, _, _) => Some(l),
        _ => None,
    }
}

/// Whether the changes of a file do what an edit asks for, for whatever is declared at its line.
pub open spec fn done(orig: Seq<Seq<char>>, rif: RifDefView, ops: Seq<OpView>, r: RecordView) -> bool {
    &&& owner_line(r) matches Some(line) ==> in_file(line, orig.len()) ==> {
        &&& forall|p: int, q: int, k: int| #[trigger]
            has_field(rif, p, q, k) && def_at(rif, p, q).fields[k].src.decl_line == Some(line) ==> field_done(
                orig,
                rif,
                ops,
                def_at(rif, p, q).fields[k],
                line,
                r,
            )
        &&& forall|p: int, q: int| #[trigger]
            has_def(rif, p, q) && def_at(rif, p, q).src.decl_line == Some(line) ==> reg_done(
                orig,
                ops,
                def_at(rif, p, q),
                line,
                r,
            )
        &&& forall|p: int, k: int| #[trigger]
            has_inst(rif, p, k) && rif.pages[p].instances[k].decl_line == Some(line) ==> inst_done(
                orig,
                ops,
                rif.pages[p].instances[k],
                line,
                r,
            )
    }
    &&& rif.src.decl_line matches Some(line) ==> in_file(line, orig.len()) ==> rif_done(orig, ops, rif, line, r)
    &&& match r {
        RecordView::FieldDeleted(l) => block_taken(orig, ops, l),
        RecordView::RegDeleted(l) => block_taken(orig, ops, l),
        RecordView::InstDeleted(l) => block_taken(orig, ops, l),
        RecordView::EnumDeleted(l) => in_file(l, orig.len()) ==> ops.contains(OpView::Delete(l - 1)),
        RecordView::EnumDirty(l) => in_file(l, orig.len()) ==> forall|d: int, k: int| #[trigger]
            has_entry(rif, d, k) && rif.enum_defs[d].values[k].decl_line == Some(l) ==> ops.contains(
                OpView::Replace(l - 1, indent_at(orig, l) + enum_line(rif.enum_defs[d].values[k])),
            ),
        _ => true,
    }
}

/// Whether a part of a plan is in the plan.
pub open spec fn carries(ops: Seq<OpView>, part: Seq<OpView>) -> bool {
    forall|op: OpView| part.contains(op) ==> #[trigger] ops.contains(op)
}

proof fn lemma_line_done(
    orig: Seq<Seq<char>>,
    ops: Seq<OpView>,
    existing: Option<usize>,
    x: LineEditView,
    at: int,
    indent: Seq<char>,
)
    requires
        carries(ops, line_ops(orig, existing, x, at, indent)),
    ensures
        line_done(orig, ops, existing, x, at, indent),
{
    let part = line_ops(orig, existing, x, at, indent);
    if part.len() > 0 {
        assert(part.contains(part[0]));
    }
}

proof fn lemma_block_done(
    orig: Seq<Seq<char>>,
    ops: Seq<OpView>,
    existing: Option<(usize, usize)>,
    x: BlockEditView,
    at: int,
    indent: Seq<char>,
)
    requires
        carries(ops, block_ops(orig, existing, x, at, indent)),
    ensures
        block_done(orig, ops, existing, x, at, indent),
{
    let part = block_ops(orig, existing, x, at, indent);
    match existing {
        Some((s, t)) => {
            if in_file(s, orig.len()) && in_file(t, orig.len()) {
                assert forall|i: int| s - 1 <= i < t implies #[trigger] ops.contains(OpView::Delete(i)) by {
                    assert(part[i - (s - 1)] == OpView::Delete(i));
                    assert(part.contains(OpView::Delete(i)));
                }
                if x is Write {
                    assert(part.contains(part[part.len() - 1]));
                }
            }
        },
        None => {
            if part.len() > 0 {
                assert(part.contains(part[0]));
            }
        },
    }
}

proof fn lemma_carried(ops: Seq<OpView>, a: Seq<OpView>, b: Seq<OpView>)
    requires
        carries(ops, a + b),
    ensures
        carries(ops, a),
        carries(ops, b),
{
    assert forall|op: OpView| a.contains(op) || b.contains(op) implies #[trigger] ops.contains(op) by {
        lemma_either(a, b, op);
    }
}

proof fn lemma_field_props(
    orig: Seq<Seq<char>>,
    rif: RifDefView,
    ops: Seq<OpView>,
    f: FieldDefView,
    edits: Seq<LineEditView>,
    line: usize,
    n: int,
    p: FieldProp,
)
    requires
        p.index() < n <= 12,
        carries(ops, field_prop_ops(orig, rif, f, edits, line, n)),
    ensures
        field_line_done(orig, rif, ops, f, line, p, edits[p.index()]),
    decreases n,
{
    let (at, indent) = (block_end(orig, line), indent_below(orig, line));
    let existing = f.src.prop_lines[n - 1];
    let x = edits[n - 1];
    let last = if n - 1 == FieldProp::EnumKind.index() {
        enum_line_ops(orig, rif, f, existing, x, at, indent)
    } else {
        line_ops(orig, existing, x, at, indent)
    };
    lemma_carried(ops, field_prop_ops(orig, rif, f, edits, line, n - 1), last);
    if p.index() < n - 1 {
        lemma_field_props(orig, rif, ops, f, edits, line, n - 1, p);
    } else if p == FieldProp::EnumKind {
        match (existing, x) {
            (Some(l), LineEditView::Write(_)) => {
                if in_file(l, orig.len()) {
                    let own = line_ops(orig, existing, x, at, indent);
                    assert(own + last.skip(own.len() as int) =~= last);
                    lemma_carried(ops, own, last.skip(own.len() as int));
                    lemma_line_done(orig, ops, existing, x, at, indent);
                    assert(last.contains(last[1]));
                }
            },
            (None, LineEditView::Write(_)) => {
                assert(last.contains(last[0]));
            },
            _ => {
                lemma_line_done(orig, ops, existing, x, at, indent);
            },
        }
    } else {
        lemma_line_done(orig, ops, existing, x, at, indent);
    }
}

proof fn lemma_derived(
    orig: Seq<Seq<char>>,
    ops: Seq<OpView>,
    blocks: DescBlocks,
    edits: Seq<Option<BlockEditView>>,
    at: int,
    indent: Seq<char>,
    kind: IntrKind,
    x: BlockEditView,
)
    requires
        carries(ops, intr_ops(orig, blocks, edits, at, indent)),
        intr_index(kind) matches Some(i) && edits[i] == Some(x),
    ensures
        block_done(orig, ops, derived_block(blocks, kind), x, at, indent),
{
    let a = derived_ops(orig, blocks.intr_enable, edits[0], at, indent);
    let b = derived_ops(orig, blocks.intr_mask, edits[1], at, indent);
    let c = derived_ops(orig, blocks.intr_pending, edits[2], at, indent);
    lemma_carried(ops, a + b, c);
    lemma_carried(ops, a, b);
    lemma_block_done(orig, ops, derived_block(blocks, kind), x, at, indent);
}

proof fn lemma_field_done(
    orig: Seq<Seq<char>>,
    rif: RifDefView,
    e: PendingEditsView,
    ops: Seq<OpView>,
    f: FieldDefView,
    line: usize,
    r: RecordView,
)
    requires
        f.src.decl_line == Some(line),
        owner_line(r) == Some(line),
        in_file(line, orig.len()),
        holds(e, r),
        carries(ops, field_ops(orig, rif, e, f)),
    ensures
        field_done(orig, rif, ops, f, line, r),
{
    let at = block_end(orig, line);
    let indent = indent_below(orig, line);
    let none = Seq::<OpView>::empty();
    let a = if e.dirty.contains(line) {
        seq![OpView::Replace(line - 1, indent_at(orig, line) + field_decl(f))]
    } else {
        none
    };
    let b = if e.prop_edits.contains_key(line) {
        field_prop_ops(orig, rif, f, e.prop_edits[line], line, 12)
    } else {
        none
    };
    let c = if e.desc_block_edits.contains_key(line) {
        block_ops(orig, f.src.desc_blocks.public, e.desc_block_edits[line], at, indent)
    } else {
        none
    };
    let d = if e.field_intr_desc_block_edits.contains_key(line) {
        intr_ops(orig, f.src.desc_blocks, e.field_intr_desc_block_edits[line], at, indent)
    } else {
        none
    };
    assert(field_ops(orig, rif, e, f) == a + b + c + d);
    lemma_carried(ops, a + b + c, d);
    lemma_carried(ops, a + b, c);
    lemma_carried(ops, a, b);
    match r {
        RecordView::FieldDirty(_) => {
            assert(a.contains(a[0]));
        },
        RecordView::FieldLine(_, p, _) => {
            lemma_field_props(orig, rif, ops, f, e.prop_edits[line], line, 12, p);
        },
        RecordView::FieldDesc(_, x) => {
            lemma_block_done(orig, ops, f.src.desc_blocks.public, x, at, indent);
        },
        RecordView::FieldIntrDesc(_, k, x) => {
            if intr_index(k) is Some {
                lemma_derived(
                    orig,
                    ops,
                    f.src.desc_blocks,
                    e.field_intr_desc_block_edits[line],
                    at,
                    indent,
                    k,
                    x,
                );
            }
        },
        _ => {},
    }
}

proof fn lemma_reg_props(
    orig: Seq<Seq<char>>,
    ops: Seq<OpView>,
    d: RegisterDefView,
    edits: Seq<LineEditView>,
    line: usize,
    n: int,
    i: int,
)
    requires
        0 <= i < n <= 10,
        carries(ops, reg_prop_ops(orig, d, edits, line, n)),
    ensures
        line_done(
            orig,
            ops,
            d.src.prop_lines[i],
            edits[i],
            reg_prop_place(d, i, line) as int,
            indent_below(orig, line),
        ),
    decreases n,
{
    let at = reg_prop_place(d, n - 1, line) as int;
    let indent = indent_below(orig, line);
    let existing = d.src.prop_lines[n - 1];
    lemma_carried(
        ops,
        reg_prop_ops(orig, d, edits, line, n - 1),
        line_ops(orig, existing, edits[n - 1], at, indent),
    );
    if i < n - 1 {
        lemma_reg_props(orig, ops, d, edits, line, n - 1, i);
    } else {
        lemma_line_done(orig, ops, existing, edits[n - 1], at, indent);
    }
}

proof fn lemma_reg_done(
    orig: Seq<Seq<char>>,
    e: PendingEditsView,
    ops: Seq<OpView>,
    d: RegisterDefView,
    line: usize,
    r: RecordView,
)
    requires
        d.src.decl_line == Some(line),
        owner_line(r) == Some(line),
        in_file(line, orig.len()),
        holds(e, r),
        carries(ops, reg_own_ops(orig, e, d)),
    ensures
        reg_done(orig, ops, d, line, r),
{
    let at = line as int;
    let indent = indent_below(orig, line);
    let none = Seq::<OpView>::empty();
    let a = if e.reg_dirty.contains(line) {
        seq![OpView::Replace(line - 1, indent_at(orig, line) + reg_decl(d))]
    } else {
        none
    };
    let b = if e.reg_prop_edits.contains_key(line) {
        reg_prop_ops(orig, d, e.reg_prop_edits[line], line, 10)
    } else {
        none
    };
    let c = if e.reg_desc_block_edits.contains_key(line) {
        block_ops(orig, d.src.desc_blocks.public, e.reg_desc_block_edits[line], at, indent)
    } else {
        none
    };
    let f = if e.reg_intr_desc_block_edits.contains_key(line) {
        intr_ops(orig, d.src.desc_blocks, e.reg_intr_desc_block_edits[line], at, indent)
    } else {
        none
    };
    assert(reg_own_ops(orig, e, d) == a + b + c + f);
    lemma_carried(ops, a + b + c, f);
    lemma_carried(ops, a + b, c);
    lemma_carried(ops, a, b);
    match r {
        RecordView::RegDirty(_) => {
            assert(a.contains(a[0]));
        },
        RecordView::RegLine(_, p, _) => {
            lemma_reg_props(orig, ops, d, e.reg_prop_edits[line], line, 10, p.index());
        },
        RecordView::RegDesc(_, x) => {
            lemma_block_done(orig, ops, d.src.desc_blocks.public, x, at, indent);
        },
        RecordView::RegIntrDesc(_, k, x) => {
            if intr_index(k) is Some {
                lemma_derived(orig, ops, d.src.desc_blocks, e.reg_intr_desc_block_edits[line], at, indent, k, x);
            }
        },
        _ => {},
    }
}

proof fn lemma_ovr_props(
    orig: Seq<Seq<char>>,
    ops: Seq<OpView>,
    o: OvrSrcView,
    edits: Seq<LineEditView>,
    line: usize,
    n: int,
    i: int,
)
    requires
        0 <= i < n <= 4,
        carries(ops, ovr_prop_ops(orig, o, edits, line, n)),
    ensures
        line_done(orig, ops, o.prop_lines[i], edits[i], line as int, indent_below(orig, line)),
    decreases n,
{
    let indent = indent_below(orig, line);
    lemma_carried(
        ops,
        ovr_prop_ops(orig, o, edits, line, n - 1),
        line_ops(orig, o.prop_lines[n - 1], edits[n - 1], line as int, indent),
    );
    if i < n - 1 {
        lemma_ovr_props(orig, ops, o, edits, line, n - 1, i);
    } else {
        lemma_line_done(orig, ops, o.prop_lines[n - 1], edits[n - 1], line as int, indent);
    }
}

proof fn lemma_field_ovrs(
    orig: Seq<Seq<char>>,
    ops: Seq<OpView>,
    o: OvrSrcView,
    edits: Seq<FieldOvrEditView>,
    line: usize,
    k: int,
    p: FieldOverrideProp,
)
    requires
        0 <= k < edits.len(),
        carries(ops, ops_of(edits, each_field_ovr(orig, o, line), edits.len() as int)),
    ensures
        line_done(
            orig,
            ops,
            ovr_line(o, edits[k].field, p),
            ovr_part(edits[k], p),
            line as int,
            indent_below(orig, line),
        ),
{
    let f = each_field_ovr(orig, o, line);
    let (at, indent) = (line as int, indent_below(orig, line));
    let x = edits[k];
    let a = line_ops(orig, ovr_line(o, x.field, FieldOverrideProp::Description), x.desc, at, indent);
    let b = line_ops(orig, ovr_line(o, x.field, FieldOverrideProp::Reset), x.reset, at, indent);
    assert forall|op: OpView| (a + b).contains(op) implies #[trigger] ops.contains(op) by {
        assert(f(edits[k]).contains(op));
        lemma_ops_contain(edits, f, edits.len() as int, k, op);
    }
    lemma_carried(ops, a, b);
    lemma_line_done(orig, ops, ovr_line(o, x.field, p), ovr_part(x, p), at, indent);
}

proof fn lemma_inst_done(
    orig: Seq<Seq<char>>,
    e: PendingEditsView,
    ops: Seq<OpView>,
    i: InstanceView,
    line: usize,
    r: RecordView,
)
    requires
        i.decl_line == Some(line),
        owner_line(r) == Some(line),
        in_file(line, orig.len()),
        holds(e, r),
        carries(ops, inst_ops(orig, e, i)),
    ensures
        inst_done(orig, ops, i, line, r),
{
    let o = i.ovr_src;
    let at = line as int;
    let indent = indent_below(orig, line);
    let none = Seq::<OpView>::empty();
    let decl = if e.reg_inst_dirty.contains(line) {
        seq![OpView::Replace(line - 1, indent_at(orig, line) + inst_decl(i))]
    } else {
        none
    };
    let a = if e.reg_override_edits.contains_key(line) {
        ovr_prop_ops(orig, o, e.reg_override_edits[line], line, 4)
    } else {
        none
    };
    let b = if e.reg_override_desc_block_edits.contains_key(line) {
        block_ops(orig, o.desc_block, e.reg_override_desc_block_edits[line], at, indent)
    } else {
        none
    };
    let c = if e.field_override_edits.contains_key(line) {
        let edits = e.field_override_edits[line];
        ops_of(edits, each_field_ovr(orig, o, line), edits.len() as int)
    } else {
        none
    };
    assert(ovr_ops(orig, e, o, line) == a + b + c);
    assert(inst_ops(orig, e, i) == decl + (a + b + c));
    lemma_carried(ops, decl, a + b + c);
    lemma_carried(ops, a + b, c);
    lemma_carried(ops, a, b);
    match r {
        RecordView::InstDirty(_) => {
            assert(decl.contains(decl[0]));
        },
        RecordView::RegOvrLine(_, p, _) => {
            lemma_ovr_props(orig, ops, o, e.reg_override_edits[line], line, 4, p.index());
        },
        RecordView::RegOvrDesc(_, x) => {
            lemma_block_done(orig, ops, o.desc_block, x, at, indent);
        },
        RecordView::FieldOvrLine(_, field, p, x) => {
            let edits = e.field_override_edits[line];
            let k = choose|k: int|
                0 <= k < edits.len() && (#[trigger] edits[k]).field == field && ovr_part(edits[k], p) == x;
            lemma_field_ovrs(orig, ops, o, edits, line, k, p);
        },
        _ => {},
    }
}

proof fn lemma_rif_props(
    orig: Seq<Seq<char>>,
    ops: Seq<OpView>,
    rif: RifDefView,
    e: PendingEditsView,
    line: usize,
    n: int,
    i: int,
)
    requires
        0 <= i < n <= 10,
        carries(ops, rif_prop_ops(orig, rif, e, line, n)),
    ensures
        line_done(
            orig,
            ops,
            rif.src.prop_lines[i],
            e.rif_prop_edits[i],
            line as int,
            indent_below(orig, line),
        ),
    decreases n,
{
    let indent = indent_below(orig, line);
    let existing = rif.src.prop_lines[n - 1];
    let x = e.rif_prop_edits[n - 1];
    lemma_carried(
        ops,
        rif_prop_ops(orig, rif, e, line, n - 1),
        line_ops(orig, existing, x, line as int, indent),
    );
    if i < n - 1 {
        lemma_rif_props(orig, ops, rif, e, line, n - 1, i);
    } else {
        lemma_line_done(orig, ops, existing, x, line as int, indent);
    }
}

proof fn lemma_clock_done(
    orig: Seq<Seq<char>>,
    ops: Seq<OpView>,
    rif: RifDefView,
    e: PendingEditsView,
    line: usize,
    k: RifClockLineKind,
)
    requires
        carries(ops, clock_ops(orig, rif, e, line)),
    ensures
        line_done(
            orig,
            ops,
            clock_line(rif, k),
            e.rif_clock_line_edits[k.index()],
            clock_place(rif, k, line) as int,
            indent_below(orig, line),
        ),
{
    let indent = indent_below(orig, line);
    let sw = clock_anchor(rif, false, line) as int;
    let hw = clock_anchor(rif, true, line) as int;
    let ls = rif.src.prop_lines;
    let xs = e.rif_clock_line_edits;
    let a = line_ops(orig, ls[4], xs[0], line as int, indent);
    let b = line_ops(orig, ls[7], xs[1], line as int, indent);
    let c = line_ops(orig, ls[5], xs[2], sw, indent);
    let d = line_ops(orig, ls[8], xs[3], hw, indent);
    let f = line_ops(orig, ls[6], xs[4], sw, indent);
    let g = line_ops(orig, ls[9], xs[5], hw, indent);
    lemma_carried(ops, a + b + c + d + f, g);
    lemma_carried(ops, a + b + c + d, f);
    lemma_carried(ops, a + b + c, d);
    lemma_carried(ops, a + b, c);
    lemma_carried(ops, a, b);
    lemma_line_done(
        orig,
        ops,
        clock_line(rif, k),
        xs[k.index()],
        clock_place(rif, k, line) as int,
        indent,
    );
}

proof fn lemma_single_done(
    orig: Seq<Seq<char>>,
    ops: Seq<OpView>,
    edits: Map<usize, LineEditView>,
    n: nat,
    l: usize,
)
    requires
        n <= usize::MAX,
        1 <= l <= n,
        edits.contains_key(l),
        carries(ops, single_ops(orig, edits, n)),
    ensures
        line_done(orig, ops, Some(l), edits[l], 0, seq![]),
    decreases n,
{
    let last = if edits.contains_key(n as usize) {
        line_ops(orig, Some(n as usize), edits[n as usize], 0, seq![])
    } else {
        seq![]
    };
    lemma_carried(ops, single_ops(orig, edits, (n - 1) as nat), last);
    if l == n {
        lemma_line_done(orig, ops, Some(l), edits[l], 0, seq![]);
    } else {
        lemma_single_done(orig, ops, edits, (n - 1) as nat, l);
    }
}

proof fn lemma_row_done(
    orig: Seq<Seq<char>>,
    ops: Seq<OpView>,
    rows: Seq<Seq<char>>,
    lines: Seq<NamedLineView>,
    header_line: Option<usize>,
    header: Seq<char>,
    line: usize,
    t: Seq<char>,
)
    requires
        rows.contains(t),
        carries(ops, row_ops(orig, rows, lines, header_line, header, line)),
    ensures
        row_put(ops, indent_below(orig, line) + "  "@ + t),
{
    let part = row_ops(orig, rows, lines, header_line, header, line);
    let indent = indent_below(orig, line);
    let row = indent + "  "@ + t;
    let k = choose|k: int| 0 <= k < rows.len() && rows[k] == t;
    let new_lines = indented(rows, indent + "  "@);
    assert(new_lines[k] == row);
    assert(part.contains(part[0]));
    match part[0] {
        OpView::Insert(at, ls) => {
            if ls.len() == new_lines.len() {
                assert(ls[k] == row);
            } else {
                assert(ls[k + 1] == row);
            }
            assert(ops.contains(OpView::Insert(at, ls)));
        },
        _ => {},
    }
}

proof fn lemma_table_done(
    orig: Seq<Seq<char>>,
    ops: Seq<OpView>,
    rif: RifDefView,
    e: PendingEditsView,
    line: usize,
    r: RecordView,
)
    requires
        orig.len() <= usize::MAX,
        carries(ops, table_ops(orig, rif, e, line)),
        holds(e, r),
        r is ParamLine || r is ParamInsert || r is GenericLine || r is GenericInsert,
    ensures
        rif_done(orig, ops, rif, line, r),
{
    let s = rif.src;
    let n = orig.len();
    let a = single_ops(orig, e.rif_param_edits, n);
    let b = row_ops(orig, e.rif_param_inserts, s.param_lines, s.params_header_line, "parameters :"@, line);
    let c = single_ops(orig, e.rif_generic_edits, n);
    let d = row_ops(orig, e.rif_generic_inserts, s.generic_lines, s.generics_header_line, "generics :"@, line);
    lemma_carried(ops, a + b + c, d);
    lemma_carried(ops, a + b, c);
    lemma_carried(ops, a, b);
    match r {
        RecordView::ParamLine(l, _) => {
            if in_file(l, n) {
                lemma_single_done(orig, ops, e.rif_param_edits, n, l);
            }
        },
        RecordView::GenericLine(l, _) => {
            if in_file(l, n) {
                lemma_single_done(orig, ops, e.rif_generic_edits, n, l);
            }
        },
        RecordView::ParamInsert(t) => {
            lemma_row_done(
                orig,
                ops,
                e.rif_param_inserts,
                s.param_lines,
                s.params_header_line,
                "parameters :"@,
                line,
                t,
            );
        },
        RecordView::GenericInsert(t) => {
            lemma_row_done(
                orig,
                ops,
                e.rif_generic_inserts,
                s.generic_lines,
                s.generics_header_line,
                "generics :"@,
                line,
                t,
            );
        },
        _ => {},
    }
}

proof fn lemma_rif_done(
    orig: Seq<Seq<char>>,
    ops: Seq<OpView>,
    rif: RifDefView,
    e: PendingEditsView,
    line: usize,
    r: RecordView,
)
    requires
        orig.len() <= usize::MAX,
        rif.src.decl_line == Some(line),
        in_file(line, orig.len()),
        holds(e, r),
        carries(ops, rif_ops(orig, rif, e)),
    ensures
        rif_done(orig, ops, rif, line, r),
{
    let indent = indent_below(orig, line);
    let a = rif_decl_ops(rif, e, line);
    let b = rif_prop_ops(orig, rif, e, line, 10);
    let c = rif_desc_ops(orig, rif, e, line);
    let d = clock_ops(orig, rif, e, line);
    let f = lines_gone(orig, e.rif_reset_deleted);
    let g = reset_ops(e.rif_reset_sw, clock_anchor(rif, false, line) as int, indent);
    let h = reset_ops(e.rif_reset_hw, clock_anchor(rif, true, line) as int, indent);
    let t = table_ops(orig, rif, e, line);
    assert(rif_ops(orig, rif, e) == a + b + c + d + f + g + h + t);
    lemma_carried(ops, a + b + c + d + f + g + h, t);
    lemma_carried(ops, a + b + c + d + f + g, h);
    lemma_carried(ops, a + b + c + d + f, g);
    lemma_carried(ops, a + b + c + d, f);
    lemma_carried(ops, a + b + c, d);
    lemma_carried(ops, a + b, c);
    lemma_carried(ops, a, b);
    match r {
        RecordView::RifDirty(_) => {
            if a.len() > 0 {
                assert(a.contains(a[0]));
            }
        },
        RecordView::RifLine(p, _) => {
            lemma_rif_props(orig, ops, rif, e, line, 10, p.index());
        },
        RecordView::RifDesc(x) => {
            lemma_block_done(orig, ops, rif.src.desc_block, x, line as int, indent);
        },
        RecordView::ClockLine(k, _) => {
            lemma_clock_done(orig, ops, rif, e, line, k);
        },
        RecordView::ResetDeleted(l) => {
            if in_file(l, orig.len()) {
                lemma_line_gone(orig, e.rif_reset_deleted, l);
            }
        },
        RecordView::ResetLines(hw, ls) => {
            if ls.len() > 0 {
                if hw {
                    assert(h.contains(h[0]));
                } else {
                    assert(g.contains(g[0]));
                }
            }
        },
        RecordView::ParamLine(_, _) => {
            lemma_table_done(orig, ops, rif, e, line, r);
        },
        RecordView::GenericLine(_, _) => {
            lemma_table_done(orig, ops, rif, e, line, r);
        },
        RecordView::ParamInsert(_) => {
            lemma_table_done(orig, ops, rif, e, line, r);
        },
        RecordView::GenericInsert(_) => {
            lemma_table_done(orig, ops, rif, e, line, r);
        },
        _ => {},
    }
}

proof fn lemma_taken(orig: Seq<Seq<char>>, rif: RifDefView, e: PendingEditsView, marks: Set<usize>, line: usize)
    requires
        orig.len() <= usize::MAX,
        marks == e.deleted || marks == e.reg_deleted || marks == e.reg_inst_deleted,
        marks.contains(line),
    ensures
        block_taken(orig, file_ops(orig, rif, e), line),
{
    if in_file(line, orig.len()) {
        assert forall|i: int| line - 1 <= i <= block_last(orig, line - 1) implies #[trigger] file_ops(
            orig,
            rif,
            e,
        ).contains(OpView::Delete(i)) by {
            lemma_block_gone(orig, marks, line, i);
            lemma_gone_op(orig, rif, e, OpView::Delete(i));
        }
    }
}

proof fn lemma_marks_done(orig: Seq<Seq<char>>, rif: RifDefView, e: PendingEditsView, r: RecordView)
    requires
        orig.len() <= usize::MAX,
        holds(e, r),
        owner_line(r) is None,
    ensures
        ({
            let ops = file_ops(orig, rif, e);
            match r {
                RecordView::FieldDeleted(l) => block_taken(orig, ops, l),
                RecordView::RegDeleted(l) => block_taken(orig, ops, l),
                RecordView::InstDeleted(l) => block_taken(orig, ops, l),
                RecordView::EnumDeleted(l) => in_file(l, orig.len()) ==> ops.contains(OpView::Delete(l - 1)),
                RecordView::EnumDirty(l) => in_file(l, orig.len()) ==> forall|d: int, k: int| #[trigger]
                    has_entry(rif, d, k) && rif.enum_defs[d].values[k].decl_line == Some(l) ==> ops.contains(
                        OpView::Replace(l - 1, indent_at(orig, l) + enum_line(rif.enum_defs[d].values[k])),
                    ),
                _ => true,
            }
        }),
{
    let ops = file_ops(orig, rif, e);
    match r {
        RecordView::FieldDeleted(l) => {
            lemma_taken(orig, rif, e, e.deleted, l);
        },
        RecordView::RegDeleted(l) => {
            lemma_taken(orig, rif, e, e.reg_deleted, l);
        },
        RecordView::InstDeleted(l) => {
            lemma_taken(orig, rif, e, e.reg_inst_deleted, l);
        },
        RecordView::EnumDeleted(l) => {
            if in_file(l, orig.len()) {
                lemma_line_gone(orig, e.enum_deleted, l);
                lemma_gone_op(orig, rif, e, OpView::Delete(l - 1));
            }
        },
        RecordView::EnumDirty(l) => {
            if in_file(l, orig.len()) {
                assert forall|d: int, k: int| #[trigger]
                    has_entry(rif, d, k) && rif.enum_defs[d].values[k].decl_line == Some(l) implies ops.contains(
                    OpView::Replace(l - 1, indent_at(orig, l) + enum_line(rif.enum_defs[d].values[k])),
                ) by {
                    let x = rif.enum_defs[d].values[k];
                    let op = OpView::Replace(l - 1, indent_at(orig, l) + enum_line(x));
                    let part = each_entry(orig, e)(x);
                    assert(part[0] == op);
                    assert(part.contains(op));
                    lemma_entry_op(orig, rif, e, d, k, op);
                }
            }
        },
        _ => {},
    }
}

/// Whatever waits to be saved is done to the lines of the file: property lines, description
/// blocks, enum entries, overrides, the lines of the RIF itself, its clocks, resets, parameters and
/// generics are written, put or taken away, and a deleted item goes with its whole block.
pub proof fn pending_edit_is_done(orig: Seq<Seq<char>>, rif: RifDefView, e: PendingEditsView, r: RecordView)
    requires
        orig.len() <= usize::MAX,
        holds(e, r),
    ensures
        done(orig, rif, file_ops(orig, rif, e), r),
{
    let ops = file_ops(orig, rif, e);
    if let Some(line) = owner_line(r) {
        if in_file(line, orig.len()) {
            assert forall|p: int, q: int, k: int| #[trigger]
                has_field(rif, p, q, k) && def_at(rif, p, q).fields[k].src.decl_line == Some(
                    line,
                ) implies field_done(orig, rif, ops, def_at(rif, p, q).fields[k], line, r) by {
                let f = def_at(rif, p, q).fields[k];
                assert forall|op: OpView| field_ops(orig, rif, e, f).contains(op) implies #[trigger] ops.contains(
                    op,
                ) by {
                    lemma_field_op(orig, rif, e, p, q, k, op);
                }
                lemma_field_done(orig, rif, e, ops, f, line, r);
            }
            assert forall|p: int, q: int| #[trigger]
                has_def(rif, p, q) && def_at(rif, p, q).src.decl_line == Some(line) implies reg_done(
                orig,
                ops,
                def_at(rif, p, q),
                line,
                r,
            ) by {
                let d = def_at(rif, p, q);
                assert forall|op: OpView| reg_own_ops(orig, e, d).contains(op) implies #[trigger] ops.contains(
                    op,
                ) by {
                    lemma_reg_own_op(orig, rif, e, p, q, op);
                }
                lemma_reg_done(orig, e, ops, d, line, r);
            }
            assert forall|p: int, k: int| #[trigger]
                has_inst(rif, p, k) && rif.pages[p].instances[k].decl_line == Some(line) implies inst_done(
                orig,
                ops,
                rif.pages[p].instances[k],
                line,
                r,
            ) by {
                let i = rif.pages[p].instances[k];
                assert forall|op: OpView| inst_ops(orig, e, i).contains(op) implies #[trigger] ops.contains(op) by {
                    lemma_inst_op(orig, rif, e, p, k, op);
                }
                lemma_inst_done(orig, e, ops, i, line, r);
            }
        }
    } else {
        lemma_marks_done(orig, rif, e, r);
    }
    if let Some(line) = rif.src.decl_line {
        if in_file(line, orig.len()) {
            assert forall|op: OpView| rif_ops(orig, rif, e).contains(op) implies #[trigger] ops.contains(op) by {
                lemma_rif_op(orig, rif, e, op);
            }
            lemma_rif_done(orig, ops, rif, e, line, r);
        }
    }
}

/// Whether the changes put lines at a place, one behind the other.
pub open spec fn lines_put(ops: Seq<OpView>, at: int, lines: Seq<Seq<char>>) -> bool {
    exists|ls: Seq<Seq<char>>, j: int| #[trigger]
        ops.contains(OpView::Insert(at, ls)) && 0 <= j && j + lines.len() <= ls.len() && #[trigger] ls.subrange(
            j,
            j + lines.len(),
        ) == lines
}

proof fn lemma_lines_within<T>(s: Seq<T>, f: spec_fn(T) -> Seq<Seq<char>>, n: int, k: int) -> (j: int)
    requires
        0 <= k < n <= s.len(),
    ensures
        0 <= j,
        j + f(s[k]).len() <= lines_of(s, f, n).len(),
        lines_of(s, f, n).subrange(j, j + f(s[k]).len()) == f(s[k]),
    decreases n,
{
    let head = lines_of(s, f, n - 1);
    let all = lines_of(s, f, n);
    if k == n - 1 {
        let j = head.len() as int;
        assert(all.subrange(j, j + f(s[k]).len()) =~= f(s[k]));
        j
    } else {
        let j = lemma_lines_within(s, f, n - 1, k);
        assert(all.subrange(j, j + f(s[k]).len()) =~= head.subrange(j, j + f(s[k]).len()));
        j
    }
}

/// A field that is not in the file yet is put behind the last field of its register that is, with
/// all its lines.
pub proof fn new_field_is_put(
    orig: Seq<Seq<char>>,
    rif: RifDefView,
    e: PendingEditsView,
    p: int,
    q: int,
    k: int,
    at: int,
    indent: Seq<char>,
)
    requires
        has_field(rif, p, q, k),
        def_at(rif, p, q).fields[k].src.decl_line is None,
        ({
            let fields = def_at(rif, p, q).fields;
            end_of(orig, last_field_line(fields, fields.len() as int)) == Some((at, indent))
        }),
    ensures
        lines_put(file_ops(orig, rif, e), at, field_lines(rif, def_at(rif, p, q).fields[k], indent)),
{
    let d = def_at(rif, p, q);
    let n = d.fields.len() as int;
    let f = new_field_lines(rif, indent);
    let ls = lines_of(d.fields, f, n);
    let j = lemma_lines_within(d.fields, f, n, k);
    assert(f(d.fields[k]) == field_lines(rif, d.fields[k], indent));
    let op = OpView::Insert(at, ls);
    let part = new_field_ops(orig, rif, d);
    assert(part[0] == op);
    let own = reg_own_ops(orig, e, d) + ops_of(d.fields, each_field(orig, rif, e), n);
    lemma_either(own, part, op);
    lemma_reg_op(orig, rif, e, p, q, op);
}

/// A register that is not in the file yet is put behind the last register of its page that is, with
/// all its lines.
pub proof fn new_register_is_put(
    orig: Seq<Seq<char>>,
    rif: RifDefView,
    e: PendingEditsView,
    p: int,
    q: int,
    at: int,
    indent: Seq<char>,
)
    requires
        has_def(rif, p, q),
        def_at(rif, p, q).src.decl_line is None,
        ({
            let items = rif.pages[p].registers;
            end_of(orig, last_reg_line(items, items.len() as int)) == Some((at, indent))
        }),
    ensures
        lines_put(file_ops(orig, rif, e), at, whole_reg(rif, def_at(rif, p, q), indent)),
{
    let page = rif.pages[p];
    let n = page.registers.len() as int;
    let f = new_reg_lines(rif, indent);
    let ls = lines_of(page.registers, f, n);
    let j = lemma_lines_within(page.registers, f, n, q);
    assert(f(page.registers[q]) == whole_reg(rif, def_at(rif, p, q), indent));
    let op = OpView::Insert(at, ls);
    let part = new_reg_ops(orig, rif, page);
    assert(part[0] == op);
    let insts = ops_of(page.instances, each_inst(orig, e), page.instances.len() as int);
    lemma_either(insts, part, op);
    lemma_either(insts + part, new_inst_ops(orig, rif, page), op);
    lemma_page_op(orig, rif, e, p, op);
}

/// An instance that is not in the file yet is put behind the last instance of its page that is, or
/// else behind the header, with all its lines.
pub proof fn new_instance_is_put(
    orig: Seq<Seq<char>>,
    rif: RifDefView,
    e: PendingEditsView,
    p: int,
    k: int,
    header: usize,
)
    requires
        has_inst(rif, p, k),
        rif.pages[p].instances[k].decl_line is None,
        rif.pages[p].instances_line == Some(header),
        in_file(header, orig.len()),
    ensures
        ({
            let insts = rif.pages[p].instances;
            let (at, indent) = entry_place(
                orig,
                last_inst_line(insts, orig.len(), insts.len() as int),
                header,
            );
            lines_put(file_ops(orig, rif, e), at as int, whole_inst(rif, insts[k], indent))
        }),
{
    let page = rif.pages[p];
    let n = page.instances.len() as int;
    let (at, indent) = entry_place(orig, last_inst_line(page.instances, orig.len(), n), header);
    let f = new_inst_lines(rif, indent);
    let ls = lines_of(page.instances, f, n);
    let j = lemma_lines_within(page.instances, f, n, k);
    assert(f(page.instances[k]) == whole_inst(rif, page.instances[k], indent));
    let op = OpView::Insert(at as int, ls);
    let part = new_inst_ops(orig, rif, page);
    assert(part[part.len() - 1] == op);
    let insts = ops_of(page.instances, each_inst(orig, e), n);
    lemma_either(insts + new_reg_ops(orig, rif, page), part, op);
    lemma_page_op(orig, rif, e, p, op);
}

/// An entry that is not in the file yet, of an enum that is, is put behind the last entry of the
/// enum that is in the file, or else behind the line of the enum.
pub proof fn new_entry_is_put(
    orig: Seq<Seq<char>>,
    rif: RifDefView,
    e: PendingEditsView,
    d: int,
    k: int,
    header: usize,
)
    requires
        has_entry(rif, d, k),
        rif.enum_defs[d].values[k].decl_line is None,
        rif.enum_defs[d].decl_line == Some(header),
        in_file(header, orig.len()),
    ensures
        ({
            let values = rif.enum_defs[d].values;
            let (at, indent) = entry_place(
                orig,
                last_entry_line(values, orig.len(), values.len() as int),
                header,
            );
            lines_put(file_ops(orig, rif, e), at as int, seq![indent + enum_line(values[k])])
        }),
{
    let x = rif.enum_defs[d];
    let n = x.values.len() as int;
    let (at, indent) = entry_place(orig, last_entry_line(x.values, orig.len(), n), header);
    let f = new_entry_lines(indent);
    let ls = lines_of(x.values, f, n);
    let j = lemma_lines_within(x.values, f, n, k);
    assert(f(x.values[k]) == seq![indent + enum_line(x.values[k])]);
    let op = OpView::Insert(at as int, ls);
    let part = new_entry_ops(orig, x);
    assert(part[0] == op);
    lemma_either(ops_of(x.values, each_entry(orig, e), n), part, op);
    lemma_enum_op(orig, rif, e, d, op);
}

} // verus!
