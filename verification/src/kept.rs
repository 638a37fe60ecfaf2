//! What saving leaves alone.
use vstd::prelude::*;
use crate::edits::{BlockEditView, LineEditView, PendingEditsView};
use crate::file_io::file_ops;
use crate::model::page::{InstanceView, OvrSrcView, PageView};
use crate::model::props::FieldOverrideProp;
use crate::model::register::{DescBlocks, FieldDefView, RegItemView, RegisterDefView};
use crate::model::rif::{EnumTypeView, RifDefView};
use crate::plan::{
    block_last, block_ops, in_file, indent_below, line_ops, lines_of, ops_of, piece, pieces, rebuilt, removed,
    replaced, OpView,
};
use crate::save_page::{
    all_enum_ops, all_page_ops, each_entry, each_enum, each_field_ovr, each_inst, each_page, entry_place,
    inst_ops, last_inst_line, new_entry_ops, new_inst_lines, new_inst_ops, new_reg_ops, ovr_line, ovr_ops,
    ovr_prop_ops, page_ops, within,
};
use crate::save_reg::{
    all_reg_ops, block_end, each_field, each_item, each_page_regs, enum_line_ops, field_ops, field_prop_ops,
    intr_ops, new_field_ops, reg_ops, reg_own_ops, reg_prop_ops,
};
use crate::save_rif::{
    blocks_gone, clock_anchor, clock_ops, line_gone, lines_gone, marked_ops, reset_ops, rif_decl_ops,
    rif_desc_ops, rif_ops, rif_prop_ops, row_ops, single_ops, table_ops, whole_block_gone,
};
use crate::viewer::page_has_new_instances;

verus! {

/// Whether an edit is about the line of a property.
pub open spec fn line_about(existing: Option<usize>, e: LineEditView, line: usize) -> bool {
    existing == Some(line) && !(e is Keep)
}

/// Whether one of the first `n` edits is about the line of a property.
pub open spec fn lines_about(existing: Seq<Option<usize>>, es: Seq<LineEditView>, n: int, line: usize) -> bool {
    exists|k: int| 0 <= k < n && line_about(#[trigger] existing[k], es[k], line)
}

/// Whether a line is part of a block.
pub open spec fn in_block(block: Option<(usize, usize)>, line: usize) -> bool {
    match block {
        Some((s, t)) => s <= line <= t,
        None => false,
    }
}

/// Whether an edit is about the block of a derived description.
pub open spec fn derived_about(blocks: DescBlocks, es: Seq<Option<BlockEditView>>, line: usize) -> bool {
    ||| es[0] is Some && in_block(blocks.intr_enable, line)
    ||| es[1] is Some && in_block(blocks.intr_mask, line)
    ||| es[2] is Some && in_block(blocks.intr_pending, line)
}

/// Whether an edit of a field is about a line: its declaration, a property or a description.
pub open spec fn field_about(e: PendingEditsView, f: FieldDefView, line: usize) -> bool {
    match f.src.decl_line {
        Some(d) => {
            ||| e.dirty.contains(d) && line == d
            ||| e.prop_edits.contains_key(d) && lines_about(f.src.prop_lines@, e.prop_edits[d], 12, line)
            ||| e.desc_block_edits.contains_key(d) && in_block(f.src.desc_blocks.public, line)
            ||| e.field_intr_desc_block_edits.contains_key(d) && derived_about(
                f.src.desc_blocks,
                e.field_intr_desc_block_edits[d],
                line,
            )
        },
        None => false,
    }
}

/// Whether an edit of a register or of one of its fields is about a line.
pub open spec fn reg_about(e: PendingEditsView, d: RegisterDefView, line: usize) -> bool {
    ||| match d.src.decl_line {
        Some(l) => {
            ||| e.reg_dirty.contains(l) && line == l
            ||| e.reg_prop_edits.contains_key(l) && lines_about(
                d.src.prop_lines@,
                e.reg_prop_edits[l],
                10,
                line,
            )
            ||| e.reg_desc_block_edits.contains_key(l) && in_block(d.src.desc_blocks.public, line)
            ||| e.reg_intr_desc_block_edits.contains_key(l) && derived_about(
                d.src.desc_blocks,
                e.reg_intr_desc_block_edits[l],
                line,
            )
        },
        None => false,
    }
    ||| exists|k: int| 0 <= k < d.fields.len() && field_about(e, #[trigger] d.fields[k], line)
}

/// Whether an edit of what an instance overrides is about a line.
pub open spec fn ovr_about(e: PendingEditsView, o: OvrSrcView, l: usize, line: usize) -> bool {
    ||| e.reg_override_edits.contains_key(l) && lines_about(o.prop_lines@, e.reg_override_edits[l], 4, line)
    ||| e.reg_override_desc_block_edits.contains_key(l) && in_block(o.desc_block, line)
    ||| e.field_override_edits.contains_key(l) && exists|k: int|
        0 <= k < e.field_override_edits[l].len() && {
            let x = #[trigger] e.field_override_edits[l][k];
            ||| line_about(ovr_line(o, x.field, FieldOverrideProp::Description), x.desc, line)
            ||| line_about(ovr_line(o, x.field, FieldOverrideProp::Reset), x.reset, line)
        }
}

/// Whether an edit of an instance is about a line.
pub open spec fn inst_about(e: PendingEditsView, i: InstanceView, line: usize) -> bool {
    match i.decl_line {
        Some(l) => {
            ||| e.reg_inst_dirty.contains(l) && line == l
            ||| ovr_about(e, i.ovr_src, l, line)
        },
        None => false,
    }
}

/// Whether an edit of a page is about a line. A page with new instances has explicit addresses,
/// and its header says so.
pub open spec fn page_about(e: PendingEditsView, p: PageView, line: usize) -> bool {
    ||| exists|k: int|
        0 <= k < p.registers.len() && ((#[trigger] p.registers[k]) matches RegItemView::Def(d) && reg_about(
            e,
            d,
            line,
        ))
    ||| exists|k: int| 0 <= k < p.instances.len() && inst_about(e, #[trigger] p.instances[k], line)
    ||| p.instances_line == Some(line) && page_has_new_instances(p)
}

/// Whether an edit of an enum is about a line.
pub open spec fn enum_about(e: PendingEditsView, d: EnumTypeView, line: usize) -> bool {
    e.enum_dirty.contains(line) && exists|k: int|
        0 <= k < d.values.len() && (#[trigger] d.values[k]).decl_line == Some(line)
}

/// Whether an edit of the RIF itself is about a line: its declaration, a property, its
/// description, a clock, a reset, a parameter or a generic.
pub open spec fn rif_about(e: PendingEditsView, r: RifDefView, line: usize) -> bool {
    ||| e.rif_dirty.contains(line) && r.src.decl_line == Some(line)
    ||| lines_about(r.src.prop_lines@, e.rif_prop_edits, 10, line)
    ||| e.rif_desc_block_edits is Some && in_block(r.src.desc_block, line)
    ||| clock_about(e, r, line)
    ||| e.rif_reset_deleted.contains(line)
    ||| e.rif_param_edits.contains_key(line)
    ||| e.rif_generic_edits.contains_key(line)
}

/// Whether an edit of the clocks is about a line.
pub open spec fn clock_about(e: PendingEditsView, r: RifDefView, line: usize) -> bool {
    ||| line_about(r.src.prop_lines[4], e.rif_clock_line_edits[0], line)
    ||| line_about(r.src.prop_lines[7], e.rif_clock_line_edits[1], line)
    ||| line_about(r.src.prop_lines[5], e.rif_clock_line_edits[2], line)
    ||| line_about(r.src.prop_lines[8], e.rif_clock_line_edits[3], line)
    ||| line_about(r.src.prop_lines[6], e.rif_clock_line_edits[4], line)
    ||| line_about(r.src.prop_lines[9], e.rif_clock_line_edits[5], line)
}

/// Whether a line is part of a declaration that was deleted.
pub open spec fn in_deleted(orig: Seq<Seq<char>>, marks: Set<usize>, line: usize) -> bool {
    exists|l: usize|
        #[trigger] marks.contains(l) && in_file(l, orig.len()) && l - 1 <= line - 1 <= block_last(orig, l - 1)
}

/// Whether a pending edit is about a line of the file.
pub open spec fn edit_about(orig: Seq<Seq<char>>, rif: RifDefView, e: PendingEditsView, line: usize) -> bool {
    ||| rif_about(e, rif, line)
    ||| in_deleted(orig, e.deleted, line)
    ||| in_deleted(orig, e.reg_deleted, line)
    ||| in_deleted(orig, e.reg_inst_deleted, line)
    ||| e.enum_deleted.contains(line)
    ||| exists|k: int| 0 <= k < rif.pages.len() && page_about(e, #[trigger] rif.pages[k], line)
    ||| exists|k: int| 0 <= k < rif.enum_defs.len() && enum_about(e, #[trigger] rif.enum_defs[k], line)
}

/// Whether a change writes or removes line `i`.
pub open spec fn changes(op: OpView, i: int) -> bool {
    match op {
        OpView::Replace(k, _) => k == i,
        OpView::Delete(k) => k == i,
        OpView::Insert(_, _) => false,
    }
}

/// Whether no change writes or removes line `i`.
pub open spec fn spares(ops: Seq<OpView>, i: int) -> bool {
    forall|k: int| 0 <= k < ops.len() ==> !changes(#[trigger] ops[k], i)
}

proof fn lemma_spares_both(a: Seq<OpView>, b: Seq<OpView>, i: int)
    requires
        spares(a, i),
        spares(b, i),
    ensures
        spares(a + b, i),
{
    assert forall|k: int| 0 <= k < (a + b).len() implies !changes(#[trigger] (a + b)[k], i) by {
        if k < a.len() {
            assert((a + b)[k] == a[k]);
        } else {
            assert((a + b)[k] == b[k - a.len()]);
        }
    }
}

proof fn lemma_spares_of<T>(s: Seq<T>, f: spec_fn(T) -> Seq<OpView>, n: int, i: int)
    requires
        0 <= n <= s.len(),
        forall|k: int| 0 <= k < n ==> spares(f(#[trigger] s[k]), i),
    ensures
        spares(ops_of(s, f, n), i),
    decreases n,
{
    if n > 0 {
        lemma_spares_of(s, f, n - 1, i);
        assert(spares(f(s[n - 1]), i));
        lemma_spares_both(ops_of(s, f, n - 1), f(s[n - 1]), i);
    }
}

proof fn lemma_line_spares(
    orig: Seq<Seq<char>>,
    existing: Option<usize>,
    e: LineEditView,
    at: int,
    indent: Seq<char>,
    line: usize,
)
    requires
        !line_about(existing, e, line),
    ensures
        spares(line_ops(orig, existing, e, at, indent), line - 1),
{
}

proof fn lemma_block_spares(
    orig: Seq<Seq<char>>,
    existing: Option<(usize, usize)>,
    e: BlockEditView,
    at: int,
    indent: Seq<char>,
    line: usize,
)
    requires
        !in_block(existing, line),
    ensures
        spares(block_ops(orig, existing, e, at, indent), line - 1),
{
}

proof fn lemma_marked_spare(marks: Set<usize>, f: spec_fn(usize) -> Seq<OpView>, n: nat, i: int)
    requires
        n <= usize::MAX,
        forall|l: usize| 1 <= l <= n && #[trigger] marks.contains(l) ==> spares(f(l), i),
    ensures
        spares(marked_ops(marks, f, n), i),
    decreases n,
{
    if n > 0 {
        lemma_marked_spare(marks, f, (n - 1) as nat, i);
        let last = if marks.contains(n as usize) {
            f(n as usize)
        } else {
            Seq::<OpView>::empty()
        };
        lemma_spares_both(marked_ops(marks, f, (n - 1) as nat), last, i);
    }
}

proof fn lemma_lines_gone_spare(orig: Seq<Seq<char>>, marks: Set<usize>, line: usize)
    requires
        orig.len() <= usize::MAX,
        !marks.contains(line),
    ensures
        spares(lines_gone(orig, marks), line - 1),
{
    lemma_marked_spare(marks, line_gone(), orig.len(), line - 1);
}

proof fn lemma_blocks_gone_spare(orig: Seq<Seq<char>>, marks: Set<usize>, line: usize)
    requires
        orig.len() <= usize::MAX,
        !in_deleted(orig, marks, line),
    ensures
        spares(blocks_gone(orig, marks), line - 1),
{
    let f = whole_block_gone(orig);
    assert forall|l: usize| 1 <= l <= orig.len() && #[trigger] marks.contains(l) implies spares(
        f(l),
        line - 1,
    ) by {
        assert(in_file(l, orig.len()));
        assert(!(l - 1 <= line - 1 <= block_last(orig, l - 1)));
    }
    lemma_marked_spare(marks, f, orig.len(), line - 1);
}

proof fn lemma_singles_spare(orig: Seq<Seq<char>>, edits: Map<usize, LineEditView>, n: nat, line: usize)
    requires
        n <= usize::MAX,
        !edits.contains_key(line),
    ensures
        spares(single_ops(orig, edits, n), line - 1),
    decreases n,
{
    if n > 0 {
        lemma_singles_spare(orig, edits, (n - 1) as nat, line);
        let last = if edits.contains_key(n as usize) {
            line_ops(orig, Some(n as usize), edits[n as usize], 0, seq![])
        } else {
            seq![]
        };
        lemma_spares_both(single_ops(orig, edits, (n - 1) as nat), last, line - 1);
    }
}

proof fn lemma_field_props_spare(
    orig: Seq<Seq<char>>,
    rif: RifDefView,
    f: FieldDefView,
    edits: Seq<LineEditView>,
    l: usize,
    n: int,
    line: usize,
)
    requires
        0 <= n <= 12,
        !lines_about(f.src.prop_lines@, edits, 12, line),
    ensures
        spares(field_prop_ops(orig, rif, f, edits, l, n), line - 1),
    decreases n,
{
    if n > 0 {
        lemma_field_props_spare(orig, rif, f, edits, l, n - 1, line);
        let existing = f.src.prop_lines[n - 1];
        assert(f.src.prop_lines@[n - 1] == existing);
        assert(!line_about(f.src.prop_lines@[n - 1], edits[n - 1], line));
        let at = block_end(orig, l);
        let indent = indent_below(orig, l);
        lemma_line_spares(orig, existing, edits[n - 1], at, indent, line);
        assert(spares(enum_line_ops(orig, rif, f, existing, edits[n - 1], at, indent), line - 1));
    }
}

proof fn lemma_derived_spare(
    orig: Seq<Seq<char>>,
    blocks: DescBlocks,
    edits: Seq<Option<BlockEditView>>,
    at: int,
    indent: Seq<char>,
    line: usize,
)
    requires
        !derived_about(blocks, edits, line),
    ensures
        spares(intr_ops(orig, blocks, edits, at, indent), line - 1),
{
}

proof fn lemma_field_spares(
    orig: Seq<Seq<char>>,
    rif: RifDefView,
    e: PendingEditsView,
    f: FieldDefView,
    line: usize,
)
    requires
        !field_about(e, f, line),
    ensures
        spares(field_ops(orig, rif, e, f), line - 1),
{
    if let Some(l) = f.src.decl_line {
        let at = block_end(orig, l);
        let indent = indent_below(orig, l);
        if e.prop_edits.contains_key(l) {
            lemma_field_props_spare(orig, rif, f, e.prop_edits[l], l, 12, line);
        }
        if e.desc_block_edits.contains_key(l) {
            lemma_block_spares(orig, f.src.desc_blocks.public, e.desc_block_edits[l], at, indent, line);
        }
        if e.field_intr_desc_block_edits.contains_key(l) {
            lemma_derived_spare(
                orig,
                f.src.desc_blocks,
                e.field_intr_desc_block_edits[l],
                at,
                indent,
                line,
            );
        }
    }
}

proof fn lemma_reg_props_spare(
    orig: Seq<Seq<char>>,
    d: RegisterDefView,
    edits: Seq<LineEditView>,
    l: usize,
    n: int,
    line: usize,
)
    requires
        0 <= n <= 10,
        !lines_about(d.src.prop_lines@, edits, 10, line),
    ensures
        spares(reg_prop_ops(orig, d, edits, l, n), line - 1),
    decreases n,
{
    if n > 0 {
        lemma_reg_props_spare(orig, d, edits, l, n - 1, line);
        assert(!line_about(d.src.prop_lines@[n - 1], edits[n - 1], line));
    }
}

proof fn lemma_reg_spares(
    orig: Seq<Seq<char>>,
    rif: RifDefView,
    e: PendingEditsView,
    d: RegisterDefView,
    line: usize,
)
    requires
        !reg_about(e, d, line),
    ensures
        spares(reg_ops(orig, rif, e, d), line - 1),
{
    if let Some(l) = d.src.decl_line {
        let indent = indent_below(orig, l);
        if e.reg_prop_edits.contains_key(l) {
            lemma_reg_props_spare(orig, d, e.reg_prop_edits[l], l, 10, line);
        }
        if e.reg_desc_block_edits.contains_key(l) {
            lemma_block_spares(
                orig,
                d.src.desc_blocks.public,
                e.reg_desc_block_edits[l],
                l as int,
                indent,
                line,
            );
        }
        if e.reg_intr_desc_block_edits.contains_key(l) {
            lemma_derived_spare(
                orig,
                d.src.desc_blocks,
                e.reg_intr_desc_block_edits[l],
                l as int,
                indent,
                line,
            );
        }
    }
    assert(spares(reg_own_ops(orig, e, d), line - 1));
    let f = each_field(orig, rif, e);
    assert forall|k: int| 0 <= k < d.fields.len() implies spares(f(#[trigger] d.fields[k]), line - 1) by {
        lemma_field_spares(orig, rif, e, d.fields[k], line);
    }
    let n = d.fields.len() as int;
    lemma_spares_of(d.fields, f, n, line - 1);
    lemma_spares_both(reg_own_ops(orig, e, d), ops_of(d.fields, f, n), line - 1);
    assert(spares(new_field_ops(orig, rif, d), line - 1));
    lemma_spares_both(reg_own_ops(orig, e, d) + ops_of(d.fields, f, n), new_field_ops(orig, rif, d), line - 1);
}

proof fn lemma_ovr_props_spare(
    orig: Seq<Seq<char>>,
    o: OvrSrcView,
    edits: Seq<LineEditView>,
    l: usize,
    n: int,
    line: usize,
)
    requires
        0 <= n <= 4,
        !lines_about(o.prop_lines@, edits, 4, line),
    ensures
        spares(ovr_prop_ops(orig, o, edits, l, n), line - 1),
    decreases n,
{
    if n > 0 {
        lemma_ovr_props_spare(orig, o, edits, l, n - 1, line);
        assert(!line_about(o.prop_lines@[n - 1], edits[n - 1], line));
    }
}

proof fn lemma_inst_spares(orig: Seq<Seq<char>>, e: PendingEditsView, i: InstanceView, line: usize)
    requires
        !inst_about(e, i, line),
    ensures
        spares(inst_ops(orig, e, i), line - 1),
{
    if let Some(l) = i.decl_line {
        let o = i.ovr_src;
        if e.reg_override_edits.contains_key(l) {
            lemma_ovr_props_spare(orig, o, e.reg_override_edits[l], l, 4, line);
        }
        if e.field_override_edits.contains_key(l) {
            let edits = e.field_override_edits[l];
            let f = each_field_ovr(orig, o, l);
            assert forall|k: int| 0 <= k < edits.len() implies spares(f(#[trigger] edits[k]), line - 1) by {
                let x = edits[k];
                assert(!line_about(ovr_line(o, x.field, FieldOverrideProp::Description), x.desc, line));
            }
            lemma_spares_of(edits, f, edits.len() as int, line - 1);
        }
        assert(spares(ovr_ops(orig, e, o, l), line - 1));
    }
}

proof fn lemma_new_insts_spare(orig: Seq<Seq<char>>, rif: RifDefView, p: PageView, line: usize)
    requires
        !(p.instances_line == Some(line) && page_has_new_instances(p)),
    ensures
        spares(new_inst_ops(orig, rif, p), line - 1),
{
    if p.instances_line == Some(line) {
        if let Some(header) = within(p.instances_line, orig.len()) {
            let n = p.instances.len() as int;
            let (at, indent) = entry_place(
                orig,
                last_inst_line(p.instances, orig.len(), n),
                header,
            );
            let f = new_inst_lines(rif, indent);
            assert forall|k: int| 0 <= k < n implies f(#[trigger] p.instances[k]) == Seq::<Seq<char>>::empty() by {
                assert(p.instances[k].decl_line is Some);
            }
            lemma_nothing_of(p.instances, f, n);
        }
    }
}

proof fn lemma_nothing_of<T>(s: Seq<T>, f: spec_fn(T) -> Seq<Seq<char>>, n: int)
    requires
        0 <= n <= s.len(),
        forall|k: int| 0 <= k < n ==> f(#[trigger] s[k]) == Seq::<Seq<char>>::empty(),
    ensures
        lines_of(s, f, n).len() == 0,
    decreases n,
{
    if n > 0 {
        lemma_nothing_of(s, f, n - 1);
        assert(f(s[n - 1]).len() == 0);
    }
}

proof fn lemma_page_spares(orig: Seq<Seq<char>>, rif: RifDefView, e: PendingEditsView, p: PageView, line: usize)
    requires
        !page_about(e, p, line),
    ensures
        spares(each_page_regs(orig, rif, e)(p), line - 1),
        spares(page_ops(orig, rif, e, p), line - 1),
{
    let f = each_item(orig, rif, e);
    assert forall|k: int| 0 <= k < p.registers.len() implies spares(f(#[trigger] p.registers[k]), line - 1) by {
        if let RegItemView::Def(d) = p.registers[k] {
            assert(!reg_about(e, d, line));
            lemma_reg_spares(orig, rif, e, d, line);
        }
    }
    lemma_spares_of(p.registers, f, p.registers.len() as int, line - 1);
    let g = each_inst(orig, e);
    assert forall|k: int| 0 <= k < p.instances.len() implies spares(g(#[trigger] p.instances[k]), line - 1) by {
        lemma_inst_spares(orig, e, p.instances[k], line);
    }
    let insts = ops_of(p.instances, g, p.instances.len() as int);
    lemma_spares_of(p.instances, g, p.instances.len() as int, line - 1);
    assert(spares(new_reg_ops(orig, rif, p), line - 1));
    lemma_new_insts_spare(orig, rif, p, line);
    lemma_spares_both(insts, new_reg_ops(orig, rif, p), line - 1);
    lemma_spares_both(insts + new_reg_ops(orig, rif, p), new_inst_ops(orig, rif, p), line - 1);
}

proof fn lemma_enum_spares(orig: Seq<Seq<char>>, e: PendingEditsView, d: EnumTypeView, line: usize)
    requires
        !enum_about(e, d, line),
    ensures
        spares(each_enum(orig, e)(d), line - 1),
{
    let f = each_entry(orig, e);
    assert forall|k: int| 0 <= k < d.values.len() implies spares(f(#[trigger] d.values[k]), line - 1) by {
        assert(!(e.enum_dirty.contains(line) && d.values[k].decl_line == Some(line)));
    }
    lemma_spares_of(d.values, f, d.values.len() as int, line - 1);
    assert(spares(new_entry_ops(orig, d), line - 1));
    lemma_spares_both(ops_of(d.values, f, d.values.len() as int), new_entry_ops(orig, d), line - 1);
}

proof fn lemma_rif_props_spare(
    orig: Seq<Seq<char>>,
    r: RifDefView,
    e: PendingEditsView,
    l: usize,
    n: int,
    line: usize,
)
    requires
        0 <= n <= 10,
        !lines_about(r.src.prop_lines@, e.rif_prop_edits, 10, line),
    ensures
        spares(rif_prop_ops(orig, r, e, l, n), line - 1),
    decreases n,
{
    if n > 0 {
        lemma_rif_props_spare(orig, r, e, l, n - 1, line);
        assert(!line_about(r.src.prop_lines@[n - 1], e.rif_prop_edits[n - 1], line));
    }
}

proof fn lemma_clocks_spare(orig: Seq<Seq<char>>, r: RifDefView, e: PendingEditsView, l: usize, line: usize)
    requires
        !clock_about(e, r, line),
    ensures
        spares(clock_ops(orig, r, e, l), line - 1),
{
    let indent = indent_below(orig, l);
    let sw = clock_anchor(r, false, l) as int;
    let hw = clock_anchor(r, true, l) as int;
    let i = line - 1;
    let a = line_ops(orig, r.src.prop_lines[4], e.rif_clock_line_edits[0], l as int, indent);
    let b = line_ops(orig, r.src.prop_lines[7], e.rif_clock_line_edits[1], l as int, indent);
    let c = line_ops(orig, r.src.prop_lines[5], e.rif_clock_line_edits[2], sw, indent);
    let d = line_ops(orig, r.src.prop_lines[8], e.rif_clock_line_edits[3], hw, indent);
    let f = line_ops(orig, r.src.prop_lines[6], e.rif_clock_line_edits[4], sw, indent);
    let g = line_ops(orig, r.src.prop_lines[9], e.rif_clock_line_edits[5], hw, indent);
    lemma_spares_both(a, b, i);
    lemma_spares_both(a + b, c, i);
    lemma_spares_both(a + b + c, d, i);
    lemma_spares_both(a + b + c + d, f, i);
    lemma_spares_both(a + b + c + d + f, g, i);
}

proof fn lemma_tables_spare(orig: Seq<Seq<char>>, r: RifDefView, e: PendingEditsView, l: usize, line: usize)
    requires
        orig.len() <= usize::MAX,
        !e.rif_param_edits.contains_key(line),
        !e.rif_generic_edits.contains_key(line),
    ensures
        spares(table_ops(orig, r, e, l), line - 1),
{
    let i = line - 1;
    let a = single_ops(orig, e.rif_param_edits, orig.len());
    let b = row_ops(
        orig,
        e.rif_param_inserts,
        r.src.param_lines,
        r.src.params_header_line,
        "parameters :"@,
        l,
    );
    let c = single_ops(orig, e.rif_generic_edits, orig.len());
    let d = row_ops(
        orig,
        e.rif_generic_inserts,
        r.src.generic_lines,
        r.src.generics_header_line,
        "generics :"@,
        l,
    );
    lemma_singles_spare(orig, e.rif_param_edits, orig.len(), line);
    lemma_singles_spare(orig, e.rif_generic_edits, orig.len(), line);
    lemma_spares_both(a, b, i);
    lemma_spares_both(a + b, c, i);
    lemma_spares_both(a + b + c, d, i);
}

proof fn lemma_rif_spares(orig: Seq<Seq<char>>, r: RifDefView, e: PendingEditsView, line: usize)
    requires
        orig.len() <= usize::MAX,
        !rif_about(e, r, line),
    ensures
        spares(rif_ops(orig, r, e), line - 1),
{
    if let Some(l) = r.src.decl_line {
        let i = line - 1;
        let indent = indent_below(orig, l);
        let a = rif_decl_ops(r, e, l);
        let b = rif_prop_ops(orig, r, e, l, 10);
        let c = rif_desc_ops(orig, r, e, l);
        let d = clock_ops(orig, r, e, l);
        let f = lines_gone(orig, e.rif_reset_deleted);
        let g = reset_ops(e.rif_reset_sw, clock_anchor(r, false, l) as int, indent);
        let h = reset_ops(e.rif_reset_hw, clock_anchor(r, true, l) as int, indent);
        lemma_rif_props_spare(orig, r, e, l, 10, line);
        if let Some(x) = e.rif_desc_block_edits {
            lemma_block_spares(orig, r.src.desc_block, x, l as int, indent, line);
        }
        lemma_clocks_spare(orig, r, e, l, line);
        lemma_lines_gone_spare(orig, e.rif_reset_deleted, line);
        lemma_tables_spare(orig, r, e, l, line);
        lemma_spares_both(a, b, i);
        lemma_spares_both(a + b, c, i);
        lemma_spares_both(a + b + c, d, i);
        lemma_spares_both(a + b + c + d, f, i);
        lemma_spares_both(a + b + c + d + f, g, i);
        lemma_spares_both(a + b + c + d + f + g, h, i);
        lemma_spares_both(a + b + c + d + f + g + h, table_ops(orig, r, e, l), i);
    }
}

proof fn lemma_file_spares(orig: Seq<Seq<char>>, rif: RifDefView, e: PendingEditsView, line: usize)
    requires
        orig.len() <= usize::MAX,
        !edit_about(orig, rif, e, line),
    ensures
        spares(file_ops(orig, rif, e), line - 1),
{
    let i = line - 1;
    lemma_rif_spares(orig, rif, e, line);
    lemma_blocks_gone_spare(orig, e.deleted, line);
    lemma_blocks_gone_spare(orig, e.reg_deleted, line);
    lemma_blocks_gone_spare(orig, e.reg_inst_deleted, line);
    lemma_lines_gone_spare(orig, e.enum_deleted, line);
    let n = rif.pages.len() as int;
    let regs = each_page_regs(orig, rif, e);
    let insts = each_page(orig, rif, e);
    assert forall|k: int| 0 <= k < n implies spares(regs(#[trigger] rif.pages[k]), i) && spares(
        insts(rif.pages[k]),
        i,
    ) by {
        lemma_page_spares(orig, rif, e, rif.pages[k], line);
    }
    lemma_spares_of(rif.pages, regs, n, i);
    lemma_spares_of(rif.pages, insts, n, i);
    let enums = each_enum(orig, e);
    assert forall|k: int| 0 <= k < rif.enum_defs.len() implies spares(enums(#[trigger] rif.enum_defs[k]), i) by {
        lemma_enum_spares(orig, e, rif.enum_defs[k], line);
    }
    lemma_spares_of(rif.enum_defs, enums, rif.enum_defs.len() as int, i);
    let a = rif_ops(orig, rif, e);
    let b = blocks_gone(orig, e.deleted);
    let c = blocks_gone(orig, e.reg_deleted);
    let d = all_reg_ops(orig, rif, e);
    let f = blocks_gone(orig, e.reg_inst_deleted);
    let g = all_page_ops(orig, rif, e);
    let h = all_enum_ops(orig, rif, e);
    let j = lines_gone(orig, e.enum_deleted);
    lemma_spares_both(a, b, i);
    lemma_spares_both(a + b, c, i);
    lemma_spares_both(a + b + c, d, i);
    lemma_spares_both(a + b + c + d, f, i);
    lemma_spares_both(a + b + c + d + f, g, i);
    lemma_spares_both(a + b + c + d + f + g, h, i);
    lemma_spares_both(a + b + c + d + f + g + h, j, i);
}

proof fn lemma_spared(ops: Seq<OpView>, i: int, n: int)
    requires
        0 <= n <= ops.len(),
        spares(ops, i),
    ensures
        !removed(ops, i, n),
        replaced(ops, i, n) is None,
    decreases n,
{
    if n > 0 {
        lemma_spared(ops, i, n - 1);
        assert(!changes(ops[n - 1], i));
    }
}

proof fn lemma_head_of_pieces(orig: Seq<Seq<char>>, ops: Seq<OpView>, m: int, n: int)
    requires
        0 <= m <= n,
    ensures
        pieces(orig, ops, m).len() <= pieces(orig, ops, n).len(),
        forall|k: int|
            0 <= k < pieces(orig, ops, m).len() ==> (#[trigger] pieces(orig, ops, n)[k]) == pieces(
                orig,
                ops,
                m,
            )[k],
    decreases n,
{
    if m < n {
        lemma_head_of_pieces(orig, ops, m, n - 1);
    }
}

/// Where a line of the file that is kept stands once the edits are written.
pub open spec fn new_place(orig: Seq<Seq<char>>, ops: Seq<OpView>, line: usize) -> int {
    pieces(orig, ops, line as int).len() - 1
}

/// A line of the file that no pending edit is about is neither taken away nor written anew: it is
/// still there once the edits are written, to the last character, be it a comment, a blank line, or
/// a declaration, property or description that was not touched.
pub proof fn unedited_line_is_kept(orig: Seq<Seq<char>>, rif: RifDefView, e: PendingEditsView, line: usize)
    requires
        orig.len() <= usize::MAX,
        in_file(line, orig.len()),
        !edit_about(orig, rif, e, line),
    ensures
        ({
            let ops = file_ops(orig, rif, e);
            &&& !removed(ops, line - 1, ops.len() as int)
            &&& replaced(ops, line - 1, ops.len() as int) is None
            &&& piece(orig, ops, line - 1).len() > 0
            &&& piece(orig, ops, line - 1).last() == orig[line - 1]
            &&& 0 <= new_place(orig, ops, line) < rebuilt(orig, ops).len()
            &&& rebuilt(orig, ops)[new_place(orig, ops, line)] == orig[line - 1]
        }),
{
    let ops = file_ops(orig, rif, e);
    let i = line - 1;
    lemma_file_spares(orig, rif, e, line);
    lemma_spared(ops, i, ops.len() as int);
    let p = piece(orig, ops, i);
    assert(p.len() > 0 && p.last() == orig[i]);
    lemma_head_of_pieces(orig, ops, line as int, orig.len() as int);
    let head = pieces(orig, ops, line as int);
    assert(head == pieces(orig, ops, i) + p);
    assert(head.last() == orig[i]);
}

/// Lines of the file that no pending edit is about keep their order.
pub proof fn unedited_lines_keep_their_order(
    orig: Seq<Seq<char>>,
    rif: RifDefView,
    e: PendingEditsView,
    a: usize,
    b: usize,
)
    requires
        orig.len() <= usize::MAX,
        in_file(a, orig.len()),
        in_file(b, orig.len()),
        a < b,
        !edit_about(orig, rif, e, a),
        !edit_about(orig, rif, e, b),
    ensures
        ({
            let ops = file_ops(orig, rif, e);
            let after = rebuilt(orig, ops);
            let (i, j) = (new_place(orig, ops, a), new_place(orig, ops, b));
            &&& 0 <= i < j < after.len()
            &&& after[i] == orig[a - 1]
            &&& after[j] == orig[b - 1]
        }),
{
    let ops = file_ops(orig, rif, e);
    unedited_line_is_kept(orig, rif, e, a);
    unedited_line_is_kept(orig, rif, e, b);
    lemma_head_of_pieces(orig, ops, a as int, b - 1);
    assert(pieces(orig, ops, b as int) == pieces(orig, ops, b - 1) + piece(orig, ops, b - 1));
}

} // verus!
