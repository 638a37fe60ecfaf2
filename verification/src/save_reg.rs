//! Changes to the lines of registers and fields.
use vstd::prelude::*;
use crate::bridge::{field_decl, reg_decl, show_field_decl, show_reg_decl};
use crate::edits::{
    block_at, intr_at, lines_at, BlockEdit, BlockEditView, LineEdit, LineEditView, PendingEdits,
    PendingEditsView,
};
use crate::lines::{extend_lines, indent_lines, indented, push_line};
use crate::model::page::{Page, PageView};
use crate::model::props::{FieldProp, RegProp};
use crate::model::register::{
    DescBlocks, FieldDef, FieldDefView, RegItem, RegItemView, RegisterDef, RegisterDefView,
};
use crate::model::rif::{EnumType, EnumTypeView, RifDef, RifDefView};
use crate::model::values::{EnumRef, EnumRefView};
use crate::plan::{
    add_line_ops, block_last, block_ops, extend_ops, field_block_last_idx, in_file, indent_at, indent_below,
    indent_of, indent_under, insert_lines, is_in_file, line_ops, lines_of, no_ops, ops_of, push_op,
    reconcile_desc_block, Op, OpView,
};
use crate::printed::{field_line, show_field_line};
use crate::search::first;
use crate::source::{enum_named, find_enum};
use crate::syntax::{desc_block, enum_line, show_desc_block, show_enum_line};
use crate::text::join;

verus! {

/// The lines of a block, where there is one.
pub open spec fn block_lines(b: Option<Seq<Seq<char>>>, indent: Seq<char>) -> Seq<Seq<char>> {
    match b {
        Some(ls) => indented(ls, indent),
        None => seq![],
    }
}

/// The name of an enum.
pub open spec fn enum_name_of(k: EnumRefView) -> Option<Seq<char>> {
    match k {
        EnumRefView::Plain => None,
        EnumRefView::Doc(n) => Some(n),
        EnumRefView::Type(n) => Some(n),
    }
}

/// The entries of an enum that is not in the file yet. They stand below the line that names it.
pub open spec fn entry_lines(defs: Seq<EnumTypeView>, name: Seq<char>, indent: Seq<char>) -> Seq<Seq<char>> {
    match first(defs, enum_named(name)) {
        Some(k) => if defs[k].decl_line is None {
            Seq::new(defs[k].values.len(), |i: int| indent + enum_line(defs[k].values[i]))
        } else {
            seq![]
        },
        None => seq![],
    }
}

/// The entries of the enum of a field, where it is not in the file yet.
pub open spec fn field_entries(rif: RifDefView, f: FieldDefView, indent: Seq<char>) -> Seq<Seq<char>> {
    match enum_name_of(f.enum_kind) {
        Some(n) => entry_lines(rif.enum_defs, n, indent),
        None => seq![],
    }
}

/// What an edit does to the line that names the enum of a field: a new enum brings its entries.
pub open spec fn enum_line_ops(
    orig: Seq<Seq<char>>,
    rif: RifDefView,
    f: FieldDefView,
    existing: Option<usize>,
    e: LineEditView,
    at: int,
    indent: Seq<char>,
) -> Seq<OpView> {
    match (existing, e) {
        (Some(line), LineEditView::Write(_)) => if in_file(line, orig.len()) {
            line_ops(orig, existing, e, at, indent) + seq![
                OpView::Insert(line as int, field_entries(rif, f, indent_below(orig, line))),
            ]
        } else {
            seq![]
        },
        (None, LineEditView::Write(t)) => seq![
            OpView::Insert(at, seq![indent + t] + field_entries(rif, f, indent + "  "@)),
        ],
        _ => line_ops(orig, existing, e, at, indent),
    }
}

/// Where new lines of the item declared at `line` go: behind its block.
pub open spec fn block_end(orig: Seq<Seq<char>>, line: usize) -> int {
    block_last(orig, line - 1) + 1
}

/// What the edits of the properties of a field do, up to the `n`-th property.
pub open spec fn field_prop_ops(
    orig: Seq<Seq<char>>,
    rif: RifDefView,
    f: FieldDefView,
    edits: Seq<LineEditView>,
    line: usize,
    n: int,
) -> Seq<OpView>
    decreases n,
{
    if n <= 0 {
        seq![]
    } else {
        let at = block_end(orig, line);
        let indent = indent_below(orig, line);
        let existing = f.src.prop_lines[n - 1];
        field_prop_ops(orig, rif, f, edits, line, n - 1) + if n - 1 == FieldProp::EnumKind.index() {
            enum_line_ops(orig, rif, f, existing, edits[n - 1], at, indent)
        } else {
            line_ops(orig, existing, edits[n - 1], at, indent)
        }
    }
}

/// What the edit of one derived description does, where there is one.
pub open spec fn derived_ops(
    orig: Seq<Seq<char>>,
    existing: Option<(usize, usize)>,
    e: Option<BlockEditView>,
    at: int,
    indent: Seq<char>,
) -> Seq<OpView> {
    match e {
        Some(b) => block_ops(orig, existing, b, at, indent),
        None => seq![],
    }
}

/// What the edits of derived descriptions do.
pub open spec fn intr_ops(
    orig: Seq<Seq<char>>,
    blocks: DescBlocks,
    edits: Seq<Option<BlockEditView>>,
    at: int,
    indent: Seq<char>,
) -> Seq<OpView> {
    derived_ops(orig, blocks.intr_enable, edits[0], at, indent) + derived_ops(
        orig,
        blocks.intr_mask,
        edits[1],
        at,
        indent,
    ) + derived_ops(orig, blocks.intr_pending, edits[2], at, indent)
}

/// What the edits of a field do, where its declaration is in the file.
pub open spec fn field_ops(orig: Seq<Seq<char>>, rif: RifDefView, e: PendingEditsView, f: FieldDefView) -> Seq<
    OpView,
> {
    match f.src.decl_line {
        Some(line) => if in_file(line, orig.len()) {
            let at = block_end(orig, line);
            let indent = indent_below(orig, line);
            (if e.dirty.contains(line) {
                seq![OpView::Replace(line - 1, indent_at(orig, line) + field_decl(f))]
            } else {
                seq![]
            }) + (if e.prop_edits.contains_key(line) {
                field_prop_ops(orig, rif, f, e.prop_edits[line], line, 12)
            } else {
                seq![]
            }) + (if e.desc_block_edits.contains_key(line) {
                block_ops(orig, f.src.desc_blocks.public, e.desc_block_edits[line], at, indent)
            } else {
                seq![]
            }) + (if e.field_intr_desc_block_edits.contains_key(line) {
                intr_ops(orig, f.src.desc_blocks, e.field_intr_desc_block_edits[line], at, indent)
            } else {
                seq![]
            })
        } else {
            seq![]
        },
        None => seq![],
    }
}

/// The lines of the properties of a field, up to the `n`-th property.
pub open spec fn field_prop_lines(f: FieldDefView, indent: Seq<char>, n: int) -> Seq<Seq<char>>
    decreases n,
{
    if n <= 0 {
        seq![]
    } else {
        let before = field_prop_lines(f, indent, n - 1);
        match field_line(f, FieldProp::at_index(n - 1)) {
            Some(t) => before.push(indent + t),
            None => before,
        }
    }
}

/// The lines of a whole field.
pub open spec fn field_lines(rif: RifDefView, f: FieldDefView, indent: Seq<char>) -> Seq<Seq<char>> {
    let inner = indent + "  "@;
    seq![indent + field_decl(f)] + field_prop_lines(f, inner, 12) + block_lines(
        desc_block(f.description),
        inner,
    ) + field_entries(rif, f, inner + "  "@)
}

/// The lines of a field that is not in the file yet.
pub open spec fn new_field_lines(rif: RifDefView, indent: Seq<char>) -> spec_fn(FieldDefView) -> Seq<
    Seq<char>,
> {
    |f: FieldDefView|
        if f.src.decl_line is None {
            field_lines(rif, f, indent)
        } else {
            seq![]
        }
}

/// The last declaration line among the first `n` fields.
pub open spec fn last_field_line(fields: Seq<FieldDefView>, n: int) -> Option<usize>
    decreases n,
{
    if n <= 0 {
        None
    } else {
        later(last_field_line(fields, n - 1), fields[n - 1].src.decl_line)
    }
}

/// The later of two lines.
pub open spec fn later(a: Option<usize>, b: Option<usize>) -> Option<usize> {
    match (a, b) {
        (Some(x), Some(y)) => if x >= y {
            a
        } else {
            b
        },
        (None, _) => b,
        (_, None) => a,
    }
}

/// Where a new item goes behind the one declared at `last`, and its indentation.
pub open spec fn end_of(orig: Seq<Seq<char>>, last: Option<usize>) -> Option<(int, Seq<char>)> {
    match last {
        Some(line) => if in_file(line, orig.len()) {
            Some((block_end(orig, line), indent_at(orig, line)))
        } else {
            None
        },
        None => None,
    }
}

/// The fields of a register that are not in the file yet go behind its last field.
pub open spec fn new_field_ops(orig: Seq<Seq<char>>, rif: RifDefView, d: RegisterDefView) -> Seq<OpView> {
    match end_of(orig, last_field_line(d.fields, d.fields.len() as int)) {
        Some((at, indent)) => {
            let ls = lines_of(d.fields, new_field_lines(rif, indent), d.fields.len() as int);
            if ls.len() > 0 {
                seq![OpView::Insert(at, ls)]
            } else {
                seq![]
            }
        },
        None => seq![],
    }
}

/// Where a new line of a register property goes. A secondary interrupt stands behind the primary
/// one.
pub open spec fn reg_prop_place(d: RegisterDefView, i: int, line: usize) -> usize {
    if i == RegProp::InterruptAlt.index() {
        match d.src.prop_lines[RegProp::Interrupt.index()] {
            Some(l) => l,
            None => line,
        }
    } else {
        line
    }
}

/// What the edits of the properties of a register do, up to the `n`-th property.
pub open spec fn reg_prop_ops(
    orig: Seq<Seq<char>>,
    d: RegisterDefView,
    edits: Seq<LineEditView>,
    line: usize,
    n: int,
) -> Seq<OpView>
    decreases n,
{
    if n <= 0 {
        seq![]
    } else {
        reg_prop_ops(orig, d, edits, line, n - 1) + line_ops(
            orig,
            d.src.prop_lines[n - 1],
            edits[n - 1],
            reg_prop_place(d, n - 1, line) as int,
            indent_below(orig, line),
        )
    }
}

/// What the edits of a register do, where its declaration is in the file.
pub open spec fn reg_own_ops(orig: Seq<Seq<char>>, e: PendingEditsView, d: RegisterDefView) -> Seq<OpView> {
    match d.src.decl_line {
        Some(line) => if in_file(line, orig.len()) {
            let indent = indent_below(orig, line);
            (if e.reg_dirty.contains(line) {
                seq![OpView::Replace(line - 1, indent_at(orig, line) + reg_decl(d))]
            } else {
                seq![]
            }) + (if e.reg_prop_edits.contains_key(line) {
                reg_prop_ops(orig, d, e.reg_prop_edits[line], line, 10)
            } else {
                seq![]
            }) + (if e.reg_desc_block_edits.contains_key(line) {
                block_ops(
                    orig,
                    d.src.desc_blocks.public,
                    e.reg_desc_block_edits[line],
                    line as int,
                    indent,
                )
            } else {
                seq![]
            }) + (if e.reg_intr_desc_block_edits.contains_key(line) {
                intr_ops(
                    orig,
                    d.src.desc_blocks,
                    e.reg_intr_desc_block_edits[line],
                    line as int,
                    indent,
                )
            } else {
                seq![]
            })
        } else {
            seq![]
        },
        None => seq![],
    }
}

pub open spec fn each_field(orig: Seq<Seq<char>>, rif: RifDefView, e: PendingEditsView) -> spec_fn(
    FieldDefView,
) -> Seq<OpView> {
    |f: FieldDefView| field_ops(orig, rif, e, f)
}

/// What is done to the lines of a register and its fields.
pub open spec fn reg_ops(orig: Seq<Seq<char>>, rif: RifDefView, e: PendingEditsView, d: RegisterDefView) -> Seq<
    OpView,
> {
    reg_own_ops(orig, e, d) + ops_of(d.fields, each_field(orig, rif, e), d.fields.len() as int)
        + new_field_ops(orig, rif, d)
}

pub open spec fn each_item(orig: Seq<Seq<char>>, rif: RifDefView, e: PendingEditsView) -> spec_fn(
    RegItemView,
) -> Seq<OpView> {
    |i: RegItemView|
        match i {
            RegItemView::Def(d) => reg_ops(orig, rif, e, d),
            _ => seq![],
        }
}

pub open spec fn each_page_regs(orig: Seq<Seq<char>>, rif: RifDefView, e: PendingEditsView) -> spec_fn(
    PageView,
) -> Seq<OpView> {
    |p: PageView| ops_of(p.registers, each_item(orig, rif, e), p.registers.len() as int)
}

/// What is done to the lines of all registers.
pub open spec fn all_reg_ops(orig: Seq<Seq<char>>, rif: RifDefView, e: PendingEditsView) -> Seq<OpView> {
    ops_of(rif.pages, each_page_regs(orig, rif, e), rif.pages.len() as int)
}

/// The entries of an enum that is not in the file yet.
pub fn new_enum_entry_lines(indent: &str, name: &String, enum_defs: &Vec<EnumType>) -> (r: Vec<String>)
    ensures
        r.deep_view() == entry_lines(enum_defs.deep_view(), name@, indent@),
{
    let ghost defs = enum_defs.deep_view();
    let mut r: Vec<String> = Vec::new();
    if let Some(k) = find_enum(enum_defs, name) {
        proof {
            assert(defs[k as int] == enum_defs@[k as int]@);
        }
        if enum_defs[k].decl_line.is_none() {
            let n: usize = enum_defs[k].values.len();
            let ghost values = defs[k as int].values;
            let mut i: usize = 0;
            while i < n
                invariant
                    k < enum_defs@.len(),
                    i <= n == enum_defs@[k as int].values@.len(),
                    values == enum_defs@[k as int]@.values,
                    r@.len() == i,
                    forall|j: int| 0 <= j < i ==> (#[trigger] r@[j])@ == indent@ + enum_line(values[j]),
                decreases n - i,
            {
                proof {
                    assert(values[i as int] == enum_defs@[k as int].values@[i as int]@);
                }
                r.push(join(indent, show_enum_line(&enum_defs[k].values[i]).as_str()));
                i += 1;
            }
        }
    }
    proof {
        assert(r.deep_view() =~= entry_lines(defs, name@, indent@));
    }
    r
}

fn show_entries(rif: &RifDef, f: &FieldDef, indent: &str) -> (r: Vec<String>)
    ensures
        r.deep_view() == field_entries(rif@, f@, indent@),
{
    match &f.enum_kind {
        EnumRef::Plain => {
            let r: Vec<String> = Vec::new();
            proof {
                assert(r.deep_view() =~= Seq::<Seq<char>>::empty());
            }
            r
        },
        EnumRef::Doc(n) => new_enum_entry_lines(indent, n, &rif.enum_defs),
        EnumRef::Type(n) => new_enum_entry_lines(indent, n, &rif.enum_defs),
    }
}

fn add_enum_line_ops(
    ops: &mut Vec<Op>,
    orig: &Vec<String>,
    rif: &RifDef,
    f: &FieldDef,
    existing: Option<usize>,
    e: &LineEdit,
    at: usize,
    indent: &str,
)
    ensures
        final(ops).deep_view() == old(ops).deep_view() + enum_line_ops(
            orig.deep_view(),
            rif@,
            f@,
            existing,
            e@,
            at as int,
            indent@,
        ),
{
    let ghost before = ops.deep_view();
    match (existing, e) {
        (Some(line), LineEdit::Write(_)) => {
            if is_in_file(line, orig.len()) {
                add_line_ops(ops, orig, existing, e, at, indent);
                let ghost mid = line_ops(orig.deep_view(), existing, e@, at as int, indent@);
                let entries = show_entries(rif, f, indent_under(orig, line).as_str());
                let ghost op = OpView::Insert(line as int, entries.deep_view());
                insert_lines(ops, line, entries);
                proof {
                    assert(before + mid + seq![op] =~= before + (mid + seq![op]));
                }
            } else {
                proof {
                    assert(before =~= before + Seq::<OpView>::empty());
                }
            }
        },
        (None, LineEdit::Write(t)) => {
            let mut ls: Vec<String> = Vec::new();
            ls.push(join(indent, t.as_str()));
            proof {
                assert(ls.deep_view() =~= seq![indent@ + t@]);
            }
            extend_lines(&mut ls, show_entries(rif, f, join(indent, "  ").as_str()));
            insert_lines(ops, at, ls);
        },
        _ => {
            add_line_ops(ops, orig, existing, e, at, indent);
        },
    }
}

fn plan_field_props(
    orig: &Vec<String>,
    rif: &RifDef,
    f: &FieldDef,
    edits: &Vec<LineEdit>,
    line: usize,
    at: usize,
    indent: &str,
) -> (r: Vec<Op>)
    requires
        edits@.len() == 12,
        at == block_end(orig.deep_view(), line),
        indent@ == indent_below(orig.deep_view(), line),
    ensures
        r.deep_view() == field_prop_ops(orig.deep_view(), rif@, f@, edits.deep_view(), line, 12),
{
    let ghost es = edits.deep_view();
    let mut r = no_ops();
    let mut i: usize = 0;
    while i < 12
        invariant
            i <= 12,
            edits@.len() == 12,
            es == edits.deep_view(),
            at == block_end(orig.deep_view(), line),
            indent@ == indent_below(orig.deep_view(), line),
            r.deep_view() == field_prop_ops(orig.deep_view(), rif@, f@, es, line, i as int),
        decreases 12 - i,
    {
        proof {
            assert(es[i as int] == edits@[i as int]@);
        }
        if i == FieldProp::EnumKind.rank() {
            add_enum_line_ops(&mut r, orig, rif, f, f.src.prop_lines[i], &edits[i], at, indent);
        } else {
            add_line_ops(&mut r, orig, f.src.prop_lines[i], &edits[i], at, indent);
        }
        i += 1;
    }
    r
}

fn add_derived_ops(
    ops: &mut Vec<Op>,
    orig: &Vec<String>,
    existing: Option<(usize, usize)>,
    e: &Option<BlockEdit>,
    at: usize,
    indent: &str,
)
    ensures
        final(ops).deep_view() == old(ops).deep_view() + derived_ops(
            orig.deep_view(),
            existing,
            e.deep_view(),
            at as int,
            indent@,
        ),
{
    match e {
        Some(b) => {
            reconcile_desc_block(ops, orig, existing, b, at, indent);
        },
        None => {
            proof {
                assert(ops.deep_view() =~= ops.deep_view() + Seq::<OpView>::empty());
            }
        },
    }
}

fn plan_intr(orig: &Vec<String>, blocks: &DescBlocks, edits: &Vec<Option<BlockEdit>>, at: usize, indent: &str) -> (r:
    Vec<Op>)
    requires
        edits@.len() == 3,
    ensures
        r.deep_view() == intr_ops(orig.deep_view(), *blocks, edits.deep_view(), at as int, indent@),
{
    proof {
        assert forall|k: int| 0 <= k < 3 implies #[trigger] edits.deep_view()[k] == edits@[k].deep_view() by {}
    }
    let mut r = no_ops();
    add_derived_ops(&mut r, orig, blocks.intr_enable, &edits[0], at, indent);
    proof {
        let first_ops = derived_ops(
            orig.deep_view(),
            blocks.intr_enable,
            edits.deep_view()[0],
            at as int,
            indent@,
        );
        assert(r.deep_view() =~= first_ops);
    }
    add_derived_ops(&mut r, orig, blocks.intr_mask, &edits[1], at, indent);
    add_derived_ops(&mut r, orig, blocks.intr_pending, &edits[2], at, indent);
    r
}

/// Plans the changes to the lines of a field.
pub fn plan_field(orig: &Vec<String>, rif: &RifDef, e: &PendingEdits, f: &FieldDef) -> (r: Vec<Op>)
    requires
        e@.wf(),
    ensures
        r.deep_view() == field_ops(orig.deep_view(), rif@, e@, f@),
{
    let mut r = no_ops();
    let line: usize = match f.src.decl_line {
        Some(l) => l,
        None => {
            return r;
        },
    };
    let n: usize = orig.len();
    if !is_in_file(line, n) {
        return r;
    }
    let indent = indent_under(orig, line);
    let last: usize = field_block_last_idx(orig, line - 1);
    let at: usize = last + 1;
    if e.dirty.contains(&line) {
        let text = join(indent_of(orig, line).as_str(), show_field_decl(f).as_str());
        push_op(&mut r, Op::Replace(line - 1, text));
    }
    let ghost decl: Seq<OpView> = if e@.dirty.contains(line) {
        seq![OpView::Replace(line - 1, indent_at(orig.deep_view(), line) + field_decl(f@))]
    } else {
        seq![]
    };
    proof {
        assert(r.deep_view() =~= decl);
    }
    let props = match lines_at(&e.prop_edits, line) {
        Some(edits) => plan_field_props(orig, rif, f, edits, line, at, indent.as_str()),
        None => no_ops(),
    };
    extend_ops(&mut r, props);
    let mut desc = no_ops();
    if let Some(b) = block_at(&e.desc_block_edits, line) {
        reconcile_desc_block(&mut desc, orig, f.src.desc_blocks.public, b, at, indent.as_str());
        proof {
            let want = block_ops(
                orig.deep_view(),
                f@.src.desc_blocks.public,
                e@.desc_block_edits[line],
                at as int,
                indent@,
            );
            assert(desc.deep_view() =~= want);
        }
    }
    extend_ops(&mut r, desc);
    let derived = match intr_at(&e.field_intr_desc_block_edits, line) {
        Some(edits) => plan_intr(orig, &f.src.desc_blocks, edits, at, indent.as_str()),
        None => no_ops(),
    };
    extend_ops(&mut r, derived);
    r
}

/// Appends the lines of a description block, where there is one.
pub fn add_block_lines(ls: &mut Vec<String>, block: Option<Vec<String>>, indent: &str)
    ensures
        final(ls).deep_view() == old(ls).deep_view() + block_lines(block.deep_view(), indent@),
{
    match block {
        Some(b) => {
            extend_lines(ls, indent_lines(&b, indent));
        },
        None => {
            proof {
                assert(ls.deep_view() =~= ls.deep_view() + Seq::<Seq<char>>::empty());
            }
        },
    }
}

fn show_field_props(f: &FieldDef, indent: &str) -> (r: Vec<String>)
    ensures
        r.deep_view() == field_prop_lines(f@, indent@, 12),
{
    let mut r: Vec<String> = Vec::new();
    proof {
        assert(r.deep_view() =~= Seq::<Seq<char>>::empty());
    }
    let mut i: usize = 0;
    while i < 12
        invariant
            i <= 12,
            r.deep_view() == field_prop_lines(f@, indent@, i as int),
        decreases 12 - i,
    {
        if let Some(t) = show_field_line(f, FieldProp::at(i)) {
            push_line(&mut r, join(indent, t.as_str()));
        }
        i += 1;
    }
    r
}

/// The lines of a whole field.
pub fn show_field_lines(rif: &RifDef, f: &FieldDef, indent: &str) -> (r: Vec<String>)
    ensures
        r.deep_view() == field_lines(rif@, f@, indent@),
{
    let inner = join(indent, "  ");
    let mut r: Vec<String> = Vec::new();
    r.push(join(indent, show_field_decl(f).as_str()));
    proof {
        assert(r.deep_view() =~= seq![indent@ + field_decl(f@)]);
    }
    extend_lines(&mut r, show_field_props(f, inner.as_str()));
    add_block_lines(&mut r, show_desc_block(&f.description), inner.as_str());
    extend_lines(&mut r, show_entries(rif, f, join(inner.as_str(), "  ").as_str()));
    r
}

/// The later of two lines.
pub fn later_line(a: Option<usize>, b: Option<usize>) -> (r: Option<usize>)
    ensures
        r == later(a, b),
{
    match (a, b) {
        (Some(x), Some(y)) => if x >= y {
            a
        } else {
            b
        },
        (None, _) => b,
        (_, None) => a,
    }
}

/// Where a new item goes behind the one declared at `last`, and its indentation.
pub fn find_end(orig: &Vec<String>, last: Option<usize>) -> (r: Option<(usize, String)>)
    ensures
        match end_of(orig.deep_view(), last) {
            Some((at, indent)) => r is Some && (r->0).0 == at && (r->0).1@ == indent,
            None => r is None,
        },
{
    let n: usize = orig.len();
    match last {
        Some(line) => {
            if is_in_file(line, n) {
                let last: usize = field_block_last_idx(orig, line - 1);
                Some((last + 1, indent_of(orig, line)))
            } else {
                None
            }
        },
        None => None,
    }
}

/// Where new fields of a register go, and their indentation.
pub fn field_block_end(orig: &Vec<String>, d: &RegisterDef) -> (r: Option<(usize, String)>)
    ensures
        match end_of(orig.deep_view(), last_field_line(d@.fields, d@.fields.len() as int)) {
            Some((at, indent)) => r is Some && (r->0).0 == at && (r->0).1@ == indent,
            None => r is None,
        },
{
    let ghost fields = d@.fields;
    let mut last: Option<usize> = None;
    let mut i: usize = 0;
    while i < d.fields.len()
        invariant
            i <= d.fields@.len(),
            fields == d@.fields,
            last == last_field_line(fields, i as int),
        decreases d.fields@.len() - i,
    {
        proof {
            assert(fields[i as int] == d.fields@[i as int]@);
        }
        last = later_line(last, d.fields[i].src.decl_line);
        i += 1;
    }
    find_end(orig, last)
}

fn plan_new_fields(orig: &Vec<String>, rif: &RifDef, d: &RegisterDef) -> (r: Vec<Op>)
    ensures
        r.deep_view() == new_field_ops(orig.deep_view(), rif@, d@),
{
    let mut r = no_ops();
    if let Some((at, indent)) = field_block_end(orig, d) {
        let ghost f = new_field_lines(rif@, indent@);
        let ghost fields = d@.fields;
        let mut ls: Vec<String> = Vec::new();
        proof {
            assert(ls.deep_view() =~= Seq::<Seq<char>>::empty());
        }
        let mut i: usize = 0;
        while i < d.fields.len()
            invariant
                i <= d.fields@.len(),
                fields == d@.fields,
                f == new_field_lines(rif@, indent@),
                ls.deep_view() == lines_of(fields, f, i as int),
            decreases d.fields@.len() - i,
        {
            let ghost sofar = ls.deep_view();
            proof {
                assert(fields[i as int] == d.fields@[i as int]@);
            }
            if d.fields[i].src.decl_line.is_none() {
                extend_lines(&mut ls, show_field_lines(rif, &d.fields[i], indent.as_str()));
            } else {
                proof {
                    assert(sofar =~= sofar + Seq::<Seq<char>>::empty());
                }
            }
            i += 1;
        }
        if ls.len() > 0 {
            insert_lines(&mut r, at, ls);
        }
        proof {
            assert(r.deep_view() =~= new_field_ops(orig.deep_view(), rif@, d@));
        }
    }
    r
}

fn plan_reg_props(orig: &Vec<String>, d: &RegisterDef, edits: &Vec<LineEdit>, line: usize, indent: &str) -> (r: Vec<
    Op,
>)
    requires
        edits@.len() == 10,
        indent@ == indent_below(orig.deep_view(), line),
    ensures
        r.deep_view() == reg_prop_ops(orig.deep_view(), d@, edits.deep_view(), line, 10),
{
    let ghost es = edits.deep_view();
    let mut r = no_ops();
    let mut i: usize = 0;
    while i < 10
        invariant
            i <= 10,
            edits@.len() == 10,
            es == edits.deep_view(),
            indent@ == indent_below(orig.deep_view(), line),
            r.deep_view() == reg_prop_ops(orig.deep_view(), d@, es, line, i as int),
        decreases 10 - i,
    {
        proof {
            assert(es[i as int] == edits@[i as int]@);
        }
        let mut at: usize = line;
        if i == RegProp::InterruptAlt.rank() {
            if let Some(l) = d.src.prop_lines[RegProp::Interrupt.rank()] {
                at = l;
            }
        }
        add_line_ops(&mut r, orig, d.src.prop_lines[i], &edits[i], at, indent);
        i += 1;
    }
    r
}

fn plan_reg_own(orig: &Vec<String>, e: &PendingEdits, d: &RegisterDef) -> (r: Vec<Op>)
    requires
        e@.wf(),
    ensures
        r.deep_view() == reg_own_ops(orig.deep_view(), e@, d@),
{
    let mut r = no_ops();
    let line: usize = match d.src.decl_line {
        Some(l) => l,
        None => {
            return r;
        },
    };
    if !is_in_file(line, orig.len()) {
        return r;
    }
    let indent = indent_under(orig, line);
    if e.reg_dirty.contains(&line) {
        let text = join(indent_of(orig, line).as_str(), show_reg_decl(d).as_str());
        push_op(&mut r, Op::Replace(line - 1, text));
    }
    let ghost decl: Seq<OpView> = if e@.reg_dirty.contains(line) {
        seq![OpView::Replace(line - 1, indent_at(orig.deep_view(), line) + reg_decl(d@))]
    } else {
        seq![]
    };
    proof {
        assert(r.deep_view() =~= decl);
    }
    let props = match lines_at(&e.reg_prop_edits, line) {
        Some(edits) => plan_reg_props(orig, d, edits, line, indent.as_str()),
        None => no_ops(),
    };
    extend_ops(&mut r, props);
    let mut desc = no_ops();
    if let Some(b) = block_at(&e.reg_desc_block_edits, line) {
        reconcile_desc_block(&mut desc, orig, d.src.desc_blocks.public, b, line, indent.as_str());
        proof {
            let want = block_ops(
                orig.deep_view(),
                d@.src.desc_blocks.public,
                e@.reg_desc_block_edits[line],
                line as int,
                indent@,
            );
            assert(desc.deep_view() =~= want);
        }
    }
    extend_ops(&mut r, desc);
    let derived = match intr_at(&e.reg_intr_desc_block_edits, line) {
        Some(edits) => plan_intr(orig, &d.src.desc_blocks, edits, line, indent.as_str()),
        None => no_ops(),
    };
    extend_ops(&mut r, derived);
    r
}

/// Plans the changes to the lines of a register and its fields.
pub fn plan_reg(orig: &Vec<String>, rif: &RifDef, e: &PendingEdits, d: &RegisterDef) -> (r: Vec<Op>)
    requires
        e@.wf(),
    ensures
        r.deep_view() == reg_ops(orig.deep_view(), rif@, e@, d@),
{
    let ghost f = each_field(orig.deep_view(), rif@, e@);
    let ghost fields = d@.fields;
    let mut r = plan_reg_own(orig, e, d);
    let mut own = no_ops();
    let mut i: usize = 0;
    while i < d.fields.len()
        invariant
            i <= d.fields@.len(),
            e@.wf(),
            fields == d@.fields,
            f == each_field(orig.deep_view(), rif@, e@),
            own.deep_view() == ops_of(fields, f, i as int),
        decreases d.fields@.len() - i,
    {
        proof {
            assert(fields[i as int] == d.fields@[i as int]@);
        }
        extend_ops(&mut own, plan_field(orig, rif, e, &d.fields[i]));
        i += 1;
    }
    extend_ops(&mut r, own);
    extend_ops(&mut r, plan_new_fields(orig, rif, d));
    r
}

fn plan_page_regs(orig: &Vec<String>, rif: &RifDef, e: &PendingEdits, p: &Page) -> (r: Vec<Op>)
    requires
        e@.wf(),
    ensures
        r.deep_view() == ops_of(
            p@.registers,
            each_item(orig.deep_view(), rif@, e@),
            p@.registers.len() as int,
        ),
{
    let ghost f = each_item(orig.deep_view(), rif@, e@);
    let ghost items = p@.registers;
    let mut r = no_ops();
    let mut i: usize = 0;
    while i < p.registers.len()
        invariant
            i <= p.registers@.len(),
            e@.wf(),
            items == p@.registers,
            f == each_item(orig.deep_view(), rif@, e@),
            r.deep_view() == ops_of(items, f, i as int),
        decreases p.registers@.len() - i,
    {
        let ghost sofar = r.deep_view();
        proof {
            assert(items[i as int] == p.registers@[i as int]@);
        }
        match &p.registers[i] {
            RegItem::Def(d) => {
                extend_ops(&mut r, plan_reg(orig, rif, e, d));
            },
            _ => {
                proof {
                    assert(sofar =~= sofar + Seq::<OpView>::empty());
                }
            },
        }
        i += 1;
    }
    r
}

/// Plans the changes to the lines of all registers.
pub fn plan_regs(orig: &Vec<String>, rif: &RifDef, e: &PendingEdits) -> (r: Vec<Op>)
    requires
        e@.wf(),
    ensures
        r.deep_view() == all_reg_ops(orig.deep_view(), rif@, e@),
{
    let ghost f = each_page_regs(orig.deep_view(), rif@, e@);
    let ghost pages = rif@.pages;
    let mut r = no_ops();
    let mut i: usize = 0;
    while i < rif.pages.len()
        invariant
            i <= rif.pages@.len(),
            e@.wf(),
            pages == rif@.pages,
            f == each_page_regs(orig.deep_view(), rif@, e@),
            r.deep_view() == ops_of(pages, f, i as int),
        decreases rif.pages@.len() - i,
    {
        proof {
            assert(pages[i as int] == rif.pages@[i as int]@);
        }
        extend_ops(&mut r, plan_page_regs(orig, rif, e, &rif.pages[i]));
        i += 1;
    }
    r
}

} // verus!
