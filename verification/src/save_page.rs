//! Changes to the lines of instances, of new registers, and of enums.
use vstd::prelude::*;
use crate::bridge::{reg_decl, show_reg_decl};
use crate::edits::{
    block_at, lines_at, ovrs_at, FieldOvrEdit, FieldOvrEditView, LineEdit, LineEditView, PendingEdits,
    PendingEditsView,
};
use crate::lines::{extend_lines, push_line};
use crate::model::page::{
    FieldOvr, FieldOvrSrc, FieldOvrSrcView, FieldOvrView, Instance, InstanceView, OvrSrc, OvrSrcView, Page,
    PageView, RegOvr, RegOvrView,
};
use crate::model::props::{FieldOverrideProp, RegOverrideProp, RegProp};
use crate::model::register::{FieldDefView, RegItem, RegItemView, RegisterDef, RegisterDefView};
use crate::model::rif::{EnumItem, EnumItemView, EnumType, EnumTypeView, RifDef, RifDefView};
use crate::plan::{
    add_line_ops, block_ops, extend_ops, in_file, indent_at, indent_below, indent_of, indent_under,
    insert_lines, is_in_file, line_ops, lines_of, no_ops, ops_of, push_op, reconcile_desc_block, Op, OpView,
};
use crate::printed::{reg_line, show_reg_line};
use crate::save_reg::{
    add_block_lines, block_lines, end_of, field_lines, find_end, later, later_line, show_field_lines,
};
use crate::search::{first, lemma_is_first, lemma_no_first};
use crate::source::{field_named, find_field, find_regdef, get_reg, locate_reg, reg_at};
use crate::syntax::{
    desc_block, enum_line, field_ovr_line, inst_decl, override_desc_block, reg_ovr_line, show_desc_block,
    show_enum_line, show_field_ovr_line, show_inst_decl, show_override_desc_block, show_reg_ovr_line,
};
use crate::text::join;

verus! {

/// What the edits of overridden register properties do, up to the `n`-th property.
pub open spec fn ovr_prop_ops(
    orig: Seq<Seq<char>>,
    o: OvrSrcView,
    edits: Seq<LineEditView>,
    line: usize,
    n: int,
) -> Seq<OpView>
    decreases n,
{
    if n <= 0 {
        seq![]
    } else {
        ovr_prop_ops(orig, o, edits, line, n - 1) + line_ops(
            orig,
            o.prop_lines[n - 1],
            edits[n - 1],
            line as int,
            indent_below(orig, line),
        )
    }
}

/// Whether lines are those of a field.
pub open spec fn src_named(field: Seq<char>) -> spec_fn(FieldOvrSrcView) -> bool {
    |x: FieldOvrSrcView| x.field == field
}

/// The line of an overridden field property.
pub open spec fn ovr_line(o: OvrSrcView, field: Seq<char>, p: FieldOverrideProp) -> Option<usize> {
    match first(o.fields, src_named(field)) {
        Some(k) => o.fields[k].prop_lines[p.index()],
        None => None,
    }
}

/// What the edits of what is overridden for one field do.
pub open spec fn each_field_ovr(orig: Seq<Seq<char>>, o: OvrSrcView, line: usize) -> spec_fn(
    FieldOvrEditView,
) -> Seq<OpView> {
    |x: FieldOvrEditView|
        line_ops(
            orig,
            ovr_line(o, x.field, FieldOverrideProp::Description),
            x.desc,
            line as int,
            indent_below(orig, line),
        ) + line_ops(
            orig,
            ovr_line(o, x.field, FieldOverrideProp::Reset),
            x.reset,
            line as int,
            indent_below(orig, line),
        )
}

/// What the edits of overrides do.
pub open spec fn ovr_ops(orig: Seq<Seq<char>>, e: PendingEditsView, o: OvrSrcView, line: usize) -> Seq<OpView> {
    (if e.reg_override_edits.contains_key(line) {
        ovr_prop_ops(orig, o, e.reg_override_edits[line], line, 4)
    } else {
        seq![]
    }) + (if e.reg_override_desc_block_edits.contains_key(line) {
        block_ops(
            orig,
            o.desc_block,
            e.reg_override_desc_block_edits[line],
            line as int,
            indent_below(orig, line),
        )
    } else {
        seq![]
    }) + (if e.field_override_edits.contains_key(line) {
        let edits = e.field_override_edits[line];
        ops_of(edits, each_field_ovr(orig, o, line), edits.len() as int)
    } else {
        seq![]
    })
}

/// What the edits of an instance do, where its declaration is in the file.
pub open spec fn inst_ops(orig: Seq<Seq<char>>, e: PendingEditsView, i: InstanceView) -> Seq<OpView> {
    match i.decl_line {
        Some(line) => if in_file(line, orig.len()) {
            (if e.reg_inst_dirty.contains(line) {
                seq![OpView::Replace(line - 1, indent_at(orig, line) + inst_decl(i))]
            } else {
                seq![]
            }) + ovr_ops(orig, e, i.ovr_src, line)
        } else {
            seq![]
        },
        None => seq![],
    }
}

pub open spec fn each_inst(orig: Seq<Seq<char>>, e: PendingEditsView) -> spec_fn(InstanceView) -> Seq<OpView> {
    |i: InstanceView| inst_ops(orig, e, i)
}

/// The lines of the properties of a register, up to the `n`-th property.
pub open spec fn reg_prop_lines(d: RegisterDefView, indent: Seq<char>, n: int) -> Seq<Seq<char>>
    decreases n,
{
    if n <= 0 {
        seq![]
    } else {
        let before = reg_prop_lines(d, indent, n - 1);
        match reg_line(d, RegProp::at_index(n - 1)) {
            Some(t) => before.push(indent + t),
            None => before,
        }
    }
}

pub open spec fn each_field_lines(rif: RifDefView, indent: Seq<char>) -> spec_fn(FieldDefView) -> Seq<Seq<char>> {
    |f: FieldDefView| field_lines(rif, f, indent)
}

/// The lines of a whole register.
pub open spec fn whole_reg(rif: RifDefView, d: RegisterDefView, indent: Seq<char>) -> Seq<Seq<char>> {
    let inner = indent + "  "@;
    seq![indent + reg_decl(d)] + reg_prop_lines(d, inner, 10) + block_lines(
        desc_block(d.description),
        inner,
    ) + lines_of(d.fields, each_field_lines(rif, inner), d.fields.len() as int)
}

/// The lines of a register that is not in the file yet.
pub open spec fn new_reg_lines(rif: RifDefView, indent: Seq<char>) -> spec_fn(RegItemView) -> Seq<Seq<char>> {
    |i: RegItemView|
        match i {
            RegItemView::Def(d) => if d.src.decl_line is None {
                whole_reg(rif, d, indent)
            } else {
                seq![]
            },
            _ => seq![],
        }
}

/// The last declaration line among the first `n` registers.
pub open spec fn last_reg_line(items: Seq<RegItemView>, n: int) -> Option<usize>
    decreases n,
{
    if n <= 0 {
        None
    } else {
        match items[n - 1] {
            RegItemView::Def(d) => later(last_reg_line(items, n - 1), d.src.decl_line),
            _ => last_reg_line(items, n - 1),
        }
    }
}

/// The registers of a page that are not in the file yet go behind its last register.
pub open spec fn new_reg_ops(orig: Seq<Seq<char>>, rif: RifDefView, p: PageView) -> Seq<OpView> {
    match end_of(orig, last_reg_line(p.registers, p.registers.len() as int)) {
        Some((at, indent)) => {
            let ls = lines_of(p.registers, new_reg_lines(rif, indent), p.registers.len() as int);
            if ls.len() > 0 {
                seq![OpView::Insert(at, ls)]
            } else {
                seq![]
            }
        },
        None => seq![],
    }
}

/// The lines of overridden register properties, up to the `n`-th property.
pub open spec fn ovr_prop_lines(o: RegOvrView, indent: Seq<char>, n: int) -> Seq<Seq<char>>
    decreases n,
{
    if n <= 0 {
        seq![]
    } else {
        let before = ovr_prop_lines(o, indent, n - 1);
        match reg_ovr_line(o, RegOverrideProp::at_index(n - 1)) {
            Some(t) => before.push(indent + t),
            None => before,
        }
    }
}

/// A line, where there is one.
pub open spec fn opt_line(t: Option<Seq<char>>, indent: Seq<char>) -> Seq<Seq<char>> {
    match t {
        Some(x) => seq![indent + x],
        None => seq![],
    }
}

/// The lines of what is overridden for a field of a register. The reset value that the field has
/// by itself decides how a disabled field is written; without one there are no lines.
pub open spec fn each_field_ovr_lines(d: RegisterDefView, indent: Seq<char>) -> spec_fn(FieldOvrView) -> Seq<
    Seq<char>,
> {
    |x: FieldOvrView|
        match first(d.fields, field_named(x.field)) {
            Some(k) => if d.fields[k].reset.len() > 0 {
                let reset = d.fields[k].reset[0];
                opt_line(field_ovr_line(x, FieldOverrideProp::Description, reset), indent) + opt_line(
                    field_ovr_line(x, FieldOverrideProp::Reset, reset),
                    indent,
                )
            } else {
                seq![]
            },
            None => seq![],
        }
}

/// The lines of overrides.
pub open spec fn ovr_lines(rif: RifDefView, o: RegOvrView, reg_type: Seq<char>, indent: Seq<char>) -> Seq<
    Seq<char>,
> {
    ovr_prop_lines(o, indent, 4) + block_lines(override_desc_block(o.description), indent) + match locate_reg(
        rif,
        reg_type,
    ) {
        Some(at) => lines_of(
            o.fields,
            each_field_ovr_lines(reg_at(rif, at), indent),
            o.fields.len() as int,
        ),
        None => seq![],
    }
}

/// The lines of a whole instance.
pub open spec fn whole_inst(rif: RifDefView, i: InstanceView, indent: Seq<char>) -> Seq<Seq<char>> {
    seq![indent + inst_decl(i)] + match i.reg_override {
        Some(o) => ovr_lines(rif, o, i.reg_type, indent + "  "@),
        None => seq![],
    }
}

/// The lines of an instance that is not in the file yet.
pub open spec fn new_inst_lines(rif: RifDefView, indent: Seq<char>) -> spec_fn(InstanceView) -> Seq<Seq<char>> {
    |i: InstanceView|
        if i.decl_line is None {
            whole_inst(rif, i, indent)
        } else {
            seq![]
        }
}

/// A line of the file; otherwise none.
pub open spec fn within(line: Option<usize>, n: nat) -> Option<usize> {
    match line {
        Some(l) => if in_file(l, n) {
            line
        } else {
            None
        },
        None => None,
    }
}

/// The last declaration line, in a file of `len` lines, among the first `n` instances.
pub open spec fn last_inst_line(insts: Seq<InstanceView>, len: nat, n: int) -> Option<usize>
    decreases n,
{
    if n <= 0 {
        None
    } else {
        later(last_inst_line(insts, len, n - 1), within(insts[n - 1].decl_line, len))
    }
}

/// Where a new entry goes behind the last one, or else behind the header, and its indentation.
pub open spec fn entry_place(orig: Seq<Seq<char>>, last: Option<usize>, header: usize) -> (usize, Seq<char>) {
    match last {
        Some(l) => (l, indent_at(orig, l)),
        None => (header, indent_below(orig, header)),
    }
}

/// The header of the instances of a page.
pub open spec fn instances_header(orig: Seq<Seq<char>>, header: usize) -> Seq<char> {
    indent_at(orig, header) + "instances:"@
}

/// The instances of a page that are not in the file yet go behind its last instance, below a
/// header that says that addresses are explicit.
pub open spec fn new_inst_ops(orig: Seq<Seq<char>>, rif: RifDefView, p: PageView) -> Seq<OpView> {
    match within(p.instances_line, orig.len()) {
        Some(header) => {
            let n = p.instances.len() as int;
            let (at, indent) = entry_place(orig, last_inst_line(p.instances, orig.len(), n), header);
            let ls = lines_of(p.instances, new_inst_lines(rif, indent), n);
            if ls.len() > 0 {
                (if orig[header - 1] != instances_header(orig, header) {
                    seq![OpView::Replace(header - 1, instances_header(orig, header))]
                } else {
                    seq![]
                }) + seq![OpView::Insert(at as int, ls)]
            } else {
                seq![]
            }
        },
        None => seq![],
    }
}

/// What is done to the lines of a page.
pub open spec fn page_ops(orig: Seq<Seq<char>>, rif: RifDefView, e: PendingEditsView, p: PageView) -> Seq<
    OpView,
> {
    ops_of(p.instances, each_inst(orig, e), p.instances.len() as int) + new_reg_ops(orig, rif, p)
        + new_inst_ops(orig, rif, p)
}

pub open spec fn each_page(orig: Seq<Seq<char>>, rif: RifDefView, e: PendingEditsView) -> spec_fn(PageView) -> Seq<
    OpView,
> {
    |p: PageView| page_ops(orig, rif, e, p)
}

/// What is done to the lines of all pages.
pub open spec fn all_page_ops(orig: Seq<Seq<char>>, rif: RifDefView, e: PendingEditsView) -> Seq<OpView> {
    ops_of(rif.pages, each_page(orig, rif, e), rif.pages.len() as int)
}

/// The entry of an enum, where it changed.
pub open spec fn each_entry(orig: Seq<Seq<char>>, e: PendingEditsView) -> spec_fn(EnumItemView) -> Seq<OpView> {
    |x: EnumItemView|
        match within(x.decl_line, orig.len()) {
            Some(line) => if e.enum_dirty.contains(line) {
                seq![OpView::Replace(line - 1, indent_at(orig, line) + enum_line(x))]
            } else {
                seq![]
            },
            None => seq![],
        }
}

/// The line of an enum entry that is not in the file yet.
pub open spec fn new_entry_lines(indent: Seq<char>) -> spec_fn(EnumItemView) -> Seq<Seq<char>> {
    |x: EnumItemView|
        if x.decl_line is None {
            seq![indent + enum_line(x)]
        } else {
            seq![]
        }
}

/// The last declaration line, in a file of `len` lines, among the first `n` entries.
pub open spec fn last_entry_line(values: Seq<EnumItemView>, len: nat, n: int) -> Option<usize>
    decreases n,
{
    if n <= 0 {
        None
    } else {
        later(last_entry_line(values, len, n - 1), within(values[n - 1].decl_line, len))
    }
}

/// The entries of an enum of the file that are not in it yet go behind its last entry.
pub open spec fn new_entry_ops(orig: Seq<Seq<char>>, d: EnumTypeView) -> Seq<OpView> {
    match within(d.decl_line, orig.len()) {
        Some(header) => {
            let n = d.values.len() as int;
            let (at, indent) = entry_place(orig, last_entry_line(d.values, orig.len(), n), header);
            let ls = lines_of(d.values, new_entry_lines(indent), n);
            if ls.len() > 0 {
                seq![OpView::Insert(at as int, ls)]
            } else {
                seq![]
            }
        },
        None => seq![],
    }
}

pub open spec fn each_enum(orig: Seq<Seq<char>>, e: PendingEditsView) -> spec_fn(EnumTypeView) -> Seq<OpView> {
    |d: EnumTypeView|
        ops_of(d.values, each_entry(orig, e), d.values.len() as int) + new_entry_ops(orig, d)
}

/// What is done to the lines of all enums.
pub open spec fn all_enum_ops(orig: Seq<Seq<char>>, rif: RifDefView, e: PendingEditsView) -> Seq<OpView> {
    ops_of(rif.enum_defs, each_enum(orig, e), rif.enum_defs.len() as int)
}

fn plan_ovr_props(orig: &Vec<String>, o: &OvrSrc, edits: &Vec<LineEdit>, line: usize, indent: &str) -> (r: Vec<Op>)
    requires
        edits@.len() == 4,
        indent@ == indent_below(orig.deep_view(), line),
    ensures
        r.deep_view() == ovr_prop_ops(orig.deep_view(), o@, edits.deep_view(), line, 4),
{
    let ghost es = edits.deep_view();
    let mut r = no_ops();
    let mut i: usize = 0;
    while i < 4
        invariant
            i <= 4,
            edits@.len() == 4,
            es == edits.deep_view(),
            indent@ == indent_below(orig.deep_view(), line),
            r.deep_view() == ovr_prop_ops(orig.deep_view(), o@, es, line, i as int),
        decreases 4 - i,
    {
        proof {
            assert(es[i as int] == edits@[i as int]@);
        }
        add_line_ops(&mut r, orig, o.prop_lines[i], &edits[i], line, indent);
        i += 1;
    }
    r
}

fn find_field_src(srcs: &Vec<FieldOvrSrc>, field: &String) -> (r: Option<usize>)
    ensures
        match first(srcs.deep_view(), src_named(field@)) {
            Some(k) => r is Some && r->0 == k && k < srcs@.len(),
            None => r is None,
        },
{
    let mut i: usize = 0;
    while i < srcs.len()
        invariant
            i <= srcs@.len(),
            forall|k: int| 0 <= k < i ==> (#[trigger] srcs.deep_view()[k]).field != field@,
        decreases srcs@.len() - i,
    {
        if srcs[i].field == *field {
            proof {
                assert(srcs.deep_view()[i as int].field == field@);
                lemma_is_first(srcs.deep_view(), src_named(field@), i as int);
            }
            return Some(i);
        }
        i += 1;
    }
    proof {
        lemma_no_first(srcs.deep_view(), src_named(field@));
    }
    None
}

fn find_ovr_line(o: &OvrSrc, field: &String, p: FieldOverrideProp) -> (r: Option<usize>)
    ensures
        r == ovr_line(o@, field@, p),
{
    match find_field_src(&o.fields, field) {
        Some(k) => {
            proof {
                assert(o@.fields[k as int] == o.fields@[k as int]@);
            }
            o.fields[k].prop_lines[p.rank()]
        },
        None => None,
    }
}

fn plan_field_ovrs(orig: &Vec<String>, o: &OvrSrc, edits: &Vec<FieldOvrEdit>, line: usize, indent: &str) -> (r: Vec<
    Op,
>)
    requires
        indent@ == indent_below(orig.deep_view(), line),
    ensures
        r.deep_view() == ops_of(
            edits.deep_view(),
            each_field_ovr(orig.deep_view(), o@, line),
            edits@.len() as int,
        ),
{
    let ghost es = edits.deep_view();
    let ghost f = each_field_ovr(orig.deep_view(), o@, line);
    let mut r = no_ops();
    let mut i: usize = 0;
    while i < edits.len()
        invariant
            i <= edits@.len(),
            es == edits.deep_view(),
            f == each_field_ovr(orig.deep_view(), o@, line),
            indent@ == indent_below(orig.deep_view(), line),
            r.deep_view() == ops_of(es, f, i as int),
        decreases edits@.len() - i,
    {
        let ghost sofar = r.deep_view();
        proof {
            assert(es[i as int] == edits@[i as int]@);
        }
        let x = &edits[i];
        let desc_line = find_ovr_line(o, &x.field, FieldOverrideProp::Description);
        let reset_line = find_ovr_line(o, &x.field, FieldOverrideProp::Reset);
        add_line_ops(&mut r, orig, desc_line, &x.desc, line, indent);
        add_line_ops(&mut r, orig, reset_line, &x.reset, line, indent);
        proof {
            assert(r.deep_view() =~= sofar + f(es[i as int]));
        }
        i += 1;
    }
    r
}

fn plan_ovr(orig: &Vec<String>, e: &PendingEdits, o: &OvrSrc, line: usize, indent: &str) -> (r: Vec<Op>)
    requires
        e@.wf(),
        indent@ == indent_below(orig.deep_view(), line),
    ensures
        r.deep_view() == ovr_ops(orig.deep_view(), e@, o@, line),
{
    let mut r = match lines_at(&e.reg_override_edits, line) {
        Some(edits) => plan_ovr_props(orig, o, edits, line, indent),
        None => no_ops(),
    };
    let mut desc = no_ops();
    if let Some(b) = block_at(&e.reg_override_desc_block_edits, line) {
        reconcile_desc_block(&mut desc, orig, o.desc_block, b, line, indent);
        proof {
            let want = block_ops(
                orig.deep_view(),
                o@.desc_block,
                e@.reg_override_desc_block_edits[line],
                line as int,
                indent@,
            );
            assert(desc.deep_view() =~= want);
        }
    }
    extend_ops(&mut r, desc);
    let fields = match ovrs_at(&e.field_override_edits, line) {
        Some(edits) => plan_field_ovrs(orig, o, edits, line, indent),
        None => no_ops(),
    };
    extend_ops(&mut r, fields);
    r
}

/// Plans the changes to the lines of an instance.
pub fn plan_inst(orig: &Vec<String>, e: &PendingEdits, i: &Instance) -> (r: Vec<Op>)
    requires
        e@.wf(),
    ensures
        r.deep_view() == inst_ops(orig.deep_view(), e@, i@),
{
    let mut r = no_ops();
    let line: usize = match i.decl_line {
        Some(l) => l,
        None => {
            return r;
        },
    };
    if !is_in_file(line, orig.len()) {
        return r;
    }
    if e.reg_inst_dirty.contains(&line) {
        let text = join(indent_of(orig, line).as_str(), show_inst_decl(i).as_str());
        push_op(&mut r, Op::Replace(line - 1, text));
    }
    let ghost decl: Seq<OpView> = if e@.reg_inst_dirty.contains(line) {
        seq![OpView::Replace(line - 1, indent_at(orig.deep_view(), line) + inst_decl(i@))]
    } else {
        seq![]
    };
    proof {
        assert(r.deep_view() =~= decl);
    }
    let indent = indent_under(orig, line);
    extend_ops(&mut r, plan_ovr(orig, e, &i.ovr_src, line, indent.as_str()));
    r
}

fn show_reg_props(d: &RegisterDef, indent: &str) -> (r: Vec<String>)
    ensures
        r.deep_view() == reg_prop_lines(d@, indent@, 10),
{
    let mut r: Vec<String> = Vec::new();
    proof {
        assert(r.deep_view() =~= Seq::<Seq<char>>::empty());
    }
    let mut i: usize = 0;
    while i < 10
        invariant
            i <= 10,
            r.deep_view() == reg_prop_lines(d@, indent@, i as int),
        decreases 10 - i,
    {
        if let Some(t) = show_reg_line(d, RegProp::at(i)) {
            push_line(&mut r, join(indent, t.as_str()));
        }
        i += 1;
    }
    r
}

/// The lines of a whole register.
pub fn show_whole_reg(rif: &RifDef, d: &RegisterDef, indent: &str) -> (r: Vec<String>)
    ensures
        r.deep_view() == whole_reg(rif@, d@, indent@),
{
    let inner = join(indent, "  ");
    let mut r: Vec<String> = Vec::new();
    r.push(join(indent, show_reg_decl(d).as_str()));
    proof {
        assert(r.deep_view() =~= seq![indent@ + reg_decl(d@)]);
    }
    extend_lines(&mut r, show_reg_props(d, inner.as_str()));
    add_block_lines(&mut r, show_desc_block(&d.description), inner.as_str());
    let ghost f = each_field_lines(rif@, inner@);
    let ghost fields = d@.fields;
    let mut ls: Vec<String> = Vec::new();
    proof {
        assert(ls.deep_view() =~= Seq::<Seq<char>>::empty());
    }
    let mut i: usize = 0;
    while i < d.fields.len()
        invariant
            i <= d.fields@.len(),
            fields == d@.fields,
            f == each_field_lines(rif@, inner@),
            ls.deep_view() == lines_of(fields, f, i as int),
        decreases d.fields@.len() - i,
    {
        proof {
            assert(fields[i as int] == d.fields@[i as int]@);
        }
        extend_lines(&mut ls, show_field_lines(rif, &d.fields[i], inner.as_str()));
        i += 1;
    }
    extend_lines(&mut r, ls);
    r
}

/// Where new registers of a page go, and their indentation.
pub fn page_registers_block_end(orig: &Vec<String>, p: &Page) -> (r: Option<(usize, String)>)
    ensures
        match end_of(orig.deep_view(), last_reg_line(p@.registers, p@.registers.len() as int)) {
            Some((at, indent)) => r is Some && (r->0).0 == at && (r->0).1@ == indent,
            None => r is None,
        },
{
    let ghost items = p@.registers;
    let mut last: Option<usize> = None;
    let mut i: usize = 0;
    while i < p.registers.len()
        invariant
            i <= p.registers@.len(),
            items == p@.registers,
            last == last_reg_line(items, i as int),
        decreases p.registers@.len() - i,
    {
        proof {
            assert(items[i as int] == p.registers@[i as int]@);
        }
        if let RegItem::Def(d) = &p.registers[i] {
            last = later_line(last, d.src.decl_line);
        }
        i += 1;
    }
    find_end(orig, last)
}

fn plan_new_regs(orig: &Vec<String>, rif: &RifDef, p: &Page) -> (r: Vec<Op>)
    ensures
        r.deep_view() == new_reg_ops(orig.deep_view(), rif@, p@),
{
    let mut r = no_ops();
    if let Some((at, indent)) = page_registers_block_end(orig, p) {
        let ghost f = new_reg_lines(rif@, indent@);
        let ghost items = p@.registers;
        let mut ls: Vec<String> = Vec::new();
        proof {
            assert(ls.deep_view() =~= Seq::<Seq<char>>::empty());
        }
        let mut i: usize = 0;
        while i < p.registers.len()
            invariant
                i <= p.registers@.len(),
                items == p@.registers,
                f == new_reg_lines(rif@, indent@),
                ls.deep_view() == lines_of(items, f, i as int),
            decreases p.registers@.len() - i,
        {
            let ghost sofar = ls.deep_view();
            proof {
                assert(items[i as int] == p.registers@[i as int]@);
                assert(sofar =~= sofar + Seq::<Seq<char>>::empty());
            }
            if let RegItem::Def(d) = &p.registers[i] {
                if d.src.decl_line.is_none() {
                    extend_lines(&mut ls, show_whole_reg(rif, d, indent.as_str()));
                }
            }
            i += 1;
        }
        if ls.len() > 0 {
            insert_lines(&mut r, at, ls);
        }
        proof {
            assert(r.deep_view() =~= new_reg_ops(orig.deep_view(), rif@, p@));
        }
    }
    r
}

fn show_ovr_props(o: &RegOvr, indent: &str) -> (r: Vec<String>)
    ensures
        r.deep_view() == ovr_prop_lines(o@, indent@, 4),
{
    let mut r: Vec<String> = Vec::new();
    proof {
        assert(r.deep_view() =~= Seq::<Seq<char>>::empty());
    }
    let mut i: usize = 0;
    while i < 4
        invariant
            i <= 4,
            r.deep_view() == ovr_prop_lines(o@, indent@, i as int),
        decreases 4 - i,
    {
        if let Some(t) = show_reg_ovr_line(o, RegOverrideProp::at(i)) {
            push_line(&mut r, join(indent, t.as_str()));
        }
        i += 1;
    }
    r
}

fn add_opt_line(ls: &mut Vec<String>, t: Option<String>, indent: &str)
    ensures
        final(ls).deep_view() == old(ls).deep_view() + opt_line(t.deep_view(), indent@),
{
    if let Some(x) = t {
        push_line(ls, join(indent, x.as_str()));
    }
    proof {
        assert(ls.deep_view() =~= old(ls).deep_view() + opt_line(t.deep_view(), indent@));
    }
}

fn show_field_ovrs(d: &RegisterDef, ovrs: &Vec<FieldOvr>, indent: &str) -> (r: Vec<String>)
    ensures
        r.deep_view() == lines_of(
            ovrs.deep_view(),
            each_field_ovr_lines(d@, indent@),
            ovrs@.len() as int,
        ),
{
    let ghost f = each_field_ovr_lines(d@, indent@);
    let ghost s = ovrs.deep_view();
    let mut r: Vec<String> = Vec::new();
    proof {
        assert(r.deep_view() =~= Seq::<Seq<char>>::empty());
    }
    let mut i: usize = 0;
    while i < ovrs.len()
        invariant
            i <= ovrs@.len(),
            s == ovrs.deep_view(),
            f == each_field_ovr_lines(d@, indent@),
            r.deep_view() == lines_of(s, f, i as int),
        decreases ovrs@.len() - i,
    {
        let ghost sofar = r.deep_view();
        proof {
            assert(s[i as int] == ovrs@[i as int]@);
        }
        if let Some(k) = find_field(&d.fields, &ovrs[i].field) {
            proof {
                assert(d@.fields[k as int] == d.fields@[k as int]@);
            }
            if d.fields[k].reset.len() > 0 {
                proof {
                    assert(d@.fields[k as int].reset[0] == d.fields@[k as int].reset@[0]@);
                }
                let reset = &d.fields[k].reset[0];
                let desc = show_field_ovr_line(&ovrs[i], FieldOverrideProp::Description, reset);
                let value = show_field_ovr_line(&ovrs[i], FieldOverrideProp::Reset, reset);
                add_opt_line(&mut r, desc, indent);
                add_opt_line(&mut r, value, indent);
            }
        }
        proof {
            assert(r.deep_view() =~= sofar + f(s[i as int]));
        }
        i += 1;
    }
    r
}

/// The lines of a whole instance.
pub fn show_whole_inst(rif: &RifDef, i: &Instance, indent: &str) -> (r: Vec<String>)
    ensures
        r.deep_view() == whole_inst(rif@, i@, indent@),
{
    let mut r: Vec<String> = Vec::new();
    r.push(join(indent, show_inst_decl(i).as_str()));
    let ghost decl = seq![indent@ + inst_decl(i@)];
    proof {
        assert(r.deep_view() =~= decl);
    }
    match &i.reg_override {
        Some(o) => {
            let inner = join(indent, "  ");
            let mut ls = show_ovr_props(o, inner.as_str());
            add_block_lines(&mut ls, show_override_desc_block(&o.description), inner.as_str());
            match find_regdef(rif, &i.reg_type) {
                Some(at) => {
                    extend_lines(&mut ls, show_field_ovrs(get_reg(rif, at), &o.fields, inner.as_str()));
                },
                None => {
                    proof {
                        assert(ls.deep_view() =~= ls.deep_view() + Seq::<Seq<char>>::empty());
                    }
                },
            }
            extend_lines(&mut r, ls);
        },
        None => {
            proof {
                assert(r.deep_view() =~= decl + Seq::<Seq<char>>::empty());
            }
        },
    }
    r
}

fn keep_within(line: Option<usize>, n: usize) -> (r: Option<usize>)
    ensures
        r == within(line, n as nat),
{
    match line {
        Some(l) => if is_in_file(l, n) {
            line
        } else {
            None
        },
        None => None,
    }
}

fn place_entry(orig: &Vec<String>, last: Option<usize>, header: usize) -> (r: (usize, String))
    requires
        in_file(header, orig@.len()),
        last matches Some(l) ==> in_file(l, orig@.len()),
    ensures
        (r.0, r.1@) == entry_place(orig.deep_view(), last, header),
{
    match last {
        Some(l) => (l, indent_of(orig, l)),
        None => (header, indent_under(orig, header)),
    }
}

/// Where new instances of a page go, and their indentation.
pub fn page_instances_block_end(orig: &Vec<String>, p: &Page, header: usize) -> (r: (usize, String))
    requires
        in_file(header, orig@.len()),
    ensures
        (r.0, r.1@) == entry_place(
            orig.deep_view(),
            last_inst_line(p@.instances, orig@.len(), p@.instances.len() as int),
            header,
        ),
{
    let ghost insts = p@.instances;
    let n: usize = orig.len();
    let mut last: Option<usize> = None;
    let mut i: usize = 0;
    while i < p.instances.len()
        invariant
            i <= p.instances@.len(),
            n == orig@.len(),
            insts == p@.instances,
            last == last_inst_line(insts, n as nat, i as int),
            last matches Some(l) ==> in_file(l, n as nat),
        decreases p.instances@.len() - i,
    {
        proof {
            assert(insts[i as int] == p.instances@[i as int]@);
        }
        last = later_line(last, keep_within(p.instances[i].decl_line, n));
        i += 1;
    }
    place_entry(orig, last, header)
}

fn plan_new_insts(orig: &Vec<String>, rif: &RifDef, p: &Page) -> (r: Vec<Op>)
    ensures
        r.deep_view() == new_inst_ops(orig.deep_view(), rif@, p@),
{
    let mut r = no_ops();
    let header: usize = match keep_within(p.instances_line, orig.len()) {
        Some(h) => h,
        None => {
            return r;
        },
    };
    let (at, indent) = page_instances_block_end(orig, p, header);
    let ghost f = new_inst_lines(rif@, indent@);
    let ghost insts = p@.instances;
    let mut ls: Vec<String> = Vec::new();
    proof {
        assert(ls.deep_view() =~= Seq::<Seq<char>>::empty());
    }
    let mut i: usize = 0;
    while i < p.instances.len()
        invariant
            i <= p.instances@.len(),
            insts == p@.instances,
            f == new_inst_lines(rif@, indent@),
            ls.deep_view() == lines_of(insts, f, i as int),
        decreases p.instances@.len() - i,
    {
        let ghost sofar = ls.deep_view();
        proof {
            assert(insts[i as int] == p.instances@[i as int]@);
            assert(sofar =~= sofar + Seq::<Seq<char>>::empty());
        }
        if p.instances[i].decl_line.is_none() {
            extend_lines(&mut ls, show_whole_inst(rif, &p.instances[i], indent.as_str()));
        }
        i += 1;
    }
    if ls.len() > 0 {
        let text = join(indent_of(orig, header).as_str(), "instances:");
        proof {
            assert(orig.deep_view()[header - 1] == orig@[header - 1]@);
        }
        if orig[header - 1] != text {
            push_op(&mut r, Op::Replace(header - 1, text));
        }
        insert_lines(&mut r, at, ls);
    }
    proof {
        assert(r.deep_view() =~= new_inst_ops(orig.deep_view(), rif@, p@));
    }
    r
}

fn plan_page(orig: &Vec<String>, rif: &RifDef, e: &PendingEdits, p: &Page) -> (r: Vec<Op>)
    requires
        e@.wf(),
    ensures
        r.deep_view() == page_ops(orig.deep_view(), rif@, e@, p@),
{
    let ghost f = each_inst(orig.deep_view(), e@);
    let ghost insts = p@.instances;
    let mut r = no_ops();
    let mut i: usize = 0;
    while i < p.instances.len()
        invariant
            i <= p.instances@.len(),
            e@.wf(),
            insts == p@.instances,
            f == each_inst(orig.deep_view(), e@),
            r.deep_view() == ops_of(insts, f, i as int),
        decreases p.instances@.len() - i,
    {
        proof {
            assert(insts[i as int] == p.instances@[i as int]@);
        }
        extend_ops(&mut r, plan_inst(orig, e, &p.instances[i]));
        i += 1;
    }
    extend_ops(&mut r, plan_new_regs(orig, rif, p));
    extend_ops(&mut r, plan_new_insts(orig, rif, p));
    r
}

/// Plans the changes to the lines of all pages.
pub fn plan_pages(orig: &Vec<String>, rif: &RifDef, e: &PendingEdits) -> (r: Vec<Op>)
    requires
        e@.wf(),
    ensures
        r.deep_view() == all_page_ops(orig.deep_view(), rif@, e@),
{
    let ghost f = each_page(orig.deep_view(), rif@, e@);
    let ghost pages = rif@.pages;
    let mut r = no_ops();
    let mut i: usize = 0;
    while i < rif.pages.len()
        invariant
            i <= rif.pages@.len(),
            e@.wf(),
            pages == rif@.pages,
            f == each_page(orig.deep_view(), rif@, e@),
            r.deep_view() == ops_of(pages, f, i as int),
        decreases rif.pages@.len() - i,
    {
        proof {
            assert(pages[i as int] == rif.pages@[i as int]@);
        }
        extend_ops(&mut r, plan_page(orig, rif, e, &rif.pages[i]));
        i += 1;
    }
    r
}

fn plan_entries(orig: &Vec<String>, e: &PendingEdits, values: &Vec<EnumItem>) -> (r: Vec<Op>)
    ensures
        r.deep_view() == ops_of(
            values.deep_view(),
            each_entry(orig.deep_view(), e@),
            values@.len() as int,
        ),
{
    let ghost f = each_entry(orig.deep_view(), e@);
    let ghost s = values.deep_view();
    let mut r = no_ops();
    let mut i: usize = 0;
    while i < values.len()
        invariant
            i <= values@.len(),
            s == values.deep_view(),
            f == each_entry(orig.deep_view(), e@),
            r.deep_view() == ops_of(s, f, i as int),
        decreases values@.len() - i,
    {
        let ghost sofar = r.deep_view();
        proof {
            assert(s[i as int] == values@[i as int]@);
            assert(sofar =~= sofar + Seq::<OpView>::empty());
        }
        if let Some(line) = keep_within(values[i].decl_line, orig.len()) {
            if e.enum_dirty.contains(&line) {
                let text = join(indent_of(orig, line).as_str(), show_enum_line(&values[i]).as_str());
                push_op(&mut r, Op::Replace(line - 1, text));
            }
        }
        i += 1;
    }
    r
}

/// Where new entries of an enum go, and their indentation.
pub fn enum_block_end(orig: &Vec<String>, d: &EnumType, header: usize) -> (r: (usize, String))
    requires
        in_file(header, orig@.len()),
    ensures
        (r.0, r.1@) == entry_place(
            orig.deep_view(),
            last_entry_line(d@.values, orig@.len(), d@.values.len() as int),
            header,
        ),
{
    let ghost values = d@.values;
    let n: usize = orig.len();
    let mut last: Option<usize> = None;
    let mut i: usize = 0;
    while i < d.values.len()
        invariant
            i <= d.values@.len(),
            n == orig@.len(),
            values == d@.values,
            last == last_entry_line(values, n as nat, i as int),
            last matches Some(l) ==> in_file(l, n as nat),
        decreases d.values@.len() - i,
    {
        proof {
            assert(values[i as int] == d.values@[i as int]@);
        }
        last = later_line(last, keep_within(d.values[i].decl_line, n));
        i += 1;
    }
    place_entry(orig, last, header)
}

fn plan_new_entries(orig: &Vec<String>, d: &EnumType) -> (r: Vec<Op>)
    ensures
        r.deep_view() == new_entry_ops(orig.deep_view(), d@),
{
    let mut r = no_ops();
    let header: usize = match keep_within(d.decl_line, orig.len()) {
        Some(h) => h,
        None => {
            return r;
        },
    };
    let (at, indent) = enum_block_end(orig, d, header);
    let ghost f = new_entry_lines(indent@);
    let ghost values = d@.values;
    let mut ls: Vec<String> = Vec::new();
    proof {
        assert(ls.deep_view() =~= Seq::<Seq<char>>::empty());
    }
    let mut i: usize = 0;
    while i < d.values.len()
        invariant
            i <= d.values@.len(),
            values == d@.values,
            f == new_entry_lines(indent@),
            ls.deep_view() == lines_of(values, f, i as int),
        decreases d.values@.len() - i,
    {
        let ghost sofar = ls.deep_view();
        proof {
            assert(values[i as int] == d.values@[i as int]@);
        }
        if d.values[i].decl_line.is_none() {
            push_line(&mut ls, join(indent.as_str(), show_enum_line(&d.values[i]).as_str()));
        }
        proof {
            assert(ls.deep_view() =~= sofar + f(values[i as int]));
        }
        i += 1;
    }
    if ls.len() > 0 {
        insert_lines(&mut r, at, ls);
    }
    proof {
        assert(r.deep_view() =~= new_entry_ops(orig.deep_view(), d@));
    }
    r
}

/// Plans the changes to the lines of all enums.
pub fn plan_enums(orig: &Vec<String>, rif: &RifDef, e: &PendingEdits) -> (r: Vec<Op>)
    ensures
        r.deep_view() == all_enum_ops(orig.deep_view(), rif@, e@),
{
    let ghost f = each_enum(orig.deep_view(), e@);
    let ghost defs = rif@.enum_defs;
    let mut r = no_ops();
    let mut i: usize = 0;
    while i < rif.enum_defs.len()
        invariant
            i <= rif.enum_defs@.len(),
            defs == rif@.enum_defs,
            f == each_enum(orig.deep_view(), e@),
            r.deep_view() == ops_of(defs, f, i as int),
        decreases rif.enum_defs@.len() - i,
    {
        proof {
            assert(defs[i as int] == rif.enum_defs@[i as int]@);
        }
        let mut own = plan_entries(orig, e, &rif.enum_defs[i].values);
        extend_ops(&mut own, plan_new_entries(orig, &rif.enum_defs[i]));
        extend_ops(&mut r, own);
        i += 1;
    }
    r
}

} // verus!
