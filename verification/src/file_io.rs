//! Writes the pending edits of a RIF back to the text of its file.
use vstd::prelude::*;
use crate::edits::{nothing_pending, LineEditView, PendingEdits, PendingEditsView};
use crate::lines::{has, join_text, join_undoes_split, joined, occurs, split, split_text};
use crate::model::page::{InstanceView, PageView};
use crate::model::register::{FieldDefView, RegItemView, RegisterDefView};
use crate::model::rif::{EnumTypeView, RifDef, RifDefView};
use crate::plan::{
    block_last, extend_ops, in_file, lines_of, no_change_keeps_file, ops_of, rebuild, rebuilt, removed, OpView,
};
use crate::save_page::{
    all_enum_ops, all_page_ops, each_entry, each_enum, each_inst, each_page, entry_place, inst_ops,
    last_entry_line, last_inst_line, last_reg_line, new_entry_lines, new_entry_ops, new_inst_lines,
    new_inst_ops, new_reg_lines, new_reg_ops, ovr_ops, page_ops, plan_enums, plan_pages, within,
};
use crate::save_reg::{
    all_reg_ops, each_field, each_item, each_page_regs, end_of, field_ops, last_field_line, new_field_lines,
    new_field_ops, plan_regs, reg_ops, reg_own_ops,
};
use crate::save_rif::{
    blocks_gone, clock_ops, line_gone, lines_gone, marked_ops, plan_blocks_gone, plan_lines_gone, plan_rif,
    rif_ops, rif_prop_ops, single_ops, table_ops, whole_block_gone,
};
use crate::viewer::{
    enum_has_new_entries, has_new_field, is_new_reg, new_fields, page_has_new_fields, page_has_new_instances,
    page_has_new_registers, rif_has_new,
};

verus! {

/// What the pending edits do to the lines of a file.
pub open spec fn file_ops(orig: Seq<Seq<char>>, rif: RifDefView, e: PendingEditsView) -> Seq<OpView> {
    rif_ops(orig, rif, e) + blocks_gone(orig, e.deleted) + blocks_gone(orig, e.reg_deleted) + all_reg_ops(
        orig,
        rif,
        e,
    ) + blocks_gone(orig, e.reg_inst_deleted) + all_page_ops(orig, rif, e) + all_enum_ops(orig, rif, e)
        + lines_gone(orig, e.enum_deleted)
}

/// How the lines of a file end.
pub open spec fn newline_of(content: Seq<char>) -> Seq<char> {
    if occurs(content, "\r\n"@) {
        "\r\n"@
    } else {
        "\n"@
    }
}

/// The text of a file with the pending edits written into it. Line ends stay as they are.
pub open spec fn saved_text(rif: RifDefView, e: PendingEditsView, content: Seq<char>) -> Seq<char> {
    let newline = newline_of(content);
    let orig = split(content, newline);
    joined(rebuilt(orig, file_ops(orig, rif, e)), newline)
}

/// Writes the pending edits of a RIF into the text of its file.
pub fn save_rif_text(rif: &RifDef, e: &PendingEdits, content: &str) -> (r: String)
    requires
        e@.wf(),
    ensures
        r@ == saved_text(rif@, e@, content@),
{
    proof {
        reveal_strlit("\r\n");
        reveal_strlit("\n");
    }
    let newline = if has(content, "\r\n") {
        "\r\n"
    } else {
        "\n"
    };
    let orig = split_text(content, newline);
    let mut ops = plan_rif(&orig, rif, e);
    extend_ops(&mut ops, plan_blocks_gone(&orig, &e.deleted));
    extend_ops(&mut ops, plan_blocks_gone(&orig, &e.reg_deleted));
    extend_ops(&mut ops, plan_regs(&orig, rif, e));
    extend_ops(&mut ops, plan_blocks_gone(&orig, &e.reg_inst_deleted));
    extend_ops(&mut ops, plan_pages(&orig, rif, e));
    extend_ops(&mut ops, plan_enums(&orig, rif, e));
    extend_ops(&mut ops, plan_lines_gone(&orig, &e.enum_deleted));
    let lines = rebuild(&orig, ops);
    join_text(&lines, newline)
}

proof fn lemma_no_ops<T>(s: Seq<T>, f: spec_fn(T) -> Seq<OpView>, n: int)
    requires
        0 <= n <= s.len(),
        forall|i: int| 0 <= i < n ==> f(#[trigger] s[i]) == Seq::<OpView>::empty(),
    ensures
        ops_of(s, f, n) == Seq::<OpView>::empty(),
    decreases n,
{
    if n > 0 {
        lemma_no_ops(s, f, n - 1);
        assert(f(s[n - 1]) == Seq::<OpView>::empty());
        assert(ops_of(s, f, n) =~= Seq::<OpView>::empty());
    }
}

proof fn lemma_no_lines<T>(s: Seq<T>, f: spec_fn(T) -> Seq<Seq<char>>, n: int)
    requires
        0 <= n <= s.len(),
        forall|i: int| 0 <= i < n ==> f(#[trigger] s[i]) == Seq::<Seq<char>>::empty(),
    ensures
        lines_of(s, f, n) == Seq::<Seq<char>>::empty(),
    decreases n,
{
    if n > 0 {
        lemma_no_lines(s, f, n - 1);
        assert(f(s[n - 1]) == Seq::<Seq<char>>::empty());
        assert(lines_of(s, f, n) =~= Seq::<Seq<char>>::empty());
    }
}

proof fn lemma_no_marks(marks: Set<usize>, f: spec_fn(usize) -> Seq<OpView>, n: nat)
    requires
        marks.is_empty(),
    ensures
        marked_ops(marks, f, n) == Seq::<OpView>::empty(),
    decreases n,
{
    if n > 0 {
        lemma_no_marks(marks, f, (n - 1) as nat);
        assert(!marks.contains(n as usize));
        assert(marked_ops(marks, f, n) =~= Seq::<OpView>::empty());
    }
}

proof fn lemma_no_singles(
    orig: Seq<Seq<char>>,
    edits: Map<usize, LineEditView>,
    n: nat,
)
    requires
        edits.is_empty(),
    ensures
        single_ops(orig, edits, n) == Seq::<OpView>::empty(),
    decreases n,
{
    if n > 0 {
        lemma_no_singles(orig, edits, (n - 1) as nat);
        assert(!edits.dom().contains(n as usize));
        assert(single_ops(orig, edits, n) =~= Seq::<OpView>::empty());
    }
}

proof fn lemma_no_rif_props(orig: Seq<Seq<char>>, rif: RifDefView, e: PendingEditsView, line: usize, n: int)
    requires
        0 <= n <= 10,
        e.wf(),
        nothing_pending(e),
    ensures
        rif_prop_ops(orig, rif, e, line, n) == Seq::<OpView>::empty(),
    decreases n,
{
    if n > 0 {
        lemma_no_rif_props(orig, rif, e, line, n - 1);
        assert(e.rif_prop_edits[n - 1] is Keep);
        assert(rif_prop_ops(orig, rif, e, line, n) =~= Seq::<OpView>::empty());
    }
}

proof fn lemma_no_rif_ops(orig: Seq<Seq<char>>, rif: RifDefView, e: PendingEditsView)
    requires
        e.wf(),
        nothing_pending(e),
    ensures
        rif_ops(orig, rif, e) == Seq::<OpView>::empty(),
{
    if let Some(line) = rif.src.decl_line {
        if in_file(line, orig.len()) {
            lemma_no_rif_props(orig, rif, e, line, 10);
            lemma_no_marks(e.rif_reset_deleted, line_gone(), orig.len());
            lemma_no_singles(orig, e.rif_param_edits, orig.len());
            lemma_no_singles(orig, e.rif_generic_edits, orig.len());
            let c = e.rif_clock_line_edits;
            assert(c[0] is Keep && c[1] is Keep && c[2] is Keep && c[3] is Keep && c[4] is Keep && c[5] is Keep);
            assert(!e.rif_dirty.contains(line));
            assert(clock_ops(orig, rif, e, line) =~= Seq::<OpView>::empty());
            assert(table_ops(orig, rif, e, line) =~= Seq::<OpView>::empty());
            assert(rif_ops(orig, rif, e) =~= Seq::<OpView>::empty());
        }
    }
}

proof fn lemma_no_field_ops(orig: Seq<Seq<char>>, rif: RifDefView, e: PendingEditsView, f: FieldDefView)
    requires
        nothing_pending(e),
    ensures
        field_ops(orig, rif, e, f) == Seq::<OpView>::empty(),
{
    if let Some(line) = f.src.decl_line {
        assert(!e.dirty.contains(line));
        assert(!e.prop_edits.dom().contains(line));
        assert(!e.desc_block_edits.dom().contains(line));
        assert(!e.field_intr_desc_block_edits.dom().contains(line));
        assert(field_ops(orig, rif, e, f) =~= Seq::<OpView>::empty());
    }
}

proof fn lemma_no_reg_ops(orig: Seq<Seq<char>>, rif: RifDefView, e: PendingEditsView, d: RegisterDefView)
    requires
        nothing_pending(e),
        !has_new_field(RegItemView::Def(d)),
    ensures
        reg_ops(orig, rif, e, d) == Seq::<OpView>::empty(),
{
    let n = d.fields.len() as int;
    let own = reg_own_ops(orig, e, d);
    if let Some(line) = d.src.decl_line {
        assert(!e.reg_dirty.contains(line));
        assert(!e.reg_prop_edits.dom().contains(line));
        assert(!e.reg_desc_block_edits.dom().contains(line));
        assert(!e.reg_intr_desc_block_edits.dom().contains(line));
    }
    assert(own =~= Seq::<OpView>::empty());
    let f = each_field(orig, rif, e);
    assert forall|i: int| 0 <= i < n implies f(#[trigger] d.fields[i]) == Seq::<OpView>::empty() by {
        lemma_no_field_ops(orig, rif, e, d.fields[i]);
    }
    lemma_no_ops(d.fields, f, n);
    let end = end_of(orig, last_field_line(d.fields, n));
    if let Some((at, indent)) = end {
        let g = new_field_lines(rif, indent);
        assert forall|i: int| 0 <= i < n implies g(#[trigger] d.fields[i]) == Seq::<Seq<char>>::empty() by {
            assert(d.fields[i].src.decl_line is Some);
        }
        lemma_no_lines(d.fields, g, n);
    }
    assert(reg_ops(orig, rif, e, d) =~= Seq::<OpView>::empty());
}

proof fn lemma_no_all_reg_ops(orig: Seq<Seq<char>>, rif: RifDefView, e: PendingEditsView)
    requires
        nothing_pending(e),
        !new_fields(rif),
    ensures
        all_reg_ops(orig, rif, e) == Seq::<OpView>::empty(),
{
    let f = each_page_regs(orig, rif, e);
    assert forall|p: int| 0 <= p < rif.pages.len() implies f(#[trigger] rif.pages[p]) == Seq::<
        OpView,
    >::empty() by {
        let page = rif.pages[p];
        assert(!page_has_new_fields(page));
        let g = each_item(orig, rif, e);
        assert forall|i: int| 0 <= i < page.registers.len() implies g(#[trigger] page.registers[i]) == Seq::<
            OpView,
        >::empty() by {
            assert(!has_new_field(page.registers[i]));
            if let RegItemView::Def(d) = page.registers[i] {
                lemma_no_reg_ops(orig, rif, e, d);
            }
        }
        lemma_no_ops(page.registers, g, page.registers.len() as int);
    }
    lemma_no_ops(rif.pages, f, rif.pages.len() as int);
}

proof fn lemma_no_inst_ops(orig: Seq<Seq<char>>, e: PendingEditsView, i: InstanceView)
    requires
        nothing_pending(e),
    ensures
        inst_ops(orig, e, i) == Seq::<OpView>::empty(),
{
    if let Some(line) = i.decl_line {
        assert(!e.reg_inst_dirty.contains(line));
        assert(!e.reg_override_edits.dom().contains(line));
        assert(!e.reg_override_desc_block_edits.dom().contains(line));
        assert(!e.field_override_edits.dom().contains(line));
        assert(ovr_ops(orig, e, i.ovr_src, line) =~= Seq::<OpView>::empty());
        assert(inst_ops(orig, e, i) =~= Seq::<OpView>::empty());
    }
}

proof fn lemma_no_page_ops(orig: Seq<Seq<char>>, rif: RifDefView, e: PendingEditsView, p: PageView)
    requires
        nothing_pending(e),
        !page_has_new_registers(p),
        !page_has_new_instances(p),
    ensures
        page_ops(orig, rif, e, p) == Seq::<OpView>::empty(),
{
    let n = p.instances.len() as int;
    let m = p.registers.len() as int;
    let f = each_inst(orig, e);
    assert forall|i: int| 0 <= i < n implies f(#[trigger] p.instances[i]) == Seq::<OpView>::empty() by {
        lemma_no_inst_ops(orig, e, p.instances[i]);
    }
    lemma_no_ops(p.instances, f, n);
    let end = end_of(orig, last_reg_line(p.registers, m));
    if let Some((at, indent)) = end {
        let g = new_reg_lines(rif, indent);
        assert forall|i: int| 0 <= i < m implies g(#[trigger] p.registers[i]) == Seq::<Seq<char>>::empty() by {
            assert(!is_new_reg(p.registers[i]));
        }
        lemma_no_lines(p.registers, g, m);
    }
    if let Some(header) = within(p.instances_line, orig.len()) {
        let (at, indent) = entry_place(
            orig,
            last_inst_line(p.instances, orig.len(), n),
            header,
        );
        let g = new_inst_lines(rif, indent);
        assert forall|i: int| 0 <= i < n implies g(#[trigger] p.instances[i]) == Seq::<Seq<char>>::empty() by {
            assert(p.instances[i].decl_line is Some);
        }
        lemma_no_lines(p.instances, g, n);
    }
    assert(page_ops(orig, rif, e, p) =~= Seq::<OpView>::empty());
}

proof fn lemma_no_enum_ops(orig: Seq<Seq<char>>, e: PendingEditsView, d: EnumTypeView)
    requires
        nothing_pending(e),
        !enum_has_new_entries(d),
    ensures
        (each_enum(orig, e))(d) == Seq::<OpView>::empty(),
{
    let n = d.values.len() as int;
    let f = each_entry(orig, e);
    assert forall|i: int| 0 <= i < n implies f(#[trigger] d.values[i]) == Seq::<OpView>::empty() by {
        if let Some(line) = d.values[i].decl_line {
            assert(!e.enum_dirty.contains(line));
        }
    }
    lemma_no_ops(d.values, f, n);
    if let Some(header) = within(d.decl_line, orig.len()) {
        let (at, indent) = entry_place(
            orig,
            last_entry_line(d.values, orig.len(), n),
            header,
        );
        let g = new_entry_lines(indent);
        assert forall|i: int| 0 <= i < n implies g(#[trigger] d.values[i]) == Seq::<Seq<char>>::empty() by {
            assert(d.values[i].decl_line is Some);
        }
        lemma_no_lines(d.values, g, n);
    }
    assert((each_enum(orig, e))(d) =~= Seq::<OpView>::empty());
}

proof fn lemma_no_file_ops(orig: Seq<Seq<char>>, rif: RifDefView, e: PendingEditsView)
    requires
        e.wf(),
        nothing_pending(e),
        !rif_has_new(rif),
    ensures
        file_ops(orig, rif, e) == Seq::<OpView>::empty(),
{
    lemma_no_rif_ops(orig, rif, e);
    lemma_no_marks(e.deleted, whole_block_gone(orig), orig.len());
    lemma_no_marks(e.reg_deleted, whole_block_gone(orig), orig.len());
    lemma_no_marks(e.reg_inst_deleted, whole_block_gone(orig), orig.len());
    lemma_no_marks(e.enum_deleted, line_gone(), orig.len());
    lemma_no_all_reg_ops(orig, rif, e);
    let f = each_page(orig, rif, e);
    assert forall|p: int| 0 <= p < rif.pages.len() implies f(#[trigger] rif.pages[p]) == Seq::<
        OpView,
    >::empty() by {
        assert(!page_has_new_registers(rif.pages[p]));
        assert(!page_has_new_instances(rif.pages[p]));
        lemma_no_page_ops(orig, rif, e, rif.pages[p]);
    }
    lemma_no_ops(rif.pages, f, rif.pages.len() as int);
    let g = each_enum(orig, e);
    assert forall|d: int| 0 <= d < rif.enum_defs.len() implies g(#[trigger] rif.enum_defs[d]) == Seq::<
        OpView,
    >::empty() by {
        assert(!enum_has_new_entries(rif.enum_defs[d]));
        lemma_no_enum_ops(orig, e, rif.enum_defs[d]);
    }
    lemma_no_ops(rif.enum_defs, g, rif.enum_defs.len() as int);
    assert(file_ops(orig, rif, e) =~= Seq::<OpView>::empty());
}

/// Where there is nothing to save, the text stays as it is, to the last character.
pub proof fn saving_nothing_changes_nothing(rif: RifDefView, e: PendingEditsView, content: Seq<char>)
    requires
        e.wf(),
        nothing_pending(e),
        !rif_has_new(rif),
    ensures
        saved_text(rif, e, content) == content,
{
    let newline = newline_of(content);
    reveal_strlit("\r\n");
    reveal_strlit("\n");
    let orig = split(content, newline);
    lemma_no_file_ops(orig, rif, e);
    no_change_keeps_file(orig);
    join_undoes_split(content, newline);
}

/// A change for one item is among the changes for all.
pub proof fn lemma_ops_contain<T>(s: Seq<T>, f: spec_fn(T) -> Seq<OpView>, n: int, i: int, op: OpView)
    requires
        0 <= i < n <= s.len(),
        f(s[i]).contains(op),
    ensures
        ops_of(s, f, n).contains(op),
    decreases n,
{
    let head = ops_of(s, f, n - 1);
    let last = f(s[n - 1]);
    if i == n - 1 {
        let k = choose|k: int| 0 <= k < last.len() && last[k] == op;
        assert((head + last)[head.len() + k] == op);
    } else {
        lemma_ops_contain(s, f, n - 1, i, op);
        let k = choose|k: int| 0 <= k < head.len() && head[k] == op;
        assert((head + last)[k] == op);
    }
}

proof fn lemma_middle_contains(a: Seq<OpView>, b: Seq<OpView>, c: Seq<OpView>, op: OpView)
    requires
        b.contains(op),
    ensures
        (a + b + c).contains(op),
{
    let k = choose|k: int| 0 <= k < b.len() && b[k] == op;
    assert((a + b + c)[a.len() + k] == op);
}

/// A change in a part of the plan is in the whole plan.
pub proof fn lemma_either(a: Seq<OpView>, b: Seq<OpView>, op: OpView)
    requires
        a.contains(op) || b.contains(op),
    ensures
        (a + b).contains(op),
{
    if a.contains(op) {
        let k = choose|k: int| 0 <= k < a.len() && a[k] == op;
        assert((a + b)[k] == op);
    } else {
        let k = choose|k: int| 0 <= k < b.len() && b[k] == op;
        assert((a + b)[a.len() + k] == op);
    }
}

/// Whether there is a definition at a place.
pub open spec fn has_def(rif: RifDefView, p: int, r: int) -> bool {
    &&& 0 <= p < rif.pages.len()
    &&& 0 <= r < rif.pages[p].registers.len()
    &&& rif.pages[p].registers[r] is Def
}

/// The definition at a place.
pub open spec fn def_at(rif: RifDefView, p: int, r: int) -> RegisterDefView {
    rif.pages[p].registers[r]->Def_0
}

/// Whether there is a field at a place.
pub open spec fn has_field(rif: RifDefView, p: int, r: int, k: int) -> bool {
    has_def(rif, p, r) && 0 <= k < def_at(rif, p, r).fields.len()
}

/// Whether there is an instance at a place.
pub open spec fn has_inst(rif: RifDefView, p: int, k: int) -> bool {
    0 <= p < rif.pages.len() && 0 <= k < rif.pages[p].instances.len()
}

/// Whether there is an enum entry at a place.
pub open spec fn has_entry(rif: RifDefView, d: int, k: int) -> bool {
    0 <= d < rif.enum_defs.len() && 0 <= k < rif.enum_defs[d].values.len()
}

/// What is planned for a register is planned for the file.
pub proof fn lemma_reg_op(orig: Seq<Seq<char>>, rif: RifDefView, e: PendingEditsView, p: int, r: int, op: OpView)
    requires
        has_def(rif, p, r),
        reg_ops(orig, rif, e, def_at(rif, p, r)).contains(op),
    ensures
        file_ops(orig, rif, e).contains(op),
{
    let page = rif.pages[p];
    let items = each_item(orig, rif, e);
    assert(items(page.registers[r]).contains(op));
    lemma_ops_contain(page.registers, items, page.registers.len() as int, r, op);
    let pages = each_page_regs(orig, rif, e);
    assert(pages(rif.pages[p]).contains(op));
    lemma_ops_contain(rif.pages, pages, rif.pages.len() as int, p, op);
    let head = rif_ops(orig, rif, e) + blocks_gone(orig, e.deleted) + blocks_gone(orig, e.reg_deleted);
    let mid = all_reg_ops(orig, rif, e);
    let tail = blocks_gone(orig, e.reg_inst_deleted) + all_page_ops(orig, rif, e) + all_enum_ops(orig, rif, e)
        + lines_gone(orig, e.enum_deleted);
    lemma_middle_contains(head, mid, tail, op);
    assert(file_ops(orig, rif, e) =~= head + mid + tail);
}

/// What is planned for a register alone is planned for the file.
pub proof fn lemma_reg_own_op(
    orig: Seq<Seq<char>>,
    rif: RifDefView,
    e: PendingEditsView,
    p: int,
    r: int,
    op: OpView,
)
    requires
        has_def(rif, p, r),
        reg_own_ops(orig, e, def_at(rif, p, r)).contains(op),
    ensures
        file_ops(orig, rif, e).contains(op),
{
    let d = def_at(rif, p, r);
    let fields = ops_of(d.fields, each_field(orig, rif, e), d.fields.len() as int);
    lemma_either(reg_own_ops(orig, e, d), fields, op);
    lemma_either(reg_own_ops(orig, e, d) + fields, new_field_ops(orig, rif, d), op);
    lemma_reg_op(orig, rif, e, p, r, op);
}

/// What is planned for a field is planned for the file.
pub proof fn lemma_field_op(
    orig: Seq<Seq<char>>,
    rif: RifDefView,
    e: PendingEditsView,
    p: int,
    r: int,
    k: int,
    op: OpView,
)
    requires
        has_field(rif, p, r, k),
        field_ops(orig, rif, e, def_at(rif, p, r).fields[k]).contains(op),
    ensures
        file_ops(orig, rif, e).contains(op),
{
    let d = def_at(rif, p, r);
    let each = each_field(orig, rif, e);
    assert(each(d.fields[k]).contains(op));
    lemma_ops_contain(d.fields, each, d.fields.len() as int, k, op);
    lemma_middle_contains(
        reg_own_ops(orig, e, d),
        ops_of(d.fields, each, d.fields.len() as int),
        new_field_ops(orig, rif, d),
        op,
    );
    lemma_reg_op(orig, rif, e, p, r, op);
}

/// What is planned for a page is planned for the file.
pub proof fn lemma_page_op(orig: Seq<Seq<char>>, rif: RifDefView, e: PendingEditsView, p: int, op: OpView)
    requires
        0 <= p < rif.pages.len(),
        page_ops(orig, rif, e, rif.pages[p]).contains(op),
    ensures
        file_ops(orig, rif, e).contains(op),
{
    let pages = each_page(orig, rif, e);
    assert(pages(rif.pages[p]).contains(op));
    lemma_ops_contain(rif.pages, pages, rif.pages.len() as int, p, op);
    let head = rif_ops(orig, rif, e) + blocks_gone(orig, e.deleted) + blocks_gone(orig, e.reg_deleted)
        + all_reg_ops(orig, rif, e) + blocks_gone(orig, e.reg_inst_deleted);
    let mid = all_page_ops(orig, rif, e);
    let tail = all_enum_ops(orig, rif, e) + lines_gone(orig, e.enum_deleted);
    lemma_middle_contains(head, mid, tail, op);
    assert(file_ops(orig, rif, e) =~= head + mid + tail);
}

/// What is planned for an instance is planned for the file.
pub proof fn lemma_inst_op(orig: Seq<Seq<char>>, rif: RifDefView, e: PendingEditsView, p: int, k: int, op: OpView)
    requires
        has_inst(rif, p, k),
        inst_ops(orig, e, rif.pages[p].instances[k]).contains(op),
    ensures
        file_ops(orig, rif, e).contains(op),
{
    let page = rif.pages[p];
    let insts = each_inst(orig, e);
    assert(insts(page.instances[k]).contains(op));
    let here = ops_of(page.instances, insts, page.instances.len() as int);
    lemma_ops_contain(page.instances, insts, page.instances.len() as int, k, op);
    lemma_either(here, new_reg_ops(orig, rif, page), op);
    lemma_either(here + new_reg_ops(orig, rif, page), new_inst_ops(orig, rif, page), op);
    lemma_page_op(orig, rif, e, p, op);
}

/// What is planned for an enum is planned for the file.
pub proof fn lemma_enum_op(orig: Seq<Seq<char>>, rif: RifDefView, e: PendingEditsView, d: int, op: OpView)
    requires
        0 <= d < rif.enum_defs.len(),
        each_enum(orig, e)(rif.enum_defs[d]).contains(op),
    ensures
        file_ops(orig, rif, e).contains(op),
{
    lemma_ops_contain(rif.enum_defs, each_enum(orig, e), rif.enum_defs.len() as int, d, op);
    let head = rif_ops(orig, rif, e) + blocks_gone(orig, e.deleted) + blocks_gone(orig, e.reg_deleted)
        + all_reg_ops(orig, rif, e) + blocks_gone(orig, e.reg_inst_deleted) + all_page_ops(orig, rif, e);
    let mid = all_enum_ops(orig, rif, e);
    let tail = lines_gone(orig, e.enum_deleted);
    lemma_middle_contains(head, mid, tail, op);
    assert(file_ops(orig, rif, e) =~= head + mid + tail);
}

/// What is planned for an enum entry is planned for the file.
pub proof fn lemma_entry_op(orig: Seq<Seq<char>>, rif: RifDefView, e: PendingEditsView, d: int, k: int, op: OpView)
    requires
        has_entry(rif, d, k),
        each_entry(orig, e)(rif.enum_defs[d].values[k]).contains(op),
    ensures
        file_ops(orig, rif, e).contains(op),
{
    let x = rif.enum_defs[d];
    let entries = each_entry(orig, e);
    let here = ops_of(x.values, entries, x.values.len() as int);
    lemma_ops_contain(x.values, entries, x.values.len() as int, k, op);
    lemma_either(here, new_entry_ops(orig, x), op);
    lemma_enum_op(orig, rif, e, d, op);
}

/// What is planned for the RIF as a whole is planned for the file.
pub proof fn lemma_rif_op(orig: Seq<Seq<char>>, rif: RifDefView, e: PendingEditsView, op: OpView)
    requires
        rif_ops(orig, rif, e).contains(op),
    ensures
        file_ops(orig, rif, e).contains(op),
{
    let head = rif_ops(orig, rif, e);
    let tail = blocks_gone(orig, e.deleted) + blocks_gone(orig, e.reg_deleted) + all_reg_ops(orig, rif, e)
        + blocks_gone(orig, e.reg_inst_deleted) + all_page_ops(orig, rif, e) + all_enum_ops(orig, rif, e)
        + lines_gone(orig, e.enum_deleted);
    lemma_either(head, tail, op);
    assert(file_ops(orig, rif, e) =~= head + tail);
}

/// What is planned for deleted items is planned for the file.
pub proof fn lemma_gone_op(orig: Seq<Seq<char>>, rif: RifDefView, e: PendingEditsView, op: OpView)
    requires
        blocks_gone(orig, e.deleted).contains(op) || blocks_gone(orig, e.reg_deleted).contains(op) || blocks_gone(
            orig,
            e.reg_inst_deleted,
        ).contains(op) || lines_gone(orig, e.enum_deleted).contains(op),
    ensures
        file_ops(orig, rif, e).contains(op),
{
    let a = rif_ops(orig, rif, e);
    let b = blocks_gone(orig, e.deleted);
    let c = blocks_gone(orig, e.reg_deleted);
    let d = all_reg_ops(orig, rif, e);
    let f = blocks_gone(orig, e.reg_inst_deleted);
    let g = all_page_ops(orig, rif, e) + all_enum_ops(orig, rif, e);
    let h = lines_gone(orig, e.enum_deleted);
    if b.contains(op) || c.contains(op) {
        lemma_either(b, c, op);
        lemma_middle_contains(a, b + c, d + f + g + h, op);
    } else {
        if f.contains(op) {
            lemma_middle_contains(d, f, g, op);
        }
        lemma_either(d + f + g, h, op);
        lemma_either(a + b + c, d + f + g + h, op);
    }
    assert(file_ops(orig, rif, e) =~= a + (b + c) + (d + f + g + h));
    assert(file_ops(orig, rif, e) =~= (a + b + c) + (d + f + g + h));
}

proof fn lemma_marked_contain(marks: Set<usize>, f: spec_fn(usize) -> Seq<OpView>, n: nat, line: usize, op: OpView)
    requires
        1 <= line <= n,
        n <= usize::MAX,
        marks.contains(line),
        f(line).contains(op),
    ensures
        marked_ops(marks, f, n).contains(op),
    decreases n,
{
    let head = marked_ops(marks, f, (n - 1) as nat);
    let last = if marks.contains(n as usize) {
        f(n as usize)
    } else {
        Seq::<OpView>::empty()
    };
    if line == n {
        let k = choose|k: int| 0 <= k < last.len() && last[k] == op;
        assert((head + last)[head.len() + k] == op);
    } else {
        lemma_marked_contain(marks, f, (n - 1) as nat, line, op);
        let k = choose|k: int| 0 <= k < head.len() && head[k] == op;
        assert((head + last)[k] == op);
    }
}

proof fn lemma_removed(ops: Seq<OpView>, i: int, k: int, n: int)
    requires
        0 <= k < n <= ops.len(),
        ops[k] == OpView::Delete(i),
    ensures
        removed(ops, i, n),
    decreases n,
{
    if k < n - 1 {
        lemma_removed(ops, i, k, n - 1);
    }
}

/// A line that one of the changes takes away is taken away.
pub proof fn deleted_line_is_removed(ops: Seq<OpView>, i: int)
    requires
        ops.contains(OpView::Delete(i)),
    ensures
        removed(ops, i, ops.len() as int),
{
    let k = choose|k: int| 0 <= k < ops.len() && ops[k] == OpView::Delete(i);
    lemma_removed(ops, i, k, ops.len() as int);
}

/// A marked item goes with every line of its block.
pub proof fn lemma_block_gone(orig: Seq<Seq<char>>, marks: Set<usize>, line: usize, i: int)
    requires
        orig.len() <= usize::MAX,
        in_file(line, orig.len()),
        marks.contains(line),
        line - 1 <= i <= block_last(orig, line - 1),
    ensures
        blocks_gone(orig, marks).contains(OpView::Delete(i)),
{
    let f = whole_block_gone(orig);
    assert(f(line)[i - (line - 1)] == OpView::Delete(i));
    assert(f(line).contains(OpView::Delete(i)));
    lemma_marked_contain(marks, f, orig.len(), line, OpView::Delete(i));
}

/// A marked line goes.
pub proof fn lemma_line_gone(orig: Seq<Seq<char>>, marks: Set<usize>, line: usize)
    requires
        orig.len() <= usize::MAX,
        in_file(line, orig.len()),
        marks.contains(line),
    ensures
        lines_gone(orig, marks).contains(OpView::Delete(line - 1)),
{
    let f = line_gone();
    assert(f(line)[0] == OpView::Delete(line - 1));
    assert(f(line).contains(OpView::Delete(line - 1)));
    lemma_marked_contain(marks, f, orig.len(), line, OpView::Delete(line - 1));
}

} // verus!
