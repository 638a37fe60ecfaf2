//! Changes to the lines that belong to a RIF as a whole.
use vstd::prelude::*;
use std::collections::{HashMap, HashSet};
use crate::edits::{single_at, single_edits, LineEdit, LineEditView, PendingEdits, PendingEditsView};
use crate::lines::{extend_lines, indent_lines, indented};
use crate::model::rif::{NamedLine, NamedLineView, RifDef, RifDefView};
use crate::plan::{
    add_block_gone, add_line_ops, block_gone, block_ops, extend_ops, in_file, indent_below, indent_under,
    insert_lines, is_in_file, line_ops, no_ops, push_op, reconcile_desc_block, Op, OpView,
};
use crate::syntax::{rif_decl, show_rif_decl};
use crate::text::join;

verus! {

/// The changes for the marked lines among the first `n`.
pub open spec fn marked_ops(marks: Set<usize>, f: spec_fn(usize) -> Seq<OpView>, n: nat) -> Seq<OpView>
    decreases n,
{
    if n == 0 {
        seq![]
    } else {
        marked_ops(marks, f, (n - 1) as nat) + if marks.contains(n as usize) {
            f(n as usize)
        } else {
            seq![]
        }
    }
}

/// A line goes.
pub open spec fn line_gone() -> spec_fn(usize) -> Seq<OpView> {
    |line: usize| seq![OpView::Delete(line - 1)]
}

/// A line goes with the block that it starts.
pub open spec fn whole_block_gone(orig: Seq<Seq<char>>) -> spec_fn(usize) -> Seq<OpView> {
    |line: usize| block_gone(orig, line)
}

/// The marked lines of the file go.
pub open spec fn lines_gone(orig: Seq<Seq<char>>, marks: Set<usize>) -> Seq<OpView> {
    marked_ops(marks, line_gone(), orig.len())
}

/// The marked lines of the file go, with the blocks that they start.
pub open spec fn blocks_gone(orig: Seq<Seq<char>>, marks: Set<usize>) -> Seq<OpView> {
    marked_ops(marks, whole_block_gone(orig), orig.len())
}

/// Lets the marked lines go.
pub fn plan_lines_gone(orig: &Vec<String>, marks: &HashSet<usize>) -> (r: Vec<Op>)
    ensures
        r.deep_view() == lines_gone(orig.deep_view(), marks@),
{
    let n: usize = orig.len();
    let ghost f = line_gone();
    let mut r = no_ops();
    let mut i: usize = 0;
    while i < n
        invariant
            i <= n,
            f == line_gone(),
            r.deep_view() == marked_ops(marks@, f, i as nat),
        decreases n - i,
    {
        let ghost sofar = r.deep_view();
        if marks.contains(&(i + 1)) {
            push_op(&mut r, Op::Delete(i));
        } else {
            proof {
                assert(sofar =~= sofar + Seq::<OpView>::empty());
            }
        }
        i += 1;
    }
    r
}

/// Lets the marked lines go, with the blocks that they start.
pub fn plan_blocks_gone(orig: &Vec<String>, marks: &HashSet<usize>) -> (r: Vec<Op>)
    ensures
        r.deep_view() == blocks_gone(orig.deep_view(), marks@),
{
    let n: usize = orig.len();
    let ghost f = whole_block_gone(orig.deep_view());
    let mut r = no_ops();
    let mut i: usize = 0;
    while i < n
        invariant
            i <= n == orig@.len(),
            f == whole_block_gone(orig.deep_view()),
            r.deep_view() == marked_ops(marks@, f, i as nat),
        decreases n - i,
    {
        let ghost sofar = r.deep_view();
        if marks.contains(&(i + 1)) {
            add_block_gone(&mut r, orig, i + 1);
        } else {
            proof {
                assert(sofar =~= sofar + Seq::<OpView>::empty());
            }
        }
        i += 1;
    }
    r
}

/// What the edits of single lines do to the first `n` lines.
pub open spec fn single_ops(orig: Seq<Seq<char>>, edits: Map<usize, LineEditView>, n: nat) -> Seq<OpView>
    decreases n,
{
    if n == 0 {
        seq![]
    } else {
        single_ops(orig, edits, (n - 1) as nat) + if edits.contains_key(n as usize) {
            line_ops(orig, Some(n as usize), edits[n as usize], 0, seq![])
        } else {
            seq![]
        }
    }
}

fn plan_singles(orig: &Vec<String>, edits: &HashMap<usize, LineEdit>) -> (r: Vec<Op>)
    ensures
        r.deep_view() == single_ops(orig.deep_view(), single_edits(*edits), orig@.len()),
{
    let n: usize = orig.len();
    let mut r = no_ops();
    let mut i: usize = 0;
    while i < n
        invariant
            i <= n == orig@.len(),
            r.deep_view() == single_ops(orig.deep_view(), single_edits(*edits), i as nat),
        decreases n - i,
    {
        let ghost sofar = r.deep_view();
        match single_at(edits, i + 1) {
            Some(e) => {
                add_line_ops(&mut r, orig, Some(i + 1), e, 0, "");
                proof {
                    reveal_strlit("");
                    assert(""@ =~= Seq::<char>::empty());
                }
            },
            None => {
                proof {
                    assert(sofar =~= sofar + Seq::<OpView>::empty());
                }
            },
        }
        i += 1;
    }
    r
}

/// What the edits of the properties of the RIF do, up to the `n`-th property.
pub open spec fn rif_prop_ops(
    orig: Seq<Seq<char>>,
    r: RifDefView,
    e: PendingEditsView,
    line: usize,
    n: int,
) -> Seq<OpView>
    decreases n,
{
    if n <= 0 {
        seq![]
    } else {
        rif_prop_ops(orig, r, e, line, n - 1) + line_ops(
            orig,
            r.src.prop_lines[n - 1],
            e.rif_prop_edits[n - 1],
            line as int,
            indent_below(orig, line),
        )
    }
}

/// Where the lines of the clocks of a group go: behind its clock line, or else behind the
/// declaration.
pub open spec fn clock_anchor(r: RifDefView, hw: bool, line: usize) -> usize {
    match if hw {
        r.src.prop_lines[7]
    } else {
        r.src.prop_lines[4]
    } {
        Some(l) => l,
        None => line,
    }
}

/// What the edits of the clock lines do.
pub open spec fn clock_ops(orig: Seq<Seq<char>>, r: RifDefView, e: PendingEditsView, line: usize) -> Seq<
    OpView,
> {
    let indent = indent_below(orig, line);
    let sw = clock_anchor(r, false, line) as int;
    let hw = clock_anchor(r, true, line) as int;
    line_ops(orig, r.src.prop_lines[4], e.rif_clock_line_edits[0], line as int, indent) + line_ops(
        orig,
        r.src.prop_lines[7],
        e.rif_clock_line_edits[1],
        line as int,
        indent,
    ) + line_ops(orig, r.src.prop_lines[5], e.rif_clock_line_edits[2], sw, indent) + line_ops(
        orig,
        r.src.prop_lines[8],
        e.rif_clock_line_edits[3],
        hw,
        indent,
    ) + line_ops(orig, r.src.prop_lines[6], e.rif_clock_line_edits[4], sw, indent) + line_ops(
        orig,
        r.src.prop_lines[9],
        e.rif_clock_line_edits[5],
        hw,
        indent,
    )
}

/// New reset lines, where there are any. They stand behind the clock line, since a reset belongs
/// to the clock that was named before it.
pub open spec fn reset_ops(new_lines: Option<Seq<Seq<char>>>, at: int, indent: Seq<char>) -> Seq<OpView> {
    match new_lines {
        Some(ls) if ls.len() > 0 => seq![OpView::Insert(at, indented(ls, indent))],
        _ => seq![],
    }
}

/// The largest of the first `n` lines.
pub open spec fn largest_line(ls: Seq<NamedLineView>, n: int) -> Option<usize>
    decreases n,
{
    if n <= 0 {
        None
    } else {
        match largest_line(ls, n - 1) {
            Some(m) if m >= ls[n - 1].line => Some(m),
            _ => Some(ls[n - 1].line),
        }
    }
}

/// New rows of a table: behind the last row, or behind the header; otherwise behind the
/// declaration, with a header of their own.
pub open spec fn row_ops(
    orig: Seq<Seq<char>>,
    rows: Seq<Seq<char>>,
    lines: Seq<NamedLineView>,
    header_line: Option<usize>,
    header: Seq<char>,
    line: usize,
) -> Seq<OpView> {
    let indent = indent_below(orig, line);
    let new_lines = indented(rows, indent + "  "@);
    let anchor = match largest_line(lines, lines.len() as int) {
        Some(l) => Some(l),
        None => header_line,
    };
    if rows.len() == 0 {
        seq![]
    } else {
        match anchor {
            Some(l) if in_file(l, orig.len()) => seq![OpView::Insert(l as int, new_lines)],
            _ => seq![OpView::Insert(line as int, seq![indent + header] + new_lines)],
        }
    }
}

/// The declaration of the RIF, where it changed.
pub open spec fn rif_decl_ops(r: RifDefView, e: PendingEditsView, line: usize) -> Seq<OpView> {
    if e.rif_dirty.contains(line) {
        seq![OpView::Replace(line - 1, rif_decl(r.name))]
    } else {
        seq![]
    }
}

/// The description of the RIF, where it changed.
pub open spec fn rif_desc_ops(orig: Seq<Seq<char>>, r: RifDefView, e: PendingEditsView, line: usize) -> Seq<
    OpView,
> {
    match e.rif_desc_block_edits {
        Some(b) => block_ops(orig, r.src.desc_block, b, line as int, indent_below(orig, line)),
        None => seq![],
    }
}

/// What the edits of parameters and generics do.
pub open spec fn table_ops(orig: Seq<Seq<char>>, r: RifDefView, e: PendingEditsView, line: usize) -> Seq<
    OpView,
> {
    single_ops(orig, e.rif_param_edits, orig.len()) + row_ops(
        orig,
        e.rif_param_inserts,
        r.src.param_lines,
        r.src.params_header_line,
        "parameters :"@,
        line,
    ) + single_ops(orig, e.rif_generic_edits, orig.len()) + row_ops(
        orig,
        e.rif_generic_inserts,
        r.src.generic_lines,
        r.src.generics_header_line,
        "generics :"@,
        line,
    )
}

/// What the edits of a RIF as a whole do, where its declaration is in the file.
pub open spec fn rif_ops(orig: Seq<Seq<char>>, r: RifDefView, e: PendingEditsView) -> Seq<OpView> {
    match r.src.decl_line {
        Some(line) => if in_file(line, orig.len()) {
            rif_decl_ops(r, e, line) + rif_prop_ops(orig, r, e, line, 10) + rif_desc_ops(orig, r, e, line)
                + clock_ops(orig, r, e, line) + lines_gone(orig, e.rif_reset_deleted) + reset_ops(
                e.rif_reset_sw,
                clock_anchor(r, false, line) as int,
                indent_below(orig, line),
            ) + reset_ops(
                e.rif_reset_hw,
                clock_anchor(r, true, line) as int,
                indent_below(orig, line),
            ) + table_ops(orig, r, e, line)
        } else {
            seq![]
        },
        None => seq![],
    }
}

fn plan_rif_props(orig: &Vec<String>, rif: &RifDef, e: &PendingEdits, line: usize, indent: &str) -> (r: Vec<Op>)
    requires
        e@.wf(),
        indent@ == indent_below(orig.deep_view(), line),
    ensures
        r.deep_view() == rif_prop_ops(orig.deep_view(), rif@, e@, line, 10),
{
    let mut r = no_ops();
    let mut i: usize = 0;
    while i < 10
        invariant
            i <= 10,
            e@.wf(),
            e.rif_prop_edits@.len() == 10,
            indent@ == indent_below(orig.deep_view(), line),
            r.deep_view() == rif_prop_ops(orig.deep_view(), rif@, e@, line, i as int),
        decreases 10 - i,
    {
        proof {
            assert(e@.rif_prop_edits[i as int] == e.rif_prop_edits@[i as int]@);
        }
        add_line_ops(&mut r, orig, rif.src.prop_lines[i], &e.rif_prop_edits[i], line, indent);
        i += 1;
    }
    r
}

fn anchor_of(rif: &RifDef, hw: bool, line: usize) -> (r: usize)
    ensures
        r == clock_anchor(rif@, hw, line),
{
    let l = if hw {
        rif.src.prop_lines[7]
    } else {
        rif.src.prop_lines[4]
    };
    match l {
        Some(l) => l,
        None => line,
    }
}

fn plan_clocks(orig: &Vec<String>, rif: &RifDef, e: &PendingEdits, line: usize, indent: &str) -> (r: Vec<Op>)
    requires
        e@.wf(),
        indent@ == indent_below(orig.deep_view(), line),
    ensures
        r.deep_view() == clock_ops(orig.deep_view(), rif@, e@, line),
{
    let sw: usize = anchor_of(rif, false, line);
    let hw: usize = anchor_of(rif, true, line);
    let edits = &e.rif_clock_line_edits;
    let lines = &rif.src.prop_lines;
    proof {
        assert(edits@.len() == 6);
        assert forall|k: int| 0 <= k < 6 implies #[trigger] e@.rif_clock_line_edits[k] == edits@[k]@ by {}
    }
    let mut r = no_ops();
    add_line_ops(&mut r, orig, lines[4], &edits[0], line, indent);
    proof {
        let first_ops = line_ops(
            orig.deep_view(),
            rif@.src.prop_lines[4],
            e@.rif_clock_line_edits[0],
            line as int,
            indent@,
        );
        assert(r.deep_view() =~= first_ops);
    }
    add_line_ops(&mut r, orig, lines[7], &edits[1], line, indent);
    add_line_ops(&mut r, orig, lines[5], &edits[2], sw, indent);
    add_line_ops(&mut r, orig, lines[8], &edits[3], hw, indent);
    add_line_ops(&mut r, orig, lines[6], &edits[4], sw, indent);
    add_line_ops(&mut r, orig, lines[9], &edits[5], hw, indent);
    r
}

fn plan_resets(new_lines: &Option<Vec<String>>, at: usize, indent: &str) -> (r: Vec<Op>)
    ensures
        r.deep_view() == reset_ops(new_lines.deep_view(), at as int, indent@),
{
    let mut r = no_ops();
    if let Some(ls) = new_lines {
        if ls.len() > 0 {
            insert_lines(&mut r, at, indent_lines(ls, indent));
            proof {
                assert(r.deep_view() =~= reset_ops(new_lines.deep_view(), at as int, indent@));
            }
        }
    }
    r
}

fn last_line(ls: &Vec<NamedLine>) -> (r: Option<usize>)
    ensures
        r == largest_line(ls.deep_view(), ls@.len() as int),
{
    let ghost s = ls.deep_view();
    let mut m: Option<usize> = None;
    let mut i: usize = 0;
    while i < ls.len()
        invariant
            i <= ls@.len(),
            s == ls.deep_view(),
            m == largest_line(s, i as int),
        decreases ls@.len() - i,
    {
        proof {
            assert(s[i as int] == ls@[i as int]@);
        }
        let keep = match m {
            Some(x) => x >= ls[i].line,
            None => false,
        };
        if !keep {
            m = Some(ls[i].line);
        }
        i += 1;
    }
    m
}

fn plan_rows(
    orig: &Vec<String>,
    rows: &Vec<String>,
    lines: &Vec<NamedLine>,
    header_line: Option<usize>,
    header: &str,
    line: usize,
    indent: &str,
) -> (r: Vec<Op>)
    requires
        indent@ == indent_below(orig.deep_view(), line),
    ensures
        r.deep_view() == row_ops(
            orig.deep_view(),
            rows.deep_view(),
            lines.deep_view(),
            header_line,
            header@,
            line,
        ),
{
    let mut r = no_ops();
    if rows.len() == 0 {
        return r;
    }
    let inner = join(indent, "  ");
    let new_lines = indent_lines(rows, inner.as_str());
    let anchor = match last_line(lines) {
        Some(l) => Some(l),
        None => header_line,
    };
    let good: Option<usize> = match anchor {
        Some(l) => if is_in_file(l, orig.len()) {
            Some(l)
        } else {
            None
        },
        None => None,
    };
    match good {
        Some(l) => {
            insert_lines(&mut r, l, new_lines);
        },
        None => {
            let mut all: Vec<String> = Vec::new();
            all.push(join(indent, header));
            proof {
                assert(all.deep_view() =~= seq![indent@ + header@]);
            }
            extend_lines(&mut all, new_lines);
            insert_lines(&mut r, line, all);
        },
    }
    proof {
        assert(r.deep_view() =~= row_ops(
            orig.deep_view(),
            rows.deep_view(),
            lines.deep_view(),
            header_line,
            header@,
            line,
        ));
    }
    r
}

fn plan_tables(orig: &Vec<String>, rif: &RifDef, e: &PendingEdits, line: usize, indent: &str) -> (r: Vec<Op>)
    requires
        indent@ == indent_below(orig.deep_view(), line),
    ensures
        r.deep_view() == table_ops(orig.deep_view(), rif@, e@, line),
{
    let mut r = plan_singles(orig, &e.rif_param_edits);
    extend_ops(
        &mut r,
        plan_rows(
            orig,
            &e.rif_param_inserts,
            &rif.src.param_lines,
            rif.src.params_header_line,
            "parameters :",
            line,
            indent,
        ),
    );
    extend_ops(&mut r, plan_singles(orig, &e.rif_generic_edits));
    extend_ops(
        &mut r,
        plan_rows(
            orig,
            &e.rif_generic_inserts,
            &rif.src.generic_lines,
            rif.src.generics_header_line,
            "generics :",
            line,
            indent,
        ),
    );
    r
}

fn plan_rif_decl(rif: &RifDef, e: &PendingEdits, line: usize) -> (r: Vec<Op>)
    requires
        line >= 1,
    ensures
        r.deep_view() == rif_decl_ops(rif@, e@, line),
{
    let mut r = no_ops();
    if e.rif_dirty.contains(&line) {
        push_op(&mut r, Op::Replace(line - 1, show_rif_decl(rif.name.as_str())));
        proof {
            assert(r.deep_view() =~= rif_decl_ops(rif@, e@, line));
        }
    }
    r
}

fn plan_rif_desc(orig: &Vec<String>, rif: &RifDef, e: &PendingEdits, line: usize, indent: &str) -> (r: Vec<Op>)
    requires
        indent@ == indent_below(orig.deep_view(), line),
    ensures
        r.deep_view() == rif_desc_ops(orig.deep_view(), rif@, e@, line),
{
    let mut r = no_ops();
    if let Some(b) = &e.rif_desc_block_edits {
        reconcile_desc_block(&mut r, orig, rif.src.desc_block, b, line, indent);
        proof {
            assert(r.deep_view() =~= rif_desc_ops(orig.deep_view(), rif@, e@, line));
        }
    }
    r
}

/// Plans the changes to the lines that belong to a RIF as a whole.
pub fn plan_rif(orig: &Vec<String>, rif: &RifDef, e: &PendingEdits) -> (r: Vec<Op>)
    requires
        e@.wf(),
    ensures
        r.deep_view() == rif_ops(orig.deep_view(), rif@, e@),
{
    let line: usize = match rif.src.decl_line {
        Some(l) => l,
        None => {
            return no_ops();
        },
    };
    if !is_in_file(line, orig.len()) {
        return no_ops();
    }
    let indent = indent_under(orig, line);
    let mut r = plan_rif_decl(rif, e, line);
    extend_ops(&mut r, plan_rif_props(orig, rif, e, line, indent.as_str()));
    extend_ops(&mut r, plan_rif_desc(orig, rif, e, line, indent.as_str()));
    extend_ops(&mut r, plan_clocks(orig, rif, e, line, indent.as_str()));
    extend_ops(&mut r, plan_lines_gone(orig, &e.rif_reset_deleted));
    extend_ops(&mut r, plan_resets(&e.rif_reset_sw, anchor_of(rif, false, line), indent.as_str()));
    extend_ops(&mut r, plan_resets(&e.rif_reset_hw, anchor_of(rif, true, line), indent.as_str()));
    extend_ops(&mut r, plan_tables(orig, rif, e, line, indent.as_str()));
    r
}

} // verus!
