//! Changes to the lines of a file.
use vstd::prelude::*;
use crate::edits::{BlockEdit, BlockEditView, LineEdit, LineEditView};
use crate::lines::{extend_lines, indent_lines, indented, push_line};
use crate::text::{from_chars, is_blank, is_white, join, to_chars, trimmed, white};

verus! {

/// One change to a file. Lines are counted from zero, in the file as it was read, so that no
/// change moves the place of another one.
#[derive(Debug)]
pub enum Op {
    /// Another text for a line.
    Replace(usize, String),
    /// A line less.
    Delete(usize),
    /// New lines in front of a line, or at the end.
    Insert(usize, Vec<String>),
}

/// The value of an [`Op`].
pub enum OpView {
    Replace(int, Seq<char>),
    Delete(int),
    Insert(int, Seq<Seq<char>>),
}

impl DeepView for Op {
    type V = OpView;

    open spec fn deep_view(&self) -> OpView {
        match self {
            Op::Replace(i, t) => OpView::Replace(*i as int, t@),
            Op::Delete(i) => OpView::Delete(*i as int),
            Op::Insert(i, ls) => OpView::Insert(*i as int, ls.deep_view()),
        }
    }
}

impl View for Op {
    type V = OpView;

    open spec fn view(&self) -> OpView {
        self.deep_view()
    }
}

/// The lines that the first `n` changes put in front of line `i`, in order.
pub open spec fn inserted(ops: Seq<OpView>, i: int, n: int) -> Seq<Seq<char>>
    decreases n,
{
    if n <= 0 {
        seq![]
    } else {
        match ops[n - 1] {
            OpView::Insert(k, ls) if k == i => inserted(ops, i, n - 1) + ls,
            _ => inserted(ops, i, n - 1),
        }
    }
}

/// Whether one of the first `n` changes takes line `i` away.
pub open spec fn removed(ops: Seq<OpView>, i: int, n: int) -> bool
    decreases n,
{
    n > 0 && (ops[n - 1] == OpView::Delete(i) || removed(ops, i, n - 1))
}

/// The last text that the first `n` changes give to line `i`.
pub open spec fn replaced(ops: Seq<OpView>, i: int, n: int) -> Option<Seq<char>>
    decreases n,
{
    if n <= 0 {
        None
    } else {
        match ops[n - 1] {
            OpView::Replace(k, t) if k == i => Some(t),
            _ => replaced(ops, i, n - 1),
        }
    }
}

/// What becomes of line `i`, with the lines in front of it.
pub open spec fn piece(orig: Seq<Seq<char>>, ops: Seq<OpView>, i: int) -> Seq<Seq<char>> {
    let n = ops.len() as int;
    let kept = if removed(ops, i, n) {
        Seq::<Seq<char>>::empty()
    } else {
        match replaced(ops, i, n) {
            Some(t) => seq![t],
            None => seq![orig[i]],
        }
    };
    inserted(ops, i, n) + kept
}

/// What becomes of the first `n` lines.
pub open spec fn pieces(orig: Seq<Seq<char>>, ops: Seq<OpView>, n: int) -> Seq<Seq<char>>
    decreases n,
{
    if n <= 0 {
        seq![]
    } else {
        pieces(orig, ops, n - 1) + piece(orig, ops, n - 1)
    }
}

/// The lines of the file after all changes.
pub open spec fn rebuilt(orig: Seq<Seq<char>>, ops: Seq<OpView>) -> Seq<Seq<char>> {
    pieces(orig, ops, orig.len() as int) + inserted(ops, orig.len() as int, ops.len() as int)
}

/// Whether a change is about line `i`.
pub open spec fn touches(op: OpView, i: int) -> bool {
    match op {
        OpView::Replace(k, _) => k == i,
        OpView::Delete(k) => k == i,
        OpView::Insert(k, _) => k == i,
    }
}

proof fn lemma_untouched(ops: Seq<OpView>, i: int, n: int)
    requires
        0 <= n <= ops.len(),
        forall|k: int| 0 <= k < ops.len() ==> !touches(#[trigger] ops[k], i),
    ensures
        inserted(ops, i, n) == Seq::<Seq<char>>::empty(),
        !removed(ops, i, n),
        replaced(ops, i, n) is None,
    decreases n,
{
    if n > 0 {
        lemma_untouched(ops, i, n - 1);
        assert(!touches(ops[n - 1], i));
    }
}

/// A line that no change is about stays as it is, with nothing in front of it.
pub proof fn untouched_line_is_kept(orig: Seq<Seq<char>>, ops: Seq<OpView>, i: int)
    requires
        0 <= i < orig.len(),
        forall|k: int| 0 <= k < ops.len() ==> !touches(#[trigger] ops[k], i),
    ensures
        piece(orig, ops, i) == seq![orig[i]],
{
    lemma_untouched(ops, i, ops.len() as int);
    assert(piece(orig, ops, i) =~= seq![orig[i]]);
}

proof fn lemma_all_kept(orig: Seq<Seq<char>>, n: int)
    requires
        0 <= n <= orig.len(),
    ensures
        pieces(orig, seq![], n) == orig.take(n),
    decreases n,
{
    if n > 0 {
        lemma_all_kept(orig, n - 1);
        untouched_line_is_kept(orig, seq![], n - 1);
        assert(orig.take(n - 1) + seq![orig[n - 1]] =~= orig.take(n));
    } else {
        assert(orig.take(0) =~= Seq::<Seq<char>>::empty());
    }
}

/// Without changes the file stays as it is.
pub proof fn no_change_keeps_file(orig: Seq<Seq<char>>)
    ensures
        rebuilt(orig, seq![]) == orig,
{
    lemma_all_kept(orig, orig.len() as int);
    assert(rebuilt(orig, seq![]) =~= orig);
}

fn copy_all(ls: &Vec<String>) -> (r: Vec<String>)
    ensures
        r.deep_view() == ls.deep_view(),
{
    let r = ls.clone();
    proof {
        assert(r.deep_view() =~= ls.deep_view());
    }
    r
}

/// Makes the changes.
pub fn rebuild(orig: &Vec<String>, ops: Vec<Op>) -> (r: Vec<String>)
    ensures
        r.deep_view() == rebuilt(orig.deep_view(), ops.deep_view()),
{
    let ghost all = ops.deep_view();
    let ghost lines = orig.deep_view();
    let n: usize = orig.len();
    let mut ins: Vec<Vec<String>> = Vec::new();
    let mut gone: Vec<bool> = Vec::new();
    let mut texts: Vec<Option<String>> = Vec::new();
    let mut tail: Vec<String> = Vec::new();
    let mut i: usize = 0;
    while i < n
        invariant
            i <= n,
            ins@.len() == i,
            gone@.len() == i,
            texts@.len() == i,
            forall|k: int| 0 <= k < i ==> (#[trigger] ins@[k])@.len() == 0,
            forall|k: int| 0 <= k < i ==> !(#[trigger] gone@[k]),
            forall|k: int| 0 <= k < i ==> (#[trigger] texts@[k]) is None,
        decreases n - i,
    {
        ins.push(Vec::new());
        gone.push(false);
        texts.push(None);
        i += 1;
    }
    proof {
        assert(tail.deep_view() =~= inserted(all, n as int, 0));
        assert forall|k: int| 0 <= k < n implies (#[trigger] ins@[k]).deep_view() == inserted(all, k, 0) by {
            assert(ins@[k].deep_view() =~= inserted(all, k, 0));
        }
    }
    let mut j: usize = 0;
    while j < ops.len()
        invariant
            j <= ops@.len(),
            all == ops.deep_view(),
            ins@.len() == n,
            gone@.len() == n,
            texts@.len() == n,
            tail.deep_view() == inserted(all, n as int, j as int),
            forall|k: int| 0 <= k < n ==> (#[trigger] ins@[k]).deep_view() == inserted(all, k, j as int),
            forall|k: int| 0 <= k < n ==> (#[trigger] gone@[k]) == removed(all, k, j as int),
            forall|k: int|
                0 <= k < n ==> (#[trigger] texts@[k]).deep_view() == replaced(all, k, j as int),
        decreases ops@.len() - j,
    {
        proof {
            assert(all[j as int] == ops@[j as int]@);
        }
        let ghost (ins0, gone0, texts0) = (ins@, gone@, texts@);
        match &ops[j] {
            Op::Replace(at, t) => {
                if *at < n {
                    texts[*at] = Some(t.clone());
                }
            },
            Op::Delete(at) => {
                if *at < n {
                    gone[*at] = true;
                }
            },
            Op::Insert(at, ls) => {
                if *at < n {
                    let mut here = copy_all(&ins[*at]);
                    extend_lines(&mut here, copy_all(ls));
                    ins[*at] = here;
                } else if *at == n {
                    extend_lines(&mut tail, copy_all(ls));
                }
            },
        }
        proof {
            assert forall|k: int| 0 <= k < n implies (#[trigger] ins@[k]).deep_view() == inserted(
                all,
                k,
                j + 1,
            ) by {
                assert(ins0[k].deep_view() == inserted(all, k, j as int));
            }
            assert forall|k: int| 0 <= k < n implies (#[trigger] gone@[k]) == removed(all, k, j + 1) by {
                assert(gone0[k] == removed(all, k, j as int));
            }
            assert forall|k: int| 0 <= k < n implies (#[trigger] texts@[k]).deep_view() == replaced(
                all,
                k,
                j + 1,
            ) by {
                assert(texts0[k].deep_view() == replaced(all, k, j as int));
            }
        }
        j += 1;
    }
    let mut out: Vec<String> = Vec::new();
    proof {
        assert(out.deep_view() =~= pieces(lines, all, 0));
    }
    let mut i: usize = 0;
    while i < n
        invariant
            i <= n == orig@.len(),
            all == ops.deep_view(),
            lines == orig.deep_view(),
            ins@.len() == n,
            gone@.len() == n,
            texts@.len() == n,
            forall|k: int|
                0 <= k < n ==> (#[trigger] ins@[k]).deep_view() == inserted(all, k, all.len() as int),
            forall|k: int| 0 <= k < n ==> (#[trigger] gone@[k]) == removed(all, k, all.len() as int),
            forall|k: int|
                0 <= k < n ==> (#[trigger] texts@[k]).deep_view() == replaced(all, k, all.len() as int),
            out.deep_view() == pieces(lines, all, i as int),
        decreases n - i,
    {
        let ghost sofar = out.deep_view();
        proof {
            assert(lines[i as int] == orig@[i as int]@);
        }
        extend_lines(&mut out, copy_all(&ins[i]));
        if !gone[i] {
            match &texts[i] {
                Some(t) => {
                    push_line(&mut out, t.clone());
                },
                None => {
                    push_line(&mut out, orig[i].clone());
                },
            }
        }
        proof {
            assert(texts@[i as int].deep_view() == replaced(all, i as int, all.len() as int));
            assert(gone@[i as int] == removed(all, i as int, all.len() as int));
            assert(out.deep_view() =~= sofar + piece(lines, all, i as int));
        }
        i += 1;
    }
    extend_lines(&mut out, tail);
    out
}

/// White space that indents a line.
pub open spec fn is_indent(c: char) -> bool {
    is_white(c) && c != '\n' && c != '\r'
}

/// The end of the indentation, from `i` on.
pub open spec fn indent_end(s: Seq<char>, i: int) -> int
    decreases s.len() - i,
{
    if 0 <= i < s.len() && is_indent(s[i]) {
        indent_end(s, i + 1)
    } else {
        i
    }
}

/// The indentation of a line.
pub open spec fn indentation(s: Seq<char>) -> Seq<char> {
    s.take(indent_end(s, 0))
}

proof fn lemma_indent_end(s: Seq<char>, i: int)
    requires
        0 <= i <= s.len(),
    ensures
        i <= indent_end(s, i) <= s.len(),
    decreases s.len() - i,
{
    if i < s.len() && is_indent(s[i]) {
        lemma_indent_end(s, i + 1);
    }
}

/// The indentation of a line.
pub fn leading_ws(s: &str) -> (r: String)
    ensures
        r@ == indentation(s@),
{
    let cs = to_chars(s);
    let mut i: usize = 0;
    while i < cs.len() && white(cs[i]) && cs[i] != '\n' && cs[i] != '\r'
        invariant
            i <= cs@.len(),
            cs@ == s@,
            indent_end(s@, 0) == indent_end(s@, i as int),
        decreases cs@.len() - i,
    {
        i += 1;
    }
    let r = from_chars(&cs, 0, i);
    proof {
        assert(r@ =~= indentation(s@));
    }
    r
}

/// Bytes that a character takes in UTF-8.
pub open spec fn char_bytes(c: char) -> nat {
    if (c as u32) < 0x80 {
        1
    } else if (c as u32) < 0x800 {
        2
    } else if (c as u32) < 0x10000 {
        3
    } else {
        4
    }
}

/// Bytes that a text takes in UTF-8.
pub open spec fn text_bytes(s: Seq<char>) -> nat
    decreases s.len(),
{
    if s.len() == 0 {
        0
    } else {
        text_bytes(s.drop_last()) + char_bytes(s.last())
    }
}

/// The width of the indentation of a line, in bytes.
pub open spec fn indent_width(s: Seq<char>) -> nat {
    text_bytes(indentation(s))
}

fn width_of_indent(s: &str) -> (r: u128)
    ensures
        r == indent_width(s@),
{
    let cs = to_chars(leading_ws(s).as_str());
    let ghost t = indentation(s@);
    let mut w: u128 = 0;
    let n: usize = cs.len();
    let mut i: usize = 0;
    proof {
        assert(t.take(0) =~= Seq::<char>::empty());
    }
    while i < n
        invariant
            i <= n == cs@.len(),
            cs@ == t,
            w == text_bytes(t.take(i as int)),
            w <= 4 * i,
        decreases n - i,
    {
        let c: u32 = cs[i] as u32;
        let b: u128 = if c < 0x80 {
            1
        } else if c < 0x800 {
            2
        } else if c < 0x10000 {
            3
        } else {
            4
        };
        proof {
            assert(t.take(i + 1).drop_last() =~= t.take(i as int));
        }
        w = w + b;
        i += 1;
    }
    proof {
        assert(t.take(n as int) =~= t);
    }
    w
}

/// The last line of a block, looked for from line `i` on: every line that is indented more than
/// `width` belongs to it. Blank lines do not end it.
pub open spec fn block_last_from(lines: Seq<Seq<char>>, width: nat, i: int, last: int) -> int
    decreases lines.len() - i,
{
    if i < 0 || i >= lines.len() {
        last
    } else if trimmed(lines[i]).len() == 0 {
        block_last_from(lines, width, i + 1, last)
    } else if indent_width(lines[i]) > width {
        block_last_from(lines, width, i + 1, i)
    } else {
        last
    }
}

/// The last line of the block that line `i` starts.
pub open spec fn block_last(lines: Seq<Seq<char>>, i: int) -> int {
    block_last_from(lines, indent_width(lines[i]), i + 1, i)
}

proof fn lemma_block_last_from(lines: Seq<Seq<char>>, width: nat, i: int, last: int)
    requires
        0 <= last < i,
        last < lines.len(),
    ensures
        last <= block_last_from(lines, width, i, last) < lines.len(),
    decreases lines.len() - i,
{
    if i < lines.len() {
        if trimmed(lines[i]).len() == 0 {
            lemma_block_last_from(lines, width, i + 1, last);
        } else if indent_width(lines[i]) > width {
            lemma_block_last_from(lines, width, i + 1, i);
        }
    }
}

/// A block ends within the file, and not before it starts.
pub proof fn lemma_block_last(lines: Seq<Seq<char>>, i: int)
    requires
        0 <= i < lines.len(),
    ensures
        i <= block_last(lines, i) < lines.len(),
{
    lemma_block_last_from(lines, indent_width(lines[i]), i + 1, i);
}

/// The last line of the block that a line starts.
pub fn field_block_last_idx(lines: &Vec<String>, decl_idx: usize) -> (r: usize)
    requires
        decl_idx < lines@.len(),
    ensures
        r == block_last(lines.deep_view(), decl_idx as int),
        decl_idx <= r < lines@.len(),
{
    let ghost s = lines.deep_view();
    proof {
        lemma_block_last(s, decl_idx as int);
        assert(s[decl_idx as int] == lines@[decl_idx as int]@);
    }
    let n: usize = lines.len();
    let width: u128 = width_of_indent(lines[decl_idx].as_str());
    let mut last: usize = decl_idx;
    let mut i: usize = decl_idx + 1;
    while i < lines.len()
        invariant
            decl_idx <= last < i <= lines@.len(),
            s == lines.deep_view(),
            width == indent_width(s[decl_idx as int]),
            block_last(s, decl_idx as int) == block_last_from(s, width as nat, i as int, last as int),
        decreases lines@.len() - i,
    {
        proof {
            assert(s[i as int] == lines@[i as int]@);
        }
        if !is_blank(lines[i].as_str()) {
            if width_of_indent(lines[i].as_str()) > width {
                last = i;
            } else {
                return last;
            }
        }
        i += 1;
    }
    last
}

/// Whether a line number is one of the file. Line numbers start at one.
pub open spec fn in_file(line: usize, n: nat) -> bool {
    1 <= line <= n
}

/// The indentation of a line of the file.
pub open spec fn indent_at(orig: Seq<Seq<char>>, line: usize) -> Seq<char> {
    indentation(orig[line - 1])
}

/// The indentation of what belongs to a line of the file.
pub open spec fn indent_below(orig: Seq<Seq<char>>, line: usize) -> Seq<char> {
    indent_at(orig, line) + "  "@
}

/// What an edit does to the line of a property. Where the property has a line, it is written
/// anew or taken away; where it has none, one is put at `at`.
pub open spec fn line_ops(
    orig: Seq<Seq<char>>,
    existing: Option<usize>,
    e: LineEditView,
    at: int,
    indent: Seq<char>,
) -> Seq<OpView> {
    match (existing, e) {
        (Some(line), LineEditView::Write(t)) => if in_file(line, orig.len()) {
            seq![OpView::Replace(line - 1, indent_at(orig, line) + t)]
        } else {
            seq![]
        },
        (Some(line), LineEditView::Remove) => if in_file(line, orig.len()) {
            seq![OpView::Delete(line - 1)]
        } else {
            seq![]
        },
        (None, LineEditView::Write(t)) => seq![OpView::Insert(at, seq![indent + t])],
        _ => seq![],
    }
}

/// The lines from `from` up to `to` go.
pub open spec fn delete_ops(from: int, to: int) -> Seq<OpView> {
    Seq::new(
        if from < to {
            (to - from) as nat
        } else {
            0
        },
        |k: int| OpView::Delete(from + k),
    )
}

/// What an edit does to a description block. Where there is a block, it goes, and the new one
/// takes its place with the indentation that it had; where there is none, one is put at `at`.
pub open spec fn block_ops(
    orig: Seq<Seq<char>>,
    existing: Option<(usize, usize)>,
    e: BlockEditView,
    at: int,
    indent: Seq<char>,
) -> Seq<OpView> {
    match existing {
        Some((s, t)) => if in_file(s, orig.len()) && in_file(t, orig.len()) {
            delete_ops(s - 1, t as int) + match e {
                BlockEditView::Write(ls) => seq![
                    OpView::Insert(s - 1, indented(ls, indent_at(orig, s))),
                ],
                BlockEditView::Remove => seq![],
            }
        } else {
            seq![]
        },
        None => match e {
            BlockEditView::Write(ls) => seq![OpView::Insert(at, indented(ls, indent))],
            BlockEditView::Remove => seq![],
        },
    }
}

/// The block that a line starts goes.
pub open spec fn block_gone(orig: Seq<Seq<char>>, line: usize) -> Seq<OpView> {
    delete_ops(line - 1, block_last(orig, line - 1) + 1)
}

/// Appends a change.
pub fn push_op(ops: &mut Vec<Op>, op: Op)
    ensures
        final(ops).deep_view() == old(ops).deep_view() + seq![op@],
{
    ops.push(op);
    proof {
        assert(ops.deep_view() =~= old(ops).deep_view() + seq![op@]);
    }
}

/// Appends lines in front of a line.
pub fn insert_lines(ops: &mut Vec<Op>, at: usize, ls: Vec<String>)
    ensures
        final(ops).deep_view() == old(ops).deep_view() + seq![OpView::Insert(at as int, ls.deep_view())],
{
    push_op(ops, Op::Insert(at, ls));
}

/// Appends one line in front of a line.
pub fn insert_line(ops: &mut Vec<Op>, at: usize, t: String)
    ensures
        final(ops).deep_view() == old(ops).deep_view() + seq![OpView::Insert(at as int, seq![t@])],
{
    let mut ls: Vec<String> = Vec::new();
    ls.push(t);
    proof {
        assert(ls.deep_view() =~= seq![t@]);
    }
    push_op(ops, Op::Insert(at, ls));
}

fn keep_ops(ops: &Vec<Op>)
    ensures
        ops.deep_view() + Seq::<OpView>::empty() == ops.deep_view(),
{
    proof {
        assert(ops.deep_view() + Seq::<OpView>::empty() =~= ops.deep_view());
    }
}

/// Whether a line number is one of the file.
pub fn is_in_file(line: usize, n: usize) -> (r: bool)
    ensures
        r == in_file(line, n as nat),
{
    1 <= line && line <= n
}

/// The indentation of a line of the file.
pub fn indent_of(orig: &Vec<String>, line: usize) -> (r: String)
    requires
        in_file(line, orig@.len()),
    ensures
        r@ == indent_at(orig.deep_view(), line),
{
    proof {
        assert(orig.deep_view()[line - 1] == orig@[line - 1]@);
    }
    leading_ws(orig[line - 1].as_str())
}

/// The indentation of what belongs to a line of the file.
pub fn indent_under(orig: &Vec<String>, line: usize) -> (r: String)
    requires
        in_file(line, orig@.len()),
    ensures
        r@ == indent_below(orig.deep_view(), line),
{
    join(indent_of(orig, line).as_str(), "  ")
}

/// Adds what an edit does to the line of a property.
pub fn add_line_ops(
    ops: &mut Vec<Op>,
    orig: &Vec<String>,
    existing: Option<usize>,
    e: &LineEdit,
    at: usize,
    indent: &str,
)
    ensures
        final(ops).deep_view() == old(ops).deep_view() + line_ops(
            orig.deep_view(),
            existing,
            e@,
            at as int,
            indent@,
        ),
{
    match (existing, e) {
        (Some(line), LineEdit::Write(t)) => {
            if is_in_file(line, orig.len()) {
                let text = join(indent_of(orig, line).as_str(), t.as_str());
                push_op(ops, Op::Replace(line - 1, text));
            } else {
                keep_ops(ops);
            }
        },
        (Some(line), LineEdit::Remove) => {
            if is_in_file(line, orig.len()) {
                push_op(ops, Op::Delete(line - 1));
            } else {
                keep_ops(ops);
            }
        },
        (None, LineEdit::Write(t)) => {
            insert_line(ops, at, join(indent, t.as_str()));
        },
        _ => {
            keep_ops(ops);
        },
    }
}

/// Adds the deletion of the lines from `from` up to `to`.
pub fn add_delete_ops(ops: &mut Vec<Op>, from: usize, to: usize)
    ensures
        final(ops).deep_view() == old(ops).deep_view() + delete_ops(from as int, to as int),
{
    let ghost before = ops.deep_view();
    let ghost want = delete_ops(from as int, to as int);
    let mut i: usize = from;
    proof {
        assert(before + want.take(0) =~= before);
    }
    while i < to
        invariant
            from <= i,
            from <= to ==> i <= to,
            from > to ==> i == from,
            want == delete_ops(from as int, to as int),
            ops.deep_view() == before + want.take(i - from),
        decreases to - i,
    {
        push_op(ops, Op::Delete(i));
        proof {
            assert(want.take(i - from) + seq![OpView::Delete(i as int)] =~= want.take(i + 1 - from));
            assert(before + want.take(i - from) + seq![OpView::Delete(i as int)] =~= before + (want.take(
                i - from,
            ) + seq![OpView::Delete(i as int)]));
        }
        i += 1;
    }
    proof {
        assert(want.take(want.len() as int) =~= want);
    }
}

/// Adds what an edit does to a description block.
pub fn reconcile_desc_block(
    ops: &mut Vec<Op>,
    orig: &Vec<String>,
    existing: Option<(usize, usize)>,
    e: &BlockEdit,
    at: usize,
    indent: &str,
)
    ensures
        final(ops).deep_view() == old(ops).deep_view() + block_ops(
            orig.deep_view(),
            existing,
            e@,
            at as int,
            indent@,
        ),
{
    let ghost before = ops.deep_view();
    match existing {
        Some((s, t)) => {
            if is_in_file(s, orig.len()) && is_in_file(t, orig.len()) {
                add_delete_ops(ops, s - 1, t);
                let ghost mid = delete_ops(s - 1, t as int);
                match e {
                    BlockEdit::Write(ls) => {
                        let inner = indent_of(orig, s);
                        let text = indent_lines(ls, inner.as_str());
                        let ghost op = OpView::Insert(s - 1, text.deep_view());
                        insert_lines(ops, s - 1, text);
                        proof {
                            assert(before + mid + seq![op] =~= before + (mid + seq![op]));
                        }
                    },
                    BlockEdit::Remove => {
                        proof {
                            assert(before + mid =~= before + (mid + Seq::<OpView>::empty()));
                        }
                    },
                }
            } else {
                keep_ops(ops);
            }
        },
        None => match e {
            BlockEdit::Write(ls) => {
                insert_lines(ops, at, indent_lines(ls, indent));
            },
            BlockEdit::Remove => {
                keep_ops(ops);
            },
        },
    }
}

/// Adds the deletion of the block that a line starts.
pub fn add_block_gone(ops: &mut Vec<Op>, orig: &Vec<String>, line: usize)
    requires
        in_file(line, orig@.len()),
    ensures
        final(ops).deep_view() == old(ops).deep_view() + block_gone(orig.deep_view(), line),
{
    let n: usize = orig.len();
    let last: usize = field_block_last_idx(orig, line - 1);
    proof {
        assert(last < n);
    }
    add_delete_ops(ops, line - 1, last + 1);
}

/// Appends changes.
pub fn extend_ops(ops: &mut Vec<Op>, more: Vec<Op>)
    ensures
        final(ops).deep_view() == old(ops).deep_view() + more.deep_view(),
{
    let mut more = more;
    let ghost m = more.deep_view();
    ops.append(&mut more);
    proof {
        assert(ops.deep_view() =~= old(ops).deep_view() + m);
    }
}

/// No changes.
pub fn no_ops() -> (r: Vec<Op>)
    ensures
        r.deep_view() == Seq::<OpView>::empty(),
{
    let r: Vec<Op> = Vec::new();
    proof {
        assert(r.deep_view() =~= Seq::<OpView>::empty());
    }
    r
}

/// The changes for the first `n` elements of a sequence, in order.
pub open spec fn ops_of<T>(s: Seq<T>, f: spec_fn(T) -> Seq<OpView>, n: int) -> Seq<OpView>
    decreases n,
{
    if n <= 0 {
        seq![]
    } else {
        ops_of(s, f, n - 1) + f(s[n - 1])
    }
}

/// The lines for the first `n` elements of a sequence, in order.
pub open spec fn lines_of<T>(s: Seq<T>, f: spec_fn(T) -> Seq<Seq<char>>, n: int) -> Seq<Seq<char>>
    decreases n,
{
    if n <= 0 {
        seq![]
    } else {
        lines_of(s, f, n - 1) + f(s[n - 1])
    }
}

} // verus!
