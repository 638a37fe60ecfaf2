//! What an edit does to a field definition.
use vstd::prelude::*;
use crate::bridge::{field_decl, show_field_decl};
use crate::edits::{BlockEdit, BlockEditView, LineEdit, LineEditView, Record, RecordView};
use crate::lines::same_lines;
use crate::model::props::FieldProp;
use crate::model::register::{FieldDef, FieldDefView, FieldSrc};
use crate::model::values::{
    Desc, DescView, Dim, HwAcc, HwKind, IntrClear, IntrOvr, Reset, ResetView, SwKind, SwKindView, Trigger,
};
use crate::printed::{field_line, show_field_line};
use crate::syntax::{desc_block, short_desc, show_desc_block};
use crate::vals::{FieldVals, FieldValsView};

verus! {

/// The hardware behaviours that are no counter.
pub open spec fn without_counters(s: Seq<HwKind>) -> Seq<HwKind>
    decreases s.len(),
{
    if s.len() == 0 {
        seq![]
    } else if s.last() is Counter {
        without_counters(s.drop_last())
    } else {
        without_counters(s.drop_last()).push(s.last())
    }
}

/// The hardware behaviours that are counters.
pub open spec fn only_counters(s: Seq<HwKind>) -> Seq<HwKind>
    decreases s.len(),
{
    if s.len() == 0 {
        seq![]
    } else if s.last() is Counter {
        only_counters(s.drop_last()).push(s.last())
    } else {
        only_counters(s.drop_last())
    }
}

/// The field with the software and hardware kinds that go with interrupt settings. A missing
/// setting is left alone, but a field without a hardware kind becomes an interrupt anyway.
pub open spec fn as_interrupt(f: FieldDefView, value: IntrOvr) -> FieldDefView {
    let hw = if f.hw_kind.len() == 0 {
        seq![
            HwKind::Interrupt(
                match value.trigger {
                    Some(t) => t,
                    None => Trigger::High,
                },
            ),
        ]
    } else {
        match value.trigger {
            Some(t) => f.hw_kind.update(0, HwKind::Interrupt(t)),
            None => f.hw_kind,
        }
    };
    match value.clear {
        Some(IntrClear::Read) => FieldDefView { hw_kind: hw, sw_kind: SwKindView::ReadClr, ..f },
        Some(IntrClear::Write0) => FieldDefView { hw_kind: hw, sw_kind: SwKindView::W0Clr, ..f },
        Some(IntrClear::Write1) => FieldDefView { hw_kind: hw, sw_kind: SwKindView::W1Clr, ..f },
        Some(IntrClear::Hw) => FieldDefView { hw_kind: hw.push(HwKind::Clear), ..f },
        None => FieldDefView { hw_kind: hw, ..f },
    }
}

/// Interrupt settings, completed by those of the register.
pub open spec fn completed(value: IntrOvr, reg: IntrOvr) -> IntrOvr {
    IntrOvr {
        trigger: match value.trigger {
            Some(t) => Some(t),
            None => reg.trigger,
        },
        clear: match value.clear {
            Some(c) => Some(c),
            None => reg.clear,
        },
    }
}

/// The source position of an item whose description changes: a new short description moves to
/// the declaration line.
pub open spec fn described(src: FieldSrc, before: DescView, after: DescView) -> FieldSrc {
    FieldSrc {
        has_inline_desc: src.has_inline_desc || short_desc(after, false) != short_desc(before, false),
        ..src
    }
}

/// The reset values after an edit. A list of values does not outlive a change of the array.
pub open spec fn reset_after(f: FieldDefView, v: FieldValsView) -> Seq<ResetView> {
    match v.reset {
        Some(r) => seq![r],
        None => if f.array != v.array && f.reset.len() > 1 {
            f.reset.take(1)
        } else {
            f.reset
        },
    }
}

/// The field after an edit, but for the interrupt settings.
pub open spec fn edited(f: FieldDefView, v: FieldValsView) -> FieldDefView {
    let description = DescView { public: v.desc, ..f.description };
    FieldDefView {
        name: v.name,
        pos: v.pos,
        array: v.array,
        array_pos_incr: v.array_pos_incr,
        reset: reset_after(f, v),
        signed: v.signed,
        description,
        enum_kind: v.enum_kind,
        hw_kind: match v.counter {
            Some(c) => without_counters(f.hw_kind).push(HwKind::Counter(c)),
            None => without_counters(f.hw_kind),
        },
        sw_kind: match v.password {
            Some(p) => SwKindView::Password(p),
            None => v.sw_kind,
        },
        hw_acc: if f.hw_kind.len() > 0 && v.hw_acc == HwAcc::RO {
            HwAcc::RW
        } else {
            v.hw_acc
        },
        lock: v.lock,
        visibility: match v.visibility {
            Some(x) => x,
            None => f.visibility,
        },
        limit: v.limit,
        nb_frac: v.nb_frac,
        src: described(f.src, f.description, description),
        ..f
    }
}

/// The field after an edit.
pub open spec fn field_after(f: FieldDefView, v: FieldValsView) -> FieldDefView {
    let g = edited(f, v);
    match v.intr_ovr {
        Some(ovr) => as_interrupt(
            FieldDefView { intr_ovr: ovr, ..g },
            completed(ovr, v.reg_intr_default),
        ),
        None => g,
    }
}

/// What becomes of a line that is now printed as `line`.
pub open spec fn line_edit(line: Option<Seq<char>>) -> LineEditView {
    match line {
        Some(t) => LineEditView::Write(t),
        None => LineEditView::Remove,
    }
}

/// What becomes of a block that is now printed as `lines`.
pub open spec fn block_edit(lines: Option<Seq<Seq<char>>>) -> BlockEditView {
    match lines {
        Some(l) => BlockEditView::Write(l),
        None => BlockEditView::Remove,
    }
}

/// One record for each changed property of a field declared at `line`.
pub open spec fn prop_records(f: FieldDefView, line: usize, changed: Seq<FieldProp>) -> Seq<
    RecordView,
> {
    Seq::new(
        changed.len(),
        |i: int|
            RecordView::FieldLine(line, changed[i], line_edit(field_line(f, changed[i]))),
    )
}

/// What is to be saved once `before` has become `after`. A field that is not in the file yet is
/// written as a whole, so there is nothing to note.
pub open spec fn field_records(
    before: FieldDefView,
    after: FieldDefView,
    changed: Seq<FieldProp>,
) -> Seq<RecordView> {
    match before.src.decl_line {
        Some(line) => (if field_decl(after) != field_decl(before) {
            seq![RecordView::FieldDirty(line)]
        } else {
            seq![]
        }) + prop_records(after, line, changed) + (if desc_block(after.description) != desc_block(
            before.description,
        ) {
            seq![RecordView::FieldDesc(line, block_edit(desc_block(after.description)))]
        } else {
            seq![]
        }),
        None => seq![],
    }
}

/// What becomes of a line that is now printed as `line`.
pub fn to_line_edit(line: Option<String>) -> (r: LineEdit)
    ensures
        r@ == line_edit(line.deep_view()),
{
    match line {
        Some(t) => LineEdit::Write(t),
        None => LineEdit::Remove,
    }
}

/// What becomes of a block that is now printed as `lines`.
pub fn to_block_edit(lines: Option<Vec<String>>) -> (r: BlockEdit)
    ensures
        r@ == block_edit(lines.deep_view()),
{
    match lines {
        Some(l) => BlockEdit::Write(l),
        None => BlockEdit::Remove,
    }
}

/// Whether two blocks hold the same lines.
pub fn same_block(a: &Option<Vec<String>>, b: &Option<Vec<String>>) -> (r: bool)
    ensures
        r == (a.deep_view() == b.deep_view()),
{
    match (a, b) {
        (Some(x), Some(y)) => same_lines(x, y),
        (None, None) => true,
        _ => false,
    }
}

/// Appends a record.
pub fn push_record(rs: &mut Vec<Record>, r: Record)
    ensures
        final(rs).deep_view() == old(rs).deep_view().push(r@),
{
    rs.push(r);
    proof {
        assert(rs.deep_view() =~= old(rs).deep_view().push(r@));
    }
}

/// Whether two sizes are the same.
pub fn same_dim(a: &Dim, b: &Dim) -> (r: bool)
    ensures
        r == (a@ == b@),
{
    match (a, b) {
        (Dim::Value(x), Dim::Value(y)) => *x == *y,
        (Dim::Param(x), Dim::Param(y)) => *x == *y,
        _ => false,
    }
}

fn drop_counters(kinds: &Vec<HwKind>) -> (r: Vec<HwKind>)
    ensures
        r@ == without_counters(kinds@),
{
    let mut r: Vec<HwKind> = Vec::new();
    let mut i: usize = 0;
    while i < kinds.len()
        invariant
            i <= kinds@.len(),
            r@ == without_counters(kinds@.take(i as int)),
        decreases kinds@.len() - i,
    {
        proof {
            assert(kinds@.take(i + 1).drop_last() =~= kinds@.take(i as int));
        }
        match kinds[i] {
            HwKind::Counter(_) => {},
            k => {
                r.push(k);
            },
        }
        i += 1;
    }
    proof {
        assert(kinds@.take(kinds@.len() as int) =~= kinds@);
    }
    r
}

/// The hardware behaviours that are counters.
pub fn keep_counters(kinds: &Vec<HwKind>) -> (r: Vec<HwKind>)
    ensures
        r@ == only_counters(kinds@),
{
    let mut r: Vec<HwKind> = Vec::new();
    let mut i: usize = 0;
    while i < kinds.len()
        invariant
            i <= kinds@.len(),
            r@ == only_counters(kinds@.take(i as int)),
        decreases kinds@.len() - i,
    {
        proof {
            assert(kinds@.take(i + 1).drop_last() =~= kinds@.take(i as int));
        }
        match kinds[i] {
            HwKind::Counter(c) => {
                r.push(HwKind::Counter(c));
            },
            _ => {},
        }
        i += 1;
    }
    proof {
        assert(kinds@.take(kinds@.len() as int) =~= kinds@);
    }
    r
}

/// Hardware behaviours hold no text: their values are themselves.
pub proof fn lemma_hw_kinds(v: Vec<HwKind>)
    ensures
        v.deep_view() == v@,
{
    assert(v.deep_view() =~= v@);
}

/// Gives a field the kinds that go with interrupt settings.
pub fn make_interrupt(f: &mut FieldDef, value: IntrOvr)
    ensures
        final(f)@ == as_interrupt(old(f)@, value),
{
    proof {
        lemma_hw_kinds(f.hw_kind);
    }
    if f.hw_kind.len() == 0 {
        let t = match value.trigger {
            Some(t) => t,
            None => Trigger::High,
        };
        f.hw_kind.push(HwKind::Interrupt(t));
        proof {
            assert(f.hw_kind@ =~= seq![HwKind::Interrupt(t)]);
        }
    } else {
        match value.trigger {
            Some(t) => {
                f.hw_kind[0] = HwKind::Interrupt(t);
            },
            None => {},
        }
    }
    match value.clear {
        Some(IntrClear::Read) => {
            f.sw_kind = SwKind::ReadClr;
        },
        Some(IntrClear::Write0) => {
            f.sw_kind = SwKind::W0Clr;
        },
        Some(IntrClear::Write1) => {
            f.sw_kind = SwKind::W1Clr;
        },
        Some(IntrClear::Hw) => {
            f.hw_kind.push(HwKind::Clear);
        },
        None => {},
    }
    proof {
        lemma_hw_kinds(f.hw_kind);
    }
}

/// Copies the field, and the property list, of the values into the field.
pub fn update_field(f: &FieldDef, v: FieldVals) -> (r: (FieldDef, Vec<FieldProp>))
    ensures
        r.0@ == field_after(f@, v@),
        r.1@ == v@.changed,
{
    proof {
        lemma_hw_kinds(f.hw_kind);
        assert(v.changed.deep_view() =~= v.changed@);
    }
    let description = Desc { public: v.desc, private: f.description.private.clone() };
    let promoted = description.short(false) != f.description.short(false);
    let mut src = f.src;
    src.has_inline_desc = f.src.has_inline_desc || promoted;
    let reset: Vec<Reset> = match v.reset {
        Some(r) => {
            let mut one: Vec<Reset> = Vec::new();
            one.push(r);
            proof {
                assert(one.deep_view() =~= seq![r@]);
            }
            one
        },
        None => {
            let mut all = f.reset.clone();
            proof {
                assert(all.deep_view() =~= f.reset.deep_view());
            }
            if !same_dim(&f.array, &v.array) && f.reset.len() > 1 {
                all.truncate(1);
                proof {
                    assert(all.deep_view() =~= f.reset.deep_view().take(1));
                }
            }
            all
        },
    };
    let mut hw_kind = drop_counters(&f.hw_kind);
    if let Some(c) = v.counter {
        hw_kind.push(HwKind::Counter(c));
    }
    proof {
        lemma_hw_kinds(hw_kind);
    }
    let hw_acc = if f.hw_kind.len() > 0 && v.hw_acc == HwAcc::RO {
        HwAcc::RW
    } else {
        v.hw_acc
    };
    let sw_kind = match v.password {
        Some(p) => SwKind::Password(p),
        None => v.sw_kind,
    };
    let visibility = match v.visibility {
        Some(x) => x,
        None => f.visibility,
    };
    let intr_desc = f.intr_desc.clone();
    proof {
        assert(intr_desc.deep_view() =~= f.intr_desc.deep_view());
    }
    let mut r = FieldDef {
        name: v.name,
        pos: v.pos,
        array: v.array,
        array_pos_incr: v.array_pos_incr,
        reset,
        signed: v.signed,
        description,
        enum_kind: v.enum_kind,
        hw_kind,
        sw_kind,
        hw_acc,
        lock: v.lock,
        visibility,
        intr_desc,
        intr_ovr: f.intr_ovr,
        limit: v.limit,
        nb_frac: v.nb_frac,
        partial: f.partial,
        src,
    };
    proof {
        assert(r@ == edited(f@, v@));
    }
    if let Some(ovr) = v.intr_ovr {
        r.intr_ovr = ovr;
        let trigger = match ovr.trigger {
            Some(t) => Some(t),
            None => v.reg_intr_default.trigger,
        };
        let clear = match ovr.clear {
            Some(c) => Some(c),
            None => v.reg_intr_default.clear,
        };
        make_interrupt(&mut r, IntrOvr { trigger, clear });
    }
    (r, v.changed)
}

/// What is to be saved once `before` has become `after`.
pub fn note_field(before: &FieldDef, after: &FieldDef, changed: &Vec<FieldProp>) -> (r: Vec<Record>)
    ensures
        r.deep_view() == field_records(before@, after@, changed@),
{
    let mut r: Vec<Record> = Vec::new();
    proof {
        assert(r.deep_view() =~= Seq::<RecordView>::empty());
    }
    let line: usize = match before.src.decl_line {
        Some(l) => l,
        None => {
            return r;
        },
    };
    if show_field_decl(after) != show_field_decl(before) {
        push_record(&mut r, Record::FieldDirty(line));
    }
    let ghost head = r.deep_view();
    proof {
        assert(head =~= (if field_decl(after@) != field_decl(before@) {
            seq![RecordView::FieldDirty(line)]
        } else {
            seq![]
        }));
        assert(head + prop_records(after@, line, changed@).take(0) =~= head);
    }
    let mut i: usize = 0;
    while i < changed.len()
        invariant
            i <= changed@.len(),
            r.deep_view() == head + prop_records(after@, line, changed@).take(i as int),
        decreases changed@.len() - i,
    {
        let p = changed[i];
        let e = to_line_edit(show_field_line(after, p));
        push_record(&mut r, Record::FieldLine(line, p, e));
        proof {
            let all = prop_records(after@, line, changed@);
            assert(head + all.take(i as int).push(all[i as int]) =~= (head + all.take(i as int)).push(
                all[i as int],
            ));
            assert(all.take(i as int).push(all[i as int]) =~= all.take(i + 1));
        }
        i += 1;
    }
    let ghost mid = r.deep_view();
    proof {
        let all = prop_records(after@, line, changed@);
        assert(all.take(all.len() as int) =~= all);
    }
    let block = show_desc_block(&after.description);
    let was = show_desc_block(&before.description);
    if !same_block(&block, &was) {
        push_record(&mut r, Record::FieldDesc(line, to_block_edit(block)));
        proof {
            let last = RecordView::FieldDesc(line, block_edit(desc_block(after@.description)));
            assert(mid.push(last) =~= mid + seq![last]);
        }
    } else {
        proof {
            assert(mid + Seq::<RecordView>::empty() =~= mid);
        }
    }
    r
}

} // verus!
