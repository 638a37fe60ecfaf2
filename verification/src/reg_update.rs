//! What an edit does to a register definition.
use vstd::prelude::*;
use crate::bridge::{field_decl, reg_decl, show_field_decl, show_reg_decl};
use crate::edits::{BlockEdit, BlockEditView, LineEdit, LineEditView, Record, RecordView};
use crate::field_update::{
    as_interrupt, block_edit, keep_counters, lemma_hw_kinds, line_edit, make_interrupt, only_counters,
    push_record, same_block, to_block_edit, to_line_edit,
};
use crate::model::props::{FieldProp, RegProp};
use crate::model::register::{FieldDef, FieldDefView, RegSrc, RegisterDef, RegisterDefView};
use crate::model::values::{
    Desc, DescView, Dim, DimView, IntrClear, IntrDesc, IntrDescView, IntrInfo, IntrInfoView, IntrKind, IntrOvr,
    SwKind, SwKindView, Trigger,
};
use crate::printed::{field_line, reg_line, show_field_line, show_reg_line};
use crate::syntax::{desc_block, intr_desc_block, short_desc, show_desc_block, show_intr_desc_block};
use crate::vals::{RegAltValsView, RegDefVals, RegDefValsView, RegIntrValsView};

verus! {

/// The records of the first `n` elements, in order.
pub open spec fn gathered<T>(s: Seq<T>, f: spec_fn(T) -> Seq<RecordView>, n: int) -> Seq<RecordView>
    decreases n,
{
    if n <= 0 {
        seq![]
    } else {
        gathered(s, f, n - 1) + f(s[n - 1])
    }
}

/// A record, where `cond` holds.
pub open spec fn only_if(cond: bool, r: RecordView) -> Seq<RecordView> {
    if cond {
        seq![r]
    } else {
        seq![]
    }
}

/// No description.
pub open spec fn no_desc() -> DescView {
    DescView { public: seq![], private: seq![] }
}

/// A fresh interrupt block.
pub open spec fn new_block(name: Seq<char>) -> IntrInfoView {
    IntrInfoView {
        name,
        trigger: Trigger::High,
        clear: IntrClear::Read,
        enable: None,
        mask: None,
        pending: false,
        description: IntrDescView { enable: no_desc(), mask: no_desc(), pending: no_desc() },
    }
}

/// The primary block with new settings.
pub open spec fn primary_after(b: IntrInfoView, v: RegIntrValsView) -> IntrInfoView {
    IntrInfoView {
        trigger: v.trigger,
        clear: v.clear,
        enable: v.enable,
        mask: v.mask,
        pending: v.pending,
        ..b
    }
}

/// The secondary block with new settings.
pub open spec fn alt_after(b: IntrInfoView, v: RegAltValsView) -> IntrInfoView {
    IntrInfoView {
        name: v.name,
        trigger: v.trigger,
        clear: v.clear,
        enable: v.enable,
        mask: v.mask,
        pending: v.pending,
        ..b
    }
}

/// The interrupt blocks after an edit of the primary one.
pub open spec fn blocks_with_primary(d: RegisterDefView, v: RegDefValsView) -> Seq<IntrInfoView> {
    match v.intr {
        Some(Some(i)) => if d.interrupt.len() == 0 {
            seq![primary_after(new_block(""@), i)]
        } else {
            d.interrupt.update(0, primary_after(d.interrupt[0], i))
        },
        Some(None) => seq![],
        None => d.interrupt,
    }
}

/// The interrupt blocks after an edit. A secondary block needs a primary one.
pub open spec fn blocks_after(d: RegisterDefView, v: RegDefValsView) -> Seq<IntrInfoView> {
    let s = blocks_with_primary(d, v);
    if s.len() == 0 {
        s
    } else {
        match v.alt {
            Some(Some(a)) => if s.len() < 2 {
                s.push(alt_after(new_block(a.name), a))
            } else {
                s.update(1, alt_after(s[1], a))
            },
            Some(None) => s.take(1),
            None => s,
        }
    }
}

/// Whether an edit takes the interrupt away from a register that has one.
pub open spec fn drops_interrupt(d: RegisterDefView, v: RegDefValsView) -> bool {
    v.intr == Some(None::<RegIntrValsView>) && d.interrupt.len() > 0
}

/// A field without any trace of an interrupt.
pub open spec fn without_interrupt(f: FieldDefView) -> FieldDefView {
    FieldDefView {
        hw_kind: only_counters(f.hw_kind),
        sw_kind: SwKindView::ReadWrite,
        intr_ovr: IntrOvr { trigger: None, clear: None },
        intr_desc: None,
        ..f
    }
}

/// A field after the interrupt part of an edit of its register. A field with settings of its own
/// keeps them.
pub open spec fn intr_step(d: RegisterDefView, v: RegDefValsView, f: FieldDefView) -> FieldDefView {
    match v.intr {
        Some(Some(i)) => if f.intr_ovr.trigger is None && f.intr_ovr.clear is None {
            as_interrupt(f, IntrOvr { trigger: Some(i.trigger), clear: Some(i.clear) })
        } else {
            f
        },
        Some(None) => if d.interrupt.len() > 0 {
            without_interrupt(f)
        } else {
            f
        },
        None => f,
    }
}

/// Whether a field becomes an array of one element with its register.
pub open spec fn converts(v: RegDefValsView, f: FieldDefView) -> bool {
    v.array is Some && v.array->0 > 0 && f.array == DimView::Value(0)
}

/// A field as an array of one element.
pub open spec fn as_array(f: FieldDefView) -> FieldDefView {
    FieldDefView { array: DimView::Value(1), ..f }
}

/// A field after an edit of its register.
pub open spec fn reg_field_after(d: RegisterDefView, v: RegDefValsView, f: FieldDefView) -> FieldDefView {
    let g = intr_step(d, v, f);
    if converts(v, g) {
        as_array(g)
    } else {
        g
    }
}

/// The group after an edit. A group that bears the name of its only register follows it.
pub open spec fn group_after(d: RegisterDefView, orig_name: Seq<char>, v: RegDefValsView) -> Seq<char> {
    match v.group {
        Some(g) => g,
        None => if d.group_pkg is None && d.group_name == orig_name {
            v.name
        } else {
            d.group_name
        },
    }
}

/// The register after an edit.
pub open spec fn reg_after(
    d: RegisterDefView,
    orig_name: Seq<char>,
    v: RegDefValsView,
) -> RegisterDefView {
    let description = DescView { public: v.desc, ..d.description };
    RegisterDefView {
        name: v.name,
        group_name: group_after(d, orig_name, v),
        description,
        pulse: v.pulse,
        fields: Seq::new(d.fields.len(), |i: int| reg_field_after(d, v, d.fields[i])),
        interrupt: blocks_after(d, v),
        visibility: v.visibility,
        clk: v.clk,
        rst: v.rst,
        array: match v.array {
            Some(n) => DimView::Value(n),
            None => d.array,
        },
        external: v.external,
        src: RegSrc {
            has_inline_desc: d.src.has_inline_desc || short_desc(description, false) != short_desc(
                d.description,
                false,
            ),
            ..d.src
        },
        ..d
    }
}

/// The records for the property lines that print differently, up to the `n`-th property.
pub open spec fn reg_lines(before: RegisterDefView, after: RegisterDefView, line: usize, n: int) -> Seq<
    RecordView,
>
    decreases n,
{
    if n <= 0 {
        seq![]
    } else {
        let p = RegProp::at_index(n - 1);
        reg_lines(before, after, line, n - 1) + only_if(
            reg_line(before, p) != reg_line(after, p),
            RecordView::RegLine(line, p, line_edit(reg_line(after, p))),
        )
    }
}

/// The description block of the primary interrupt.
pub open spec fn primary_block(d: RegisterDefView, kind: IntrKind) -> Option<Seq<Seq<char>>> {
    if d.interrupt.len() > 0 {
        intr_desc_block(Some(d.interrupt[0].description), kind)
    } else {
        None
    }
}

/// The records for derived descriptions of a register that go with its interrupt.
pub open spec fn reg_descs_gone(d: RegisterDefView, line: usize) -> Seq<RecordView> {
    only_if(
        primary_block(d, IntrKind::Enable) is Some,
        RecordView::RegIntrDesc(line, IntrKind::Enable, BlockEditView::Remove),
    ) + only_if(
        primary_block(d, IntrKind::Mask) is Some,
        RecordView::RegIntrDesc(line, IntrKind::Mask, BlockEditView::Remove),
    ) + only_if(
        primary_block(d, IntrKind::Pending) is Some,
        RecordView::RegIntrDesc(line, IntrKind::Pending, BlockEditView::Remove),
    )
}

/// The records for derived descriptions of a field that go with the interrupt.
pub open spec fn field_descs_gone() -> spec_fn(FieldDefView) -> Seq<RecordView> {
    |f: FieldDefView|
        match f.src.decl_line {
            Some(line) => only_if(
                intr_desc_block(f.intr_desc, IntrKind::Enable) is Some,
                RecordView::FieldIntrDesc(line, IntrKind::Enable, BlockEditView::Remove),
            ) + only_if(
                intr_desc_block(f.intr_desc, IntrKind::Mask) is Some,
                RecordView::FieldIntrDesc(line, IntrKind::Mask, BlockEditView::Remove),
            ) + only_if(
                intr_desc_block(f.intr_desc, IntrKind::Pending) is Some,
                RecordView::FieldIntrDesc(line, IntrKind::Pending, BlockEditView::Remove),
            ),
            None => seq![],
        }
}

/// The record for the interrupt line of a field that goes with the interrupt.
pub open spec fn field_line_gone() -> spec_fn(FieldDefView) -> Seq<RecordView> {
    |f: FieldDefView|
        match f.src.decl_line {
            Some(line) => only_if(
                field_line(f, FieldProp::Interrupt) is Some,
                RecordView::FieldLine(line, FieldProp::Interrupt, LineEditView::Remove),
            ),
            None => seq![],
        }
}

/// The record for a field that becomes an array with its register.
pub open spec fn field_converted(d: RegisterDefView, v: RegDefValsView) -> spec_fn(
    FieldDefView,
) -> Seq<RecordView> {
    |f: FieldDefView|
        {
            let g = intr_step(d, v, f);
            match g.src.decl_line {
                Some(line) => only_if(
                    converts(v, g) && field_decl(as_array(g)) != field_decl(g),
                    RecordView::FieldDirty(line),
                ),
                None => seq![],
            }
        }
}

/// What is to be saved of the register itself.
pub open spec fn reg_own_records(
    d: RegisterDefView,
    orig_name: Seq<char>,
    v: RegDefValsView,
) -> Seq<RecordView> {
    let after = reg_after(d, orig_name, v);
    match d.src.decl_line {
        Some(line) => only_if(reg_decl(after) != reg_decl(d), RecordView::RegDirty(line)) + reg_lines(
            d,
            after,
            line,
            10,
        ) + only_if(
            desc_block(after.description) != desc_block(d.description),
            RecordView::RegDesc(line, block_edit(desc_block(after.description))),
        ) + (if drops_interrupt(d, v) {
            reg_descs_gone(d, line)
        } else {
            seq![]
        }),
        None => seq![],
    }
}

/// What is to be saved of the fields of the register.
pub open spec fn reg_field_records(d: RegisterDefView, v: RegDefValsView) -> Seq<RecordView> {
    let n = d.fields.len() as int;
    (if drops_interrupt(d, v) {
        gathered(d.fields, field_descs_gone(), n) + gathered(d.fields, field_line_gone(), n)
    } else {
        seq![]
    }) + gathered(d.fields, field_converted(d, v), n)
}

/// What is to be saved once the register has been edited.
pub open spec fn reg_records(
    d: RegisterDefView,
    orig_name: Seq<char>,
    v: RegDefValsView,
) -> Seq<RecordView> {
    reg_own_records(d, orig_name, v) + reg_field_records(d, v)
}

fn fresh_block(name: &str) -> (r: IntrInfo)
    ensures
        r@ == new_block(name@),
{
    IntrInfo {
        name: name.to_owned(),
        trigger: Trigger::High,
        clear: IntrClear::Read,
        enable: None,
        mask: None,
        pending: false,
        description: IntrDesc {
            enable: Desc { public: String::new(), private: String::new() },
            mask: Desc { public: String::new(), private: String::new() },
            pending: Desc { public: String::new(), private: String::new() },
        },
    }
}

fn copy_blocks(d: &RegisterDef) -> (r: Vec<IntrInfo>)
    ensures
        r.deep_view() == d@.interrupt,
{
    let r = d.interrupt.clone();
    proof {
        assert(r.deep_view() =~= d.interrupt.deep_view());
    }
    r
}

fn update_blocks(d: &RegisterDef, v: &RegDefVals) -> (r: Vec<IntrInfo>)
    ensures
        r.deep_view() == blocks_after(d@, v@),
{
    let mut s: Vec<IntrInfo> = match &v.intr {
        Some(Some(i)) => {
            let mut s = copy_blocks(d);
            if s.len() == 0 {
                s.push(fresh_block(""));
            }
            let ghost start = s.deep_view();
            let mut b = s[0].clone();
            b.trigger = i.trigger;
            b.clear = i.clear;
            b.enable = i.enable.clone();
            b.mask = i.mask.clone();
            b.pending = i.pending;
            proof {
                assert(b.enable.deep_view() =~= i.enable.deep_view());
                assert(b.mask.deep_view() =~= i.mask.deep_view());
                assert(b@ == primary_after(start[0], i@));
            }
            s[0] = b;
            proof {
                assert(s.deep_view() =~= start.update(0, b@));
                assert(s.deep_view() =~= blocks_with_primary(d@, v@));
            }
            s
        },
        Some(None) => {
            let s: Vec<IntrInfo> = Vec::new();
            proof {
                assert(s.deep_view() =~= blocks_with_primary(d@, v@));
            }
            s
        },
        None => copy_blocks(d),
    };
    let ghost base = s.deep_view();
    proof {
        assert(base == blocks_with_primary(d@, v@));
    }
    if s.len() > 0 {
        match &v.alt {
            Some(Some(a)) => {
                if s.len() < 2 {
                    s.push(fresh_block(a.name.as_str()));
                }
                let ghost start = s.deep_view();
                let mut b = s[1].clone();
                b.name = a.name.clone();
                b.trigger = a.trigger;
                b.clear = a.clear;
                b.enable = a.enable.clone();
                b.mask = a.mask.clone();
                b.pending = a.pending;
                proof {
                    assert(b.enable.deep_view() =~= a.enable.deep_view());
                    assert(b.mask.deep_view() =~= a.mask.deep_view());
                    assert(b@ == alt_after(start[1], a@));
                }
                s[1] = b;
                proof {
                    assert(s.deep_view() =~= start.update(1, b@));
                    assert(s.deep_view() =~= blocks_after(d@, v@));
                }
            },
            Some(None) => {
                s.truncate(1);
                proof {
                    assert(s.deep_view() =~= base.take(1));
                }
            },
            None => {},
        }
    }
    s
}

fn is_zero(d: &Dim) -> (r: bool)
    ensures
        r == (d@ == DimView::Value(0)),
{
    match d {
        Dim::Value(n) => *n == 0,
        Dim::Param(_) => false,
    }
}

fn copy_field(f: &FieldDef) -> (r: FieldDef)
    ensures
        r@ == f@,
{
    f.clone()
}

fn intr_field(d: &RegisterDef, v: &RegDefVals, f: &FieldDef) -> (r: FieldDef)
    ensures
        r@ == intr_step(d@, v@, f@),
{
    let mut g = copy_field(f);
    match &v.intr {
        Some(Some(i)) => {
            if f.intr_ovr.trigger.is_none() && f.intr_ovr.clear.is_none() {
                make_interrupt(&mut g, IntrOvr { trigger: Some(i.trigger), clear: Some(i.clear) });
            }
        },
        Some(None) => {
            if d.interrupt.len() > 0 {
                proof {
                    lemma_hw_kinds(f.hw_kind);
                }
                g.hw_kind = keep_counters(&f.hw_kind);
                g.sw_kind = SwKind::ReadWrite;
                g.intr_ovr = IntrOvr { trigger: None, clear: None };
                g.intr_desc = None;
                proof {
                    lemma_hw_kinds(g.hw_kind);
                }
            }
        },
        None => {},
    }
    g
}

fn becomes_array(v: &RegDefVals, f: &FieldDef) -> (r: bool)
    ensures
        r == converts(v@, f@),
{
    match v.array {
        Some(n) => n > 0 && is_zero(&f.array),
        None => false,
    }
}

/// Edits a register definition.
pub fn update_reg(d: &RegisterDef, orig_name: &String, v: &RegDefVals) -> (r: RegisterDef)
    ensures
        r@ == reg_after(d@, orig_name@, v@),
{
    let group_name = match &v.group {
        Some(g) => g.clone(),
        None => if d.group_pkg.is_none() && d.group_name == *orig_name {
            v.name.clone()
        } else {
            d.group_name.clone()
        },
    };
    let description = Desc { public: v.desc.clone(), private: d.description.private.clone() };
    let promoted = description.short(false) != d.description.short(false);
    let mut src = d.src;
    src.has_inline_desc = d.src.has_inline_desc || promoted;
    let mut fields: Vec<FieldDef> = Vec::new();
    let mut i: usize = 0;
    while i < d.fields.len()
        invariant
            i <= d.fields@.len(),
            fields@.len() == i,
            forall|k: int|
                0 <= k < i ==> (#[trigger] fields@[k])@ == reg_field_after(d@, v@, d@.fields[k]),
        decreases d.fields@.len() - i,
    {
        let mut g = intr_field(d, v, &d.fields[i]);
        if becomes_array(v, &g) {
            g.array = Dim::Value(1);
        }
        fields.push(g);
        i += 1;
    }
    let pulse = v.pulse.clone();
    let group_pkg = d.group_pkg.clone();
    let array = match v.array {
        Some(n) => Dim::Value(n),
        None => d.array.clone(),
    };
    let r = RegisterDef {
        name: v.name.clone(),
        group_name,
        group_pkg,
        description,
        pulse,
        fields,
        interrupt: update_blocks(d, v),
        visibility: v.visibility,
        clk: v.clk.clone(),
        rst: v.rst.clone(),
        lock: d.lock.clone(),
        array,
        external: v.external,
        src,
    };
    proof {
        assert(r.pulse.deep_view() =~= v.pulse.deep_view());
        assert(r.group_pkg.deep_view() =~= d.group_pkg.deep_view());
        assert(r.clk.deep_view() =~= v.clk.deep_view());
        assert(r.rst.deep_view() =~= v.rst.deep_view());
        assert(r.fields.deep_view() =~= reg_after(d@, orig_name@, v@).fields);
    }
    r
}

/// Appends a record where `cond` holds.
pub fn push_when(rs: &mut Vec<Record>, cond: bool, r: Record)
    ensures
        final(rs).deep_view() == old(rs).deep_view() + only_if(cond, r@),
{
    if cond {
        push_record(rs, r);
        proof {
            assert(rs.deep_view() =~= old(rs).deep_view() + seq![r@]);
        }
    } else {
        proof {
            assert(rs.deep_view() =~= old(rs).deep_view() + Seq::<RecordView>::empty());
        }
    }
}

/// Appends a run of records.
pub fn extend_records(rs: &mut Vec<Record>, more: Vec<Record>)
    ensures
        final(rs).deep_view() == old(rs).deep_view() + more.deep_view(),
{
    let mut more = more;
    let ghost m = more.deep_view();
    rs.append(&mut more);
    proof {
        assert(rs.deep_view() =~= old(rs).deep_view() + m);
    }
}

/// No records.
pub fn no_records() -> (r: Vec<Record>)
    ensures
        r.deep_view() == Seq::<RecordView>::empty(),
{
    let r: Vec<Record> = Vec::new();
    proof {
        assert(r.deep_view() =~= Seq::<RecordView>::empty());
    }
    r
}

fn primary_has_block(d: &RegisterDef, kind: IntrKind) -> (r: bool)
    ensures
        r == (primary_block(d@, kind) is Some),
{
    if d.interrupt.len() > 0 {
        let b = show_intr_desc_block(Some(&d.interrupt[0].description), kind);
        proof {
            assert(d@.interrupt[0] == d.interrupt@[0]@);
        }
        b.is_some()
    } else {
        false
    }
}

fn field_has_block(f: &FieldDef, kind: IntrKind) -> (r: bool)
    ensures
        r == (intr_desc_block(f@.intr_desc, kind) is Some),
{
    let b = show_intr_desc_block(f.intr_desc.as_ref(), kind);
    b.is_some()
}

fn note_reg_lines(before: &RegisterDef, after: &RegisterDef, line: usize) -> (r: Vec<Record>)
    ensures
        r.deep_view() == reg_lines(before@, after@, line, 10),
{
    let mut r = no_records();
    let mut i: usize = 0;
    while i < 10
        invariant
            i <= 10,
            r.deep_view() == reg_lines(before@, after@, line, i as int),
        decreases 10 - i,
    {
        let p = RegProp::at(i);
        let was = show_reg_line(before, p);
        let now = show_reg_line(after, p);
        let changed = !same_line(&was, &now);
        push_when(&mut r, changed, Record::RegLine(line, p, to_line_edit(now)));
        i += 1;
    }
    r
}

/// Whether two printed lines are the same.
pub fn same_line(a: &Option<String>, b: &Option<String>) -> (r: bool)
    ensures
        r == (a.deep_view() == b.deep_view()),
{
    match (a, b) {
        (Some(x), Some(y)) => *x == *y,
        (None, None) => true,
        _ => false,
    }
}

fn removes_interrupt(d: &RegisterDef, v: &RegDefVals) -> (r: bool)
    ensures
        r == drops_interrupt(d@, v@),
{
    match &v.intr {
        Some(None) => d.interrupt.len() > 0,
        _ => false,
    }
}

fn note_reg_own(d: &RegisterDef, after: &RegisterDef, orig_name: &String, v: &RegDefVals) -> (r: Vec<
    Record,
>)
    requires
        after@ == reg_after(d@, orig_name@, v@),
    ensures
        r.deep_view() == reg_own_records(d@, orig_name@, v@),
{
    let mut r = no_records();
    let line: usize = match d.src.decl_line {
        Some(l) => l,
        None => {
            return r;
        },
    };
    push_when(&mut r, show_reg_decl(after) != show_reg_decl(d), Record::RegDirty(line));
    proof {
        assert(r.deep_view() =~= only_if(reg_decl(after@) != reg_decl(d@), RecordView::RegDirty(line)));
    }
    extend_records(&mut r, note_reg_lines(d, after, line));
    let block = show_desc_block(&after.description);
    let was = show_desc_block(&d.description);
    let changed = !same_block(&block, &was);
    push_when(&mut r, changed, Record::RegDesc(line, to_block_edit(block)));
    if removes_interrupt(d, v) {
        let ghost base = r.deep_view();
        push_when(
            &mut r,
            primary_has_block(d, IntrKind::Enable),
            Record::RegIntrDesc(line, IntrKind::Enable, BlockEdit::Remove),
        );
        push_when(
            &mut r,
            primary_has_block(d, IntrKind::Mask),
            Record::RegIntrDesc(line, IntrKind::Mask, BlockEdit::Remove),
        );
        push_when(
            &mut r,
            primary_has_block(d, IntrKind::Pending),
            Record::RegIntrDesc(line, IntrKind::Pending, BlockEdit::Remove),
        );
        proof {
            assert(r.deep_view() =~= base + reg_descs_gone(d@, line));
        }
    } else {
        proof {
            assert(r.deep_view() =~= r.deep_view() + Seq::<RecordView>::empty());
        }
    }
    r
}

fn note_descs_gone(d: &RegisterDef) -> (r: Vec<Record>)
    ensures
        r.deep_view() == gathered(d@.fields, field_descs_gone(), d@.fields.len() as int),
{
    let mut r = no_records();
    let mut i: usize = 0;
    while i < d.fields.len()
        invariant
            i <= d.fields@.len(),
            r.deep_view() == gathered(d@.fields, field_descs_gone(), i as int),
        decreases d.fields@.len() - i,
    {
        let f = &d.fields[i];
        let ghost base = r.deep_view();
        proof {
            assert(d@.fields[i as int] == f@);
        }
        if let Some(line) = f.src.decl_line {
            push_when(
                &mut r,
                field_has_block(f, IntrKind::Enable),
                Record::FieldIntrDesc(line, IntrKind::Enable, BlockEdit::Remove),
            );
            push_when(
                &mut r,
                field_has_block(f, IntrKind::Mask),
                Record::FieldIntrDesc(line, IntrKind::Mask, BlockEdit::Remove),
            );
            push_when(
                &mut r,
                field_has_block(f, IntrKind::Pending),
                Record::FieldIntrDesc(line, IntrKind::Pending, BlockEdit::Remove),
            );
        }
        proof {
            assert(r.deep_view() =~= base + field_descs_gone()(f@));
        }
        i += 1;
    }
    r
}

fn note_lines_gone(d: &RegisterDef) -> (r: Vec<Record>)
    ensures
        r.deep_view() == gathered(d@.fields, field_line_gone(), d@.fields.len() as int),
{
    let mut r = no_records();
    let mut i: usize = 0;
    while i < d.fields.len()
        invariant
            i <= d.fields@.len(),
            r.deep_view() == gathered(d@.fields, field_line_gone(), i as int),
        decreases d.fields@.len() - i,
    {
        let f = &d.fields[i];
        let ghost base = r.deep_view();
        proof {
            assert(d@.fields[i as int] == f@);
        }
        if let Some(line) = f.src.decl_line {
            let printed = show_field_line(f, FieldProp::Interrupt);
            push_when(
                &mut r,
                printed.is_some(),
                Record::FieldLine(line, FieldProp::Interrupt, LineEdit::Remove),
            );
        }
        proof {
            assert(r.deep_view() =~= base + field_line_gone()(f@));
        }
        i += 1;
    }
    r
}

fn note_converted(d: &RegisterDef, v: &RegDefVals) -> (r: Vec<Record>)
    ensures
        r.deep_view() == gathered(d@.fields, field_converted(d@, v@), d@.fields.len() as int),
{
    let mut r = no_records();
    let mut i: usize = 0;
    while i < d.fields.len()
        invariant
            i <= d.fields@.len(),
            r.deep_view() == gathered(d@.fields, field_converted(d@, v@), i as int),
        decreases d.fields@.len() - i,
    {
        let ghost base = r.deep_view();
        let mut g = intr_field(d, v, &d.fields[i]);
        proof {
            assert(d@.fields[i as int] == d.fields@[i as int]@);
        }
        if let Some(line) = g.src.decl_line {
            let was = show_field_decl(&g);
            let hit = becomes_array(v, &g);
            g.array = Dim::Value(1);
            let now = show_field_decl(&g);
            push_when(&mut r, hit && now != was, Record::FieldDirty(line));
        }
        proof {
            assert(r.deep_view() =~= base + field_converted(d@, v@)(d@.fields[i as int]));
        }
        i += 1;
    }
    r
}

/// What is to be saved once the register has been edited.
pub fn note_reg(d: &RegisterDef, after: &RegisterDef, orig_name: &String, v: &RegDefVals) -> (r: Vec<
    Record,
>)
    requires
        after@ == reg_after(d@, orig_name@, v@),
    ensures
        r.deep_view() == reg_records(d@, orig_name@, v@),
{
    let mut r = note_reg_own(d, after, orig_name, v);
    let mut fs = no_records();
    if removes_interrupt(d, v) {
        extend_records(&mut fs, note_descs_gone(d));
        extend_records(&mut fs, note_lines_gone(d));
        proof {
            let n = d@.fields.len() as int;
            assert(fs.deep_view() =~= gathered(d@.fields, field_descs_gone(), n) + gathered(
                d@.fields,
                field_line_gone(),
                n,
            ));
        }
    }
    extend_records(&mut fs, note_converted(d, v));
    proof {
        assert(fs.deep_view() =~= reg_field_records(d@, v@));
    }
    extend_records(&mut r, fs);
    r
}

} // verus!
