//! Edits of the fields of a register.
use vstd::prelude::*;
use crate::edits::{Record, RecordView};
use crate::field_update::{as_interrupt, field_after, field_records, make_interrupt, note_field, update_field};
use crate::model::register::{DescBlocks, FieldDef, FieldDefView, FieldSrc, RegisterDef, RegisterDefView};
use crate::model::rif::{RifDef, RifDefView};
use crate::model::values::{
    BitPos, BitPosView, Desc, Dim, DimView, EnumRef, EnumRefView, External, HwAcc, HwKind, IntrOvr, Limit,
    LimitValue, LimitValueView, LimitView, RawVis, Reset, ResetView, SwKind, SwKindView, WriteLock,
    WriteLockView,
};
use crate::names::{free_name, pick_name};
use crate::reg_update::{no_desc, no_records, push_when};
use crate::search::first;
use crate::source::{
    field_named, find_field, find_regdef, get_reg, locate_reg, reg_at, set_field, set_reg, with_reg,
};
use crate::vals::{FieldVals, FieldValsView};

verus! {

/// The RIF after an edit, and what is to be saved.
pub struct Outcome {
    pub rif: RifDefView,
    pub records: Seq<RecordView>,
}

/// The register with another field in a place.
pub open spec fn with_field(d: RegisterDefView, fi: int, f: FieldDefView) -> RegisterDefView {
    RegisterDefView { fields: d.fields.update(fi, f), ..d }
}

/// New values for a field. Nothing happens where there is no such field.
#[verifier::opaque]
pub open spec fn update_field_outcome(
    rif: RifDefView,
    reg_type: Seq<char>,
    orig_name: Seq<char>,
    v: FieldValsView,
) -> Option<Outcome> {
    match locate_reg(rif, reg_type) {
        Some(at) => match first(reg_at(rif, at).fields, field_named(orig_name)) {
            Some(fi) => {
                let f = reg_at(rif, at).fields[fi];
                Some(
                    Outcome {
                        rif: with_reg(rif, at, with_field(reg_at(rif, at), fi, field_after(f, v))),
                        records: field_records(f, field_after(f, v), v.changed),
                    },
                )
            },
            None => None,
        },
        None => None,
    }
}

/// Applies new values to a field.
pub fn stage_update_field(
    rif: &mut RifDef,
    reg_type: &String,
    orig_name: &String,
    v: FieldVals,
) -> (r: Option<Vec<Record>>)
    ensures
        match update_field_outcome(old(rif)@, reg_type@, orig_name@, v@) {
            Some(o) => r is Some && final(rif)@ == o.rif && (r->0).deep_view() == o.records,
            None => r is None && final(rif)@ == old(rif)@,
        },
{
    proof {
        reveal(update_field_outcome);
    }
    let at = match find_regdef(rif, reg_type) {
        Some(at) => at,
        None => {
            return None;
        },
    };
    let d = get_reg(rif, at);
    let fi: usize = match find_field(&d.fields, orig_name) {
        Some(fi) => fi,
        None => {
            return None;
        },
    };
    let before = d.fields[fi].clone();
    let mut d = d.clone();
    let (after, changed) = update_field(&before, v);
    let records = note_field(&before, &after, &changed);
    proof {
        assert(d@.fields[fi as int] == before@);
        assert(d.fields@.len() == d@.fields.len());
    }
    set_field(&mut d, fi, after);
    set_reg(rif, at, d);
    Some(records)
}

/// A field as it is created: one bit, after the last field, read and written by software.
pub open spec fn new_field(name: Seq<char>) -> FieldDefView {
    FieldDefView {
        name,
        pos: BitPosView::Size(DimView::Value(1)),
        array: DimView::Value(0),
        array_pos_incr: 0,
        reset: seq![ResetView::Unsigned(0)],
        signed: false,
        description: no_desc(),
        enum_kind: EnumRefView::Plain,
        hw_kind: seq![],
        sw_kind: SwKindView::ReadWrite,
        hw_acc: HwAcc::RO,
        lock: WriteLockView::Open,
        visibility: RawVis::Full,
        intr_desc: None,
        intr_ovr: IntrOvr { trigger: None, clear: None },
        limit: LimitView { value: LimitValueView::Any, bypass: seq![] },
        nb_frac: 0,
        partial: (None, 0),
        src: unsaved_field(),
    }
}

/// The source position of a field that is not in the file yet. A description may go to its
/// declaration line.
pub open spec fn unsaved_field() -> FieldSrc {
    FieldSrc {
        decl_line: None,
        has_inline_desc: true,
        prop_lines: [None, None, None, None, None, None, None, None, None, None, None, None],
        desc_blocks: DescBlocks { public: None, intr_enable: None, intr_mask: None, intr_pending: None },
    }
}

/// A field as it is created.
pub fn fresh_field(name: String) -> (r: FieldDef)
    ensures
        r@ == new_field(name@),
{
    let mut reset: Vec<Reset> = Vec::new();
    reset.push(Reset::Unsigned(0));
    let r = FieldDef {
        name,
        pos: BitPos::Size(Dim::Value(1)),
        array: Dim::Value(0),
        array_pos_incr: 0,
        reset,
        signed: false,
        description: Desc { public: String::new(), private: String::new() },
        enum_kind: EnumRef::Plain,
        hw_kind: Vec::new(),
        sw_kind: SwKind::ReadWrite,
        hw_acc: HwAcc::RO,
        lock: WriteLock::Open,
        visibility: RawVis::Full,
        intr_desc: None,
        intr_ovr: IntrOvr { trigger: None, clear: None },
        limit: Limit { value: LimitValue::Any, bypass: String::new() },
        nb_frac: 0,
        partial: (None, 0),
        src: FieldSrc {
            decl_line: None,
            has_inline_desc: true,
            prop_lines: [None; 12],
            desc_blocks: DescBlocks { public: None, intr_enable: None, intr_mask: None, intr_pending: None },
        },
    };
    proof {
        assert(r.reset.deep_view() =~= seq![ResetView::Unsigned(0)]);
        assert(r.hw_kind.deep_view() =~= Seq::<HwKind>::empty());
        assert(r.src.prop_lines =~= unsaved_field().prop_lines);
    }
    r
}

/// Access of software to a register with external logic, once a field of kind `k` joins it.
pub open spec fn external_with(first_field: bool, e: External, k: SwKindView) -> External {
    if first_field && e == External::ReadWrite {
        match k {
            SwKindView::ReadClr | SwKindView::ReadOnly => External::Read,
            SwKindView::WriteOnly => External::Write,
            _ => e,
        }
    } else if e == External::Read {
        match k {
            SwKindView::ReadWrite | SwKindView::ReadOnly | SwKindView::ReadClr => e,
            _ => External::ReadWrite,
        }
    } else if e == External::Write {
        match k {
            SwKindView::ReadClr | SwKindView::ReadOnly | SwKindView::ReadWrite => External::ReadWrite,
            _ => e,
        }
    } else {
        e
    }
}

/// The field as it joins a register: in an interrupt register it is an interrupt too.
pub open spec fn joining(d: RegisterDefView, f: FieldDefView) -> FieldDefView {
    if d.interrupt.len() > 0 {
        as_interrupt(
            f,
            IntrOvr { trigger: Some(d.interrupt[0].trigger), clear: Some(d.interrupt[0].clear) },
        )
    } else {
        f
    }
}

/// The register with one more field.
pub open spec fn with_new_field(d: RegisterDefView, f: FieldDefView) -> RegisterDefView {
    let g = joining(d, f);
    RegisterDefView {
        fields: d.fields.push(g),
        external: external_with(d.fields.len() == 0, d.external, g.sw_kind),
        ..d
    }
}

fn external_after(first_field: bool, e: External, k: &SwKind) -> (r: External)
    ensures
        r == external_with(first_field, e, k@),
{
    if first_field && e == External::ReadWrite {
        match k {
            SwKind::ReadClr | SwKind::ReadOnly => External::Read,
            SwKind::WriteOnly => External::Write,
            _ => e,
        }
    } else if e == External::Read {
        match k {
            SwKind::ReadWrite | SwKind::ReadOnly | SwKind::ReadClr => e,
            _ => External::ReadWrite,
        }
    } else if e == External::Write {
        match k {
            SwKind::ReadClr | SwKind::ReadOnly | SwKind::ReadWrite => External::ReadWrite,
            _ => e,
        }
    } else {
        e
    }
}

/// Adds a field to a register.
pub fn join_field(d: &mut RegisterDef, f: FieldDef)
    ensures
        final(d)@ == with_new_field(old(d)@, f@),
{
    let mut f = f;
    if d.interrupt.len() > 0 {
        proof {
            assert(d@.interrupt[0] == d.interrupt@[0]@);
        }
        let value = IntrOvr { trigger: Some(d.interrupt[0].trigger), clear: Some(d.interrupt[0].clear) };
        make_interrupt(&mut f, value);
    }
    let first_field = d.fields.len() == 0;
    d.external = external_after(first_field, d.external, &f.sw_kind);
    d.fields.push(f);
    proof {
        assert(d.fields.deep_view() =~= old(d).fields.deep_view().push(f@));
    }
}

/// The names of the fields of a register.
pub open spec fn field_names(d: RegisterDefView) -> Seq<Seq<char>> {
    Seq::new(d.fields.len(), |i: int| d.fields[i].name)
}

/// A new field in a register, under a name that is not taken. There is nothing to note: what is
/// not in the file yet is written as a whole.
#[verifier::opaque]
pub open spec fn add_field_outcome(rif: RifDefView, reg_type: Seq<char>) -> Option<
    (Outcome, Seq<char>),
> {
    match locate_reg(rif, reg_type) {
        Some(at) => {
            let name = free_name(field_names(reg_at(rif, at)), "new_field"@);
            Some(
                (
                    Outcome {
                        rif: with_reg(rif, at, with_new_field(reg_at(rif, at), new_field(name))),
                        records: seq![],
                    },
                    name,
                ),
            )
        },
        None => None,
    }
}

/// A field name that is not present in the register yet.
pub fn unique_field_name(d: &RegisterDef) -> (r: String)
    ensures
        r@ == free_name(field_names(d@), "new_field"@),
        !field_names(d@).contains(r@),
{
    let mut taken: Vec<String> = Vec::new();
    let mut i: usize = 0;
    while i < d.fields.len()
        invariant
            i <= d.fields@.len(),
            taken@.len() == i,
            forall|k: int| 0 <= k < i ==> (#[trigger] taken@[k])@ == d@.fields[k].name,
        decreases d.fields@.len() - i,
    {
        taken.push(d.fields[i].name.clone());
        i += 1;
    }
    proof {
        assert(taken.deep_view() =~= field_names(d@));
    }
    pick_name(&taken, "new_field")
}

/// Adds a field to a register and returns its name.
pub fn stage_add_field(rif: &mut RifDef, reg_type: &String) -> (r: Option<String>)
    ensures
        match add_field_outcome(old(rif)@, reg_type@) {
            Some((o, name)) => r is Some && final(rif)@ == o.rif && (r->0)@ == name && o.records == Seq::<
                RecordView,
            >::empty(),
            None => r is None && final(rif)@ == old(rif)@,
        },
{
    proof {
        reveal(add_field_outcome);
    }
    let at = match find_regdef(rif, reg_type) {
        Some(at) => at,
        None => {
            return None;
        },
    };
    let mut d = get_reg(rif, at).clone();
    let name = unique_field_name(&d);
    join_field(&mut d, fresh_field(name.clone()));
    set_reg(rif, at, d);
    Some(name)
}

/// A field less in a register.
#[verifier::opaque]
pub open spec fn delete_field_outcome(
    rif: RifDefView,
    reg_type: Seq<char>,
    name: Seq<char>,
) -> Option<Outcome> {
    match locate_reg(rif, reg_type) {
        Some(at) => match first(reg_at(rif, at).fields, field_named(name)) {
            Some(fi) => {
                let d = reg_at(rif, at);
                Some(
                    Outcome {
                        rif: with_reg(
                            rif,
                            at,
                            RegisterDefView { fields: d.fields.remove(fi), ..d },
                        ),
                        records: match d.fields[fi].src.decl_line {
                            Some(line) => seq![RecordView::FieldDeleted(line)],
                            None => seq![],
                        },
                    },
                )
            },
            None => None,
        },
        None => None,
    }
}

/// Deletes a field.
pub fn stage_delete_field(rif: &mut RifDef, reg_type: &String, name: &String) -> (r: Option<
    Vec<Record>,
>)
    ensures
        match delete_field_outcome(old(rif)@, reg_type@, name@) {
            Some(o) => r is Some && final(rif)@ == o.rif && (r->0).deep_view() == o.records,
            None => r is None && final(rif)@ == old(rif)@,
        },
{
    proof {
        reveal(delete_field_outcome);
    }
    let at = match find_regdef(rif, reg_type) {
        Some(at) => at,
        None => {
            return None;
        },
    };
    let d = get_reg(rif, at);
    let fi: usize = match find_field(&d.fields, name) {
        Some(fi) => fi,
        None => {
            return None;
        },
    };
    let mut d = d.clone();
    let ghost before = d@;
    proof {
        assert(d.fields@.len() == d@.fields.len());
    }
    let gone = d.fields.remove(fi);
    proof {
        assert(d.fields.deep_view() =~= before.fields.remove(fi as int));
        assert(gone@ == before.fields[fi as int]);
    }
    let mut records = no_records();
    if let Some(line) = gone.src.decl_line {
        push_when(&mut records, true, Record::FieldDeleted(line));
        proof {
            assert(records.deep_view() =~= seq![RecordView::FieldDeleted(line)]);
        }
    }
    set_reg(rif, at, d);
    Some(records)
}

/// A new position for a field.
#[derive(Debug)]
pub struct FieldMove {
    /// Name of the field.
    pub name: String,
    /// New position.
    pub pos: BitPos,
}

/// The value of a [`FieldMove`].
pub struct FieldMoveView {
    pub name: Seq<char>,
    pub pos: BitPosView,
}

impl DeepView for FieldMove {
    type V = FieldMoveView;

    open spec fn deep_view(&self) -> FieldMoveView {
        FieldMoveView { name: self.name@, pos: self.pos@ }
    }
}

/// The fields after the first `n` moves.
pub open spec fn moved(fields: Seq<FieldDefView>, moves: Seq<FieldMoveView>, n: int) -> Seq<
    FieldDefView,
>
    decreases n,
{
    if n <= 0 {
        fields
    } else {
        let s = moved(fields, moves, n - 1);
        match first(s, field_named(moves[n - 1].name)) {
            Some(fi) => s.update(fi, FieldDefView { pos: moves[n - 1].pos, ..s[fi] }),
            None => s,
        }
    }
}

/// What is to be saved after the first `n` moves.
pub open spec fn move_records(fields: Seq<FieldDefView>, moves: Seq<FieldMoveView>, n: int) -> Seq<
    RecordView,
>
    decreases n,
{
    if n <= 0 {
        seq![]
    } else {
        let s = moved(fields, moves, n - 1);
        move_records(fields, moves, n - 1) + match first(s, field_named(moves[n - 1].name)) {
            Some(fi) => match s[fi].src.decl_line {
                Some(line) => seq![RecordView::FieldDirty(line)],
                None => seq![],
            },
            None => seq![],
        }
    }
}

/// Whether one of the moves is of a field of the register.
pub open spec fn moves_any(fields: Seq<FieldDefView>, moves: Seq<FieldMoveView>) -> bool {
    exists|i: int|
        0 <= i < moves.len() && first(
            moved(fields, moves, i),
            field_named((#[trigger] moves[i]).name),
        ) is Some
}

/// New positions for some fields of a register. Nothing happens where it has none of them.
#[verifier::opaque]
pub open spec fn move_fields_outcome(
    rif: RifDefView,
    reg_type: Seq<char>,
    moves: Seq<FieldMoveView>,
) -> Option<Outcome> {
    match locate_reg(rif, reg_type) {
        Some(at) => {
            let d = reg_at(rif, at);
            let n = moves.len() as int;
            if moves_any(d.fields, moves) {
                Some(
                    Outcome {
                        rif: with_reg(
                            rif,
                            at,
                            RegisterDefView { fields: moved(d.fields, moves, n), ..d },
                        ),
                        records: move_records(d.fields, moves, n),
                    },
                )
            } else {
                None
            }
        },
        None => None,
    }
}

/// Moves some fields of a register.
pub fn stage_move_fields(rif: &mut RifDef, reg_type: &String, moves: &Vec<FieldMove>) -> (r: Option<
    Vec<Record>,
>)
    ensures
        match move_fields_outcome(old(rif)@, reg_type@, moves.deep_view()) {
            Some(o) => r is Some && final(rif)@ == o.rif && (r->0).deep_view() == o.records,
            None => r is None && final(rif)@ == old(rif)@,
        },
{
    proof {
        reveal(move_fields_outcome);
    }
    let at = match find_regdef(rif, reg_type) {
        Some(at) => at,
        None => {
            return None;
        },
    };
    let mut d = get_reg(rif, at).clone();
    let ghost start = d@;
    let ghost ms = moves.deep_view();
    let mut records = no_records();
    let mut any = false;
    let mut i: usize = 0;
    while i < moves.len()
        invariant
            i <= moves@.len(),
            ms == moves.deep_view(),
            d@ == (RegisterDefView { fields: moved(start.fields, ms, i as int), ..start }),
            records.deep_view() == move_records(start.fields, ms, i as int),
            any == (exists|k: int|
                0 <= k < i && first(
                    moved(start.fields, ms, k),
                    field_named((#[trigger] ms[k]).name),
                ) is Some),
        decreases moves@.len() - i,
    {
        let ghost was = records.deep_view();
        proof {
            assert(ms[i as int] == moves@[i as int].deep_view());
        }
        let found = find_field(&d.fields, &moves[i].name);
        if let Some(fi) = found {
            any = true;
            let mut f = d.fields[fi].clone();
            proof {
                assert(f@ == d@.fields[fi as int]);
            }
            if let Some(line) = f.src.decl_line {
                push_when(&mut records, true, Record::FieldDirty(line));
            }
            f.pos = moves[i].pos.clone();
            set_field(&mut d, fi, f);
        }
        proof {
            assert(records.deep_view() =~= move_records(start.fields, ms, i + 1));
            assert(d@.fields =~= moved(start.fields, ms, i + 1));
        }
        i += 1;
    }
    if !any {
        return None;
    }
    set_reg(rif, at, d);
    Some(records)
}

} // verus!
