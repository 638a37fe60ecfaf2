//! Edits of interrupt descriptions and of what an instance overrides.
use vstd::prelude::*;
use crate::edits::{Record, RecordView};
use crate::field_update::{block_edit, line_edit, same_block, to_block_edit, to_line_edit};
use crate::model::page::{FieldOvr, FieldOvrView, InstanceView, RegOvr, RegOvrView, ResetOvr, ResetOvrView};
use crate::model::props::{FieldOverrideProp, RegOverrideProp};
use crate::model::register::{FieldDefView, RegisterDef, RegisterDefView};
use crate::model::rif::{RifDef, RifDefView};
use crate::model::values::{
    Desc, DescView, Expr, IntrDesc, IntrDescView, IntrInfoView, IntrKind, Reset, ResetView, Vis,
};
use crate::reg_update::{no_desc, no_records, only_if, primary_block, push_when, same_line};
use crate::search::{first, lemma_is_first, lemma_no_first};
use crate::source::{
    field_named, find_field, find_inst, find_regdef, get_reg, inst_at, locate_inst, locate_reg, reg_at,
    set_field, set_inst, set_reg, with_inst, with_reg,
};
use crate::stage_field::{with_field, Outcome};
use crate::stage_reg::no_expr;
use crate::syntax::{
    field_ovr_line, intr_desc_block, override_desc_block, reg_ovr_line, show_field_ovr_line,
    show_intr_desc_block, show_override_desc_block, show_reg_ovr_line,
};
use crate::text::{is_blank, trimmed};
use crate::vals::{FieldOverrideVals, FieldOverrideValsView, RegOverrideVals, RegOverrideValsView};

verus! {

/// The descriptions with another text for one of the derived registers.
pub open spec fn redescribed(d: IntrDescView, kind: IntrKind, text: Seq<char>) -> IntrDescView {
    match kind {
        IntrKind::Enable => IntrDescView { enable: DescView { public: text, ..d.enable }, ..d },
        IntrKind::Mask => IntrDescView { mask: DescView { public: text, ..d.mask }, ..d },
        IntrKind::Pending => IntrDescView { pending: DescView { public: text, ..d.pending }, ..d },
        _ => d,
    }
}

fn describe(d: &mut IntrDesc, kind: IntrKind, text: &String)
    ensures
        final(d)@ == redescribed(old(d)@, kind, text@),
{
    match kind {
        IntrKind::Enable => {
            d.enable.public = text.clone();
        },
        IntrKind::Mask => {
            d.mask.public = text.clone();
        },
        IntrKind::Pending => {
            d.pending.public = text.clone();
        },
        _ => {},
    }
}

/// The register with another description for one of its derived registers. A register without
/// an interrupt has none.
pub open spec fn reg_redescribed(d: RegisterDefView, kind: IntrKind, text: Seq<char>) -> RegisterDefView {
    if d.interrupt.len() > 0 {
        RegisterDefView {
            interrupt: d.interrupt.update(
                0,
                IntrInfoView {
                    description: redescribed(d.interrupt[0].description, kind, text),
                    ..d.interrupt[0]
                },
            ),
            ..d
        }
    } else {
        d
    }
}

/// Another description for a register derived from an interrupt.
#[verifier::opaque]
pub open spec fn reg_intr_desc_outcome(
    rif: RifDefView,
    reg_type: Seq<char>,
    kind: IntrKind,
    text: Seq<char>,
) -> Option<Outcome> {
    match locate_reg(rif, reg_type) {
        Some(at) => {
            let d = reg_at(rif, at);
            let after = reg_redescribed(d, kind, text);
            Some(
                Outcome {
                    rif: with_reg(rif, at, after),
                    records: match d.src.decl_line {
                        Some(line) => only_if(
                            primary_block(after, kind) != primary_block(d, kind),
                            RecordView::RegIntrDesc(line, kind, block_edit(primary_block(after, kind))),
                        ),
                        None => seq![],
                    },
                },
            )
        },
        None => None,
    }
}

fn show_primary_block(d: &RegisterDef, kind: IntrKind) -> (r: Option<Vec<String>>)
    ensures
        r.deep_view() == primary_block(d@, kind),
{
    if d.interrupt.len() > 0 {
        proof {
            assert(d@.interrupt[0] == d.interrupt@[0]@);
        }
        show_intr_desc_block(Some(&d.interrupt[0].description), kind)
    } else {
        None
    }
}

/// Describes a register derived from an interrupt.
pub fn stage_reg_intr_desc(rif: &mut RifDef, reg_type: &String, kind: IntrKind, text: &String) -> (r: Option<
    Vec<Record>,
>)
    ensures
        match reg_intr_desc_outcome(old(rif)@, reg_type@, kind, text@) {
            Some(o) => r is Some && final(rif)@ == o.rif && (r->0).deep_view() == o.records,
            None => r is None && final(rif)@ == old(rif)@,
        },
{
    proof {
        reveal(reg_intr_desc_outcome);
    }
    let at = match find_regdef(rif, reg_type) {
        Some(at) => at,
        None => {
            return None;
        },
    };
    let mut d = get_reg(rif, at).clone();
    let ghost before = d@;
    let was = show_primary_block(&d, kind);
    if d.interrupt.len() > 0 {
        let ghost first_block = d.interrupt@[0]@;
        describe(&mut d.interrupt[0].description, kind, text);
        proof {
            assert(d.interrupt@[0]@ == (IntrInfoView {
                description: redescribed(first_block.description, kind, text@),
                ..first_block
            }));
            assert(d.interrupt.deep_view() =~= before.interrupt.update(0, d.interrupt@[0]@));
            assert(first_block == before.interrupt[0]);
        }
    }
    proof {
        assert(d@ == reg_redescribed(before, kind, text@));
    }
    let mut records = no_records();
    if let Some(line) = d.src.decl_line {
        let now = show_primary_block(&d, kind);
        let changed = !same_block(&now, &was);
        push_when(&mut records, changed, Record::RegIntrDesc(line, kind, to_block_edit(now)));
        proof {
            assert(records.deep_view() =~= only_if(
                changed,
                RecordView::RegIntrDesc(line, kind, block_edit(primary_block(d@, kind))),
            ));
        }
    }
    set_reg(rif, at, d);
    Some(records)
}

/// The field with another description for one of its derived registers.
pub open spec fn field_redescribed(f: FieldDefView, kind: IntrKind, text: Seq<char>) -> FieldDefView {
    FieldDefView {
        intr_desc: Some(
            redescribed(
                match f.intr_desc {
                    Some(d) => d,
                    None => IntrDescView { enable: no_desc(), mask: no_desc(), pending: no_desc() },
                },
                kind,
                text,
            ),
        ),
        ..f
    }
}

/// Another description for a field in a register derived from an interrupt.
#[verifier::opaque]
pub open spec fn field_intr_desc_outcome(
    rif: RifDefView,
    reg_type: Seq<char>,
    field_name: Seq<char>,
    kind: IntrKind,
    text: Seq<char>,
) -> Option<Outcome> {
    match locate_reg(rif, reg_type) {
        Some(at) => match first(reg_at(rif, at).fields, field_named(field_name)) {
            Some(fi) => {
                let f = reg_at(rif, at).fields[fi];
                let after = field_redescribed(f, kind, text);
                Some(
                    Outcome {
                        rif: with_reg(rif, at, with_field(reg_at(rif, at), fi, after)),
                        records: match f.src.decl_line {
                            Some(line) => only_if(
                                intr_desc_block(after.intr_desc, kind) != intr_desc_block(
                                    f.intr_desc,
                                    kind,
                                ),
                                RecordView::FieldIntrDesc(
                                    line,
                                    kind,
                                    block_edit(intr_desc_block(after.intr_desc, kind)),
                                ),
                            ),
                            None => seq![],
                        },
                    },
                )
            },
            None => None,
        },
        None => None,
    }
}

fn empty_desc() -> (r: Desc)
    ensures
        r@ == no_desc(),
{
    Desc { public: String::new(), private: String::new() }
}

/// Describes a field in a register derived from an interrupt.
pub fn stage_field_intr_desc(
    rif: &mut RifDef,
    reg_type: &String,
    field_name: &String,
    kind: IntrKind,
    text: &String,
) -> (r: Option<Vec<Record>>)
    requires
        kind == IntrKind::Enable || kind == IntrKind::Mask || kind == IntrKind::Pending,
    ensures
        match field_intr_desc_outcome(old(rif)@, reg_type@, field_name@, kind, text@) {
            Some(o) => r is Some && final(rif)@ == o.rif && (r->0).deep_view() == o.records,
            None => r is None && final(rif)@ == old(rif)@,
        },
{
    proof {
        reveal(field_intr_desc_outcome);
    }
    let at = match find_regdef(rif, reg_type) {
        Some(at) => at,
        None => {
            return None;
        },
    };
    let d = get_reg(rif, at);
    let fi: usize = match find_field(&d.fields, field_name) {
        Some(fi) => fi,
        None => {
            return None;
        },
    };
    let mut f = d.fields[fi].clone();
    let mut d = d.clone();
    let ghost before = f@;
    proof {
        assert(d@.fields[fi as int] == f@);
        assert(d.fields@.len() == d@.fields.len());
    }
    let was = show_intr_desc_block(f.intr_desc.as_ref(), kind);
    let mut descs = match f.intr_desc {
        Some(x) => x,
        None => IntrDesc { enable: empty_desc(), mask: empty_desc(), pending: empty_desc() },
    };
    describe(&mut descs, kind, text);
    f.intr_desc = Some(descs);
    proof {
        assert(f@ == field_redescribed(before, kind, text@));
    }
    let mut records = no_records();
    if let Some(line) = f.src.decl_line {
        let now = show_intr_desc_block(f.intr_desc.as_ref(), kind);
        let changed = !same_block(&now, &was);
        push_when(&mut records, changed, Record::FieldIntrDesc(line, kind, to_block_edit(now)));
        proof {
            assert(records.deep_view() =~= only_if(
                changed,
                RecordView::FieldIntrDesc(line, kind, block_edit(intr_desc_block(f@.intr_desc, kind))),
            ));
        }
    }
    set_field(&mut d, fi, f);
    set_reg(rif, at, d);
    Some(records)
}

/// A description that overrides another; a blank text overrides nothing.
pub open spec fn override_desc(text: Seq<char>) -> Option<DescView> {
    if trimmed(text).len() == 0 {
        None
    } else {
        Some(DescView { public: text, private: seq![] })
    }
}

fn new_override_desc(text: &String) -> (r: Option<Desc>)
    ensures
        r.deep_view() == override_desc(text@),
{
    if is_blank(text.as_str()) {
        None
    } else {
        Some(Desc { public: text.clone(), private: String::new() })
    }
}

/// Overrides that change nothing.
pub open spec fn empty_ovr() -> RegOvrView {
    RegOvrView {
        addr: None,
        description: None,
        optional: no_expr(),
        optional_acc: None,
        visibility: None,
        hw_acc: None,
        fields: seq![],
    }
}

/// Whether the overrides change nothing.
pub open spec fn overrides_nothing(o: RegOvrView) -> bool {
    &&& o.addr is None
    &&& o.description is None
    &&& o.optional.text.len() == 0
    &&& o.optional_acc is None
    &&& o.visibility is None
    &&& o.hw_acc is None
    &&& o.fields.len() == 0
}

/// Overrides that change nothing are not kept.
pub open spec fn kept_ovr(o: RegOvrView) -> Option<RegOvrView> {
    if overrides_nothing(o) {
        None
    } else {
        Some(o)
    }
}

/// The overrides of an instance.
pub open spec fn ovr_of(i: InstanceView) -> RegOvrView {
    match i.reg_override {
        Some(o) => o,
        None => empty_ovr(),
    }
}

fn no_overrides() -> (r: RegOvr)
    ensures
        r@ == empty_ovr(),
{
    let r = RegOvr {
        addr: None,
        description: None,
        optional: Expr { text: String::new(), rif: String::new() },
        optional_acc: None,
        visibility: None,
        hw_acc: None,
        fields: Vec::new(),
    };
    proof {
        assert(r.fields.deep_view() =~= Seq::<FieldOvrView>::empty());
    }
    r
}

fn keep_ovr(o: RegOvr) -> (r: Option<RegOvr>)
    ensures
        r.deep_view() == kept_ovr(o@),
{
    let nothing = o.addr.is_none() && o.description.is_none() && o.optional.text.as_str().is_empty()
        && o.optional_acc.is_none() && o.visibility.is_none() && o.hw_acc.is_none() && o.fields.len() == 0;
    if nothing {
        None
    } else {
        Some(o)
    }
}

/// The overrides with new values for the register.
pub open spec fn reg_ovr_after(o: RegOvrView, v: RegOverrideValsView) -> RegOvrView {
    RegOvrView {
        description: override_desc(v.desc),
        hw_acc: v.hw,
        optional: match v.optional {
            Some(e) => e,
            None => no_expr(),
        },
        optional_acc: v.optional_acc,
        ..o
    }
}

/// The records for the overridden properties that print differently, up to the `n`-th one.
pub open spec fn reg_ovr_lines(before: RegOvrView, after: RegOvrView, line: usize, n: int) -> Seq<RecordView>
    decreases n,
{
    if n <= 0 {
        seq![]
    } else {
        let p = RegOverrideProp::at_index(n - 1);
        reg_ovr_lines(before, after, line, n - 1) + only_if(
            reg_ovr_line(before, p) != reg_ovr_line(after, p),
            RecordView::RegOvrLine(line, p, line_edit(reg_ovr_line(after, p))),
        )
    }
}

/// What is to be saved of overrides of the register.
pub open spec fn reg_ovr_records(before: RegOvrView, after: RegOvrView, decl_line: Option<usize>) -> Seq<
    RecordView,
> {
    match decl_line {
        Some(line) => reg_ovr_lines(before, after, line, 4) + only_if(
            override_desc_block(before.description) != override_desc_block(after.description),
            RecordView::RegOvrDesc(line, block_edit(override_desc_block(after.description))),
        ),
        None => seq![],
    }
}

/// New values for what an instance overrides for its register.
#[verifier::opaque]
pub open spec fn reg_override_outcome(
    rif: RifDefView,
    inst_name: Seq<char>,
    v: RegOverrideValsView,
) -> Option<Outcome> {
    match locate_inst(rif, inst_name) {
        Some(at) => {
            let i = inst_at(rif, at);
            let after = reg_ovr_after(ovr_of(i), v);
            Some(
                Outcome {
                    rif: with_inst(rif, at, InstanceView { reg_override: kept_ovr(after), ..i }),
                    records: reg_ovr_records(ovr_of(i), after, i.decl_line),
                },
            )
        },
        None => None,
    }
}

fn note_reg_ovr(before: &RegOvr, after: &RegOvr, decl_line: Option<usize>) -> (r: Vec<Record>)
    ensures
        r.deep_view() == reg_ovr_records(before@, after@, decl_line),
{
    let mut r = no_records();
    let line: usize = match decl_line {
        Some(l) => l,
        None => {
            return r;
        },
    };
    let mut i: usize = 0;
    while i < 4
        invariant
            i <= 4,
            r.deep_view() == reg_ovr_lines(before@, after@, line, i as int),
        decreases 4 - i,
    {
        let p = RegOverrideProp::at(i);
        let was = show_reg_ovr_line(before, p);
        let now = show_reg_ovr_line(after, p);
        let changed = !same_line(&was, &now);
        push_when(&mut r, changed, Record::RegOvrLine(line, p, to_line_edit(now)));
        i += 1;
    }
    let was = show_override_desc_block(&before.description);
    let now = show_override_desc_block(&after.description);
    let changed = !same_block(&was, &now);
    push_when(&mut r, changed, Record::RegOvrDesc(line, to_block_edit(now)));
    r
}

fn current_ovr(o: &Option<RegOvr>) -> (r: RegOvr)
    ensures
        r@ == (match o.deep_view() {
            Some(x) => x,
            None => empty_ovr(),
        }),
{
    match o {
        Some(x) => x.clone(),
        None => no_overrides(),
    }
}

/// Sets what an instance overrides for its register.
pub fn stage_reg_override(rif: &mut RifDef, inst_name: &String, v: RegOverrideVals) -> (r: Option<
    Vec<Record>,
>)
    ensures
        match reg_override_outcome(old(rif)@, inst_name@, v@) {
            Some(o) => r is Some && final(rif)@ == o.rif && (r->0).deep_view() == o.records,
            None => r is None && final(rif)@ == old(rif)@,
        },
{
    proof {
        reveal(reg_override_outcome);
    }
    let at = match find_inst(rif, inst_name) {
        Some(at) => at,
        None => {
            return None;
        },
    };
    let mut inst = rif.pages[at.0].instances[at.1].clone();
    proof {
        assert(inst@ == inst_at(rif@, (at.0 as int, at.1 as int)));
    }
    let before = current_ovr(&inst.reg_override);
    let mut after = current_ovr(&inst.reg_override);
    after.description = new_override_desc(&v.desc);
    after.hw_acc = v.hw;
    after.optional = match v.optional {
        Some(e) => e,
        None => Expr { text: String::new(), rif: String::new() },
    };
    after.optional_acc = v.optional_acc;
    proof {
        assert(after@ == reg_ovr_after(before@, v@));
    }
    let records = note_reg_ovr(&before, &after, inst.decl_line);
    inst.reg_override = keep_ovr(after);
    set_inst(rif, at, inst);
    Some(records)
}

/// Whether overrides are those of a field.
pub open spec fn ovr_named(field: Seq<char>) -> spec_fn(FieldOvrView) -> bool {
    |o: FieldOvrView| o.field == field
}

/// Overrides of a field that change nothing.
pub open spec fn empty_field_ovr(field: Seq<char>) -> FieldOvrView {
    FieldOvrView {
        field,
        description: None,
        optional: no_expr(),
        visibility: None,
        reset: ResetOvrView::Keep,
        has_more: false,
    }
}

/// Whether the overrides of a field change nothing.
pub open spec fn field_ovr_is_empty(o: FieldOvrView) -> bool {
    &&& o.description is None
    &&& o.optional.text.len() == 0
    &&& o.visibility is None
    &&& o.reset is Keep
    &&& !o.has_more
}

/// The overrides of one field.
pub open spec fn field_ovr_of(o: RegOvrView, field: Seq<char>) -> FieldOvrView {
    match first(o.fields, ovr_named(field)) {
        Some(k) => o.fields[k],
        None => empty_field_ovr(field),
    }
}

/// The overrides of one field with new values.
pub open spec fn field_ovr_after(o: FieldOvrView, v: FieldOverrideValsView) -> FieldOvrView {
    FieldOvrView {
        description: override_desc(v.desc),
        visibility: if v.disabled {
            Some(Vis::Disabled)
        } else {
            None
        },
        reset: match v.reset {
            Some(r) => ResetOvrView::Reset(r),
            None => ResetOvrView::Keep,
        },
        ..o
    }
}

/// The overrides with those of one field replaced; overrides that change nothing are dropped.
pub open spec fn with_field_ovr(o: RegOvrView, field: Seq<char>, f: FieldOvrView) -> RegOvrView {
    RegOvrView {
        fields: match first(o.fields, ovr_named(field)) {
            Some(k) => if field_ovr_is_empty(f) {
                o.fields.remove(k)
            } else {
                o.fields.update(k, f)
            },
            None => if field_ovr_is_empty(f) {
                o.fields
            } else {
                o.fields.push(f)
            },
        },
        ..o
    }
}

/// What is to be saved of overrides of one field.
pub open spec fn field_ovr_records(
    before: FieldOvrView,
    after: FieldOvrView,
    field_reset: ResetView,
    decl_line: Option<usize>,
) -> Seq<RecordView> {
    match decl_line {
        Some(line) => {
            let (d, s) = (FieldOverrideProp::Description, FieldOverrideProp::Reset);
            only_if(
                field_ovr_line(before, d, field_reset) != field_ovr_line(after, d, field_reset),
                RecordView::FieldOvrLine(
                    line,
                    after.field,
                    d,
                    line_edit(field_ovr_line(after, d, field_reset)),
                ),
            ) + only_if(
                field_ovr_line(before, s, field_reset) != field_ovr_line(after, s, field_reset),
                RecordView::FieldOvrLine(
                    line,
                    after.field,
                    s,
                    line_edit(field_ovr_line(after, s, field_reset)),
                ),
            )
        },
        None => seq![],
    }
}

/// New values for what an instance overrides for one field.
#[verifier::opaque]
pub open spec fn field_override_outcome(
    rif: RifDefView,
    inst_name: Seq<char>,
    field: Seq<char>,
    v: FieldOverrideValsView,
) -> Option<Outcome> {
    match locate_inst(rif, inst_name) {
        Some(at) => {
            let i = inst_at(rif, at);
            let before = field_ovr_of(ovr_of(i), field);
            let after = field_ovr_after(before, v);
            Some(
                Outcome {
                    rif: with_inst(
                        rif,
                        at,
                        InstanceView {
                            reg_override: kept_ovr(with_field_ovr(ovr_of(i), field, after)),
                            ..i
                        },
                    ),
                    records: field_ovr_records(before, after, v.field_reset, i.decl_line),
                },
            )
        },
        None => None,
    }
}

/// Looks for the overrides of a field.
pub fn find_field_ovr(ovrs: &Vec<FieldOvr>, field: &String) -> (r: Option<usize>)
    ensures
        match first(ovrs.deep_view(), ovr_named(field@)) {
            Some(k) => r is Some && r->0 == k && k < ovrs@.len(),
            None => r is None,
        },
{
    let mut i: usize = 0;
    while i < ovrs.len()
        invariant
            i <= ovrs@.len(),
            forall|k: int| 0 <= k < i ==> (#[trigger] ovrs.deep_view()[k]).field != field@,
        decreases ovrs@.len() - i,
    {
        if ovrs[i].field == *field {
            proof {
                assert(ovrs.deep_view()[i as int].field == field@);
                lemma_is_first(ovrs.deep_view(), ovr_named(field@), i as int);
            }
            return Some(i);
        }
        i += 1;
    }
    proof {
        lemma_no_first(ovrs.deep_view(), ovr_named(field@));
    }
    None
}

fn no_field_overrides(field: &String) -> (r: FieldOvr)
    ensures
        r@ == empty_field_ovr(field@),
{
    FieldOvr {
        field: field.clone(),
        description: None,
        optional: Expr { text: String::new(), rif: String::new() },
        visibility: None,
        reset: ResetOvr::Keep,
        has_more: false,
    }
}

fn is_empty_field_ovr(o: &FieldOvr) -> (r: bool)
    ensures
        r == field_ovr_is_empty(o@),
{
    let keeps = match o.reset {
        ResetOvr::Keep => true,
        _ => false,
    };
    o.description.is_none() && o.optional.text.as_str().is_empty() && o.visibility.is_none() && keeps
        && !o.has_more
}

fn note_field_ovr(before: &FieldOvr, after: &FieldOvr, field_reset: &Reset, decl_line: Option<usize>) -> (r: Vec<
    Record,
>)
    ensures
        r.deep_view() == field_ovr_records(before@, after@, field_reset@, decl_line),
{
    let mut r = no_records();
    let line: usize = match decl_line {
        Some(l) => l,
        None => {
            return r;
        },
    };
    let p = FieldOverrideProp::Description;
    let was = show_field_ovr_line(before, p, field_reset);
    let now = show_field_ovr_line(after, p, field_reset);
    let changed = !same_line(&was, &now);
    push_when(&mut r, changed, Record::FieldOvrLine(line, after.field.clone(), p, to_line_edit(now)));
    let p = FieldOverrideProp::Reset;
    let was = show_field_ovr_line(before, p, field_reset);
    let now = show_field_ovr_line(after, p, field_reset);
    let changed = !same_line(&was, &now);
    push_when(&mut r, changed, Record::FieldOvrLine(line, after.field.clone(), p, to_line_edit(now)));
    proof {
        assert(r.deep_view() =~= field_ovr_records(before@, after@, field_reset@, decl_line));
    }
    r
}

/// Sets what an instance overrides for one field.
pub fn stage_field_override(rif: &mut RifDef, inst_name: &String, field: &String, v: FieldOverrideVals) -> (r:
    Option<Vec<Record>>)
    ensures
        match field_override_outcome(old(rif)@, inst_name@, field@, v@) {
            Some(o) => r is Some && final(rif)@ == o.rif && (r->0).deep_view() == o.records,
            None => r is None && final(rif)@ == old(rif)@,
        },
{
    proof {
        reveal(field_override_outcome);
    }
    let at = match find_inst(rif, inst_name) {
        Some(at) => at,
        None => {
            return None;
        },
    };
    let mut inst = rif.pages[at.0].instances[at.1].clone();
    proof {
        assert(inst@ == inst_at(rif@, (at.0 as int, at.1 as int)));
    }
    let mut ovr = current_ovr(&inst.reg_override);
    let ghost start = ovr@;
    let place = find_field_ovr(&ovr.fields, field);
    let before = match place {
        Some(k) => ovr.fields[k].clone(),
        None => no_field_overrides(field),
    };
    proof {
        assert(before@ == field_ovr_of(start, field@));
    }
    let mut after = before.clone();
    after.description = new_override_desc(&v.desc);
    after.visibility = if v.disabled {
        Some(Vis::Disabled)
    } else {
        None
    };
    after.reset = match v.reset {
        Some(x) => ResetOvr::Reset(x),
        None => ResetOvr::Keep,
    };
    proof {
        assert(after@ == field_ovr_after(before@, v@));
    }
    let records = note_field_ovr(&before, &after, &v.field_reset, inst.decl_line);
    let nothing = is_empty_field_ovr(&after);
    let ghost set = after@;
    match place {
        Some(k) => {
            if nothing {
                ovr.fields.remove(k);
                proof {
                    assert(ovr.fields.deep_view() =~= start.fields.remove(k as int));
                }
            } else {
                ovr.fields[k] = after;
                proof {
                    assert(ovr.fields.deep_view() =~= start.fields.update(k as int, set));
                }
            }
        },
        None => {
            if !nothing {
                ovr.fields.push(after);
                proof {
                    assert(ovr.fields.deep_view() =~= start.fields.push(set));
                }
            }
        },
    }
    proof {
        assert(ovr@ == with_field_ovr(start, field@, set));
    }
    inst.reg_override = keep_ovr(ovr);
    set_inst(rif, at, inst);
    Some(records)
}

} // verus!
