//! What edits of registers do.
use vstd::prelude::*;
use crate::action::EditActionView;
use crate::apply::{rif_applied, FollowView, RifApplied};
use crate::bridge::{field_decl, field_prop_line, reg_decl};
use crate::edits::{BlockEditView, LineEditView, RecordView};
use crate::field_update::{block_edit, line_edit, only_counters};
use crate::law_field::{block_now, is_count, line_now};
use crate::law_lines::reg_prop_now;
use crate::law_place::{
    is_def, is_field, is_inst, lemma_def, lemma_field, lemma_inst, lemma_no_def, lemma_no_field, lemma_no_inst,
    names_stand_once_or_nowhere, no_def, no_field, no_inst, only_def, only_field, the_def,
};
use crate::law_rif::{lemma_both, lemma_only};
use crate::model::page::{InstanceView, PageView};
use crate::model::props::{FieldProp, RegProp};
use crate::model::register::{FieldDefView, RegItemView, RegisterDefView};
use crate::model::rif::RifDefView;
use crate::model::values::{
    AddrKind, AddrView, DimView, HwKind, IntrClear, IntrDescView, IntrInfoView, IntrKind, OffsetView,
    SwKindView,
};
use crate::printed::{field_line, reg_line};
use crate::reg_update::{
    drops_interrupt, field_converted, field_descs_gone, field_line_gone, gathered, only_if, primary_block,
    reg_after, reg_descs_gone, reg_field_records, reg_lines, reg_own_records,
};
use crate::stage_ovr::{field_intr_desc_outcome, reg_intr_desc_outcome};
use crate::stage_reg::{redeclared, redeclared_on, update_reg_outcome};
use crate::syntax::{desc_block, inst_decl, intr_desc_block, short_desc};
use crate::vals::{RegAltValsView, RegDefValsView, RegIntrValsView};

verus! {

/// The edit of a register, seen at one of its instances.
pub open spec fn reg_edit(
    rif: RifDefView,
    orig_name: Seq<char>,
    inst_name: Seq<char>,
    v: RegDefValsView,
) -> RifApplied {
    rif_applied(
        rif,
        EditActionView::UpdateRegDef { rif_type: rif.name, orig_name, inst_name, vals: v },
    )
}

/// The RIF once a register was edited.
pub open spec fn edited_rif(
    rif: RifDefView,
    orig_name: Seq<char>,
    inst_name: Seq<char>,
    v: RegDefValsView,
) -> RifDefView {
    reg_edit(rif, orig_name, inst_name, v)->Staged_0.rif
}

proof fn lemma_reg_edit(
    rif: RifDefView,
    orig_name: Seq<char>,
    inst_name: Seq<char>,
    v: RegDefValsView,
    p: int,
    r: int,
)
    requires
        is_def(rif, orig_name, p, r),
    ensures
        update_reg_outcome(rif, orig_name, inst_name, v) is Some,
        reg_edit(rif, orig_name, inst_name, v) == RifApplied::Staged(
            update_reg_outcome(rif, orig_name, inst_name, v)->0,
            FollowView::RegUpdated { orig_name, new_name: v.name },
        ),
        the_def(edited_rif(rif, orig_name, inst_name, v), p, r) == reg_after(the_def(rif, p, r), orig_name, v),
{
    reveal(update_reg_outcome);
    lemma_def(rif, orig_name, p, r);
}

/// Where the register is not there, there is nothing to edit.
pub proof fn register_edit_needs_the_register(
    rif: RifDefView,
    orig_name: Seq<char>,
    inst_name: Seq<char>,
    v: RegDefValsView,
)
    requires
        no_def(rif, orig_name),
    ensures
        reg_edit(rif, orig_name, inst_name, v) is Nothing,
{
    reveal(update_reg_outcome);
    lemma_no_def(rif, orig_name);
}

/// The edit of a register gives its definition every plain value that was entered, and leaves alone
/// what cannot be entered. A register that makes up its own group takes the group along with a new
/// name. The selection follows the name.
pub proof fn register_edit_sets_the_values(
    rif: RifDefView,
    orig_name: Seq<char>,
    inst_name: Seq<char>,
    v: RegDefValsView,
    p: int,
    r: int,
)
    requires
        is_def(rif, orig_name, p, r),
    ensures
        ({
            let d = the_def(rif, p, r);
            let e = the_def(edited_rif(rif, orig_name, inst_name, v), p, r);
            &&& reg_edit(rif, orig_name, inst_name, v) matches RifApplied::Staged(_, follow) && follow == (
            FollowView::RegUpdated { orig_name, new_name: v.name })
            &&& e.name == v.name
            &&& v.group matches Some(g) ==> e.group_name == g
            &&& v.group is None && d.group_pkg is None && d.group_name == orig_name ==> e.group_name == v.name
            &&& v.group is None && !(d.group_pkg is None && d.group_name == orig_name) ==> e.group_name
                == d.group_name
            &&& e.group_pkg == d.group_pkg
            &&& e.description.public == v.desc
            &&& e.description.private == d.description.private
            &&& e.pulse == v.pulse
            &&& e.visibility == v.visibility
            &&& e.clk == v.clk
            &&& e.rst == v.rst
            &&& e.external == v.external
            &&& e.lock == d.lock
            &&& v.array matches Some(n) ==> e.array == DimView::Value(n)
            &&& v.array is None ==> e.array == d.array
            &&& e.src.decl_line == d.src.decl_line
            &&& e.src.prop_lines == d.src.prop_lines
            &&& e.src.desc_blocks == d.src.desc_blocks
            &&& e.src.has_inline_desc <==> d.src.has_inline_desc || short_desc(e.description, false) != short_desc(
                d.description,
                false,
            )
        }),
{
    lemma_reg_edit(rif, orig_name, inst_name, v, p, r);
}

/// Whether an interrupt block has the values that were entered for the primary interrupt.
pub open spec fn has_intr(b: IntrInfoView, i: RegIntrValsView) -> bool {
    &&& b.trigger == i.trigger
    &&& b.clear == i.clear
    &&& b.enable == i.enable
    &&& b.mask == i.mask
    &&& b.pending == i.pending
}

/// Whether an interrupt block has the values that were entered for the secondary interrupt.
pub open spec fn has_alt(b: IntrInfoView, a: RegAltValsView) -> bool {
    &&& b.name == a.name
    &&& b.trigger == a.trigger
    &&& b.clear == a.clear
    &&& b.enable == a.enable
    &&& b.mask == a.mask
    &&& b.pending == a.pending
}

/// Whether nothing is described.
pub open spec fn undescribed(d: IntrDescView) -> bool {
    &&& d.enable.public.len() == 0 && d.enable.private.len() == 0
    &&& d.mask.public.len() == 0 && d.mask.private.len() == 0
    &&& d.pending.public.len() == 0 && d.pending.private.len() == 0
}

/// The interrupts of an edited register are those that were entered. A block that was there keeps its
/// descriptions, and the primary one its name; a block that is new has none. Without a primary
/// interrupt there is no secondary one.
pub proof fn register_edit_sets_the_interrupts(
    rif: RifDefView,
    orig_name: Seq<char>,
    inst_name: Seq<char>,
    v: RegDefValsView,
    p: int,
    r: int,
)
    requires
        is_def(rif, orig_name, p, r),
    ensures
        ({
            let was = the_def(rif, p, r).interrupt;
            let now = the_def(edited_rif(rif, orig_name, inst_name, v), p, r).interrupt;
            &&& v.intr matches Some(Some(i)) ==> {
                &&& now.len() > 0 && has_intr(now[0], i)
                &&& was.len() > 0 ==> now[0].name == was[0].name && now[0].description == was[0].description
                &&& was.len() == 0 ==> now[0].name.len() == 0 && undescribed(now[0].description)
            }
            &&& v.intr == Some(None::<RegIntrValsView>) ==> now.len() == 0
            &&& v.intr is None && was.len() == 0 ==> now.len() == 0
            &&& v.intr is None && was.len() > 0 ==> now.len() > 0 && now[0] == was[0]
            &&& now.len() > 0 ==> {
                &&& v.alt matches Some(Some(a)) ==> {
                    &&& now.len() >= 2 && has_alt(now[1], a)
                    &&& was.len() >= 2 ==> now[1].description == was[1].description && now.len() == was.len()
                    &&& was.len() < 2 ==> undescribed(now[1].description) && now.len() == 2
                }
                &&& v.alt == Some(None::<RegAltValsView>) ==> now.len() == 1
                &&& v.alt is None && was.len() > 0 ==> now.len() == was.len() && forall|k: int|
                    1 <= k < was.len() ==> #[trigger] now[k] == was[k]
                &&& v.alt is None && was.len() == 0 ==> now.len() == 1
            }
        }),
{
    lemma_reg_edit(rif, orig_name, inst_name, v, p, r);
    reveal_strlit("");
}

/// Whether a field follows the interrupt of its register.
pub open spec fn follows(f: FieldDefView) -> bool {
    f.intr_ovr.trigger is None && f.intr_ovr.clear is None
}

proof fn lemma_only_counters(s: Seq<HwKind>)
    ensures
        only_counters(s) == s.filter(is_count()),
    decreases s.len(),
{
    reveal(Seq::filter);
    if s.len() > 0 {
        lemma_only_counters(s.drop_last());
    }
}

/// The fields of an edited register follow it. Where an interrupt was entered, each field without an
/// interrupt of its own takes its trigger and what clears it; where the interrupt was dropped, each
/// field is plain again and keeps nothing but its counters; where the register became an array, each
/// field that is none becomes one. Nothing else changes in the fields.
pub proof fn register_edit_takes_the_fields_along(
    rif: RifDefView,
    orig_name: Seq<char>,
    inst_name: Seq<char>,
    v: RegDefValsView,
    p: int,
    r: int,
    k: int,
)
    requires
        is_def(rif, orig_name, p, r),
        0 <= k < the_def(rif, p, r).fields.len(),
    ensures
        ({
            let d = the_def(rif, p, r);
            let e = the_def(edited_rif(rif, orig_name, inst_name, v), p, r);
            let (f, g) = (d.fields[k], e.fields[k]);
            let dropped = v.intr == Some(None::<RegIntrValsView>) && d.interrupt.len() > 0;
            &&& e.fields.len() == d.fields.len()
            &&& g == (FieldDefView {
                hw_kind: g.hw_kind,
                sw_kind: g.sw_kind,
                intr_ovr: g.intr_ovr,
                intr_desc: g.intr_desc,
                array: g.array,
                ..f
            })
            &&& (v.array matches Some(n) && n > 0 && f.array == DimView::Value(0)) ==> g.array == DimView::Value(1)
            &&& !(v.array matches Some(n) && n > 0 && f.array == DimView::Value(0)) ==> g.array == f.array
            &&& v.intr matches Some(Some(i)) ==> follows(f) ==> {
                &&& g.intr_ovr == f.intr_ovr && g.intr_desc == f.intr_desc
                &&& g.hw_kind[0] == HwKind::Interrupt(i.trigger)
                &&& forall|j: int| 1 <= j < f.hw_kind.len() ==> #[trigger] g.hw_kind[j] == f.hw_kind[j]
                &&& i.clear == IntrClear::Read ==> g.sw_kind == SwKindView::ReadClr
                &&& i.clear == IntrClear::Write0 ==> g.sw_kind == SwKindView::W0Clr
                &&& i.clear == IntrClear::Write1 ==> g.sw_kind == SwKindView::W1Clr
                &&& i.clear == IntrClear::Hw ==> g.sw_kind == f.sw_kind && g.hw_kind.last() == HwKind::Clear
                &&& g.hw_kind.len() == (if f.hw_kind.len() == 0 {
                    1
                } else {
                    f.hw_kind.len()
                }) + (if i.clear == IntrClear::Hw {
                    1int
                } else {
                    0
                })
            }
            &&& dropped ==> {
                &&& g.sw_kind == SwKindView::ReadWrite
                &&& g.intr_ovr.trigger is None && g.intr_ovr.clear is None
                &&& g.intr_desc is None
                &&& g.hw_kind == f.hw_kind.filter(is_count())
            }
            &&& !dropped && !(v.intr matches Some(Some(_)) && follows(f)) ==> {
                &&& g.hw_kind == f.hw_kind
                &&& g.sw_kind == f.sw_kind
                &&& g.intr_ovr == f.intr_ovr
                &&& g.intr_desc == f.intr_desc
            }
        }),
{
    lemma_reg_edit(rif, orig_name, inst_name, v, p, r);
    lemma_only_counters(the_def(rif, p, r).fields[k].hw_kind);
}

/// Every instance of an edited register follows its name, and its own name with it where that was the
/// name of the register; the instance in view gets the address that was entered. Nothing else changes
/// in the RIF, but the definition.
pub proof fn register_edit_takes_the_instances_along(
    rif: RifDefView,
    orig_name: Seq<char>,
    inst_name: Seq<char>,
    v: RegDefValsView,
    p: int,
    r: int,
)
    requires
        is_def(rif, orig_name, p, r),
    ensures
        ({
            let after = edited_rif(rif, orig_name, inst_name, v);
            &&& after == (RifDefView { pages: after.pages, ..rif })
            &&& after.pages.len() == rif.pages.len()
            &&& forall|q: int|
                0 <= q < rif.pages.len() ==> (#[trigger] after.pages[q]) == (PageView {
                    registers: after.pages[q].registers,
                    instances: after.pages[q].instances,
                    ..rif.pages[q]
                }) && after.pages[q].instances.len() == rif.pages[q].instances.len()
            &&& forall|q: int| 0 <= q < rif.pages.len() && q != p ==> (#[trigger] after.pages[q]).registers
                == rif.pages[q].registers
            &&& after.pages[p].registers == rif.pages[p].registers.update(
                r,
                RegItemView::Def(the_def(after, p, r)),
            )
            &&& forall|q: int, k: int|
                0 <= q < rif.pages.len() && 0 <= k < rif.pages[q].instances.len() ==> {
                    let i = rif.pages[q].instances[k];
                    let j = #[trigger] after.pages[q].instances[k];
                    &&& j == (InstanceView {
                        inst_name: j.inst_name,
                        reg_type: j.reg_type,
                        addr: j.addr,
                        ..i
                    })
                    &&& i.reg_type == orig_name ==> j.reg_type == v.name
                    &&& i.reg_type != orig_name ==> j.reg_type == i.reg_type && j.inst_name == i.inst_name
                    &&& i.reg_type == orig_name && i.inst_name == orig_name ==> j.inst_name == v.name
                    &&& i.reg_type == orig_name && i.inst_name != orig_name ==> j.inst_name == i.inst_name
                    &&& is_inst(rif, inst_name, q, k) ==> (v.addr matches Some(a) ==> j.addr == AddrView {
                        kind: AddrKind::Absolute,
                        offset: OffsetView::Value(a),
                    })
                    &&& v.addr is None || !is_inst(rif, inst_name, q, k) ==> j.addr == i.addr
                }
        }),
{
    lemma_reg_edit(rif, orig_name, inst_name, v, p, r);
    reveal(update_reg_outcome);
    lemma_def(rif, orig_name, p, r);
    let after = edited_rif(rif, orig_name, inst_name, v);
    names_stand_once_or_nowhere(rif, inst_name);
    if no_inst(rif, inst_name) {
        lemma_no_inst(rif, inst_name);
        assert forall|q: int, k: int| !#[trigger] is_inst(rif, inst_name, q, k) by {
            assert(!crate::law_place::places(rif, q, k, inst_name));
        }
    } else {
        let (tp, ti) = choose|tp: int, ti: int| #[trigger] is_inst(rif, inst_name, tp, ti);
        lemma_inst(rif, inst_name, tp, ti);
        assert forall|q: int, k: int| #[trigger] is_inst(rif, inst_name, q, k) implies q == tp && k == ti by {
            lemma_inst(rif, inst_name, q, k);
        }
    }
    assert(after.pages[p].registers =~= rif.pages[p].registers.update(r, RegItemView::Def(the_def(after, p, r))));
}

/// Whether an interrupt of a register is dropped.
pub open spec fn dropped(d: RegisterDefView, v: RegDefValsView) -> bool {
    v.intr == Some(None::<RegIntrValsView>) && d.interrupt.len() > 0
}

/// The text of one of the three derived descriptions.
pub open spec fn derived_text(d: IntrDescView, k: IntrKind) -> Seq<char> {
    match k {
        IntrKind::Enable => d.enable.public,
        IntrKind::Mask => d.mask.public,
        IntrKind::Pending => d.pending.public,
        _ => seq![],
    }
}

/// Whether a field of a register that becomes an array, and was none, prints otherwise for it.
pub open spec fn converted(d: RegisterDefView, e: RegisterDefView, v: RegDefValsView, k: int) -> bool {
    &&& v.array matches Some(n) && n > 0
    &&& d.fields[k].array == DimView::Value(0)
    &&& field_decl(e.fields[k]) != field_decl(FieldDefView { array: DimView::Value(0), ..e.fields[k] })
}

/// The notes that the edit of a register makes about its definition and its fields, where it became
/// `e`: what prints otherwise is written; the description and interrupt lines that go with an
/// interrupt are taken away; a field that becomes an array is written.
pub open spec fn reg_note(d: RegisterDefView, e: RegisterDefView, v: RegDefValsView, x: RecordView) -> bool {
    match x {
        RecordView::RegDirty(l) => d.src.decl_line == Some(l) && reg_decl(e) != reg_decl(d),
        RecordView::RegLine(l, q, y) => d.src.decl_line == Some(l) && reg_prop_now(e, q) != reg_prop_now(d, q) && y
            == line_now(reg_prop_now(e, q)),
        RecordView::RegDesc(l, y) => d.src.decl_line == Some(l) && desc_block(e.description) != desc_block(
            d.description,
        ) && y == block_now(desc_block(e.description)),
        RecordView::RegIntrDesc(l, k, y) => d.src.decl_line == Some(l) && dropped(d, v) && y is Remove && derived_text(
            d.interrupt[0].description,
            k,
        ).len() > 0,
        RecordView::FieldIntrDesc(l, k, y) => dropped(d, v) && y is Remove && exists|j: int|
            0 <= j < d.fields.len() && (#[trigger] d.fields[j]).src.decl_line == Some(l) && (
            d.fields[j].intr_desc matches Some(t) && derived_text(t, k).len() > 0),
        RecordView::FieldLine(l, q, y) => dropped(d, v) && y is Remove && q == FieldProp::Interrupt && exists|j: int|
            0 <= j < d.fields.len() && (#[trigger] d.fields[j]).src.decl_line == Some(l) && field_prop_line(
                d.fields[j],
                FieldProp::Interrupt,
            ) is Some,
        RecordView::FieldDirty(l) => exists|j: int|
            0 <= j < d.fields.len() && (#[trigger] d.fields[j]).src.decl_line == Some(l) && converted(d, e, v, j),
        _ => false,
    }
}

/// The notes about instances: those of the file whose declarations print otherwise.
pub open spec fn inst_note(before: RifDefView, after: RifDefView, x: RecordView) -> bool {
    x matches RecordView::InstDirty(l) && exists|q: int, k: int|
        0 <= q < before.pages.len() && 0 <= k < before.pages[q].instances.len() && (
        #[trigger] before.pages[q].instances[k]).decl_line == Some(l) && inst_decl(after.pages[q].instances[k])
            != inst_decl(before.pages[q].instances[k])
}

proof fn lemma_reg_lines(d: RegisterDefView, e: RegisterDefView, line: usize, n: int, x: RecordView)
    requires
        0 <= n <= 10,
    ensures
        reg_lines(d, e, line, n).contains(x) <==> (x matches RecordView::RegLine(l, q, y) && l == line && q.index() < n
            && reg_prop_now(e, q) != reg_prop_now(d, q) && y == line_now(reg_prop_now(e, q))),
    decreases n,
{
    if n > 0 {
        lemma_reg_lines(d, e, line, n - 1, x);
        let p = RegProp::at_index(n - 1);
        assert(p.index() == n - 1);
        assert(reg_prop_now(d, p) == reg_line(d, p));
        assert(reg_prop_now(e, p) == reg_line(e, p));
        let last = RecordView::RegLine(line, p, line_edit(reg_line(e, p)));
        lemma_only(reg_line(d, p) != reg_line(e, p), last, x);
        lemma_both(reg_lines(d, e, line, n - 1), only_if(reg_line(d, p) != reg_line(e, p), last), x);
        if let RecordView::RegLine(_, q, _) = x {
            if q.index() == n - 1 {
                assert(q == p);
            }
        }
    }
}

proof fn lemma_derived_block(d: IntrDescView, k: IntrKind)
    ensures
        intr_desc_block(Some(d), k) is Some <==> derived_text(d, k).len() > 0,
{
}

proof fn lemma_descs_gone(d: RegisterDefView, line: usize, x: RecordView)
    requires
        d.interrupt.len() > 0,
    ensures
        reg_descs_gone(d, line).contains(x) <==> (x matches RecordView::RegIntrDesc(l, k, y) && l == line && y is Remove
            && derived_text(d.interrupt[0].description, k).len() > 0),
{
    let t = d.interrupt[0].description;
    lemma_derived_block(t, IntrKind::Enable);
    lemma_derived_block(t, IntrKind::Mask);
    lemma_derived_block(t, IntrKind::Pending);
    let a = RecordView::RegIntrDesc(line, IntrKind::Enable, BlockEditView::Remove);
    let b = RecordView::RegIntrDesc(line, IntrKind::Mask, BlockEditView::Remove);
    let c = RecordView::RegIntrDesc(line, IntrKind::Pending, BlockEditView::Remove);
    let (p, q, r) = (
        primary_block(d, IntrKind::Enable) is Some,
        primary_block(d, IntrKind::Mask) is Some,
        primary_block(d, IntrKind::Pending) is Some,
    );
    lemma_only(p, a, x);
    lemma_only(q, b, x);
    lemma_only(r, c, x);
    lemma_both(only_if(p, a), only_if(q, b), x);
    lemma_both(only_if(p, a) + only_if(q, b), only_if(r, c), x);
}

proof fn lemma_gathered<T>(s: Seq<T>, f: spec_fn(T) -> Seq<RecordView>, n: int, x: RecordView)
    requires
        0 <= n <= s.len(),
    ensures
        gathered(s, f, n).contains(x) <==> exists|k: int| 0 <= k < n && f(#[trigger] s[k]).contains(x),
    decreases n,
{
    if n > 0 {
        lemma_gathered(s, f, n - 1, x);
        lemma_both(gathered(s, f, n - 1), f(s[n - 1]), x);
    }
}

proof fn lemma_field_descs(f: FieldDefView, x: RecordView)
    ensures
        field_descs_gone()(f).contains(x) <==> (x matches RecordView::FieldIntrDesc(l, k, y) && f.src.decl_line
            == Some(l) && y is Remove && (f.intr_desc matches Some(t) && derived_text(t, k).len() > 0)),
{
    if let Some(line) = f.src.decl_line {
        if let Some(t) = f.intr_desc {
            lemma_derived_block(t, IntrKind::Enable);
            lemma_derived_block(t, IntrKind::Mask);
            lemma_derived_block(t, IntrKind::Pending);
        }
        let a = RecordView::FieldIntrDesc(line, IntrKind::Enable, BlockEditView::Remove);
        let b = RecordView::FieldIntrDesc(line, IntrKind::Mask, BlockEditView::Remove);
        let c = RecordView::FieldIntrDesc(line, IntrKind::Pending, BlockEditView::Remove);
        let (p, q, r) = (
            intr_desc_block(f.intr_desc, IntrKind::Enable) is Some,
            intr_desc_block(f.intr_desc, IntrKind::Mask) is Some,
            intr_desc_block(f.intr_desc, IntrKind::Pending) is Some,
        );
        lemma_only(p, a, x);
        lemma_only(q, b, x);
        lemma_only(r, c, x);
        lemma_both(only_if(p, a), only_if(q, b), x);
        lemma_both(only_if(p, a) + only_if(q, b), only_if(r, c), x);
    }
}

proof fn lemma_own_note(d: RegisterDefView, orig_name: Seq<char>, v: RegDefValsView, x: RecordView)
    ensures
        reg_own_records(d, orig_name, v).contains(x) <==> (x is RegDirty || x is RegLine || x is RegDesc || x is RegIntrDesc)
            && reg_note(d, reg_after(d, orig_name, v), v, x),
{
    let e = reg_after(d, orig_name, v);
    if let Some(line) = d.src.decl_line {
        let a = only_if(reg_decl(e) != reg_decl(d), RecordView::RegDirty(line));
        let b = reg_lines(d, e, line, 10);
        let block = block_edit(desc_block(e.description));
        let changed = desc_block(e.description) != desc_block(d.description);
        let c = only_if(changed, RecordView::RegDesc(line, block));
        let f: Seq<RecordView> = if drops_interrupt(d, v) {
            reg_descs_gone(d, line)
        } else {
            seq![]
        };
        lemma_only(reg_decl(e) != reg_decl(d), RecordView::RegDirty(line), x);
        lemma_reg_lines(d, e, line, 10, x);
        lemma_only(changed, RecordView::RegDesc(line, block), x);
        if dropped(d, v) {
            lemma_descs_gone(d, line, x);
        }
        lemma_both(a, b, x);
        lemma_both(a + b, c, x);
        lemma_both(a + b + c, f, x);
    }
}

proof fn lemma_converted(d: RegisterDefView, orig_name: Seq<char>, v: RegDefValsView, k: int, x: RecordView)
    requires
        0 <= k < d.fields.len(),
    ensures
        field_converted(d, v)(d.fields[k]).contains(x) <==> (x matches RecordView::FieldDirty(l)
            && d.fields[k].src.decl_line == Some(l) && converted(d, reg_after(d, orig_name, v), v, k)),
{
    let f = d.fields[k];
    let g = crate::reg_update::intr_step(d, v, f);
    let e = reg_after(d, orig_name, v);
    assert(g.src == f.src && g.array == f.array);
    assert(e.fields[k] == crate::reg_update::reg_field_after(d, v, f));
    if let Some(line) = g.src.decl_line {
        let cond = crate::reg_update::converts(v, g) && field_decl(crate::reg_update::as_array(g)) != field_decl(g);
        lemma_only(cond, RecordView::FieldDirty(line), x);
        if crate::reg_update::converts(v, g) {
            assert(FieldDefView { array: DimView::Value(0), ..e.fields[k] } == g);
        }
    }
}

proof fn lemma_fields_note(d: RegisterDefView, orig_name: Seq<char>, v: RegDefValsView, x: RecordView)
    ensures
        reg_field_records(d, v).contains(x) <==> (x is FieldIntrDesc || x is FieldLine || x is FieldDirty) && reg_note(
            d,
            reg_after(d, orig_name, v),
            v,
            x,
        ),
{
    let n = d.fields.len() as int;
    let a = gathered(d.fields, field_descs_gone(), n);
    let b = gathered(d.fields, field_line_gone(), n);
    let c = gathered(d.fields, field_converted(d, v), n);
    lemma_gathered(d.fields, field_descs_gone(), n, x);
    lemma_gathered(d.fields, field_line_gone(), n, x);
    lemma_gathered(d.fields, field_converted(d, v), n, x);
    assert forall|k: int| 0 <= k < n implies (field_descs_gone()(#[trigger] d.fields[k]).contains(x) <==> (
    x matches RecordView::FieldIntrDesc(l, kind, y) && d.fields[k].src.decl_line == Some(l) && y is Remove && (
    d.fields[k].intr_desc matches Some(t) && derived_text(t, kind).len() > 0))) by {
        lemma_field_descs(d.fields[k], x);
    }
    assert forall|k: int| 0 <= k < n implies (field_line_gone()(#[trigger] d.fields[k]).contains(x) <==> (
    x matches RecordView::FieldLine(l, q, y) && d.fields[k].src.decl_line == Some(l) && y is Remove && q
        == FieldProp::Interrupt && field_prop_line(d.fields[k], FieldProp::Interrupt) is Some)) by {
        let f = d.fields[k];
        if let Some(line) = f.src.decl_line {
            lemma_only(
                field_line(f, FieldProp::Interrupt) is Some,
                RecordView::FieldLine(line, FieldProp::Interrupt, LineEditView::Remove),
                x,
            );
        }
    }
    assert forall|k: int| 0 <= k < n implies (field_converted(d, v)(#[trigger] d.fields[k]).contains(x) <==> (
    x matches RecordView::FieldDirty(l) && d.fields[k].src.decl_line == Some(l) && converted(
        d,
        reg_after(d, orig_name, v),
        v,
        k,
    ))) by {
        lemma_converted(d, orig_name, v, k, x);
    }
    lemma_both(a, b, x);
    if dropped(d, v) {
        lemma_both(a + b, c, x);
    } else {
        lemma_both(Seq::<RecordView>::empty(), c, x);
    }
}

proof fn lemma_redeclared_notes(before: Seq<InstanceView>, after: Seq<InstanceView>, n: int, x: RecordView)
    requires
        0 <= n <= before.len(),
    ensures
        redeclared(before, after, n).contains(x) <==> (x matches RecordView::InstDirty(l) && exists|k: int|
            0 <= k < n && (#[trigger] before[k]).decl_line == Some(l) && inst_decl(after[k]) != inst_decl(before[k])),
    decreases n,
{
    if n > 0 {
        lemma_redeclared_notes(before, after, n - 1, x);
        let cond = inst_decl(after[n - 1]) != inst_decl(before[n - 1]);
        let last: Seq<RecordView> = match before[n - 1].decl_line {
            Some(line) => only_if(cond, RecordView::InstDirty(line)),
            None => seq![],
        };
        if let Some(line) = before[n - 1].decl_line {
            lemma_only(cond, RecordView::InstDirty(line), x);
        }
        lemma_both(redeclared(before, after, n - 1), last, x);
    }
}

proof fn lemma_redeclared_on_notes(before: Seq<PageView>, after: Seq<PageView>, n: int, x: RecordView)
    requires
        0 <= n <= before.len(),
    ensures
        redeclared_on(before, after, n).contains(x) <==> (x matches RecordView::InstDirty(l) && exists|q: int, k: int|
            0 <= q < n && 0 <= k < before[q].instances.len() && (#[trigger] before[q].instances[k]).decl_line
                == Some(l) && inst_decl(after[q].instances[k]) != inst_decl(before[q].instances[k])),
    decreases n,
{
    if n > 0 {
        lemma_redeclared_on_notes(before, after, n - 1, x);
        let (i, j) = (before[n - 1].instances, after[n - 1].instances);
        lemma_redeclared_notes(i, j, i.len() as int, x);
        lemma_both(redeclared_on(before, after, n - 1), redeclared(i, j, i.len() as int), x);
        if let RecordView::InstDirty(l) = x {
            if exists|k: int| 0 <= k < i.len() && (#[trigger] i[k]).decl_line == Some(l) && inst_decl(j[k]) != inst_decl(
                i[k],
            ) {
                let k = choose|k: int|
                    0 <= k < i.len() && (#[trigger] i[k]).decl_line == Some(l) && inst_decl(j[k]) != inst_decl(i[k]);
                assert(before[n - 1].instances[k].decl_line == Some(l));
            }
            if exists|q: int, k: int|
                0 <= q < n && 0 <= k < before[q].instances.len() && (#[trigger] before[q].instances[k]).decl_line
                    == Some(l) && inst_decl(after[q].instances[k]) != inst_decl(before[q].instances[k]) {
                let (q, k) = choose|q: int, k: int|
                    0 <= q < n && 0 <= k < before[q].instances.len() && (
                    #[trigger] before[q].instances[k]).decl_line == Some(l) && inst_decl(after[q].instances[k])
                        != inst_decl(before[q].instances[k]);
                if q == n - 1 {
                    assert(i[k].decl_line == Some(l));
                } else {
                    assert(before[q].instances[k].decl_line == Some(l));
                }
            }
        }
    }
}

/// The edit of a register is noted: what prints otherwise of its definition, of its fields and of all
/// instances, as far as it is in the file, and nothing else.
pub proof fn register_edit_is_noted(
    rif: RifDefView,
    orig_name: Seq<char>,
    inst_name: Seq<char>,
    v: RegDefValsView,
    p: int,
    r: int,
)
    requires
        is_def(rif, orig_name, p, r),
    ensures
        ({
            let after = edited_rif(rif, orig_name, inst_name, v);
            let rs = reg_edit(rif, orig_name, inst_name, v)->Staged_0.records;
            forall|x: RecordView| #[trigger]
                rs.contains(x) <==> reg_note(the_def(rif, p, r), the_def(after, p, r), v, x) || inst_note(rif, after, x)
        }),
{
    lemma_reg_edit(rif, orig_name, inst_name, v, p, r);
    let d = the_def(rif, p, r);
    let after = edited_rif(rif, orig_name, inst_name, v);
    let rs = reg_edit(rif, orig_name, inst_name, v)->Staged_0.records;
    let n = rif.pages.len() as int;
    let a = reg_own_records(d, orig_name, v);
    let b = reg_field_records(d, v);
    let c = redeclared_on(rif.pages, after.pages, n);
    assert(rs == a + b + c) by {
        reveal(update_reg_outcome);
        lemma_def(rif, orig_name, p, r);
    }
    assert forall|x: RecordView| #[trigger] rs.contains(x) <==> reg_note(d, the_def(after, p, r), v, x) || inst_note(
        rif,
        after,
        x,
    ) by {
        lemma_own_note(d, orig_name, v, x);
        lemma_fields_note(d, orig_name, v, x);
        lemma_redeclared_on_notes(rif.pages, after.pages, n, x);
        lemma_both(a, b, x);
        lemma_both(a + b, c, x);
    }
}

/// Another description for a register derived from an interrupt.
pub open spec fn reg_description(
    rif: RifDefView,
    reg_type: Seq<char>,
    kind: IntrKind,
    text: Seq<char>,
) -> RifApplied {
    rif_applied(
        rif,
        EditActionView::UpdateRegIntrDesc { rif_type: rif.name, reg_type, kind, desc: text },
    )
}

/// Whether descriptions are those of before with another text for one of the derived registers.
pub open spec fn says(before: IntrDescView, after: IntrDescView, kind: IntrKind, text: Seq<char>) -> bool {
    &&& kind == IntrKind::Enable ==> after.enable.public == text && after.mask == before.mask && after.pending
        == before.pending
    &&& kind == IntrKind::Mask ==> after.mask.public == text && after.enable == before.enable && after.pending
        == before.pending
    &&& kind == IntrKind::Pending ==> after.pending.public == text && after.enable == before.enable && after.mask
        == before.mask
    &&& after.enable.private == before.enable.private
    &&& after.mask.private == before.mask.private
    &&& after.pending.private == before.pending.private
}

/// Whether a kind is one of the three that are derived from an interrupt.
pub open spec fn is_derived(kind: IntrKind) -> bool {
    kind == IntrKind::Enable || kind == IntrKind::Mask || kind == IntrKind::Pending
}

/// The description of a register derived from an interrupt is the text that was entered; nothing else
/// changes in the RIF. Its block in the file is noted where it prints otherwise, and nothing else.
pub proof fn derived_register_is_described(
    rif: RifDefView,
    reg_type: Seq<char>,
    kind: IntrKind,
    text: Seq<char>,
    p: int,
    r: int,
)
    requires
        is_def(rif, reg_type, p, r),
        is_derived(kind),
    ensures
        ({
            let d = the_def(rif, p, r);
            reg_description(rif, reg_type, kind, text) matches RifApplied::Staged(o, follow) && {
                let e = the_def(o.rif, p, r);
                &&& follow == FollowView::RegDescribed
                &&& only_def(rif, o.rif, p, r, RegisterDefView { interrupt: e.interrupt, ..d })
                &&& e.interrupt.len() == d.interrupt.len()
                &&& forall|k: int| 1 <= k < d.interrupt.len() ==> #[trigger] e.interrupt[k] == d.interrupt[k]
                &&& d.interrupt.len() > 0 ==> {
                    let (a, b) = (d.interrupt[0], e.interrupt[0]);
                    &&& b == (IntrInfoView { description: b.description, ..a })
                    &&& says(a.description, b.description, kind, text)
                    &&& forall|x: RecordView| #[trigger]
                        o.records.contains(x) <==> (d.src.decl_line matches Some(line) && intr_desc_block(
                            Some(a.description),
                            kind,
                        ) != intr_desc_block(Some(b.description), kind) && x == RecordView::RegIntrDesc(
                            line,
                            kind,
                            block_now(intr_desc_block(Some(b.description), kind)),
                        ))
                }
                &&& d.interrupt.len() == 0 ==> o.records.len() == 0
            }
        }),
{
    reveal(reg_intr_desc_outcome);
    lemma_def(rif, reg_type, p, r);
    let d = the_def(rif, p, r);
    let o = reg_intr_desc_outcome(rif, reg_type, kind, text)->0;
    let e = the_def(o.rif, p, r);
    if d.interrupt.len() > 0 {
        if let Some(line) = d.src.decl_line {
            assert forall|x: RecordView| #[trigger]
                o.records.contains(x) <==> intr_desc_block(Some(d.interrupt[0].description), kind) != intr_desc_block(
                    Some(e.interrupt[0].description),
                    kind,
                ) && x == RecordView::RegIntrDesc(
                    line,
                    kind,
                    block_now(intr_desc_block(Some(e.interrupt[0].description), kind)),
                ) by {
                lemma_only(
                    primary_block(e, kind) != primary_block(d, kind),
                    RecordView::RegIntrDesc(line, kind, block_edit(primary_block(e, kind))),
                    x,
                );
            }
        }
    }
}

/// Where the register is not there, nothing is described.
pub proof fn described_register_is_there(
    rif: RifDefView,
    reg_type: Seq<char>,
    kind: IntrKind,
    text: Seq<char>,
)
    requires
        no_def(rif, reg_type),
    ensures
        reg_description(rif, reg_type, kind, text) is Nothing,
{
    reveal(reg_intr_desc_outcome);
    lemma_no_def(rif, reg_type);
}

/// Another description for a field in a register derived from an interrupt.
pub open spec fn field_description(
    rif: RifDefView,
    reg_type: Seq<char>,
    field_name: Seq<char>,
    kind: IntrKind,
    text: Seq<char>,
) -> RifApplied {
    rif_applied(
        rif,
        EditActionView::UpdateFieldIntrDesc { rif_type: rif.name, reg_type, field_name, kind, desc: text },
    )
}

/// The description of a field in a register derived from an interrupt is the text that was entered;
/// nothing else changes in the RIF. Its block in the file is noted where it prints otherwise, and
/// nothing else.
pub proof fn derived_field_is_described(
    rif: RifDefView,
    reg_type: Seq<char>,
    field_name: Seq<char>,
    kind: IntrKind,
    text: Seq<char>,
    p: int,
    r: int,
    k: int,
)
    requires
        is_def(rif, reg_type, p, r),
        is_field(the_def(rif, p, r), field_name, k),
        is_derived(kind),
    ensures
        ({
            let f = the_def(rif, p, r).fields[k];
            field_description(rif, reg_type, field_name, kind, text) matches RifApplied::Staged(o, follow) && {
                let g = the_def(o.rif, p, r).fields[k];
                &&& follow == FollowView::FieldDescribed
                &&& only_field(rif, o.rif, p, r, k, g)
                &&& g == (FieldDefView { intr_desc: g.intr_desc, ..f })
                &&& g.intr_desc matches Some(b) && {
                    &&& f.intr_desc matches Some(a) ==> says(a, b, kind, text)
                    &&& f.intr_desc is None ==> exists|a: IntrDescView| undescribed(a) && #[trigger] says(a, b, kind, text)
                }
                &&& forall|x: RecordView| #[trigger]
                    o.records.contains(x) <==> (f.src.decl_line matches Some(line) && intr_desc_block(
                        f.intr_desc,
                        kind,
                    ) != intr_desc_block(g.intr_desc, kind) && x == RecordView::FieldIntrDesc(
                        line,
                        kind,
                        block_now(intr_desc_block(g.intr_desc, kind)),
                    ))
            }
        }),
{
    reveal(field_intr_desc_outcome);
    lemma_def(rif, reg_type, p, r);
    let d = the_def(rif, p, r);
    lemma_field(d, field_name, k);
    let f = d.fields[k];
    let o = field_intr_desc_outcome(rif, reg_type, field_name, kind, text)->0;
    let g = the_def(o.rif, p, r).fields[k];
    if f.intr_desc is None {
        let none = crate::reg_update::no_desc();
        let a = IntrDescView { enable: none, mask: none, pending: none };
        assert(undescribed(a) && says(a, g.intr_desc->0, kind, text));
    }
    if let Some(line) = f.src.decl_line {
        assert forall|x: RecordView| #[trigger]
            o.records.contains(x) <==> intr_desc_block(f.intr_desc, kind) != intr_desc_block(g.intr_desc, kind) && x
                == RecordView::FieldIntrDesc(line, kind, block_now(intr_desc_block(g.intr_desc, kind))) by {
            lemma_only(
                intr_desc_block(g.intr_desc, kind) != intr_desc_block(f.intr_desc, kind),
                RecordView::FieldIntrDesc(line, kind, block_edit(intr_desc_block(g.intr_desc, kind))),
                x,
            );
        }
    }
}

/// Where the register or the field is not there, nothing is described.
pub proof fn described_field_is_there(
    rif: RifDefView,
    reg_type: Seq<char>,
    field_name: Seq<char>,
    kind: IntrKind,
    text: Seq<char>,
    p: int,
    r: int,
)
    requires
        no_def(rif, reg_type) || (is_def(rif, reg_type, p, r) && no_field(the_def(rif, p, r), field_name)),
    ensures
        field_description(rif, reg_type, field_name, kind, text) is Nothing,
{
    reveal(field_intr_desc_outcome);
    if no_def(rif, reg_type) {
        lemma_no_def(rif, reg_type);
    } else {
        lemma_def(rif, reg_type, p, r);
        lemma_no_field(the_def(rif, p, r), field_name);
    }
}

} // verus!
