//! What edits of overrides do.
use vstd::prelude::*;
use crate::action::EditActionView;
use crate::apply::{rif_applied, FollowView, RifApplied};
use crate::edits::RecordView;
use crate::field_update::{block_edit, line_edit};
use crate::law_field::{block_now, line_now};
use crate::law_place::{is_inst, lemma_inst, lemma_no_inst, no_inst, only_inst};
use crate::law_rif::{lemma_both, lemma_only};
use crate::model::page::{FieldOvrView, InstanceView, RegOvrView, ResetOvrView};
use crate::model::props::{FieldOverrideProp, RegOverrideProp};
use crate::model::rif::RifDefView;
use crate::model::values::{DescView, HwAcc, ResetView, Vis};
use crate::reg_update::only_if;
use crate::search::{first, lemma_first, lemma_is_first};
use crate::stage_ovr::{
    field_override_outcome, field_ovr_after, field_ovr_of, ovr_named, ovr_of, reg_override_outcome,
    reg_ovr_after, reg_ovr_lines, with_field_ovr,
};
use crate::syntax::{field_ovr_line, override_desc_block, reg_ovr_line};
use crate::text::trimmed;
use crate::vals::{FieldOverrideValsView, RegOverrideValsView};

verus! {

/// Whether a description is what was entered: none for a blank text.
pub open spec fn entered(d: Option<DescView>, text: Seq<char>) -> bool {
    &&& trimmed(text).len() == 0 ==> d is None
    &&& trimmed(text).len() > 0 ==> (d matches Some(x) && x.public == text && x.private.len() == 0)
}

/// Whether nothing is overridden.
pub open spec fn is_void(o: RegOvrView) -> bool {
    &&& o.addr is None
    &&& o.description is None
    &&& o.optional.text.len() == 0
    &&& o.optional_acc is None
    &&& o.visibility is None
    &&& o.hw_acc is None
    &&& o.fields.len() == 0
}

/// What an instance overrides of its register, as it prints.
pub open spec fn ovr_text(i: InstanceView, q: RegOverrideProp) -> Option<Seq<char>> {
    match i.reg_override {
        Some(o) => reg_ovr_line(o, q),
        None => None,
    }
}

/// The further lines of the description that an instance overrides.
pub open spec fn ovr_block(i: InstanceView) -> Option<Seq<Seq<char>>> {
    match i.reg_override {
        Some(o) => override_desc_block(o.description),
        None => None,
    }
}

/// The edit of what an instance overrides for its register.
pub open spec fn override_edit(rif: RifDefView, inst_name: Seq<char>, v: RegOverrideValsView) -> RifApplied {
    rif_applied(rif, EditActionView::UpdateRegOverride { rif_type: rif.name, inst_name, vals: v })
}

proof fn lemma_ovr_lines(a: RegOvrView, b: RegOvrView, line: usize, n: int, x: RecordView)
    requires
        0 <= n <= 4,
    ensures
        reg_ovr_lines(a, b, line, n).contains(x) <==> (x matches RecordView::RegOvrLine(l, q, y) && l == line
            && q.index() < n && reg_ovr_line(a, q) != reg_ovr_line(b, q) && y == line_now(reg_ovr_line(b, q))),
    decreases n,
{
    if n > 0 {
        lemma_ovr_lines(a, b, line, n - 1, x);
        let p = RegOverrideProp::at_index(n - 1);
        assert(p.index() == n - 1);
        let last = RecordView::RegOvrLine(line, p, line_edit(reg_ovr_line(b, p)));
        lemma_only(reg_ovr_line(a, p) != reg_ovr_line(b, p), last, x);
        lemma_both(
            reg_ovr_lines(a, b, line, n - 1),
            only_if(reg_ovr_line(a, p) != reg_ovr_line(b, p), last),
            x,
        );
        if let RecordView::RegOvrLine(_, q, _) = x {
            if q.index() == n - 1 {
                assert(q == p);
            }
        }
    }
}

/// An instance overrides for its register what was entered: description, hardware access, condition and
/// the access without it. What it overrides besides stays; where nothing is left, it overrides nothing.
/// Nothing else changes in the RIF. Each line that prints otherwise is noted, and nothing else.
pub proof fn instance_overrides_what_was_entered(
    rif: RifDefView,
    inst_name: Seq<char>,
    v: RegOverrideValsView,
    p: int,
    k: int,
)
    requires
        is_inst(rif, inst_name, p, k),
    ensures
        ({
            let i = rif.pages[p].instances[k];
            override_edit(rif, inst_name, v) matches RifApplied::Staged(o, follow) && {
                let j = o.rif.pages[p].instances[k];
                &&& only_inst(rif, o.rif, p, k, InstanceView { reg_override: j.reg_override, ..i })
                &&& follow == FollowView::RegOverridden
                &&& j.reg_override matches Some(b) ==> {
                    &&& !is_void(b)
                    &&& entered(b.description, v.desc)
                    &&& b.hw_acc == v.hw
                    &&& v.optional matches Some(e) ==> b.optional == e
                    &&& v.optional is None ==> b.optional.text.len() == 0 && b.optional.rif.len() == 0
                    &&& b.optional_acc == v.optional_acc
                    &&& i.reg_override matches Some(a) ==> b.addr == a.addr && b.visibility == a.visibility && b.fields
                        == a.fields
                    &&& i.reg_override is None ==> b.addr is None && b.visibility is None && b.fields.len() == 0
                }
                &&& j.reg_override is None ==> {
                    &&& trimmed(v.desc).len() == 0
                    &&& v.hw is None
                    &&& v.optional_acc is None
                    &&& v.optional matches Some(e) ==> e.text.len() == 0
                    &&& i.reg_override matches Some(a) ==> a.addr is None && a.visibility is None && a.fields.len()
                        == 0
                }
                &&& forall|x: RecordView| #[trigger]
                    o.records.contains(x) <==> (i.decl_line matches Some(line) && match x {
                        RecordView::RegOvrLine(l, q, y) => l == line && ovr_text(i, q) != ovr_text(j, q) && y == line_now(
                            ovr_text(j, q),
                        ),
                        RecordView::RegOvrDesc(l, y) => l == line && ovr_block(i) != ovr_block(j) && y == block_now(
                            ovr_block(j),
                        ),
                        _ => false,
                    })
            }
        }),
{
    reveal(reg_override_outcome);
    lemma_inst(rif, inst_name, p, k);
    let i = rif.pages[p].instances[k];
    let o = reg_override_outcome(rif, inst_name, v)->0;
    let j = o.rif.pages[p].instances[k];
    let (a, b) = (ovr_of(i), reg_ovr_after(ovr_of(i), v));
    assert forall|q: RegOverrideProp| #[trigger] ovr_text(i, q) == reg_ovr_line(a, q) by {}
    assert forall|q: RegOverrideProp| #[trigger] ovr_text(j, q) == reg_ovr_line(b, q) by {}
    if let Some(line) = i.decl_line {
        assert forall|x: RecordView| #[trigger]
            o.records.contains(x) <==> match x {
                RecordView::RegOvrLine(l, q, y) => l == line && ovr_text(i, q) != ovr_text(j, q) && y == line_now(
                    ovr_text(j, q),
                ),
                RecordView::RegOvrDesc(l, y) => l == line && ovr_block(i) != ovr_block(j) && y == block_now(ovr_block(j)),
                _ => false,
            } by {
            lemma_ovr_lines(a, b, line, 4, x);
            let (was, now) = (override_desc_block(a.description), override_desc_block(b.description));
            lemma_only(was != now, RecordView::RegOvrDesc(line, block_edit(now)), x);
            lemma_both(
                reg_ovr_lines(a, b, line, 4),
                only_if(was != now, RecordView::RegOvrDesc(line, block_edit(now))),
                x,
            );
        }
    }
}

/// Where the instance is not there, it overrides nothing.
pub proof fn overriding_instance_is_there(rif: RifDefView, inst_name: Seq<char>, v: RegOverrideValsView)
    requires
        no_inst(rif, inst_name),
    ensures
        override_edit(rif, inst_name, v) is Nothing,
{
    reveal(reg_override_outcome);
    lemma_no_inst(rif, inst_name);
}

/// The edit of what an instance overrides for a field.
pub open spec fn field_override_edit(
    rif: RifDefView,
    inst_name: Seq<char>,
    field_name: Seq<char>,
    v: FieldOverrideValsView,
) -> RifApplied {
    rif_applied(
        rif,
        EditActionView::UpdateFieldOverride { rif_type: rif.name, inst_name, field_name, vals: v },
    )
}

/// The overrides of fields that an instance has.
pub open spec fn fields_of(i: InstanceView) -> Seq<FieldOvrView> {
    match i.reg_override {
        Some(o) => o.fields,
        None => seq![],
    }
}

/// Whether the overrides of a field stand at a place, and no others of that field in front of them.
pub open spec fn is_ovr(s: Seq<FieldOvrView>, field: Seq<char>, m: int) -> bool {
    &&& 0 <= m < s.len()
    &&& s[m].field == field
    &&& forall|j: int| 0 <= j < m ==> (#[trigger] s[j]).field != field
}

/// Whether overrides of a field are those that were entered.
pub open spec fn field_entered(g: FieldOvrView, field: Seq<char>, v: FieldOverrideValsView) -> bool {
    &&& g.field == field
    &&& entered(g.description, v.desc)
    &&& v.disabled ==> g.visibility == Some(Vis::Disabled)
    &&& !v.disabled ==> g.visibility is None
    &&& v.reset matches Some(r) ==> g.reset == ResetOvrView::Reset(r)
    &&& v.reset is None ==> g.reset is Keep
}

/// Whether nothing of a field is overridden.
pub open spec fn field_void(g: FieldOvrView) -> bool {
    &&& g.description is None
    &&& g.optional.text.len() == 0
    &&& g.visibility is None
    &&& g.reset is Keep
    &&& !g.has_more
}

/// The notes that an edit of the overrides of a field makes: each line that prints otherwise.
pub open spec fn field_ovr_note(
    line: usize,
    was: Option<FieldOvrView>,
    now: FieldOvrView,
    own: ResetView,
    x: RecordView,
) -> bool {
    x matches RecordView::FieldOvrLine(l, field, q, y) && {
        let before = match was {
            Some(f) => field_ovr_line(f, q, own),
            None => None,
        };
        let after = field_ovr_line(now, q, own);
        l == line && field == now.field && before != after && y == line_now(after)
    }
}

/// An instance overrides for a field what was entered: description, reset value, and whether it is
/// disabled. What it overrides of that field besides stays, and so does what it overrides for other
/// fields and for the register. Overrides of the field that change nothing are dropped, and where
/// nothing is left, the instance overrides nothing. Nothing else changes in the RIF. Each line that
/// prints otherwise is noted, and nothing else.
pub proof fn instance_overrides_the_field(
    rif: RifDefView,
    inst_name: Seq<char>,
    field: Seq<char>,
    v: FieldOverrideValsView,
    p: int,
    k: int,
)
    requires
        is_inst(rif, inst_name, p, k),
    ensures
        ({
            let i = rif.pages[p].instances[k];
            let was = fields_of(i);
            field_override_edit(rif, inst_name, field, v) matches RifApplied::Staged(o, follow) && {
                let j = o.rif.pages[p].instances[k];
                let now = fields_of(j);
                &&& only_inst(rif, o.rif, p, k, InstanceView { reg_override: j.reg_override, ..i })
                &&& follow == FollowView::FieldOverridden
                &&& j.reg_override matches Some(b) ==> !is_void(b)
                &&& i.reg_override matches Some(a) ==> {
                    &&& j.reg_override matches Some(b) ==> b == (RegOvrView { fields: b.fields, ..a })
                    &&& j.reg_override is None ==> is_void(RegOvrView { fields: seq![], ..a })
                }
                &&& i.reg_override is None ==> (j.reg_override matches Some(b) ==> is_void(
                    RegOvrView { fields: seq![], ..b },
                ))
                &&& exists|g: FieldOvrView| #[trigger]
                    field_entered(g, field, v) && {
                        &&& forall|m: int| #[trigger]
                            is_ovr(was, field, m) ==> {
                                &&& g.optional == was[m].optional && g.has_more == was[m].has_more
                                &&& field_void(g) ==> now == was.remove(m)
                                &&& !field_void(g) ==> now == was.update(m, g)
                                &&& i.decl_line matches Some(line) ==> forall|x: RecordView| #[trigger]
                                    o.records.contains(x) <==> field_ovr_note(line, Some(was[m]), g, v.field_reset, x)
                            }
                        &&& (forall|m: int| !#[trigger] is_ovr(was, field, m)) ==> {
                            &&& g.optional.text.len() == 0 && !g.has_more
                            &&& field_void(g) ==> now == was
                            &&& !field_void(g) ==> now == was.push(g)
                            &&& i.decl_line matches Some(line) ==> forall|x: RecordView| #[trigger]
                                o.records.contains(x) <==> field_ovr_note(line, None, g, v.field_reset, x)
                        }
                    }
                &&& i.decl_line is None ==> o.records.len() == 0
            }
        }),
{
    reveal(field_override_outcome);
    lemma_inst(rif, inst_name, p, k);
    let i = rif.pages[p].instances[k];
    let was = fields_of(i);
    let o = field_override_outcome(rif, inst_name, field, v)->0;
    let j = o.rif.pages[p].instances[k];
    let a = ovr_of(i);
    assert(a.fields =~= was);
    let q = ovr_named(field);
    lemma_first(was, q);
    let before = field_ovr_of(a, field);
    let g = field_ovr_after(before, v);
    let b = with_field_ovr(a, field, g);
    assert(before.field == field);
    assert(field_entered(g, field, v));
    assert(fields_of(j) =~= b.fields);
    let own = v.field_reset;
    let (d, r) = (FieldOverrideProp::Description, FieldOverrideProp::Reset);
    if let Some(line) = i.decl_line {
        assert forall|x: RecordView| #[trigger]
            o.records.contains(x) <==> (x matches RecordView::FieldOvrLine(l, f, pr, y) && l == line && f == g.field
                && field_ovr_line(before, pr, own) != field_ovr_line(g, pr, own) && y == line_now(
                field_ovr_line(g, pr, own),
            )) by {
            let (x1, x2) = (
                RecordView::FieldOvrLine(line, g.field, d, line_edit(field_ovr_line(g, d, own))),
                RecordView::FieldOvrLine(line, g.field, r, line_edit(field_ovr_line(g, r, own))),
            );
            let (c1, c2) = (
                field_ovr_line(before, d, own) != field_ovr_line(g, d, own),
                field_ovr_line(before, r, own) != field_ovr_line(g, r, own),
            );
            lemma_only(c1, x1, x);
            lemma_only(c2, x2, x);
            lemma_both(only_if(c1, x1), only_if(c2, x2), x);
        }
    }
    assert forall|m: int| #[trigger] is_ovr(was, field, m) implies first(was, q) == Some(m) by {
        lemma_is_first(was, q, m);
    }
    if let Some(m) = first(was, q) {
        assert forall|n: int| 0 <= n < m implies (#[trigger] was[n]).field != field by {
            assert(!q(was[n]));
        }
        assert(is_ovr(was, field, m));
    }
}

/// Where the instance is not there, it overrides nothing for the field.
pub proof fn field_overriding_instance_is_there(
    rif: RifDefView,
    inst_name: Seq<char>,
    field: Seq<char>,
    v: FieldOverrideValsView,
)
    requires
        no_inst(rif, inst_name),
    ensures
        field_override_edit(rif, inst_name, field, v) is Nothing,
{
    reveal(field_override_outcome);
    lemma_no_inst(rif, inst_name);
}

/// The lines of overrides say what is overridden.
pub proof fn override_lines_say_what_is_overridden(o: RegOvrView, f: FieldOvrView, own: ResetView)
    ensures
        o.description is None <==> reg_ovr_line(o, RegOverrideProp::Description) is None,
        o.hw_acc == Some(HwAcc::RW) ==> reg_ovr_line(o, RegOverrideProp::Hw) == Some("hw rw"@),
        o.hw_acc == Some(HwAcc::RO) ==> reg_ovr_line(o, RegOverrideProp::Hw) == Some("hw ro"@),
        o.hw_acc == Some(HwAcc::WO) ==> reg_ovr_line(o, RegOverrideProp::Hw) == Some("hw wo"@),
        o.hw_acc == Some(HwAcc::NA) ==> reg_ovr_line(o, RegOverrideProp::Hw) == Some("hw na"@),
        o.hw_acc is None <==> reg_ovr_line(o, RegOverrideProp::Hw) is None,
        o.optional.text.len() > 0 ==> reg_ovr_line(o, RegOverrideProp::Optional) == Some("optional : "@ + o.optional.rif),
        o.optional.text.len() == 0 <==> reg_ovr_line(o, RegOverrideProp::Optional) is None,
        o.optional_acc is None <==> reg_ovr_line(o, RegOverrideProp::OptionalAcc) is None,
        f.description is None <==> field_ovr_line(f, FieldOverrideProp::Description, own) is None,
        f.visibility != Some(Vis::Disabled) && f.reset is Keep ==> field_ovr_line(f, FieldOverrideProp::Reset, own) is None,
        f.visibility == Some(Vis::Disabled) && f.reset is Keep ==> field_ovr_line(f, FieldOverrideProp::Reset, own)
            == Some(f.field + ".disable"@),
        f.visibility != Some(Vis::Disabled) ==> (f.reset matches ResetOvrView::Reset(r) ==> field_ovr_line(
            f,
            FieldOverrideProp::Reset,
            own,
        ) == Some(f.field + ".reset = "@ + crate::syntax::reset_text(r))),
        f.visibility == Some(Vis::Disabled) ==> (f.reset matches ResetOvrView::Reset(r) ==> field_ovr_line(
            f,
            FieldOverrideProp::Reset,
            own,
        ) == Some(
            if r == own {
                f.field + ".disable"@
            } else {
                f.field + ".disable = "@ + crate::syntax::reset_text(r)
            },
        )),
{
    reveal_strlit("hw ");
    reveal_strlit("rw");
    reveal_strlit("ro");
    reveal_strlit("wo");
    reveal_strlit("na");
    reveal_strlit("hw rw");
    reveal_strlit("hw ro");
    reveal_strlit("hw wo");
    reveal_strlit("hw na");
    assert("hw "@ + "rw"@ =~= "hw rw"@);
    assert("hw "@ + "ro"@ =~= "hw ro"@);
    assert("hw "@ + "wo"@ =~= "hw wo"@);
    assert("hw "@ + "na"@ =~= "hw na"@);
}

} // verus!
