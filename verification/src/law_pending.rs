//! What waits to be saved.
use vstd::prelude::*;
use crate::edits::{
    intr_index, no_edits, nothing_pending, recorded, recorded_all, with_ovr_edit, FieldOvrEditView,
    LineEditView, PendingEditsView, RecordView,
};
use crate::file_io::{def_at, has_def, has_entry, has_field, has_inst};
use crate::held::{has_ovr_edit, holds, ovr_part, same_place};
use crate::model::props::FieldOverrideProp;
use crate::model::rif::RifDefView;
use crate::viewer::{
    enum_has_new_entries, has_new_field, is_new_reg, new_enum_entries, new_fields, new_registers,
    page_has_new_fields, page_has_new_instances, page_has_new_registers, rif_has_new, unsaved, RifViewerView,
};

verus! {

/// Whether a note asks for something.
pub open spec fn asks(x: RecordView) -> bool {
    match x {
        RecordView::FieldLine(_, _, e) => !(e is Keep),
        RecordView::RegLine(_, _, e) => !(e is Keep),
        RecordView::RegOvrLine(_, _, e) => !(e is Keep),
        RecordView::FieldOvrLine(_, _, _, e) => !(e is Keep),
        RecordView::RifLine(_, e) => !(e is Keep),
        RecordView::ClockLine(_, e) => !(e is Keep),
        RecordView::FieldIntrDesc(_, k, _) => intr_index(k) is Some,
        RecordView::RegIntrDesc(_, k, _) => intr_index(k) is Some,
        _ => true,
    }
}

proof fn lemma_ovr_only(
    s: Seq<FieldOvrEditView>,
    later: Seq<char>,
    q: FieldOverrideProp,
    y: LineEditView,
    field: Seq<char>,
    p: FieldOverrideProp,
    x: LineEditView,
)
    requires
        has_ovr_edit(with_ovr_edit(s, later, q, y), field, p, x),
        later != field || q != p,
        !(x is Keep),
    ensures
        has_ovr_edit(s, field, p, x),
    decreases s.len(),
{
    let r = with_ovr_edit(s, later, q, y);
    let k = choose|k: int| 0 <= k < r.len() && (#[trigger] r[k]).field == field && ovr_part(r[k], p) == x;
    if s.len() == 0 {
        assert(r.len() == 1);
    } else if s[0].field == later {
        if k > 0 {
            assert(r[k] == s.skip(1)[k - 1]);
            assert(s[k].field == field && ovr_part(s[k], p) == x);
        } else {
            assert(s[0].field == field && ovr_part(s[0], p) == x);
        }
    } else if k == 0 {
        assert(s[0].field == field && ovr_part(s[0], p) == x);
    } else {
        let t = with_ovr_edit(s.skip(1), later, q, y);
        assert(r[k] == t[k - 1]);
        assert(t[k - 1].field == field && ovr_part(t[k - 1], p) == x);
        lemma_ovr_only(s.skip(1), later, q, y, field, p, x);
        let j = choose|j: int|
            0 <= j < s.skip(1).len() && (#[trigger] s.skip(1)[j]).field == field && ovr_part(s.skip(1)[j], p) == x;
        assert(s[j + 1].field == field && ovr_part(s[j + 1], p) == x);
    }
}

/// Noting an edit makes nothing else wait: whatever waits afterwards waited before, is the edit itself, or
/// takes the place of an earlier edit of the same line or block.
pub proof fn noting_adds_nothing_else(s: PendingEditsView, r: RecordView, x: RecordView)
    requires
        s.wf(),
        asks(x),
        holds(recorded(s, r), x),
        !same_place(x, r),
    ensures
        holds(s, x) || x == r,
{
    match (r, x) {
        (RecordView::FieldOvrLine(l, g, q, y), RecordView::FieldOvrLine(m, field, p, z)) => {
            if l == m {
                let before = if s.field_override_edits.contains_key(l) {
                    s.field_override_edits[l]
                } else {
                    Seq::<FieldOvrEditView>::empty()
                };
                lemma_ovr_only(before, g, q, y, field, p, z);
            }
        },
        (RecordView::ParamInsert(t), RecordView::ParamInsert(u)) => {
            let after = s.rif_param_inserts.push(t);
            let k = choose|k: int| 0 <= k < after.len() && after[k] == u;
            if k < s.rif_param_inserts.len() {
                assert(s.rif_param_inserts[k] == u);
            }
        },
        (RecordView::GenericInsert(t), RecordView::GenericInsert(u)) => {
            let after = s.rif_generic_inserts.push(t);
            let k = choose|k: int| 0 <= k < after.len() && after[k] == u;
            if k < s.rif_generic_inserts.len() {
                assert(s.rif_generic_inserts[k] == u);
            }
        },
        _ => {},
    }
}

/// Where nothing is pending, nothing waits; and nothing is pending at the start.
pub proof fn nothing_pending_means_nothing_waits(e: PendingEditsView, x: RecordView)
    requires
        e.wf(),
        nothing_pending(e),
        asks(x),
    ensures
        !holds(e, x),
        nothing_pending(no_edits()),
{
}

/// Whether everything in a RIF is in the file.
pub open spec fn all_in_file(rif: RifDefView) -> bool {
    &&& forall|p: int, q: int| #[trigger] has_def(rif, p, q) ==> def_at(rif, p, q).src.decl_line is Some
    &&& forall|p: int, q: int, k: int| #[trigger]
        has_field(rif, p, q, k) ==> def_at(rif, p, q).fields[k].src.decl_line is Some
    &&& forall|p: int, k: int| #[trigger] has_inst(rif, p, k) ==> rif.pages[p].instances[k].decl_line is Some
    &&& forall|d: int, k: int| #[trigger] has_entry(rif, d, k) ==> rif.enum_defs[d].values[k].decl_line is Some
}

/// A RIF has something new just where something of it is not in the file: a register, a field, an
/// instance or an enum entry.
pub proof fn new_is_what_is_not_in_the_file(rif: RifDefView)
    ensures
        rif_has_new(rif) <==> !all_in_file(rif),
{
    if rif_has_new(rif) {
        if new_fields(rif) {
            let p = choose|p: int| 0 <= p < rif.pages.len() && page_has_new_fields(#[trigger] rif.pages[p]);
            let q = choose|q: int|
                0 <= q < rif.pages[p].registers.len() && has_new_field(#[trigger] rif.pages[p].registers[q]);
            let d = def_at(rif, p, q);
            let k = choose|k: int| 0 <= k < d.fields.len() && (#[trigger] d.fields[k]).src.decl_line is None;
            assert(has_field(rif, p, q, k));
        } else if new_enum_entries(rif) {
            let d = choose|d: int| 0 <= d < rif.enum_defs.len() && enum_has_new_entries(#[trigger] rif.enum_defs[d]);
            let k = choose|k: int|
                0 <= k < rif.enum_defs[d].values.len() && (#[trigger] rif.enum_defs[d].values[k]).decl_line is None;
            assert(has_entry(rif, d, k));
        } else if new_registers(rif) {
            let p = choose|p: int| 0 <= p < rif.pages.len() && page_has_new_registers(#[trigger] rif.pages[p]);
            let q = choose|q: int|
                0 <= q < rif.pages[p].registers.len() && is_new_reg(#[trigger] rif.pages[p].registers[q]);
            assert(has_def(rif, p, q));
        } else {
            let p = choose|p: int| 0 <= p < rif.pages.len() && page_has_new_instances(#[trigger] rif.pages[p]);
            let k = choose|k: int|
                0 <= k < rif.pages[p].instances.len() && (#[trigger] rif.pages[p].instances[k]).decl_line is None;
            assert(has_inst(rif, p, k));
        }
    }
    if !rif_has_new(rif) {
        assert forall|p: int, q: int| #[trigger] has_def(rif, p, q) implies def_at(rif, p, q).src.decl_line is Some by {
            assert(!page_has_new_registers(rif.pages[p]));
            assert(!is_new_reg(rif.pages[p].registers[q]));
        }
        assert forall|p: int, q: int, k: int| #[trigger] has_field(rif, p, q, k) implies def_at(
            rif,
            p,
            q,
        ).fields[k].src.decl_line is Some by {
            assert(!page_has_new_fields(rif.pages[p]));
            assert(!has_new_field(rif.pages[p].registers[q]));
            let d = def_at(rif, p, q);
            assert(d.fields[k].src.decl_line is Some);
        }
        assert forall|p: int, k: int| #[trigger] has_inst(rif, p, k) implies rif.pages[p].instances[k].decl_line is Some by {
            assert(!page_has_new_instances(rif.pages[p]));
        }
        assert forall|d: int, k: int| #[trigger] has_entry(rif, d, k) implies rif.enum_defs[d].values[k].decl_line is Some by {
            assert(!enum_has_new_entries(rif.enum_defs[d]));
        }
    }
}

/// There is something to save just where an edit waits, or something of a RIF is not in its file.
pub proof fn something_to_save_is_edited_or_new(v: RifViewerView)
    ensures
        unsaved(v) <==> !nothing_pending(v.edits) || (v.rif_src matches Some(src) && exists|k: int|
            0 <= k < src.rifs.len() && !all_in_file((#[trigger] src.rifs[k]).rif)),
{
    if let Some(src) = v.rif_src {
        assert forall|k: int| 0 <= k < src.rifs.len() implies (rif_has_new((#[trigger] src.rifs[k]).rif) <==> !all_in_file(
            src.rifs[k].rif,
        )) by {
            new_is_what_is_not_in_the_file(src.rifs[k].rif);
        }
    }
}

/// Edits are noted one behind the other.
pub proof fn notes_add_up(s: PendingEditsView, a: Seq<RecordView>, b: Seq<RecordView>)
    ensures
        recorded_all(s, a + b) == recorded_all(recorded_all(s, a), b),
    decreases b.len(),
{
    if b.len() == 0 {
        assert(a + b =~= a);
    } else {
        notes_add_up(s, a, b.drop_last());
        assert((a + b).drop_last() =~= a + b.drop_last());
        assert((a + b).last() == b.last());
    }
}

} // verus!
