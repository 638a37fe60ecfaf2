//! What the pending edits hold of the edits that were noted.
use vstd::prelude::*;
use crate::edits::{
    intr_index, recorded, recorded_all, recording_keeps_shape, set_ovr_edit, with_ovr_edit, FieldOvrEditView,
    LineEditView, PendingEditsView, RecordView,
};
use crate::model::props::FieldOverrideProp;

verus! {

/// The edit of one overridden property of a field.
pub open spec fn ovr_part(x: FieldOvrEditView, p: FieldOverrideProp) -> LineEditView {
    match p {
        FieldOverrideProp::Description => x.desc,
        FieldOverrideProp::Reset => x.reset,
    }
}

/// Whether the edit of one overridden property of a field is among others.
pub open spec fn has_ovr_edit(
    s: Seq<FieldOvrEditView>,
    field: Seq<char>,
    p: FieldOverrideProp,
    x: LineEditView,
) -> bool {
    exists|k: int| 0 <= k < s.len() && (#[trigger] s[k]).field == field && ovr_part(s[k], p) == x
}

/// Whether an edit waits to be saved.
pub open spec fn holds(e: PendingEditsView, r: RecordView) -> bool {
    match r {
        RecordView::FieldDirty(l) => e.dirty.contains(l),
        RecordView::FieldDeleted(l) => e.deleted.contains(l),
        RecordView::FieldLine(l, p, x) => e.prop_edits.contains_key(l) && e.prop_edits[l][p.index()] == x,
        RecordView::FieldDesc(l, x) => e.desc_block_edits.contains_key(l) && e.desc_block_edits[l] == x,
        RecordView::FieldIntrDesc(l, k, x) => intr_index(k) matches Some(i)
            ==> e.field_intr_desc_block_edits.contains_key(l) && e.field_intr_desc_block_edits[l][i] == Some(x),
        RecordView::EnumDirty(l) => e.enum_dirty.contains(l),
        RecordView::EnumDeleted(l) => e.enum_deleted.contains(l),
        RecordView::RegDirty(l) => e.reg_dirty.contains(l),
        RecordView::RegLine(l, p, x) => e.reg_prop_edits.contains_key(l) && e.reg_prop_edits[l][p.index()] == x,
        RecordView::RegDesc(l, x) => e.reg_desc_block_edits.contains_key(l) && e.reg_desc_block_edits[l] == x,
        RecordView::RegIntrDesc(l, k, x) => intr_index(k) matches Some(i)
            ==> e.reg_intr_desc_block_edits.contains_key(l) && e.reg_intr_desc_block_edits[l][i] == Some(x),
        RecordView::RegDeleted(l) => e.reg_deleted.contains(l),
        RecordView::InstDirty(l) => e.reg_inst_dirty.contains(l),
        RecordView::InstDeleted(l) => e.reg_inst_deleted.contains(l),
        RecordView::RegOvrLine(l, p, x) => e.reg_override_edits.contains_key(l)
            && e.reg_override_edits[l][p.index()] == x,
        RecordView::RegOvrDesc(l, x) => e.reg_override_desc_block_edits.contains_key(l)
            && e.reg_override_desc_block_edits[l] == x,
        RecordView::FieldOvrLine(l, field, p, x) => e.field_override_edits.contains_key(l) && has_ovr_edit(
            e.field_override_edits[l],
            field,
            p,
            x,
        ),
        RecordView::RifDirty(l) => e.rif_dirty.contains(l),
        RecordView::RifLine(p, x) => e.rif_prop_edits[p.index()] == x,
        RecordView::RifDesc(x) => e.rif_desc_block_edits == Some(x),
        RecordView::ClockLine(k, x) => e.rif_clock_line_edits[k.index()] == x,
        RecordView::ResetDeleted(l) => e.rif_reset_deleted.contains(l),
        RecordView::ResetLines(hw, ls) => if hw {
            e.rif_reset_hw == Some(ls)
        } else {
            e.rif_reset_sw == Some(ls)
        },
        RecordView::ParamLine(l, x) => e.rif_param_edits.contains_key(l) && e.rif_param_edits[l] == x,
        RecordView::ParamInsert(t) => e.rif_param_inserts.contains(t),
        RecordView::GenericLine(l, x) => e.rif_generic_edits.contains_key(l) && e.rif_generic_edits[l] == x,
        RecordView::GenericInsert(t) => e.rif_generic_inserts.contains(t),
    }
}

/// Whether two edits are about the same line or block, so that the later one takes the place of
/// the earlier one. Marks and new rows take no other's place.
pub open spec fn same_place(a: RecordView, b: RecordView) -> bool {
    match (a, b) {
        (RecordView::FieldLine(l, p, _), RecordView::FieldLine(m, q, _)) => l == m && p == q,
        (RecordView::FieldDesc(l, _), RecordView::FieldDesc(m, _)) => l == m,
        (RecordView::FieldIntrDesc(l, j, _), RecordView::FieldIntrDesc(m, k, _)) => l == m && j == k,
        (RecordView::RegLine(l, p, _), RecordView::RegLine(m, q, _)) => l == m && p == q,
        (RecordView::RegDesc(l, _), RecordView::RegDesc(m, _)) => l == m,
        (RecordView::RegIntrDesc(l, j, _), RecordView::RegIntrDesc(m, k, _)) => l == m && j == k,
        (RecordView::RegOvrLine(l, p, _), RecordView::RegOvrLine(m, q, _)) => l == m && p == q,
        (RecordView::RegOvrDesc(l, _), RecordView::RegOvrDesc(m, _)) => l == m,
        (RecordView::FieldOvrLine(l, f, p, _), RecordView::FieldOvrLine(m, g, q, _)) => l == m && f == g && p == q,
        (RecordView::RifLine(p, _), RecordView::RifLine(q, _)) => p == q,
        (RecordView::RifDesc(_), RecordView::RifDesc(_)) => true,
        (RecordView::ClockLine(j, _), RecordView::ClockLine(k, _)) => j == k,
        (RecordView::ResetLines(g, _), RecordView::ResetLines(h, _)) => g == h,
        (RecordView::ParamLine(l, _), RecordView::ParamLine(m, _)) => l == m,
        (RecordView::GenericLine(l, _), RecordView::GenericLine(m, _)) => l == m,
        _ => false,
    }
}

/// Whether a later edit says something else of the same line or block.
pub open spec fn overtakes(later: RecordView, r: RecordView) -> bool {
    same_place(later, r) && later != r
}

/// Whether no later edit overtakes the `k`-th one.
pub open spec fn stands(rs: Seq<RecordView>, k: int) -> bool {
    forall|j: int| k < j < rs.len() ==> !overtakes(#[trigger] rs[j], rs[k])
}

proof fn lemma_ovr_set(s: Seq<FieldOvrEditView>, field: Seq<char>, p: FieldOverrideProp, x: LineEditView)
    ensures
        has_ovr_edit(with_ovr_edit(s, field, p, x), field, p, x),
    decreases s.len(),
{
    let r = with_ovr_edit(s, field, p, x);
    if s.len() == 0 || s[0].field == field {
        assert(r[0].field == field && ovr_part(r[0], p) == x);
    } else {
        lemma_ovr_set(s.skip(1), field, p, x);
        let t = with_ovr_edit(s.skip(1), field, p, x);
        let k = choose|k: int| 0 <= k < t.len() && (#[trigger] t[k]).field == field && ovr_part(t[k], p) == x;
        assert(r[k + 1] == t[k]);
    }
}

proof fn lemma_ovr_kept(
    s: Seq<FieldOvrEditView>,
    later: Seq<char>,
    q: FieldOverrideProp,
    y: LineEditView,
    field: Seq<char>,
    p: FieldOverrideProp,
    x: LineEditView,
)
    requires
        has_ovr_edit(s, field, p, x),
        later != field || q != p || y == x,
    ensures
        has_ovr_edit(with_ovr_edit(s, later, q, y), field, p, x),
    decreases s.len(),
{
    let r = with_ovr_edit(s, later, q, y);
    let k = choose|k: int| 0 <= k < s.len() && (#[trigger] s[k]).field == field && ovr_part(s[k], p) == x;
    if s[0].field == later {
        if k == 0 {
            assert(r[0] == set_ovr_edit(s[0], q, y));
        } else {
            assert(r[k] == s[k]);
        }
    } else if k == 0 {
        assert(r[0] == s[0]);
    } else {
        let rest = s.skip(1);
        assert(rest[k - 1] == s[k]);
        lemma_ovr_kept(rest, later, q, y, field, p, x);
        let t = with_ovr_edit(rest, later, q, y);
        let j = choose|j: int| 0 <= j < t.len() && (#[trigger] t[j]).field == field && ovr_part(t[j], p) == x;
        assert(r[j + 1] == t[j]);
    }
}

proof fn lemma_noted(s: PendingEditsView, r: RecordView)
    requires
        s.wf(),
    ensures
        holds(recorded(s, r), r),
{
    match r {
        RecordView::FieldOvrLine(l, field, p, x) => {
            let before = if s.field_override_edits.contains_key(l) {
                s.field_override_edits[l]
            } else {
                Seq::<FieldOvrEditView>::empty()
            };
            lemma_ovr_set(before, field, p, x);
        },
        RecordView::ParamInsert(t) => {
            let after = s.rif_param_inserts.push(t);
            assert(after[after.len() - 1] == t);
        },
        RecordView::GenericInsert(t) => {
            let after = s.rif_generic_inserts.push(t);
            assert(after[after.len() - 1] == t);
        },
        _ => {},
    }
}

proof fn lemma_still_held(s: PendingEditsView, later: RecordView, r: RecordView)
    requires
        s.wf(),
        holds(s, r),
        !overtakes(later, r),
    ensures
        holds(recorded(s, later), r),
{
    match (later, r) {
        (RecordView::FieldOvrLine(l, g, q, y), RecordView::FieldOvrLine(m, field, p, x)) => {
            if l == m {
                lemma_ovr_kept(s.field_override_edits[l], g, q, y, field, p, x);
            }
        },
        (RecordView::ParamInsert(t), RecordView::ParamInsert(u)) => {
            let k = choose|k: int| 0 <= k < s.rif_param_inserts.len() && s.rif_param_inserts[k] == u;
            assert(s.rif_param_inserts.push(t)[k] == u);
        },
        (RecordView::GenericInsert(t), RecordView::GenericInsert(u)) => {
            let k = choose|k: int| 0 <= k < s.rif_generic_inserts.len() && s.rif_generic_inserts[k] == u;
            assert(s.rif_generic_inserts.push(t)[k] == u);
        },
        _ => {},
    }
}

/// Noting edits keeps one place for each property.
pub proof fn noting_keeps_shape(s: PendingEditsView, rs: Seq<RecordView>)
    requires
        s.wf(),
    ensures
        recorded_all(s, rs).wf(),
    decreases rs.len(),
{
    if rs.len() > 0 {
        noting_keeps_shape(s, rs.drop_last());
        recording_keeps_shape(recorded_all(s, rs.drop_last()), rs.last());
    }
}

/// An edit that was noted waits to be saved, unless a later one says something else of the same
/// line or block.
pub proof fn noted_edit_is_held(s: PendingEditsView, rs: Seq<RecordView>, k: int)
    requires
        s.wf(),
        0 <= k < rs.len(),
        stands(rs, k),
    ensures
        holds(recorded_all(s, rs), rs[k]),
    decreases rs.len(),
{
    let head = rs.drop_last();
    noting_keeps_shape(s, head);
    if k == rs.len() - 1 {
        lemma_noted(recorded_all(s, head), rs.last());
    } else {
        assert(head[k] == rs[k]);
        assert forall|j: int| k < j < head.len() implies !overtakes(#[trigger] head[j], head[k]) by {
            assert(head[j] == rs[j]);
        }
        noted_edit_is_held(s, head, k);
        lemma_still_held(recorded_all(s, head), rs.last(), rs[k]);
    }
}

} // verus!
