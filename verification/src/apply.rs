//! Applies an edit to the source.
use vstd::prelude::*;
use crate::action::{EditAction, EditActionView};
use crate::edits::{Record, RecordView};
use crate::model::rif::{RifDef, RifDefView, RifEntryView, Source, SourceView};
use crate::model::values::IntrKind;
use crate::reg_update::no_records;
use crate::rename::{rename_rif, rif_renamed};
use crate::search::first;
use crate::source::{find_key, find_page, find_rif, locate_rif, page_named, rif_keyed};
use crate::stage_field::{
    add_field_outcome, delete_field_outcome, move_fields_outcome, stage_add_field, stage_delete_field,
    stage_move_fields, stage_update_field, update_field_outcome, Outcome,
};
use crate::stage_ovr::{
    field_intr_desc_outcome, field_override_outcome, reg_intr_desc_outcome, reg_override_outcome,
    stage_field_intr_desc, stage_field_override, stage_reg_intr_desc, stage_reg_override,
};
use crate::stage_reg::{
    add_reg_outcome, convert_outcome, delete_reg_outcome, inst_array_outcome, stage_add_reg, stage_convert,
    stage_delete_reg, stage_inst_array, stage_swap, stage_update_reg, stage_update_reg_with_moves, swap_outcome,
    update_reg_outcome, update_reg_with_moves_outcome,
};
use crate::stage_rif::{
    clocking_outcome, params_outcome, rif_after, rif_records, stage_clocking, stage_params, stage_update_enum,
    stage_update_rif, update_enum_outcome,
};
use crate::text::{join3, trim, trimmed};

verus! {

/// What changed, for the selection and the editors to follow.
#[derive(Debug)]
#[allow(inconsistent_fields)]
pub enum Follow {
    /// A field got new values, and perhaps another name.
    FieldUpdated { orig_name: String, new_name: String },
    /// A field was added.
    FieldAdded { name: String },
    /// A field was deleted.
    FieldDeleted,
    /// Fields got other positions.
    FieldsMoved,
    /// An enum got other entries.
    EnumUpdated { name: String },
    /// A register got new values, and perhaps another name.
    RegUpdated { orig_name: String, new_name: String },
    /// Instances got another address or size.
    RegsMoved,
    /// A derived register got another description.
    RegDescribed,
    /// A field of a derived register got another description.
    FieldDescribed,
    /// An instance got other overrides for its register.
    RegOverridden,
    /// An instance got other overrides for a field.
    FieldOverridden,
    /// A page got explicit addresses.
    PageConverted { rif_type: String, page_name: String },
    /// A register was added; the page is given where the RIF has several.
    RegAdded { page_name: Option<String>, name: String },
    /// A register was deleted.
    RegDeleted { name: String },
    /// A RIF got new values, and perhaps another name.
    RifUpdated { new_name: Option<String> },
    /// The clocks, parameters or generics of a RIF changed.
    RifEdited,
}

/// The value of a [`Follow`].
#[allow(inconsistent_fields)]
pub enum FollowView {
    FieldUpdated { orig_name: Seq<char>, new_name: Seq<char> },
    FieldAdded { name: Seq<char> },
    FieldDeleted,
    FieldsMoved,
    EnumUpdated { name: Seq<char> },
    RegUpdated { orig_name: Seq<char>, new_name: Seq<char> },
    RegsMoved,
    RegDescribed,
    FieldDescribed,
    RegOverridden,
    FieldOverridden,
    PageConverted { rif_type: Seq<char>, page_name: Seq<char> },
    RegAdded { page_name: Option<Seq<char>>, name: Seq<char> },
    RegDeleted { name: Seq<char> },
    RifUpdated { new_name: Option<Seq<char>> },
    RifEdited,
}

impl DeepView for Follow {
    type V = FollowView;

    open spec fn deep_view(&self) -> FollowView {
        match self {
            Follow::FieldUpdated { orig_name, new_name } => FollowView::FieldUpdated {
                orig_name: orig_name.deep_view(),
                new_name: new_name.deep_view(),
            },
            Follow::FieldAdded { name } => FollowView::FieldAdded {
                name: name.deep_view(),
            },
            Follow::FieldDeleted => FollowView::FieldDeleted,
            Follow::FieldsMoved => FollowView::FieldsMoved,
            Follow::EnumUpdated { name } => FollowView::EnumUpdated {
                name: name.deep_view(),
            },
            Follow::RegUpdated { orig_name, new_name } => FollowView::RegUpdated {
                orig_name: orig_name.deep_view(),
                new_name: new_name.deep_view(),
            },
            Follow::RegsMoved => FollowView::RegsMoved,
            Follow::RegDescribed => FollowView::RegDescribed,
            Follow::FieldDescribed => FollowView::FieldDescribed,
            Follow::RegOverridden => FollowView::RegOverridden,
            Follow::FieldOverridden => FollowView::FieldOverridden,
            Follow::PageConverted { rif_type, page_name } => FollowView::PageConverted {
                rif_type: rif_type.deep_view(),
                page_name: page_name.deep_view(),
            },
            Follow::RegAdded { page_name, name } => FollowView::RegAdded {
                page_name: page_name.deep_view(),
                name: name.deep_view(),
            },
            Follow::RegDeleted { name } => FollowView::RegDeleted {
                name: name.deep_view(),
            },
            Follow::RifUpdated { new_name } => FollowView::RifUpdated {
                new_name: new_name.deep_view(),
            },
            Follow::RifEdited => FollowView::RifEdited,
        }
    }
}

impl View for Follow {
    type V = FollowView;

    open spec fn view(&self) -> FollowView {
        self.deep_view()
    }
}

/// What becomes of a RIF under an edit.
pub enum RifApplied {
    /// There is nothing to edit.
    Nothing,
    /// The edit cannot be made, and why.
    Refused(Seq<char>),
    /// The edit was made.
    Staged(Outcome, FollowView),
}

/// An edit that was made, or had nothing to work on.
pub open spec fn staged(o: Option<Outcome>, f: FollowView) -> RifApplied {
    match o {
        Some(x) => RifApplied::Staged(x, f),
        None => RifApplied::Nothing,
    }
}

/// What becomes of a RIF under an edit of its contents.
pub open spec fn rif_applied(rif: RifDefView, a: EditActionView) -> RifApplied {
    match a {
        EditActionView::UpdateField { reg_type, orig_name, vals, .. } => staged(
            update_field_outcome(rif, reg_type, orig_name, vals),
            FollowView::FieldUpdated { orig_name, new_name: vals.name },
        ),
        EditActionView::AddField { reg_type, .. } => match add_field_outcome(rif, reg_type) {
            Some((o, name)) => RifApplied::Staged(o, FollowView::FieldAdded { name }),
            None => RifApplied::Nothing,
        },
        EditActionView::DeleteField { reg_type, field_name, .. } => staged(
            delete_field_outcome(rif, reg_type, field_name),
            FollowView::FieldDeleted,
        ),
        EditActionView::MoveField { reg_type, moves, .. } => staged(
            move_fields_outcome(rif, reg_type, moves),
            FollowView::FieldsMoved,
        ),
        EditActionView::UpdateEnum { name, values, .. } => RifApplied::Staged(
            update_enum_outcome(rif, name, values),
            FollowView::EnumUpdated { name },
        ),
        EditActionView::UpdateRegDef { orig_name, inst_name, vals, .. } => staged(
            update_reg_outcome(rif, orig_name, inst_name, vals),
            FollowView::RegUpdated { orig_name, new_name: vals.name },
        ),
        EditActionView::UpdateRegDefWithMoves { orig_name, inst_name, vals, companions, .. } => staged(
            update_reg_with_moves_outcome(rif, orig_name, inst_name, vals, companions),
            FollowView::RegUpdated { orig_name, new_name: vals.name },
        ),
        EditActionView::ConvertPageToManual { rif_type, page_name, converted } => if first(
            rif.pages,
            page_named(page_name),
        ) is None {
            RifApplied::Nothing
        } else {
            match converted {
                Ok(instances) => staged(
                    convert_outcome(rif, page_name, instances),
                    FollowView::PageConverted { rif_type, page_name },
                ),
                Err(e) => RifApplied::Refused(e),
            }
        },
        EditActionView::SwapRegAddr { a_inst_name, b_inst_name, .. } => staged(
            swap_outcome(rif, a_inst_name, b_inst_name),
            FollowView::RegsMoved,
        ),
        EditActionView::UpdateRegInstArray { inst_name, array, companions, .. } => staged(
            inst_array_outcome(rif, inst_name, array, companions),
            FollowView::RegsMoved,
        ),
        EditActionView::AddRegister { page_name, kind, name, addr, .. } => staged(
            add_reg_outcome(rif, page_name, kind, trimmed(name), addr),
            FollowView::RegAdded {
                page_name: if rif.pages.len() > 1 {
                    Some(page_name)
                } else {
                    None
                },
                name: trimmed(name),
            },
        ),
        EditActionView::DeleteRegister { page_name, reg_type, inst_name, .. } => staged(
            delete_reg_outcome(rif, page_name, reg_type, inst_name),
            FollowView::RegDeleted {
                name: match inst_name {
                    Some(n) => n,
                    None => reg_type,
                },
            },
        ),
        EditActionView::UpdateRegIntrDesc { reg_type, kind, desc, .. } => staged(
            reg_intr_desc_outcome(rif, reg_type, kind, desc),
            FollowView::RegDescribed,
        ),
        EditActionView::UpdateFieldIntrDesc { reg_type, field_name, kind, desc, .. } => staged(
            field_intr_desc_outcome(rif, reg_type, field_name, kind, desc),
            FollowView::FieldDescribed,
        ),
        EditActionView::UpdateRegOverride { inst_name, vals, .. } => staged(
            reg_override_outcome(rif, inst_name, vals),
            FollowView::RegOverridden,
        ),
        EditActionView::UpdateFieldOverride { inst_name, field_name, vals, .. } => staged(
            field_override_outcome(rif, inst_name, field_name, vals),
            FollowView::FieldOverridden,
        ),
        EditActionView::UpdateRifDef { vals, .. } => RifApplied::Staged(
            Outcome { rif: rif_after(rif, vals), records: rif_records(rif, rif_after(rif, vals)) },
            FollowView::RifUpdated { new_name: None },
        ),
        EditActionView::UpdateRifClocking { sw, hw, .. } => RifApplied::Staged(
            clocking_outcome(rif, sw, hw),
            FollowView::RifEdited,
        ),
        EditActionView::UpdateRifParamsAndGenerics { params, generics, .. } => RifApplied::Staged(
            params_outcome(rif, params, generics),
            FollowView::RifEdited,
        ),
    }
}

/// What came of an edit.
#[derive(Debug)]
pub enum Effect {
    /// There was nothing to edit.
    Nothing,
    /// The edit cannot be made, and why.
    Refused(String),
    /// The edit was made: what is to be saved, and what changed.
    Staged(Vec<Record>, Follow),
}

/// Whether `r` says what `rif_applied` says, and the RIF is as it says.
pub open spec fn rif_effect(before: RifDefView, a: EditActionView, after: RifDefView, r: Effect) -> bool {
    match rif_applied(before, a) {
        RifApplied::Nothing => r is Nothing && after == before,
        RifApplied::Refused(e) => r is Refused && r->Refused_0@ == e && after == before,
        RifApplied::Staged(o, f) => r is Staged && after == o.rif && (r->Staged_0).deep_view() == o.records
            && r->Staged_1@ == f,
    }
}

fn effect(records: Option<Vec<Record>>, f: Follow) -> (r: Effect)
    ensures
        match records {
            Some(x) => r == Effect::Staged(x, f),
            None => r == Effect::Nothing,
        },
{
    match records {
        Some(x) => Effect::Staged(x, f),
        None => Effect::Nothing,
    }
}

/// Whether an action can be applied: a field has a description of its own only for the enable,
/// mask and pending registers.
pub open spec fn applicable(a: EditActionView) -> bool {
    match a {
        EditActionView::UpdateFieldIntrDesc { kind, .. } => kind == IntrKind::Enable || kind == IntrKind::Mask
            || kind == IntrKind::Pending,
        _ => true,
    }
}

/// Applies an edit to the contents of a RIF.
pub fn apply_to_rif(rif: &mut RifDef, action: EditAction) -> (r: Effect)
    requires
        applicable(action@),
    ensures
        rif_effect(old(rif)@, action@, final(rif)@, r),
{
    match action {
        EditAction::UpdateField { reg_type, orig_name, vals, .. } => {
            let vals = *vals;
            let new_name = vals.name.clone();
            let records = stage_update_field(rif, &reg_type, &orig_name, vals);
            effect(records, Follow::FieldUpdated { orig_name, new_name })
        },
        EditAction::AddField { reg_type, .. } => match stage_add_field(rif, &reg_type) {
            Some(name) => Effect::Staged(no_records(), Follow::FieldAdded { name }),
            None => Effect::Nothing,
        },
        EditAction::DeleteField { reg_type, field_name, .. } => {
            effect(stage_delete_field(rif, &reg_type, &field_name), Follow::FieldDeleted)
        },
        EditAction::MoveField { reg_type, moves, .. } => {
            effect(stage_move_fields(rif, &reg_type, &moves), Follow::FieldsMoved)
        },
        EditAction::UpdateEnum { name, values, .. } => {
            let records = stage_update_enum(rif, &name, values);
            Effect::Staged(records, Follow::EnumUpdated { name })
        },
        EditAction::UpdateRegDef { orig_name, inst_name, vals, .. } => {
            let records = stage_update_reg(rif, &orig_name, &inst_name, &vals);
            effect(records, Follow::RegUpdated { orig_name, new_name: vals.name })
        },
        EditAction::UpdateRegDefWithMoves { orig_name, inst_name, vals, companions, .. } => {
            let records = stage_update_reg_with_moves(rif, &orig_name, &inst_name, &vals, &companions);
            effect(records, Follow::RegUpdated { orig_name, new_name: vals.name })
        },
        EditAction::ConvertPageToManual { rif_type, page_name, converted } => {
            if let None = find_page(&rif.pages, &page_name) {
                return Effect::Nothing;
            }
            match converted {
                Ok(instances) => {
                    if stage_convert(rif, &page_name, instances) {
                        Effect::Staged(no_records(), Follow::PageConverted { rif_type, page_name })
                    } else {
                        Effect::Nothing
                    }
                },
                Err(e) => Effect::Refused(e),
            }
        },
        EditAction::SwapRegAddr { a_inst_name, b_inst_name, .. } => {
            effect(stage_swap(rif, &a_inst_name, &b_inst_name), Follow::RegsMoved)
        },
        EditAction::UpdateRegInstArray { inst_name, array, companions, .. } => {
            effect(stage_inst_array(rif, &inst_name, array, &companions), Follow::RegsMoved)
        },
        EditAction::AddRegister { page_name, kind, name, addr, .. } => {
            let name = trim(name.as_str());
            let several = rif.pages.len() > 1;
            if stage_add_reg(rif, &page_name, &kind, &name, addr) {
                let page_name = if several {
                    Some(page_name)
                } else {
                    None
                };
                Effect::Staged(no_records(), Follow::RegAdded { page_name, name })
            } else {
                Effect::Nothing
            }
        },
        EditAction::DeleteRegister { page_name, reg_type, inst_name, .. } => {
            let records = stage_delete_reg(rif, &page_name, &reg_type, &inst_name);
            let name = match inst_name {
                Some(n) => n,
                None => reg_type,
            };
            effect(records, Follow::RegDeleted { name })
        },
        EditAction::UpdateRegIntrDesc { reg_type, kind, desc, .. } => {
            effect(stage_reg_intr_desc(rif, &reg_type, kind, &desc), Follow::RegDescribed)
        },
        EditAction::UpdateFieldIntrDesc { reg_type, field_name, kind, desc, .. } => {
            effect(stage_field_intr_desc(rif, &reg_type, &field_name, kind, &desc), Follow::FieldDescribed)
        },
        EditAction::UpdateRegOverride { inst_name, vals, .. } => {
            effect(stage_reg_override(rif, &inst_name, vals), Follow::RegOverridden)
        },
        EditAction::UpdateFieldOverride { inst_name, field_name, vals, .. } => {
            effect(stage_field_override(rif, &inst_name, &field_name, vals), Follow::FieldOverridden)
        },
        EditAction::UpdateRifDef { vals, .. } => {
            let records = stage_update_rif(rif, &vals);
            Effect::Staged(records, Follow::RifUpdated { new_name: None })
        },
        EditAction::UpdateRifClocking { sw, hw, .. } => {
            Effect::Staged(stage_clocking(rif, sw, hw), Follow::RifEdited)
        },
        EditAction::UpdateRifParamsAndGenerics { params, generics, .. } => {
            Effect::Staged(stage_params(rif, &params, &generics), Follow::RifEdited)
        },
    }
}

/// What becomes of the source under an edit.
pub enum Applied {
    /// There is nothing to edit.
    Nothing,
    /// The edit cannot be made, and why.
    Refused(Seq<char>),
    /// The edit was made.
    Staged(SourceView, Seq<RecordView>, FollowView),
}

/// The source with another RIF in a place.
pub open spec fn with_rif(src: SourceView, k: int, rif: RifDefView) -> SourceView {
    SourceView { rifs: src.rifs.update(k, RifEntryView { rif, ..src.rifs[k] }), ..src }
}

/// The new name that an action gives to a RIF.
pub open spec fn new_rif_name(a: EditActionView) -> Option<Seq<char>> {
    match a {
        EditActionView::UpdateRifDef { rif_type, vals } => if vals.name != rif_type {
            Some(vals.name)
        } else {
            None
        },
        _ => None,
    }
}

/// What becomes of the source under an edit. A RIF cannot get a name that another one has.
pub open spec fn applied(src: SourceView, a: EditActionView) -> Applied {
    match locate_rif(src.rifs, a.target()) {
        None => Applied::Nothing,
        Some(k) => match new_rif_name(a) {
            Some(name) if first(src.rifs, rif_keyed(name)) is Some => Applied::Refused(
                "A RIF named '"@ + name + "' already exists"@,
            ),
            new_name => match rif_applied(src.rifs[k].rif, a) {
                RifApplied::Nothing => Applied::Nothing,
                RifApplied::Refused(e) => Applied::Refused(e),
                RifApplied::Staged(o, f) => match new_name {
                    Some(name) => Applied::Staged(
                        rif_renamed(with_rif(src, k, o.rif), a.target(), name),
                        o.records,
                        FollowView::RifUpdated { new_name: Some(name) },
                    ),
                    None => Applied::Staged(with_rif(src, k, o.rif), o.records, f),
                },
            },
        },
    }
}

/// Whether `r` says what `applied` says, and the source is as it says.
pub open spec fn source_effect(before: SourceView, a: EditActionView, after: SourceView, r: Effect) -> bool {
    match applied(before, a) {
        Applied::Nothing => r is Nothing && after == before,
        Applied::Refused(e) => r is Refused && r->Refused_0@ == e && after == before,
        Applied::Staged(s, records, f) => r is Staged && after == s && (r->Staged_0).deep_view() == records
            && r->Staged_1@ == f,
    }
}

fn edit_rif(src: &mut Source, k: usize, action: EditAction) -> (r: Effect)
    requires
        applicable(action@),
        k < old(src).rifs@.len(),
    ensures
        ({
            let rif = old(src)@.rifs[k as int].rif;
            match rif_applied(rif, action@) {
                RifApplied::Nothing => r is Nothing && final(src)@ == old(src)@,
                RifApplied::Refused(e) => r is Refused && r->Refused_0@ == e && final(src)@ == old(src)@,
                RifApplied::Staged(o, f) => r is Staged && final(src)@ == with_rif(
                    old(src)@,
                    k as int,
                    o.rif,
                ) && (r->Staged_0).deep_view() == o.records && r->Staged_1@ == f,
            }
        }),
{
    let ghost before = src@;
    let ghost entry = src.rifs@[k as int]@;
    proof {
        assert(before.rifs[k as int] == entry);
    }
    let r = apply_to_rif(&mut src.rifs[k].rif, action);
    proof {
        let now = src.rifs@[k as int]@;
        assert(src.rifs.deep_view() =~= before.rifs.update(k as int, now));
        assert(now == (RifEntryView { rif: now.rif, ..entry }));
        if now.rif == entry.rif {
            assert(src.rifs.deep_view() =~= before.rifs);
        }
    }
    r
}

/// Applies an edit to the source.
pub fn apply_action(src: &mut Source, action: EditAction) -> (r: Effect)
    requires
        applicable(action@),
    ensures
        source_effect(old(src)@, action@, final(src)@, r),
{
    let k: usize = match find_rif(&src.rifs, action.rif_type()) {
        Some(k) => k,
        None => {
            return Effect::Nothing;
        },
    };
    let new_name: Option<(String, String)> = match &action {
        EditAction::UpdateRifDef { rif_type, vals } => if vals.name != *rif_type {
            Some((rif_type.clone(), vals.name.clone()))
        } else {
            None
        },
        _ => None,
    };
    match new_name {
        Some((old_name, name)) => {
            if let Some(_) = find_key(&src.rifs, &name) {
                return Effect::Refused(join3("A RIF named '", name.as_str(), "' already exists"));
            }
            match edit_rif(src, k, action) {
                Effect::Staged(records, _) => {
                    rename_rif(src, &old_name, &name);
                    Effect::Staged(records, Follow::RifUpdated { new_name: Some(name) })
                },
                r => r,
            }
        },
        None => edit_rif(src, k, action),
    }
}

} // verus!
