//! Edits that the user asked for.
use vstd::prelude::*;
use crate::model::page::{Instance, InstanceView};
use crate::model::rif::{Clocking, ClockingView, EnumItem, EnumItemView};
use crate::model::values::{Expr, ExprView, IntrKind};
use crate::stage_field::{FieldMove, FieldMoveView};
use crate::stage_reg::{AddRegKind, AddRegKindView, Companion, CompanionView};
use crate::vals::{
    FieldOverrideVals, FieldOverrideValsView, FieldVals, FieldValsView, GenericEntry, GenericEntryView,
    ParamEntry, ParamEntryView, RegDefVals, RegDefValsView, RegOverrideVals, RegOverrideValsView, RifDefVals,
    RifDefValsView,
};

verus! {

/// An edit that waits to be applied to the source.
#[derive(Debug)]
#[allow(inconsistent_fields)]
pub enum EditAction {
    /// New values for a field.
    UpdateField { rif_type: String, reg_type: String, orig_name: String, vals: Box<FieldVals> },
    /// A new field.
    AddField { rif_type: String, reg_type: String },
    /// A field less.
    DeleteField { rif_type: String, reg_type: String, field_name: String },
    /// Other positions for fields.
    MoveField { rif_type: String, reg_type: String, moves: Vec<FieldMove> },
    /// Other entries for an enum, which is created where there is none of that name.
    UpdateEnum { rif_type: String, name: String, values: Vec<EnumItem> },
    /// New values for a register definition, and for the address of one instance.
    UpdateRegDef { rif_type: String, orig_name: String, inst_name: String, vals: RegDefVals },
    /// Explicit addresses for a page; `converted` holds the instances that the compiled page has, or why
    /// it cannot be converted.
    ConvertPageToManual { rif_type: String, page_name: String, converted: Result<Vec<Instance>, String> },
    /// Exchanges the addresses of two instances.
    SwapRegAddr { rif_type: String, a_inst_name: String, b_inst_name: String },
    /// New values for a register definition, with other instances moved out of the way.
    UpdateRegDefWithMoves {
        rif_type: String,
        orig_name: String,
        inst_name: String,
        vals: RegDefVals,
        companions: Vec<Companion>,
    },
    /// Another array size for one instance, with other instances moved out of the way.
    UpdateRegInstArray {
        rif_type: String,
        inst_name: String,
        array: Option<Expr>,
        companions: Vec<Companion>,
    },
    /// A new register: a definition or an instance.
    AddRegister { rif_type: String, page_name: String, kind: AddRegKind, name: String, addr: u64 },
    /// An instance less, and its definition with the last of them. Without an instance name, the
    /// definition.
    DeleteRegister { rif_type: String, page_name: String, reg_type: String, inst_name: Option<String> },
    /// Another description for a register derived from an interrupt.
    UpdateRegIntrDesc { rif_type: String, reg_type: String, kind: IntrKind, desc: String },
    /// Another description for a field in a register derived from an interrupt.
    UpdateFieldIntrDesc {
        rif_type: String,
        reg_type: String,
        field_name: String,
        kind: IntrKind,
        desc: String,
    },
    /// New values for what an instance overrides for its register.
    UpdateRegOverride { rif_type: String, inst_name: String, vals: RegOverrideVals },
    /// New values for what an instance overrides for one field.
    UpdateFieldOverride { rif_type: String, inst_name: String, field_name: String, vals: FieldOverrideVals },
    /// New values for a RIF.
    UpdateRifDef { rif_type: String, vals: RifDefVals },
    /// Other clocks for a RIF.
    UpdateRifClocking { rif_type: String, sw: Vec<Clocking>, hw: Vec<Clocking> },
    /// Other parameters and generics for a RIF.
    UpdateRifParamsAndGenerics { rif_type: String, params: Vec<ParamEntry>, generics: Vec<GenericEntry> },
}

/// The value of an [`EditAction`].
#[allow(inconsistent_fields)]
pub enum EditActionView {
    UpdateField { rif_type: Seq<char>, reg_type: Seq<char>, orig_name: Seq<char>, vals: FieldValsView },
    AddField { rif_type: Seq<char>, reg_type: Seq<char> },
    DeleteField { rif_type: Seq<char>, reg_type: Seq<char>, field_name: Seq<char> },
    MoveField { rif_type: Seq<char>, reg_type: Seq<char>, moves: Seq<FieldMoveView> },
    UpdateEnum { rif_type: Seq<char>, name: Seq<char>, values: Seq<EnumItemView> },
    UpdateRegDef { rif_type: Seq<char>, orig_name: Seq<char>, inst_name: Seq<char>, vals: RegDefValsView },
    ConvertPageToManual {
        rif_type: Seq<char>,
        page_name: Seq<char>,
        converted: Result<Seq<InstanceView>, Seq<char>>,
    },
    SwapRegAddr { rif_type: Seq<char>, a_inst_name: Seq<char>, b_inst_name: Seq<char> },
    UpdateRegDefWithMoves {
        rif_type: Seq<char>,
        orig_name: Seq<char>,
        inst_name: Seq<char>,
        vals: RegDefValsView,
        companions: Seq<CompanionView>,
    },
    UpdateRegInstArray {
        rif_type: Seq<char>,
        inst_name: Seq<char>,
        array: Option<ExprView>,
        companions: Seq<CompanionView>,
    },
    AddRegister {
        rif_type: Seq<char>,
        page_name: Seq<char>,
        kind: AddRegKindView,
        name: Seq<char>,
        addr: u64,
    },
    DeleteRegister {
        rif_type: Seq<char>,
        page_name: Seq<char>,
        reg_type: Seq<char>,
        inst_name: Option<Seq<char>>,
    },
    UpdateRegIntrDesc { rif_type: Seq<char>, reg_type: Seq<char>, kind: IntrKind, desc: Seq<char> },
    UpdateFieldIntrDesc {
        rif_type: Seq<char>,
        reg_type: Seq<char>,
        field_name: Seq<char>,
        kind: IntrKind,
        desc: Seq<char>,
    },
    UpdateRegOverride { rif_type: Seq<char>, inst_name: Seq<char>, vals: RegOverrideValsView },
    UpdateFieldOverride {
        rif_type: Seq<char>,
        inst_name: Seq<char>,
        field_name: Seq<char>,
        vals: FieldOverrideValsView,
    },
    UpdateRifDef { rif_type: Seq<char>, vals: RifDefValsView },
    UpdateRifClocking { rif_type: Seq<char>, sw: Seq<ClockingView>, hw: Seq<ClockingView> },
    UpdateRifParamsAndGenerics {
        rif_type: Seq<char>,
        params: Seq<ParamEntryView>,
        generics: Seq<GenericEntryView>,
    },
}

/// The outcome of a conversion to explicit addresses.
pub open spec fn converted_view(r: Result<Vec<Instance>, String>) -> Result<Seq<InstanceView>, Seq<char>> {
    match r {
        Ok(v) => Ok(v.deep_view()),
        Err(e) => Err(e@),
    }
}

impl DeepView for EditAction {
    type V = EditActionView;

    open spec fn deep_view(&self) -> EditActionView {
        match self {
            EditAction::UpdateField { rif_type, reg_type, orig_name, vals } => EditActionView::UpdateField {
                rif_type: rif_type.deep_view(),
                reg_type: reg_type.deep_view(),
                orig_name: orig_name.deep_view(),
                vals: vals.deep_view(),
            },
            EditAction::AddField { rif_type, reg_type } => EditActionView::AddField {
                rif_type: rif_type.deep_view(),
                reg_type: reg_type.deep_view(),
            },
            EditAction::DeleteField { rif_type, reg_type, field_name } => EditActionView::DeleteField {
                rif_type: rif_type.deep_view(),
                reg_type: reg_type.deep_view(),
                field_name: field_name.deep_view(),
            },
            EditAction::MoveField { rif_type, reg_type, moves } => EditActionView::MoveField {
                rif_type: rif_type.deep_view(),
                reg_type: reg_type.deep_view(),
                moves: moves.deep_view(),
            },
            EditAction::UpdateEnum { rif_type, name, values } => EditActionView::UpdateEnum {
                rif_type: rif_type.deep_view(),
                name: name.deep_view(),
                values: values.deep_view(),
            },
            EditAction::UpdateRegDef { rif_type, orig_name, inst_name, vals } => EditActionView::UpdateRegDef {
                rif_type: rif_type.deep_view(),
                orig_name: orig_name.deep_view(),
                inst_name: inst_name.deep_view(),
                vals: vals.deep_view(),
            },
            EditAction::ConvertPageToManual { rif_type, page_name, converted } => EditActionView::ConvertPageToManual {
                rif_type: rif_type.deep_view(),
                page_name: page_name.deep_view(),
                converted: converted_view(*converted),
            },
            EditAction::SwapRegAddr { rif_type, a_inst_name, b_inst_name } => EditActionView::SwapRegAddr {
                rif_type: rif_type.deep_view(),
                a_inst_name: a_inst_name.deep_view(),
                b_inst_name: b_inst_name.deep_view(),
            },
            EditAction::UpdateRegDefWithMoves {
                rif_type,
                orig_name,
                inst_name,
                vals,
                companions,
            } => EditActionView::UpdateRegDefWithMoves {
                rif_type: rif_type.deep_view(),
                orig_name: orig_name.deep_view(),
                inst_name: inst_name.deep_view(),
                vals: vals.deep_view(),
                companions: companions.deep_view(),
            },
            EditAction::UpdateRegInstArray { rif_type, inst_name, array, companions } => EditActionView::UpdateRegInstArray {
                rif_type: rif_type.deep_view(),
                inst_name: inst_name.deep_view(),
                array: array.deep_view(),
                companions: companions.deep_view(),
            },
            EditAction::AddRegister { rif_type, page_name, kind, name, addr } => EditActionView::AddRegister {
                rif_type: rif_type.deep_view(),
                page_name: page_name.deep_view(),
                kind: kind.deep_view(),
                name: name.deep_view(),
                addr: *addr,
            },
            EditAction::DeleteRegister { rif_type, page_name, reg_type, inst_name } => EditActionView::DeleteRegister {
                rif_type: rif_type.deep_view(),
                page_name: page_name.deep_view(),
                reg_type: reg_type.deep_view(),
                inst_name: inst_name.deep_view(),
            },
            EditAction::UpdateRegIntrDesc { rif_type, reg_type, kind, desc } => EditActionView::UpdateRegIntrDesc {
                rif_type: rif_type.deep_view(),
                reg_type: reg_type.deep_view(),
                kind: *kind,
                desc: desc.deep_view(),
            },
            EditAction::UpdateFieldIntrDesc {
                rif_type,
                reg_type,
                field_name,
                kind,
                desc,
            } => EditActionView::UpdateFieldIntrDesc {
                rif_type: rif_type.deep_view(),
                reg_type: reg_type.deep_view(),
                field_name: field_name.deep_view(),
                kind: *kind,
                desc: desc.deep_view(),
            },
            EditAction::UpdateRegOverride { rif_type, inst_name, vals } => EditActionView::UpdateRegOverride {
                rif_type: rif_type.deep_view(),
                inst_name: inst_name.deep_view(),
                vals: vals.deep_view(),
            },
            EditAction::UpdateFieldOverride { rif_type, inst_name, field_name, vals } => EditActionView::UpdateFieldOverride {
                rif_type: rif_type.deep_view(),
                inst_name: inst_name.deep_view(),
                field_name: field_name.deep_view(),
                vals: vals.deep_view(),
            },
            EditAction::UpdateRifDef { rif_type, vals } => EditActionView::UpdateRifDef {
                rif_type: rif_type.deep_view(),
                vals: vals.deep_view(),
            },
            EditAction::UpdateRifClocking { rif_type, sw, hw } => EditActionView::UpdateRifClocking {
                rif_type: rif_type.deep_view(),
                sw: sw.deep_view(),
                hw: hw.deep_view(),
            },
            EditAction::UpdateRifParamsAndGenerics { rif_type, params, generics } => EditActionView::UpdateRifParamsAndGenerics {
                rif_type: rif_type.deep_view(),
                params: params.deep_view(),
                generics: generics.deep_view(),
            },
        }
    }
}

impl View for EditAction {
    type V = EditActionView;

    open spec fn view(&self) -> EditActionView {
        self.deep_view()
    }
}

impl EditActionView {
    /// The RIF that the action edits.
    pub open spec fn target(self) -> Seq<char> {
        match self {
            EditActionView::UpdateField { rif_type, .. } => rif_type,
            EditActionView::AddField { rif_type, .. } => rif_type,
            EditActionView::DeleteField { rif_type, .. } => rif_type,
            EditActionView::MoveField { rif_type, .. } => rif_type,
            EditActionView::UpdateEnum { rif_type, .. } => rif_type,
            EditActionView::UpdateRegDef { rif_type, .. } => rif_type,
            EditActionView::ConvertPageToManual { rif_type, .. } => rif_type,
            EditActionView::SwapRegAddr { rif_type, .. } => rif_type,
            EditActionView::UpdateRegDefWithMoves { rif_type, .. } => rif_type,
            EditActionView::UpdateRegInstArray { rif_type, .. } => rif_type,
            EditActionView::AddRegister { rif_type, .. } => rif_type,
            EditActionView::DeleteRegister { rif_type, .. } => rif_type,
            EditActionView::UpdateRegIntrDesc { rif_type, .. } => rif_type,
            EditActionView::UpdateFieldIntrDesc { rif_type, .. } => rif_type,
            EditActionView::UpdateRegOverride { rif_type, .. } => rif_type,
            EditActionView::UpdateFieldOverride { rif_type, .. } => rif_type,
            EditActionView::UpdateRifDef { rif_type, .. } => rif_type,
            EditActionView::UpdateRifClocking { rif_type, .. } => rif_type,
            EditActionView::UpdateRifParamsAndGenerics { rif_type, .. } => rif_type,
        }
    }
}

impl EditAction {
    /// The RIF that the action edits.
    pub fn rif_type(&self) -> (r: &String)
        ensures
            r@ == self@.target(),
    {
        match self {
            EditAction::UpdateField { rif_type, .. } => rif_type,
            EditAction::AddField { rif_type, .. } => rif_type,
            EditAction::DeleteField { rif_type, .. } => rif_type,
            EditAction::MoveField { rif_type, .. } => rif_type,
            EditAction::UpdateEnum { rif_type, .. } => rif_type,
            EditAction::UpdateRegDef { rif_type, .. } => rif_type,
            EditAction::ConvertPageToManual { rif_type, .. } => rif_type,
            EditAction::SwapRegAddr { rif_type, .. } => rif_type,
            EditAction::UpdateRegDefWithMoves { rif_type, .. } => rif_type,
            EditAction::UpdateRegInstArray { rif_type, .. } => rif_type,
            EditAction::AddRegister { rif_type, .. } => rif_type,
            EditAction::DeleteRegister { rif_type, .. } => rif_type,
            EditAction::UpdateRegIntrDesc { rif_type, .. } => rif_type,
            EditAction::UpdateFieldIntrDesc { rif_type, .. } => rif_type,
            EditAction::UpdateRegOverride { rif_type, .. } => rif_type,
            EditAction::UpdateFieldOverride { rif_type, .. } => rif_type,
            EditAction::UpdateRifDef { rif_type, .. } => rif_type,
            EditAction::UpdateRifClocking { rif_type, .. } => rif_type,
            EditAction::UpdateRifParamsAndGenerics { rif_type, .. } => rif_type,
        }
    }
}

} // verus!
