//! Editors of descriptions of derived interrupt registers.
use vstd::prelude::*;
use crate::action::{EditAction, EditActionView};
use crate::model::register::{FieldDef, RegisterDef, RegisterDefView};
use crate::model::values::{IntrDesc, IntrDescView, IntrKind};
use crate::syntax::intr_desc_of;

verus! {

/// The public description of one of the derived registers; empty where there is none.
pub open spec fn derived_text(d: Option<IntrDescView>, kind: IntrKind) -> Seq<char> {
    match d {
        Some(x) => match intr_desc_of(x, kind) {
            Some(t) => t.public,
            None => seq![],
        },
        None => seq![],
    }
}

/// The descriptions of the primary interrupt of a register.
pub open spec fn primary_descs(d: RegisterDefView) -> Option<IntrDescView> {
    if d.interrupt.len() > 0 {
        Some(d.interrupt[0].description)
    } else {
        None
    }
}

fn show_derived(d: Option<&IntrDesc>, kind: IntrKind) -> (r: String)
    ensures
        r@ == derived_text(
            match d {
                Some(x) => Some(x@),
                None => None,
            },
            kind,
        ),
{
    match d {
        Some(x) => match kind {
            IntrKind::Enable => x.enable.public.clone(),
            IntrKind::Mask => x.mask.public.clone(),
            IntrKind::Pending => x.pending.public.clone(),
            _ => String::new(),
        },
        None => String::new(),
    }
}

/// Buffer for the description of a register derived from an interrupt.
#[derive(Debug)]
pub struct RegIntrDescEditor {
    /// RIF.
    pub rif_type: String,
    /// Type of the interrupt register.
    pub reg_type: String,
    /// Which derived register.
    pub kind: IntrKind,
    /// Description.
    pub desc: String,
    /// Description as it was loaded.
    pub desc_orig: String,
}

/// The value of a [`RegIntrDescEditor`].
pub struct RegIntrDescEditorView {
    pub rif_type: Seq<char>,
    pub reg_type: Seq<char>,
    pub kind: IntrKind,
    pub desc: Seq<char>,
    pub desc_orig: Seq<char>,
}

impl DeepView for RegIntrDescEditor {
    type V = RegIntrDescEditorView;

    open spec fn deep_view(&self) -> RegIntrDescEditorView {
        RegIntrDescEditorView {
            rif_type: self.rif_type.deep_view(),
            reg_type: self.reg_type.deep_view(),
            kind: self.kind,
            desc: self.desc.deep_view(),
            desc_orig: self.desc_orig.deep_view(),
        }
    }
}

impl View for RegIntrDescEditor {
    type V = RegIntrDescEditorView;

    open spec fn view(&self) -> RegIntrDescEditorView {
        self.deep_view()
    }
}

/// Buffer for the description of a field in a register derived from an interrupt.
#[derive(Debug)]
pub struct FieldIntrDescEditor {
    /// RIF.
    pub rif_type: String,
    /// Type of the interrupt register.
    pub reg_type: String,
    /// Field.
    pub field_name: String,
    /// Which derived register.
    pub kind: IntrKind,
    /// Description.
    pub desc: String,
    /// Description as it was loaded.
    pub desc_orig: String,
}

/// The value of a [`FieldIntrDescEditor`].
pub struct FieldIntrDescEditorView {
    pub rif_type: Seq<char>,
    pub reg_type: Seq<char>,
    pub field_name: Seq<char>,
    pub kind: IntrKind,
    pub desc: Seq<char>,
    pub desc_orig: Seq<char>,
}

impl DeepView for FieldIntrDescEditor {
    type V = FieldIntrDescEditorView;

    open spec fn deep_view(&self) -> FieldIntrDescEditorView {
        FieldIntrDescEditorView {
            rif_type: self.rif_type.deep_view(),
            reg_type: self.reg_type.deep_view(),
            field_name: self.field_name.deep_view(),
            kind: self.kind,
            desc: self.desc.deep_view(),
            desc_orig: self.desc_orig.deep_view(),
        }
    }
}

impl View for FieldIntrDescEditor {
    type V = FieldIntrDescEditorView;

    open spec fn view(&self) -> FieldIntrDescEditorView {
        self.deep_view()
    }
}

impl RegIntrDescEditor {
    /// Loads the description of a derived register.
    pub fn from_regdef(rif_type: String, reg_type: String, def: &RegisterDef, kind: IntrKind) -> (r: Self)
        ensures
            r@ == (RegIntrDescEditorView {
                rif_type: rif_type@,
                reg_type: reg_type@,
                kind,
                desc: derived_text(primary_descs(def@), kind),
                desc_orig: derived_text(primary_descs(def@), kind),
            }),
    {
        let descs: Option<&IntrDesc> = if def.interrupt.len() > 0 {
            proof {
                assert(def@.interrupt[0] == def.interrupt@[0]@);
            }
            Some(&def.interrupt[0].description)
        } else {
            None
        };
        let desc = show_derived(descs, kind);
        RegIntrDescEditor { rif_type, reg_type, kind, desc: desc.clone(), desc_orig: desc }
    }

    /// Whether the description is as it was loaded.
    pub fn is_unchanged(&self) -> (r: bool)
        ensures
            r == (self@.desc == self@.desc_orig),
    {
        self.desc == self.desc_orig
    }

    /// Makes the edit.
    pub fn build_action(&self) -> (r: EditAction)
        ensures
            r@ == (EditActionView::UpdateRegIntrDesc {
                rif_type: self@.rif_type,
                reg_type: self@.reg_type,
                kind: self@.kind,
                desc: self@.desc,
            }),
    {
        EditAction::UpdateRegIntrDesc {
            rif_type: self.rif_type.clone(),
            reg_type: self.reg_type.clone(),
            kind: self.kind,
            desc: self.desc.clone(),
        }
    }
}

impl FieldIntrDescEditor {
    /// Loads the description of a field in a derived register.
    pub fn from_field(
        rif_type: String,
        reg_type: String,
        field_name: String,
        def: &FieldDef,
        kind: IntrKind,
    ) -> (r: Self)
        ensures
            r@ == (FieldIntrDescEditorView {
                rif_type: rif_type@,
                reg_type: reg_type@,
                field_name: field_name@,
                kind,
                desc: derived_text(def@.intr_desc, kind),
                desc_orig: derived_text(def@.intr_desc, kind),
            }),
    {
        let desc = show_derived(def.intr_desc.as_ref(), kind);
        FieldIntrDescEditor { rif_type, reg_type, field_name, kind, desc: desc.clone(), desc_orig: desc }
    }

    /// Whether the description is as it was loaded.
    pub fn is_unchanged(&self) -> (r: bool)
        ensures
            r == (self@.desc == self@.desc_orig),
    {
        self.desc == self.desc_orig
    }

    /// Makes the edit.
    pub fn build_action(&self) -> (r: EditAction)
        ensures
            r@ == (EditActionView::UpdateFieldIntrDesc {
                rif_type: self@.rif_type,
                reg_type: self@.reg_type,
                field_name: self@.field_name,
                kind: self@.kind,
                desc: self@.desc,
            }),
    {
        EditAction::UpdateFieldIntrDesc {
            rif_type: self.rif_type.clone(),
            reg_type: self.reg_type.clone(),
            field_name: self.field_name.clone(),
            kind: self.kind,
            desc: self.desc.clone(),
        }
    }
}

} // verus!
