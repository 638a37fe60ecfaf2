//! The state of the viewer, and how an edit goes through it.
//!
//! An edit is applied to the source first. The source is then compiled, and the edit is kept or
//! taken back.
use vstd::prelude::*;
use crate::action::{EditAction, EditActionView};
use crate::apply::{applicable, applied, apply_action, Applied, Effect, Follow, FollowView};
use crate::edits::{
    no_edits, no_edits_is_nothing_pending, nothing_pending, recorded_all, PendingEdits, PendingEditsView,
    Record, RecordView,
};
use crate::enum_editor::{EnumEditor, EnumEditorView};
use crate::field_editor::{
    EnumMode, EnumTypeSrc, FieldBuffersView, FieldEditor, FieldEditorView, FieldOverrideEditor,
    FieldOverrideEditorView,
};
use crate::intr_desc_editor::{
    FieldIntrDescEditor, FieldIntrDescEditorView, RegIntrDescEditor, RegIntrDescEditorView,
};
use crate::model::page::{Page, PageView};
use crate::model::register::{RegItem, RegItemView};
use crate::model::rif::{EnumTypeView, RifDef, RifDefView, Source, SourceView};
use crate::reg_editor::{
    PendingDeleteReg, PendingDeleteRegView, PendingRegAddrConflict, PendingRegAddrConflictView,
    PendingRegArrayChange, PendingRegArrayChangeView, RegAddEditor, RegAddEditorView, RegEditor, RegEditorView,
    RegOverrideEditor, RegOverrideEditorView,
};
use crate::text::{from_chars, to_chars};

verus! {

/// What is selected below the path.
#[derive(Debug)]
pub enum SelectedItem {
    /// Nothing.
    Nothing,
    /// A register of the RIF or page.
    Reg(String),
    /// A field of the register; an element of an array has its index behind the name.
    Field(String),
}

/// The value of a [`SelectedItem`].
pub enum SelectedItemView {
    Nothing,
    Reg(Seq<char>),
    Field(Seq<char>),
}

impl DeepView for SelectedItem {
    type V = SelectedItemView;

    open spec fn deep_view(&self) -> SelectedItemView {
        match self {
            SelectedItem::Nothing => SelectedItemView::Nothing,
            SelectedItem::Reg(a) => SelectedItemView::Reg(a.deep_view()),
            SelectedItem::Field(a) => SelectedItemView::Field(a.deep_view()),
        }
    }
}

impl View for SelectedItem {
    type V = SelectedItemView;

    open spec fn view(&self) -> SelectedItemView {
        self.deep_view()
    }
}

impl Clone for SelectedItem {
    fn clone(&self) -> (r: Self)
        ensures
            r@ == self@,
    {
        match self {
            SelectedItem::Nothing => SelectedItem::Nothing,
            SelectedItem::Reg(a) => SelectedItem::Reg(a.clone()),
            SelectedItem::Field(a) => SelectedItem::Field(a.clone()),
        }
    }
}

/// What the user looks at.
#[derive(Debug)]
pub struct Selection {
    /// Names from the top down to what is shown.
    pub path: Vec<String>,
    /// What is selected there.
    pub item: SelectedItem,
    /// Frames for which the tree is to follow.
    pub updt: usize,
}

/// The value of a [`Selection`].
pub struct SelectionView {
    pub path: Seq<Seq<char>>,
    pub item: SelectedItemView,
    pub updt: usize,
}

impl DeepView for Selection {
    type V = SelectionView;

    open spec fn deep_view(&self) -> SelectionView {
        SelectionView {
            path: self.path.deep_view(),
            item: self.item.deep_view(),
            updt: self.updt,
        }
    }
}

impl View for Selection {
    type V = SelectionView;

    open spec fn view(&self) -> SelectionView {
        self.deep_view()
    }
}

impl Clone for Selection {
    fn clone(&self) -> (r: Self)
        ensures
            r@ == self@,
    {
        let r = Selection {
            path: self.path.clone(),
            item: self.item.clone(),
            updt: self.updt,
        };
        proof {
            assert(r.path.deep_view() =~= self.path.deep_view());
        }
        r
    }
}

/// Another RIF that is shown once the pending edits are saved or discarded.
#[derive(Debug)]
pub struct PendingRifSwitch {
    /// What is shown then.
    pub target: Selection,
    /// The RIF with the edits.
    pub from_rif: String,
}

/// The value of a [`PendingRifSwitch`].
pub struct PendingRifSwitchView {
    pub target: SelectionView,
    pub from_rif: Seq<char>,
}

impl DeepView for PendingRifSwitch {
    type V = PendingRifSwitchView;

    open spec fn deep_view(&self) -> PendingRifSwitchView {
        PendingRifSwitchView {
            target: self.target.deep_view(),
            from_rif: self.from_rif.deep_view(),
        }
    }
}

impl View for PendingRifSwitch {
    type V = PendingRifSwitchView;

    open spec fn view(&self) -> PendingRifSwitchView {
        self.deep_view()
    }
}

impl Clone for PendingRifSwitch {
    fn clone(&self) -> (r: Self)
        ensures
            r@ == self@,
    {
        let r = PendingRifSwitch {
            target: self.target.clone(),
            from_rif: self.from_rif.clone(),
        };
        r
    }
}

/// What an edit is about: the type that all instances share, or one instance.
#[derive(Clone, Copy, Debug, PartialEq, Eq, Structural)]
pub enum EditTarget {
    Definition,
    Instance,
}

/// The editors that are open.
#[derive(Debug)]
pub struct Editors {
    /// A field.
    pub field_editor: Option<FieldEditor>,
    /// An enum.
    pub enum_editor: Option<EnumEditor>,
    /// A register.
    pub reg_editor: Option<RegEditor>,
    /// A new register.
    pub reg_add_editor: Option<RegAddEditor>,
    /// A description of a derived register.
    pub reg_intr_desc_editor: Option<RegIntrDescEditor>,
    /// A description of a field in a derived register.
    pub field_intr_desc_editor: Option<FieldIntrDescEditor>,
    /// What an instance overrides for its register.
    pub reg_override_editor: Option<RegOverrideEditor>,
    /// What an instance overrides for one field.
    pub field_override_editor: Option<FieldOverrideEditor>,
}

/// The value of a [`Editors`].
pub struct EditorsView {
    pub field_editor: Option<FieldEditorView>,
    pub enum_editor: Option<EnumEditorView>,
    pub reg_editor: Option<RegEditorView>,
    pub reg_add_editor: Option<RegAddEditorView>,
    pub reg_intr_desc_editor: Option<RegIntrDescEditorView>,
    pub field_intr_desc_editor: Option<FieldIntrDescEditorView>,
    pub reg_override_editor: Option<RegOverrideEditorView>,
    pub field_override_editor: Option<FieldOverrideEditorView>,
}

impl DeepView for Editors {
    type V = EditorsView;

    open spec fn deep_view(&self) -> EditorsView {
        EditorsView {
            field_editor: self.field_editor.deep_view(),
            enum_editor: self.enum_editor.deep_view(),
            reg_editor: self.reg_editor.deep_view(),
            reg_add_editor: self.reg_add_editor.deep_view(),
            reg_intr_desc_editor: self.reg_intr_desc_editor.deep_view(),
            field_intr_desc_editor: self.field_intr_desc_editor.deep_view(),
            reg_override_editor: self.reg_override_editor.deep_view(),
            field_override_editor: self.field_override_editor.deep_view(),
        }
    }
}

impl View for Editors {
    type V = EditorsView;

    open spec fn view(&self) -> EditorsView {
        self.deep_view()
    }
}

/// The questions that wait for an answer.
#[derive(Debug)]
pub struct Dialogs {
    /// Whether to reload and lose edits.
    pub confirm_reload: bool,
    /// Whether to save before another RIF is shown.
    pub confirm_switch_rif: Option<PendingRifSwitch>,
    /// Whether to delete a register.
    pub confirm_delete_reg: Option<PendingDeleteReg>,
    /// What to do about an address that is taken.
    pub confirm_reg_addr_conflict: Option<PendingRegAddrConflict>,
    /// Whether to change an array size.
    pub confirm_reg_array_change: Option<PendingRegArrayChange>,
}

/// The value of a [`Dialogs`].
pub struct DialogsView {
    pub confirm_reload: bool,
    pub confirm_switch_rif: Option<PendingRifSwitchView>,
    pub confirm_delete_reg: Option<PendingDeleteRegView>,
    pub confirm_reg_addr_conflict: Option<PendingRegAddrConflictView>,
    pub confirm_reg_array_change: Option<PendingRegArrayChangeView>,
}

impl DeepView for Dialogs {
    type V = DialogsView;

    open spec fn deep_view(&self) -> DialogsView {
        DialogsView {
            confirm_reload: self.confirm_reload,
            confirm_switch_rif: self.confirm_switch_rif.deep_view(),
            confirm_delete_reg: self.confirm_delete_reg.deep_view(),
            confirm_reg_addr_conflict: self.confirm_reg_addr_conflict.deep_view(),
            confirm_reg_array_change: self.confirm_reg_array_change.deep_view(),
        }
    }
}

impl View for Dialogs {
    type V = DialogsView;

    open spec fn view(&self) -> DialogsView {
        self.deep_view()
    }
}

/// The state of the viewer.
pub struct RifViewer {
    /// The source that is shown.
    pub rif_src: Option<Source>,
    /// Why the file could not be opened.
    pub last_err: Option<String>,
    /// What the user looks at.
    pub selected: Selection,
    /// What the user looked at last without leaving edits behind.
    pub validated_selection: Selection,
    /// The edit to apply.
    pub pending: Option<EditAction>,
    /// Why the last edit could not be applied.
    pub edit_err: Option<String>,
    /// The RIF that has edits to save.
    pub editing_rif: Option<String>,
    /// The edits to save.
    pub edits: PendingEdits,
    /// The editors that are open.
    pub editors: Editors,
    /// The questions that wait for an answer.
    pub dialogs: Dialogs,
}

/// The value of a [`RifViewer`].
pub struct RifViewerView {
    pub rif_src: Option<SourceView>,
    pub last_err: Option<Seq<char>>,
    pub selected: SelectionView,
    pub validated_selection: SelectionView,
    pub pending: Option<EditActionView>,
    pub edit_err: Option<Seq<char>>,
    pub editing_rif: Option<Seq<char>>,
    pub edits: PendingEditsView,
    pub editors: EditorsView,
    pub dialogs: DialogsView,
}

impl DeepView for RifViewer {
    type V = RifViewerView;

    open spec fn deep_view(&self) -> RifViewerView {
        RifViewerView {
            rif_src: self.rif_src.deep_view(),
            last_err: self.last_err.deep_view(),
            selected: self.selected.deep_view(),
            validated_selection: self.validated_selection.deep_view(),
            pending: self.pending.deep_view(),
            edit_err: self.edit_err.deep_view(),
            editing_rif: self.editing_rif.deep_view(),
            edits: self.edits@,
            editors: self.editors.deep_view(),
            dialogs: self.dialogs.deep_view(),
        }
    }
}

impl View for RifViewer {
    type V = RifViewerView;

    open spec fn view(&self) -> RifViewerView {
        self.deep_view()
    }
}

/// An edit that was applied to the source and is to be compiled.
#[derive(Debug)]
pub struct Staged {
    /// The source as it was.
    pub before: Source,
    /// What is to be saved of the edit.
    pub records: Vec<Record>,
    /// What changed.
    pub follow: Follow,
    /// The RIF that was edited.
    pub rif_type: String,
    /// Whether there was something to save before.
    pub was_unsaved: bool,
}

/// The value of a [`Staged`].
pub struct StagedView {
    pub before: SourceView,
    pub records: Seq<RecordView>,
    pub follow: FollowView,
    pub rif_type: Seq<char>,
    pub was_unsaved: bool,
}

impl DeepView for Staged {
    type V = StagedView;

    open spec fn deep_view(&self) -> StagedView {
        StagedView {
            before: self.before.deep_view(),
            records: self.records.deep_view(),
            follow: self.follow.deep_view(),
            rif_type: self.rif_type.deep_view(),
            was_unsaved: self.was_unsaved,
        }
    }
}

impl View for Staged {
    type V = StagedView;

    open spec fn view(&self) -> StagedView {
        self.deep_view()
    }
}

/// Whether an item is a definition with a field that is not in the file yet.
pub open spec fn has_new_field(i: RegItemView) -> bool {
    match i {
        RegItemView::Def(d) => exists|f: int|
            0 <= f < d.fields.len() && (#[trigger] d.fields[f]).src.decl_line is None,
        _ => false,
    }
}

/// Whether an item is a definition that is not in the file yet.
pub open spec fn is_new_reg(i: RegItemView) -> bool {
    match i {
        RegItemView::Def(d) => d.src.decl_line is None,
        _ => false,
    }
}

pub open spec fn page_has_new_fields(p: PageView) -> bool {
    exists|r: int| 0 <= r < p.registers.len() && has_new_field(#[trigger] p.registers[r])
}

pub open spec fn page_has_new_registers(p: PageView) -> bool {
    exists|r: int| 0 <= r < p.registers.len() && is_new_reg(#[trigger] p.registers[r])
}

pub open spec fn page_has_new_instances(p: PageView) -> bool {
    exists|i: int| 0 <= i < p.instances.len() && (#[trigger] p.instances[i]).decl_line is None
}

pub open spec fn enum_has_new_entries(d: EnumTypeView) -> bool {
    exists|i: int| 0 <= i < d.values.len() && (#[trigger] d.values[i]).decl_line is None
}

/// Whether a RIF has a field that is not in the file yet.
pub open spec fn new_fields(r: RifDefView) -> bool {
    exists|p: int| 0 <= p < r.pages.len() && page_has_new_fields(#[trigger] r.pages[p])
}

/// Whether a RIF has an enum entry that is not in the file yet.
pub open spec fn new_enum_entries(r: RifDefView) -> bool {
    exists|d: int| 0 <= d < r.enum_defs.len() && enum_has_new_entries(#[trigger] r.enum_defs[d])
}

/// Whether a RIF has a register definition that is not in the file yet.
pub open spec fn new_registers(r: RifDefView) -> bool {
    exists|p: int| 0 <= p < r.pages.len() && page_has_new_registers(#[trigger] r.pages[p])
}

/// Whether a RIF has an instance that is not in the file yet.
pub open spec fn new_instances(r: RifDefView) -> bool {
    exists|p: int| 0 <= p < r.pages.len() && page_has_new_instances(#[trigger] r.pages[p])
}

/// Whether a RIF has anything that is not in the file yet.
pub open spec fn rif_has_new(r: RifDefView) -> bool {
    new_fields(r) || new_enum_entries(r) || new_registers(r) || new_instances(r)
}

/// Whether a source has anything that is not in a file yet.
pub open spec fn source_has_new(src: Option<SourceView>) -> bool {
    match src {
        Some(s) => exists|k: int| 0 <= k < s.rifs.len() && rif_has_new((#[trigger] s.rifs[k]).rif),
        None => false,
    }
}

/// Whether there is something to save.
pub open spec fn unsaved(v: RifViewerView) -> bool {
    !nothing_pending(v.edits) || source_has_new(v.rif_src)
}

fn item_has_new_field(i: &RegItem) -> (r: bool)
    ensures
        r == has_new_field(i@),
{
    match i {
        RegItem::Def(d) => {
            let ghost fields = d.fields.deep_view();
            let mut f: usize = 0;
            while f < d.fields.len()
                invariant
                    f <= d.fields@.len(),
                    i@ == RegItemView::Def(d@),
                    fields == d.fields.deep_view(),
                    forall|k: int| 0 <= k < f ==> (#[trigger] fields[k]).src.decl_line is Some,
                decreases d.fields@.len() - f,
            {
                proof {
                    assert(fields[f as int] == d.fields@[f as int]@);
                }
                if d.fields[f].src.decl_line.is_none() {
                    proof {
                        assert(i@->Def_0.fields[f as int].src.decl_line is None);
                    }
                    return true;
                }
                f += 1;
            }
            false
        },
        _ => false,
    }
}

fn item_is_new(i: &RegItem) -> (r: bool)
    ensures
        r == is_new_reg(i@),
{
    match i {
        RegItem::Def(d) => d.src.decl_line.is_none(),
        _ => false,
    }
}

fn page_new_fields(p: &Page) -> (r: bool)
    ensures
        r == page_has_new_fields(p@),
{
    let ghost items = p.registers.deep_view();
    let mut i: usize = 0;
    while i < p.registers.len()
        invariant
            i <= p.registers@.len(),
            items == p.registers.deep_view(),
            forall|k: int| 0 <= k < i ==> !has_new_field(#[trigger] items[k]),
        decreases p.registers@.len() - i,
    {
        proof {
            assert(items[i as int] == p.registers@[i as int]@);
        }
        if item_has_new_field(&p.registers[i]) {
            proof {
                assert(has_new_field(p@.registers[i as int]));
            }
            return true;
        }
        i += 1;
    }
    false
}

fn page_new_registers(p: &Page) -> (r: bool)
    ensures
        r == page_has_new_registers(p@),
{
    let ghost items = p.registers.deep_view();
    let mut i: usize = 0;
    while i < p.registers.len()
        invariant
            i <= p.registers@.len(),
            items == p.registers.deep_view(),
            forall|k: int| 0 <= k < i ==> !is_new_reg(#[trigger] items[k]),
        decreases p.registers@.len() - i,
    {
        proof {
            assert(items[i as int] == p.registers@[i as int]@);
        }
        if item_is_new(&p.registers[i]) {
            proof {
                assert(is_new_reg(p@.registers[i as int]));
            }
            return true;
        }
        i += 1;
    }
    false
}

fn page_new_instances(p: &Page) -> (r: bool)
    ensures
        r == page_has_new_instances(p@),
{
    let ghost insts = p.instances.deep_view();
    let mut i: usize = 0;
    while i < p.instances.len()
        invariant
            i <= p.instances@.len(),
            insts == p.instances.deep_view(),
            forall|k: int| 0 <= k < i ==> (#[trigger] insts[k]).decl_line is Some,
        decreases p.instances@.len() - i,
    {
        proof {
            assert(insts[i as int] == p.instances@[i as int]@);
        }
        if p.instances[i].decl_line.is_none() {
            proof {
                assert(p@.instances[i as int].decl_line is None);
            }
            return true;
        }
        i += 1;
    }
    false
}

/// Whether a RIF has a field that is not in the file yet.
pub fn rif_has_new_fields(rif: &RifDef) -> (r: bool)
    ensures
        r == new_fields(rif@),
{
    let ghost pages = rif.pages.deep_view();
    let mut i: usize = 0;
    while i < rif.pages.len()
        invariant
            i <= rif.pages@.len(),
            pages == rif.pages.deep_view(),
            forall|k: int| 0 <= k < i ==> !page_has_new_fields(#[trigger] pages[k]),
        decreases rif.pages@.len() - i,
    {
        proof {
            assert(pages[i as int] == rif.pages@[i as int]@);
        }
        if page_new_fields(&rif.pages[i]) {
            proof {
                assert(page_has_new_fields(rif@.pages[i as int]));
            }
            return true;
        }
        i += 1;
    }
    false
}

/// Whether a RIF has a register definition that is not in the file yet.
pub fn rif_has_new_registers(rif: &RifDef) -> (r: bool)
    ensures
        r == new_registers(rif@),
{
    let ghost pages = rif.pages.deep_view();
    let mut i: usize = 0;
    while i < rif.pages.len()
        invariant
            i <= rif.pages@.len(),
            pages == rif.pages.deep_view(),
            forall|k: int| 0 <= k < i ==> !page_has_new_registers(#[trigger] pages[k]),
        decreases rif.pages@.len() - i,
    {
        proof {
            assert(pages[i as int] == rif.pages@[i as int]@);
        }
        if page_new_registers(&rif.pages[i]) {
            proof {
                assert(page_has_new_registers(rif@.pages[i as int]));
            }
            return true;
        }
        i += 1;
    }
    false
}

/// Whether a RIF has an instance that is not in the file yet.
pub fn rif_has_new_instances(rif: &RifDef) -> (r: bool)
    ensures
        r == new_instances(rif@),
{
    let ghost pages = rif.pages.deep_view();
    let mut i: usize = 0;
    while i < rif.pages.len()
        invariant
            i <= rif.pages@.len(),
            pages == rif.pages.deep_view(),
            forall|k: int| 0 <= k < i ==> !page_has_new_instances(#[trigger] pages[k]),
        decreases rif.pages@.len() - i,
    {
        proof {
            assert(pages[i as int] == rif.pages@[i as int]@);
        }
        if page_new_instances(&rif.pages[i]) {
            proof {
                assert(page_has_new_instances(rif@.pages[i as int]));
            }
            return true;
        }
        i += 1;
    }
    false
}

/// Whether a RIF has an enum entry that is not in the file yet.
pub fn rif_has_new_enum_entries(rif: &RifDef) -> (r: bool)
    ensures
        r == new_enum_entries(rif@),
{
    let ghost defs = rif.enum_defs.deep_view();
    let mut d: usize = 0;
    while d < rif.enum_defs.len()
        invariant
            d <= rif.enum_defs@.len(),
            defs == rif.enum_defs.deep_view(),
            forall|k: int| 0 <= k < d ==> !enum_has_new_entries(#[trigger] defs[k]),
        decreases rif.enum_defs@.len() - d,
    {
        let ghost values = defs[d as int].values;
        proof {
            assert(defs[d as int] == rif.enum_defs@[d as int]@);
        }
        let n: usize = rif.enum_defs[d].values.len();
        let mut i: usize = 0;
        while i < n
            invariant
                d < rif.enum_defs@.len(),
                i <= n == rif.enum_defs@[d as int].values@.len(),
                defs == rif.enum_defs.deep_view(),
                values == defs[d as int].values,
                defs[d as int] == rif.enum_defs@[d as int]@,
                forall|k: int| 0 <= k < i ==> (#[trigger] values[k]).decl_line is Some,
            decreases n - i,
        {
            proof {
                assert(values[i as int] == rif.enum_defs@[d as int].values@[i as int]@);
            }
            if rif.enum_defs[d].values[i].decl_line.is_none() {
                proof {
                    assert(rif@.enum_defs[d as int].values[i as int].decl_line is None);
                    assert(enum_has_new_entries(rif@.enum_defs[d as int]));
                }
                return true;
            }
            i += 1;
        }
        d += 1;
    }
    false
}

/// The name of a field without the index of an array element.
pub open spec fn base_name(s: Seq<char>) -> Seq<char>
    decreases s.len(),
{
    if s.len() == 0 || s[0] == '[' {
        seq![]
    } else {
        seq![s[0]] + base_name(s.skip(1))
    }
}

proof fn lemma_base_name(s: Seq<char>, i: int)
    requires
        0 <= i <= s.len(),
        forall|k: int| 0 <= k < i ==> s[k] != '[',
        i == s.len() || s[i] == '[',
    ensures
        base_name(s) == s.take(i),
    decreases i,
{
    if i == 0 {
        assert(s.take(0) =~= Seq::<char>::empty());
    } else {
        lemma_base_name(s.skip(1), i - 1);
        assert(seq![s[0]] + s.skip(1).take(i - 1) =~= s.take(i));
    }
}

/// The name of a field without the index of an array element.
pub fn field_base(name: &str) -> (r: String)
    ensures
        r@ == base_name(name@),
{
    let cs = to_chars(name);
    let mut i: usize = 0;
    while i < cs.len() && cs[i] != '['
        invariant
            i <= cs@.len(),
            cs@ == name@,
            forall|k: int| 0 <= k < i ==> cs@[k] != '[',
        decreases cs@.len() - i,
    {
        i += 1;
    }
    let r = from_chars(&cs, 0, i);
    proof {
        lemma_base_name(name@, i as int);
        assert(r@ =~= name@.take(i as int));
    }
    r
}

/// Whether the path ends with a name.
pub open spec fn ends_with(path: Seq<Seq<char>>, name: Seq<char>) -> bool {
    path.len() > 0 && path.last() == name
}

/// The selection after an edit: it follows what was renamed, goes to what was added, and leaves
/// what was deleted.
pub open spec fn selection_after(s: SelectionView, f: FollowView) -> SelectionView {
    match f {
        FollowView::FieldUpdated { orig_name, new_name } => match s.item {
            SelectedItemView::Field(n) if base_name(n) == orig_name => SelectionView {
                item: SelectedItemView::Field(new_name),
                ..s
            },
            _ => s,
        },
        FollowView::FieldAdded { name } => SelectionView { item: SelectedItemView::Field(name), ..s },
        FollowView::FieldDeleted => SelectionView { item: SelectedItemView::Nothing, ..s },
        FollowView::RegUpdated { orig_name, new_name } => if ends_with(s.path, orig_name) {
            SelectionView { path: s.path.drop_last().push(new_name), ..s }
        } else {
            s
        },
        FollowView::RegAdded { page_name, name } => SelectionView {
            path: (match page_name {
                Some(p) => if ends_with(s.path, p) {
                    s.path
                } else {
                    s.path.push(p)
                },
                None => s.path,
            }).push(name),
            item: SelectedItemView::Nothing,
            updt: 1,
        },
        FollowView::RegDeleted { name } => if ends_with(s.path, name) {
            SelectionView { path: s.path.drop_last(), item: SelectedItemView::Nothing, ..s }
        } else {
            s
        },
        _ => s,
    }
}

/// The field editor after the enum that it may show was edited.
pub open spec fn with_enum(e: FieldEditorView, name: Seq<char>) -> FieldEditorView {
    if e.buf.enum_mode == EnumMode::Type {
        FieldEditorView {
            buf: FieldBuffersView { enum_name: name, ..e.buf },
            enum_type_src: EnumTypeSrc::Existing,
            ..e
        }
    } else {
        e
    }
}

/// The editors after an edit: the one that made it closes, to be loaded anew.
pub open spec fn editors_after(e: EditorsView, f: FollowView) -> EditorsView {
    match f {
        FollowView::FieldUpdated { .. } => EditorsView { field_editor: None, ..e },
        FollowView::FieldAdded { .. } => EditorsView { field_editor: None, ..e },
        FollowView::FieldDeleted => EditorsView { field_editor: None, ..e },
        FollowView::FieldsMoved => EditorsView { field_editor: None, ..e },
        FollowView::EnumUpdated { name } => EditorsView {
            enum_editor: None,
            field_editor: match e.field_editor {
                Some(fe) => Some(with_enum(fe, name)),
                None => None,
            },
            ..e
        },
        FollowView::RegUpdated { .. } => EditorsView { reg_editor: None, ..e },
        FollowView::RegsMoved => EditorsView { reg_editor: None, ..e },
        FollowView::RegDeleted { .. } => EditorsView { reg_editor: None, ..e },
        FollowView::RegDescribed => EditorsView { reg_intr_desc_editor: None, ..e },
        FollowView::FieldDescribed => EditorsView { field_intr_desc_editor: None, ..e },
        FollowView::RegOverridden => EditorsView { reg_override_editor: None, ..e },
        FollowView::FieldOverridden => EditorsView { field_override_editor: None, ..e },
        FollowView::PageConverted { rif_type, page_name } => EditorsView {
            reg_add_editor: match e.reg_add_editor {
                Some(a) => Some(
                    if a.rif_type == rif_type && a.page_name == page_name {
                        RegAddEditorView { page_is_auto: false, ..a }
                    } else {
                        a
                    },
                ),
                None => None,
            },
            ..e
        },
        FollowView::RegAdded { .. } => EditorsView { reg_add_editor: None, ..e },
        FollowView::RifUpdated { .. } => e,
        FollowView::RifEdited => e,
    }
}

/// The RIF with edits, after one of them: it is known under its new name.
pub open spec fn owner_after(owner: Option<Seq<char>>, f: FollowView) -> Option<Seq<char>> {
    match f {
        FollowView::RifUpdated { new_name: Some(n) } => Some(n),
        _ => owner,
    }
}

/// The viewer once it is known which RIF has edits.
pub open spec fn with_owner(v: RifViewerView, was_unsaved: bool, rif_type: Seq<char>) -> RifViewerView {
    if !was_unsaved && unsaved(v) {
        RifViewerView {
            editing_rif: match v.editing_rif {
                Some(n) => Some(n),
                None => Some(rif_type),
            },
            ..v
        }
    } else if was_unsaved && !unsaved(v) {
        RifViewerView { editing_rif: None, ..v }
    } else {
        v
    }
}

/// Whether `after` and `r` are what comes of applying the edit that waits in `v`.
pub open spec fn pending_applied(v: RifViewerView, after: RifViewerView, r: Option<StagedView>) -> bool {
    match (v.pending, v.rif_src) {
        (Some(a), Some(src)) => match applied(src, a) {
            Applied::Nothing => after == (RifViewerView { pending: None, ..v }) && r is None,
            Applied::Refused(e) => after == (RifViewerView { pending: None, edit_err: Some(e), ..v })
                && r is None,
            Applied::Staged(s, records, follow) => after == (RifViewerView {
                pending: None,
                rif_src: Some(s),
                ..v
            }) && r == Some(
                StagedView { before: src, records, follow, rif_type: a.target(), was_unsaved: unsaved(v) },
            ),
        },
        _ => after == (RifViewerView { pending: None, ..v }) && r is None,
    }
}

/// The viewer once the edited source was compiled: the edit is kept, or taken back where the
/// source does not compile.
pub open spec fn finished(v: RifViewerView, s: StagedView, compiled: Result<(), Seq<char>>) -> RifViewerView {
    with_owner(
        match compiled {
            Ok(_) => RifViewerView {
                selected: selection_after(v.selected, s.follow),
                edit_err: None,
                editing_rif: owner_after(v.editing_rif, s.follow),
                edits: recorded_all(v.edits, s.records),
                editors: editors_after(v.editors, s.follow),
                ..v
            },
            Err(e) => RifViewerView { rif_src: Some(s.before), edit_err: Some(e), ..v },
        },
        s.was_unsaved,
        s.rif_type,
    )
}

/// An edit that does not compile leaves everything as it was, but for the error: the source, the
/// edits to save, the selection and the editors.
pub proof fn failed_compile_leaves_all_untouched(
    v: RifViewerView,
    mid: RifViewerView,
    s: StagedView,
    e: Seq<char>,
)
    requires
        pending_applied(v, mid, Some(s)),
    ensures
        finished(mid, s, Err(e)) == (RifViewerView { pending: None, edit_err: Some(e), ..v }),
{
}

/// Where there is something to save, it is known which RIF it belongs to, and an edit keeps it
/// so.
pub proof fn edits_have_an_owner(
    v: RifViewerView,
    mid: RifViewerView,
    s: StagedView,
    compiled: Result<(), Seq<char>>,
)
    requires
        unsaved(v) ==> v.editing_rif is Some,
        pending_applied(v, mid, Some(s)),
    ensures
        unsaved(finished(mid, s, compiled)) ==> finished(mid, s, compiled).editing_rif is Some,
{
}

/// Edits stay with the RIF that they were made in: a further edit changes the owner only where
/// it renames it.
pub proof fn owner_stays(
    v: RifViewerView,
    mid: RifViewerView,
    s: StagedView,
    compiled: Result<(), Seq<char>>,
)
    requires
        unsaved(v),
        v.editing_rif is Some,
        pending_applied(v, mid, Some(s)),
        !(s.follow is RifUpdated),
        unsaved(finished(mid, s, compiled)),
    ensures
        finished(mid, s, compiled).editing_rif == v.editing_rif,
{
}

/// The outcome of a compilation.
pub open spec fn outcome_view(r: Result<(), String>) -> Result<(), Seq<char>> {
    match r {
        Ok(_) => Ok(()),
        Err(e) => Err(e@),
    }
}

fn path_ends_with(path: &Vec<String>, name: &String) -> (r: bool)
    ensures
        r == ends_with(path.deep_view(), name@),
{
    let n: usize = path.len();
    if n == 0 {
        return false;
    }
    proof {
        assert(path.deep_view().last() == path@[n - 1]@);
    }
    path[n - 1] == *name
}

fn push_name(path: &mut Vec<String>, name: String)
    ensures
        final(path).deep_view() == old(path).deep_view().push(name@),
{
    path.push(name);
    proof {
        assert(path.deep_view() =~= old(path).deep_view().push(name@));
    }
}

fn pop_name(path: &mut Vec<String>)
    requires
        old(path).deep_view().len() > 0,
    ensures
        final(path).deep_view() == old(path).deep_view().drop_last(),
{
    path.pop();
    proof {
        assert(path.deep_view() =~= old(path).deep_view().drop_last());
    }
}

impl Selection {
    /// Nothing is selected.
    pub fn new() -> (r: Selection)
        ensures
            r@ == (SelectionView { path: seq![], item: SelectedItemView::Nothing, updt: 0 }),
    {
        let r = Selection { path: Vec::new(), item: SelectedItem::Nothing, updt: 0 };
        proof {
            assert(r.path.deep_view() =~= Seq::<Seq<char>>::empty());
        }
        r
    }

    /// Follows an edit.
    pub fn follow(&mut self, f: &Follow)
        ensures
            final(self)@ == selection_after(old(self)@, f@),
    {
        match f {
            Follow::FieldUpdated { orig_name, new_name } => {
                let here = match &self.item {
                    SelectedItem::Field(n) => field_base(n.as_str()) == *orig_name,
                    _ => false,
                };
                if here {
                    self.item = SelectedItem::Field(new_name.clone());
                }
            },
            Follow::FieldAdded { name } => {
                self.item = SelectedItem::Field(name.clone());
            },
            Follow::FieldDeleted => {
                self.item = SelectedItem::Nothing;
            },
            Follow::RegUpdated { orig_name, new_name } => {
                if path_ends_with(&self.path, orig_name) {
                    pop_name(&mut self.path);
                    push_name(&mut self.path, new_name.clone());
                }
            },
            Follow::RegAdded { page_name, name } => {
                if let Some(p) = page_name {
                    if !path_ends_with(&self.path, p) {
                        push_name(&mut self.path, p.clone());
                    }
                }
                push_name(&mut self.path, name.clone());
                self.item = SelectedItem::Nothing;
                self.updt = 1;
            },
            Follow::RegDeleted { name } => {
                if path_ends_with(&self.path, name) {
                    pop_name(&mut self.path);
                    self.item = SelectedItem::Nothing;
                }
            },
            _ => {},
        }
    }
}

fn sync_enum(e: FieldEditor, name: &String) -> (r: FieldEditor)
    ensures
        r@ == with_enum(e@, name@),
{
    let mut e = e;
    if e.buf.enum_mode == EnumMode::Type {
        e.buf.enum_name = name.clone();
        e.enum_type_src = EnumTypeSrc::Existing;
    }
    e
}

/// No editor is open.
pub open spec fn no_editors() -> EditorsView {
    EditorsView {
        field_editor: None,
        enum_editor: None,
        reg_editor: None,
        reg_add_editor: None,
        reg_intr_desc_editor: None,
        field_intr_desc_editor: None,
        reg_override_editor: None,
        field_override_editor: None,
    }
}

impl Editors {
    /// No editor is open.
    pub fn new() -> (r: Editors)
        ensures
            r@ == no_editors(),
    {
        Editors {
            field_editor: None,
            enum_editor: None,
            reg_editor: None,
            reg_add_editor: None,
            reg_intr_desc_editor: None,
            field_intr_desc_editor: None,
            reg_override_editor: None,
            field_override_editor: None,
        }
    }

    /// Follows an edit.
    pub fn follow(&mut self, f: &Follow)
        ensures
            final(self)@ == editors_after(old(self)@, f@),
    {
        match f {
            Follow::FieldUpdated { .. } | Follow::FieldAdded { .. } | Follow::FieldDeleted | Follow::FieldsMoved => {
                self.field_editor = None;
            },
            Follow::EnumUpdated { name } => {
                self.enum_editor = None;
                let open = self.field_editor.take();
                if let Some(fe) = open {
                    self.field_editor = Some(sync_enum(fe, name));
                }
            },
            Follow::RegUpdated { .. } | Follow::RegsMoved | Follow::RegDeleted { .. } => {
                self.reg_editor = None;
            },
            Follow::RegDescribed => {
                self.reg_intr_desc_editor = None;
            },
            Follow::FieldDescribed => {
                self.field_intr_desc_editor = None;
            },
            Follow::RegOverridden => {
                self.reg_override_editor = None;
            },
            Follow::FieldOverridden => {
                self.field_override_editor = None;
            },
            Follow::PageConverted { rif_type, page_name } => {
                let open = self.reg_add_editor.take();
                if let Some(a) = open {
                    let mut a = a;
                    if a.rif_type == *rif_type && a.page_name == *page_name {
                        a.page_is_auto = false;
                    }
                    self.reg_add_editor = Some(a);
                }
            },
            Follow::RegAdded { .. } => {
                self.reg_add_editor = None;
            },
            Follow::RifUpdated { .. } | Follow::RifEdited => {},
        }
    }
}

impl RifViewerView {
    /// The edits to save have one place for each property.
    pub open spec fn wf(self) -> bool {
        self.edits.wf()
    }
}

impl RifViewer {
    /// Whether there is something to save.
    pub fn has_unsaved(&self) -> (r: bool)
        ensures
            r == unsaved(self@),
    {
        if !self.edits.is_empty() {
            return true;
        }
        match &self.rif_src {
            Some(src) => has_new(src),
            None => false,
        }
    }

    /// Applies the edit that waits to the source. What comes back is to be compiled and handed to
    /// [`RifViewer::finish_pending`]; nothing comes back where there was nothing to do or the
    /// edit was refused.
    pub fn apply_pending(&mut self) -> (r: Option<Staged>)
        requires
            old(self)@.pending matches Some(a) ==> applicable(a),
        ensures
            pending_applied(old(self)@, final(self)@, r.deep_view()),
    {
        let was_unsaved = self.has_unsaved();
        let action = match self.pending.take() {
            Some(a) => a,
            None => {
                return None;
            },
        };
        let rif_type = action.rif_type().clone();
        match self.rif_src.take() {
            Some(src) => {
                let before = src.clone();
                let mut src = src;
                let effect = apply_action(&mut src, action);
                self.rif_src = Some(src);
                match effect {
                    Effect::Nothing => None,
                    Effect::Refused(e) => {
                        self.edit_err = Some(e);
                        None
                    },
                    Effect::Staged(records, follow) => {
                        Some(Staged { before, records, follow, rif_type, was_unsaved })
                    },
                }
            },
            None => None,
        }
    }

    /// Keeps an edit that was applied, or takes it back where the source does not compile.
    pub fn finish_pending(&mut self, staged: Staged, compiled: Result<(), String>)
        requires
            old(self)@.wf(),
        ensures
            final(self)@ == finished(old(self)@, staged@, outcome_view(compiled)),
            final(self)@.wf(),
    {
        let Staged { before, records, follow, rif_type, was_unsaved } = staged;
        match compiled {
            Ok(_) => {
                self.edit_err = None;
                self.edits.record_all(records);
                self.selected.follow(&follow);
                self.editors.follow(&follow);
                if let Follow::RifUpdated { new_name: Some(n) } = follow {
                    self.editing_rif = Some(n);
                }
            },
            Err(e) => {
                self.rif_src = Some(before);
                self.edit_err = Some(e);
            },
        }
        self.note_owner(was_unsaved, rif_type);
    }

    fn note_owner(&mut self, was_unsaved: bool, rif_type: String)
        ensures
            final(self)@ == with_owner(old(self)@, was_unsaved, rif_type@),
    {
        let unsaved = self.has_unsaved();
        if !was_unsaved && unsaved {
            if self.editing_rif.is_none() {
                self.editing_rif = Some(rif_type);
            }
        } else if was_unsaved && !unsaved {
            self.editing_rif = None;
        }
    }

    /// Forgets every edit that waits to be saved and closes every editor.
    pub fn clear_pending_edits(&mut self)
        ensures
            final(self)@ == (RifViewerView {
                editing_rif: None,
                edits: no_edits(),
                editors: no_editors(),
                ..old(self)@
            }),
            nothing_pending(final(self)@.edits),
            final(self)@.wf(),
    {
        self.editing_rif = None;
        self.edits = PendingEdits::new();
        self.editors = Editors::new();
        proof {
            no_edits_is_nothing_pending();
        }
    }
}

fn has_new(src: &Source) -> (r: bool)
    ensures
        r == source_has_new(Some(src@)),
{
    let ghost rifs = src.rifs.deep_view();
    let mut k: usize = 0;
    while k < src.rifs.len()
        invariant
            k <= src.rifs@.len(),
            rifs == src.rifs.deep_view(),
            forall|j: int| 0 <= j < k ==> !rif_has_new((#[trigger] rifs[j]).rif),
        decreases src.rifs@.len() - k,
    {
        proof {
            assert(rifs[k as int] == src.rifs@[k as int]@);
        }
        let rif = &src.rifs[k].rif;
        if rif_has_new_fields(rif) || rif_has_new_enum_entries(rif) || rif_has_new_registers(rif)
            || rif_has_new_instances(rif) {
            return true;
        }
        k += 1;
    }
    false
}

} // verus!
