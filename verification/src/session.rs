//! Opening, saving and leaving a RIF, and the questions that the viewer asks.
use vstd::prelude::*;
use crate::action::{EditAction, EditActionView};
use crate::compiled::{FieldInst, ResetInt};
use crate::edits::{no_edits, PendingEdits};
use crate::enum_editor::{opened_rows, EnumEditor, EnumEditorView};
use crate::field_editor::{
    buffers_same, field_built, field_override_built, field_override_unchanged, loaded, loaded_field_override,
    position_fits, reads, text_problem, EnumMode, FieldEditor, FieldEditorView, FieldOverrideEditor,
    FieldOverrideEditorView, FieldReadingsView,
};
use crate::file_io::{save_rif_text, saved_text};
use crate::model::page::FieldOvr;
use crate::model::register::FieldDef;
use crate::model::rif::{EnumType, Source, SourceView, Top, TopView};
use crate::model::values::{IntrOvr, Reset, ResetView};
use crate::number::{byte_value, isize_value, read_byte, read_isize};
use crate::reg_editor::{
    array_change_action, moves_under, reg_override_unchanged, reg_unchanged, RegAddrResolution, RegBuffers,
    RegBuffersView, RegEditor, RegEditorView,
};
use crate::rename::{bare_name, find_path, path_keyed, remove_rif};
use crate::search::first;
use crate::source::{find_rif, locate_rif};
use crate::text::{join, join3, trim, trimmed};
use crate::viewer::{
    no_editors, unsaved, Dialogs, DialogsView, Editors, EditorsView, PendingRifSwitch, PendingRifSwitchView,
    RifViewer, RifViewerView, Selection, SelectionView,
};

verus! {

/// No question waits.
pub open spec fn no_dialogs() -> DialogsView {
    DialogsView {
        confirm_reload: false,
        confirm_switch_rif: None,
        confirm_delete_reg: None,
        confirm_reg_addr_conflict: None,
        confirm_reg_array_change: None,
    }
}

/// Nothing is selected.
pub open spec fn no_selection() -> SelectionView {
    SelectionView { path: seq![], item: crate::viewer::SelectedItemView::Nothing, updt: 0 }
}

/// The viewer before a file is opened.
pub open spec fn fresh_viewer() -> RifViewerView {
    RifViewerView {
        rif_src: None,
        last_err: None,
        selected: no_selection(),
        validated_selection: no_selection(),
        pending: None,
        edit_err: None,
        editing_rif: None,
        edits: no_edits(),
        editors: no_editors(),
        dialogs: no_dialogs(),
    }
}

/// The viewer while a file is opened: whatever belonged to the old one is gone.
pub open spec fn opening(v: RifViewerView) -> RifViewerView {
    let selected = SelectionView { path: seq![], ..v.selected };
    RifViewerView {
        selected,
        validated_selection: selected,
        pending: None,
        edit_err: None,
        editing_rif: None,
        edits: no_edits(),
        editors: no_editors(),
        dialogs: DialogsView {
            confirm_reload: false,
            confirm_switch_rif: None,
            confirm_delete_reg: None,
            confirm_reg_addr_conflict: None,
            ..v.dialogs
        },
        ..v
    }
}

/// What came of opening a file.
#[derive(Debug)]
pub enum Opened {
    /// The source, and the name of the compiled top.
    Compiled(Source, String),
    /// The source, and why it does not compile.
    NotCompiled(Source, String),
    /// Why the file is no source.
    NotParsed(String),
}

/// The viewer once a file was opened.
pub open spec fn opened(v: RifViewerView, o: Opened) -> RifViewerView {
    match o {
        Opened::Compiled(src, name) => RifViewerView {
            rif_src: Some(src@),
            last_err: None,
            selected: SelectionView { path: v.selected.path.push(name@), ..v.selected },
            ..v
        },
        Opened::NotCompiled(src, e) => RifViewerView { rif_src: Some(src@), last_err: Some(e@), ..v },
        Opened::NotParsed(e) => RifViewerView { rif_src: None, last_err: Some(e@), ..v },
    }
}

/// The file of a RIF.
#[derive(Debug)]
pub enum RifFile {
    /// The file that was opened.
    Opened,
    /// A file in a directory.
    In(String),
}

/// The name of the top.
pub open spec fn top_name(t: TopView) -> Option<Seq<char>> {
    match t {
        TopView::Rif(n) => Some(n),
        TopView::Rifmux(n) => Some(n),
        TopView::Empty => None,
    }
}

/// The file of a RIF: the top is in the file that was opened, and any other RIF in a directory
/// that is known under its bare name.
pub open spec fn file_of(src: SourceView, rif_type: Seq<char>) -> Option<Option<Seq<char>>> {
    if top_name(src.top) == Some(rif_type) {
        Some(None)
    } else {
        match first(src.paths, path_keyed(bare_name(rif_type))) {
            Some(k) => Some(Some(src.paths[k].dir)),
            None => None,
        }
    }
}

/// The value of a [`RifFile`]: the directory, where it is not the file that was opened.
pub open spec fn rif_file_view(f: RifFile) -> Option<Seq<char>> {
    match f {
        RifFile::Opened => None,
        RifFile::In(d) => Some(d@),
    }
}

/// Where a RIF is saved, or why it cannot be.
pub open spec fn place_of(v: RifViewerView, rif_type: Seq<char>) -> Result<Option<Seq<char>>, Seq<char>> {
    match v.rif_src {
        None => Err("No source loaded"@),
        Some(src) => if locate_rif(src.rifs, rif_type) is None {
            Err("Unknown RIF '"@ + rif_type + "'"@)
        } else {
            match file_of(src, rif_type) {
                Some(f) => Ok(f),
                None => Err("Could not locate the source file defining '"@ + rif_type + "'"@),
            }
        },
    }
}

/// The text that a RIF is saved as, or why it cannot be.
pub open spec fn text_to_save(v: RifViewerView, rif_type: Seq<char>, content: Seq<char>) -> Result<
    Seq<char>,
    Seq<char>,
> {
    match v.rif_src {
        None => Err("No source loaded"@),
        Some(src) => match locate_rif(src.rifs, rif_type) {
            None => Err("Unknown RIF '"@ + rif_type + "'"@),
            Some(k) => Ok(saved_text(src.rifs[k].rif, v.edits, content)),
        },
    }
}

/// Whether something must be put right before edits can be saved.
pub open spec fn save_blocked(v: RifViewerView) -> bool {
    ||| v.dialogs.confirm_reg_addr_conflict is Some
    ||| v.editors.field_editor matches Some(e) && e.parse_err is Some
    ||| v.editors.reg_editor matches Some(e) && e.parse_err is Some
    ||| v.editors.reg_override_editor matches Some(e) && e.parse_err is Some
    ||| v.editors.field_override_editor matches Some(e) && e.parse_err is Some
}

/// What came of reading a file again after it was saved.
#[derive(Debug)]
pub enum Reread {
    /// The source.
    Compiled(Source),
    /// Why it does not compile.
    NotCompiled(String),
    /// Why the file is no source.
    NotParsed(String),
}

/// The viewer without any edits.
pub open spec fn cleared(v: RifViewerView) -> RifViewerView {
    RifViewerView { editing_rif: None, edits: no_edits(), editors: no_editors(), ..v }
}

/// The viewer once a file was saved and read again.
pub open spec fn saved(v: RifViewerView, r: Reread) -> RifViewerView {
    match r {
        Reread::Compiled(src) => RifViewerView { rif_src: Some(src@), edit_err: None, ..cleared(v) },
        Reread::NotCompiled(e) => RifViewerView {
            edit_err: Some("Saved, but recompile failed: "@ + e@),
            ..cleared(v)
        },
        Reread::NotParsed(e) => RifViewerView {
            edit_err: Some("Saved, but re-parse failed: "@ + e@),
            ..cleared(v)
        },
    }
}

/// The RIF of the first editor whose buffers were changed.
pub open spec fn changed_editor(e: EditorsView) -> Option<Seq<char>> {
    if e.reg_editor is Some && !reg_unchanged(e.reg_editor->0) {
        Some(e.reg_editor->0.rif_type)
    } else if e.field_editor is Some && !buffers_same(e.field_editor->0.buf, e.field_editor->0.orig) {
        Some(e.field_editor->0.rif_type)
    } else if e.reg_override_editor is Some && !reg_override_unchanged(e.reg_override_editor->0) {
        Some(e.reg_override_editor->0.rif_type)
    } else if e.field_override_editor is Some && !field_override_unchanged(e.field_override_editor->0) {
        Some(e.field_override_editor->0.rif_type)
    } else if e.reg_intr_desc_editor is Some && e.reg_intr_desc_editor->0.desc
        != e.reg_intr_desc_editor->0.desc_orig {
        Some(e.reg_intr_desc_editor->0.rif_type)
    } else if e.field_intr_desc_editor is Some && e.field_intr_desc_editor->0.desc
        != e.field_intr_desc_editor->0.desc_orig {
        Some(e.field_intr_desc_editor->0.rif_type)
    } else {
        None
    }
}

/// The RIF that has edits, saved in the source or still in an editor.
pub open spec fn edit_owner(v: RifViewerView) -> Option<Seq<char>> {
    match v.editing_rif {
        Some(n) => Some(n),
        None => changed_editor(v.editors),
    }
}

/// The viewer after the user went to `attempted` from `current`. Where another RIF has edits,
/// the user stays and is asked first.
pub open spec fn guarded(v: RifViewerView, attempted: Seq<char>, current: Seq<char>) -> RifViewerView {
    if attempted == current {
        v
    } else {
        match edit_owner(v) {
            Some(owner) if owner != attempted => RifViewerView {
                dialogs: DialogsView {
                    confirm_switch_rif: Some(
                        PendingRifSwitchView { target: v.selected, from_rif: owner },
                    ),
                    ..v.dialogs
                },
                selected: v.validated_selection,
                ..v
            },
            _ => RifViewerView { validated_selection: v.selected, ..v },
        }
    }
}

/// A user who has edits in one RIF does not get to another one without being asked.
pub proof fn edits_are_not_left_behind(v: RifViewerView, attempted: Seq<char>, current: Seq<char>)
    requires
        attempted != current,
        edit_owner(v) is Some,
        edit_owner(v)->0 != attempted,
    ensures
        guarded(v, attempted, current).selected == v.validated_selection,
        guarded(v, attempted, current).dialogs.confirm_switch_rif is Some,
        guarded(v, attempted, current).dialogs.confirm_switch_rif->0.target == v.selected,
        guarded(v, attempted, current).edits == v.edits,
        guarded(v, attempted, current).rif_src == v.rif_src,
{
}

/// The answer about edits that would be left behind.
#[derive(Clone, Copy, Debug, PartialEq, Eq, Structural)]
pub enum SwitchAnswer {
    /// The edits were saved, as far as that was possible.
    Saved,
    /// The edits go.
    Discard,
    /// The user stays.
    Cancel,
}

/// The viewer that shows where the user wanted to go.
pub open spec fn switched(v: RifViewerView, target: SelectionView) -> RifViewerView {
    RifViewerView {
        selected: target,
        validated_selection: target,
        dialogs: DialogsView { confirm_switch_rif: None, ..v.dialogs },
        ..v
    }
}

/// The viewer after the answer. Edits that could not be saved keep the question open.
pub open spec fn answered(v: RifViewerView, a: SwitchAnswer) -> RifViewerView {
    match v.dialogs.confirm_switch_rif {
        None => v,
        Some(s) => match a {
            SwitchAnswer::Saved => if unsaved(v) {
                v
            } else {
                switched(v, s.target)
            },
            SwitchAnswer::Discard => switched(cleared(v), s.target),
            SwitchAnswer::Cancel => RifViewerView {
                dialogs: DialogsView { confirm_switch_rif: None, ..v.dialogs },
                ..v
            },
        },
    }
}

/// What the editor of a field makes of its buffers.
pub open spec fn field_flushed(e: FieldEditorView, after: FieldEditorView, action: Option<EditActionView>) -> bool {
    exists|r: FieldReadingsView| #[trigger] reads(e, r) && field_built(e, r, after, action)
}

/// An edit, where there is one; otherwise the edit that was there.
pub open spec fn or_else(a: Option<EditActionView>, b: Option<EditActionView>) -> Option<EditActionView> {
    match a {
        Some(x) => Some(x),
        None => b,
    }
}

/// Whether the editor of a field can be asked for its edit.
pub open spec fn can_build(e: FieldEditorView) -> bool {
    text_problem(e) is None ==> position_fits(e)
}

/// The buffer of the address as it was loaded.
pub open spec fn addr_reset(e: RegEditorView) -> RegEditorView {
    RegEditorView { buf: RegBuffersView { addr: e.orig.addr, ..e.buf }, ..e }
}

/// The buffers of the array sizes as they were loaded.
pub open spec fn array_reset(e: RegEditorView) -> RegEditorView {
    RegEditorView {
        buf: RegBuffersView { array: e.orig.array, inst_array: e.orig.inst_array, ..e.buf },
        ..e
    }
}

/// The name of the enum that the editor of a field leads to.
pub open spec fn candidate_enum(e: FieldEditorView) -> Option<Seq<char>> {
    match e.buf.enum_mode {
        EnumMode::Plain => None,
        EnumMode::Doc => Some("doc:"@ + e.group_type + "_"@ + trimmed(e.buf.name)),
        EnumMode::Type => Some(
            if trimmed(e.buf.enum_name).len() == 0 {
                "e_"@ + e.group_type + "_"@ + trimmed(e.buf.name)
            } else {
                trimmed(e.buf.enum_name)
            },
        ),
    }
}

impl FieldEditor {
    /// Whether the buffers stand for an array.
    pub fn is_array(&self) -> (r: bool)
        ensures
            r == (byte_value(trimmed(self@.buf.array)) matches Some(n) && n > 0),
    {
        match read_byte(trim(self.buf.array.as_str()).as_str()) {
            Some(n) => n > 0,
            None => false,
        }
    }

    /// The name of the enum that the buffers lead to.
    pub fn enum_candidate(&self) -> (r: Option<String>)
        ensures
            r.deep_view() == candidate_enum(self@),
    {
        let name = trim(self.buf.name.as_str());
        match self.buf.enum_mode {
            EnumMode::Plain => None,
            EnumMode::Doc => Some(join(join3("doc:", self.group_type.as_str(), "_").as_str(), name.as_str())),
            EnumMode::Type => {
                let own = trim(self.buf.enum_name.as_str());
                if own.as_str().is_empty() {
                    Some(join(join3("e_", self.group_type.as_str(), "_").as_str(), name.as_str()))
                } else {
                    Some(own)
                }
            },
        }
    }

    /// Opens the table of the enum that the buffers lead to.
    pub fn open_enum(&self, enum_defs: &Vec<EnumType>) -> (r: Option<EnumEditor>)
        ensures
            match candidate_enum(self@) {
                Some(name) => r is Some && r->0@ == (EnumEditorView {
                    rif_type: self@.rif_type,
                    name,
                    orig_name: name,
                    rows: opened_rows(enum_defs.deep_view(), name),
                    has_frac: isize_value(trimmed(self@.buf.nb_frac)) matches Some(n) && n > 0,
                    width: match byte_value(trimmed(self@.buf.width)) {
                        Some(w) => w,
                        None => 1,
                    },
                    parse_err: None,
                }),
                None => r is None,
            },
    {
        let width: u8 = match read_byte(trim(self.buf.width.as_str()).as_str()) {
            Some(w) => w,
            None => 1,
        };
        let has_frac = match read_isize(trim(self.buf.nb_frac.as_str()).as_str()) {
            Some(n) => n > 0,
            None => false,
        };
        match self.enum_candidate() {
            Some(name) => Some(EnumEditor::open(self.rif_type.as_str(), name, enum_defs, has_frac, width)),
            None => None,
        }
    }

    /// The edit that deletes the field.
    pub fn delete_action(&self) -> (r: EditAction)
        ensures
            r@ == (EditActionView::DeleteField {
                rif_type: self@.rif_type,
                reg_type: self@.key.0,
                field_name: self@.key.1,
            }),
    {
        EditAction::DeleteField {
            rif_type: self.rif_type.clone(),
            reg_type: self.key.0.clone(),
            field_name: self.key.1.clone(),
        }
    }
}

impl RegEditor {
    /// The editor with the address as it was loaded.
    pub fn reset_addr(self) -> (r: Self)
        ensures
            r@ == addr_reset(self@),
    {
        let addr = self.orig.addr.clone();
        RegEditor { buf: RegBuffers { addr, ..self.buf }, ..self }
    }

    /// The editor with the array sizes as they were loaded.
    pub fn reset_array(self) -> (r: Self)
        ensures
            r@ == array_reset(self@),
    {
        let array = self.orig.array.clone();
        let inst_array = self.orig.inst_array.clone();
        RegEditor { buf: RegBuffers { array, inst_array, ..self.buf }, ..self }
    }
}

impl Dialogs {
    /// No question waits.
    pub fn new() -> (r: Dialogs)
        ensures
            r@ == no_dialogs(),
    {
        Dialogs {
            confirm_reload: false,
            confirm_switch_rif: None,
            confirm_delete_reg: None,
            confirm_reg_addr_conflict: None,
            confirm_reg_array_change: None,
        }
    }
}

impl Editors {
    /// The RIF of the first editor whose buffers were changed.
    pub fn changed_owner(&self) -> (r: Option<String>)
        ensures
            r.deep_view() == changed_editor(self@),
    {
        if let Some(e) = &self.reg_editor {
            if !e.is_unchanged() {
                return Some(e.rif_type.clone());
            }
        }
        if let Some(e) = &self.field_editor {
            if !e.is_unchanged() {
                return Some(e.rif_type.clone());
            }
        }
        if let Some(e) = &self.reg_override_editor {
            if !e.is_unchanged() {
                return Some(e.rif_type.clone());
            }
        }
        if let Some(e) = &self.field_override_editor {
            if !e.is_unchanged() {
                return Some(e.rif_type.clone());
            }
        }
        if let Some(e) = &self.reg_intr_desc_editor {
            if !e.is_unchanged() {
                return Some(e.rif_type.clone());
            }
        }
        if let Some(e) = &self.field_intr_desc_editor {
            if !e.is_unchanged() {
                return Some(e.rif_type.clone());
            }
        }
        None
    }

    /// Shows a field. The edit of another field that was left in the editor comes back first;
    /// otherwise the field is loaded.
    pub fn show_field(
        &mut self,
        key: (String, String),
        f: &FieldInst,
        def: &FieldDef,
        enum_defs: &Vec<EnumType>,
        rif_type: &str,
        group_type: &str,
        reg_intr_default: Option<IntrOvr>,
    ) -> (r: Option<EditAction>)
        requires
            old(self)@.field_editor matches Some(e) ==> e.key != key.deep_view() && !buffers_same(
                e.buf,
                e.orig,
            ) ==> can_build(e),
        ensures
            final(self)@ == (EditorsView { field_editor: final(self)@.field_editor, ..old(self)@ }),
            final(self)@.field_editor is Some,
            ({
                let after = final(self)@.field_editor->0;
                let fresh = loaded(
                    after,
                    key.deep_view(),
                    f@,
                    def@,
                    enum_defs.deep_view(),
                    rif_type@,
                    group_type@,
                    reg_intr_default,
                );
                match old(self)@.field_editor {
                    Some(e) => if e.key == key.deep_view() {
                        r is None && after == e
                    } else if buffers_same(e.buf, e.orig) {
                        r is None && fresh
                    } else {
                        exists|asked: FieldEditorView, action: Option<EditActionView>| #[trigger]
                            field_flushed(e, asked, action) && r.deep_view() == action && if action is Some {
                                after == asked
                            } else {
                                fresh
                            }
                    },
                    None => r is None && fresh,
                }
            }),
    {
        let open = self.field_editor.take();
        if let Some(e) = open {
            let mut e = e;
            if e.key.0 == key.0 && e.key.1 == key.1 {
                self.field_editor = Some(e);
                return None;
            }
            if !e.is_unchanged() {
                let ghost before = e@;
                let action = e.build_action();
                proof {
                    assert(field_flushed(before, e@, action.deep_view()));
                }
                if let Some(a) = action {
                    self.field_editor = Some(e);
                    return Some(a);
                }
            }
        }
        self.field_editor =
        Some(FieldEditor::from_field(key, f, def, enum_defs, rif_type, group_type, reg_intr_default));
        None
    }

    /// Shows what an instance overrides for one field. The edit of another one that was left in
    /// the editor comes back first; otherwise the overrides are loaded.
    pub fn show_field_override(
        &mut self,
        rif_type: &str,
        inst_name: &String,
        field: &FieldInst,
        ovr: Option<&FieldOvr>,
    ) -> (r: Option<EditAction>)
        ensures
            final(self)@ == (EditorsView {
                field_override_editor: final(self)@.field_override_editor,
                ..old(self)@
            }),
            final(self)@.field_override_editor is Some,
            ({
                let after = final(self)@.field_override_editor->0;
                let fresh = loaded_field_override(
                    rif_type@,
                    inst_name@,
                    field@.name,
                    match ovr {
                        Some(o) => Some(o@),
                        None => None,
                    },
                    own_reset(field@.reset),
                );
                match old(self)@.field_override_editor {
                    Some(e) => if e.inst_name == inst_name@ && e.field_name == field@.name {
                        r is None && after == e
                    } else if field_override_unchanged(e) {
                        r is None && after == fresh
                    } else if r is Some {
                        field_override_built(e, after, r.deep_view())
                    } else {
                        after == fresh && exists|asked: FieldOverrideEditorView| #[trigger]
                            field_override_built(e, asked, None)
                    },
                    None => r is None && after == fresh,
                }
            }),
    {
        let open = self.field_override_editor.take();
        if let Some(e) = open {
            let mut e = e;
            if e.inst_name == *inst_name && e.field_name == field.name {
                self.field_override_editor = Some(e);
                return None;
            }
            if !e.is_unchanged() {
                let ghost before = e@;
                let action = e.build_action();
                proof {
                    assert(field_override_built(before, e@, action.deep_view()));
                }
                if let Some(a) = action {
                    self.field_override_editor = Some(e);
                    return Some(a);
                }
            }
        }
        let reset = match field.reset {
            ResetInt::Unsigned(v) => Reset::Unsigned(v),
            ResetInt::Signed(v) => Reset::Signed(v),
        };
        self.field_override_editor =
        Some(
            FieldOverrideEditor::from_field_override(
                rif_type,
                inst_name.as_str(),
                field.name.as_str(),
                ovr,
                reset,
            ),
        );
        None
    }
}

/// The reset value of a compiled field.
pub open spec fn own_reset(r: ResetInt) -> ResetView {
    match r {
        ResetInt::Unsigned(v) => ResetView::Unsigned(v),
        ResetInt::Signed(v) => ResetView::Signed(v),
    }
}

impl RifViewer {
    /// The viewer before a file is opened.
    pub fn new() -> (r: RifViewer)
        ensures
            r@ == fresh_viewer(),
            r@.wf(),
    {
        RifViewer {
            rif_src: None,
            last_err: None,
            selected: Selection::new(),
            validated_selection: Selection::new(),
            pending: None,
            edit_err: None,
            editing_rif: None,
            edits: PendingEdits::new(),
            editors: Editors::new(),
            dialogs: Dialogs::new(),
        }
    }

    /// Starts to open a file.
    pub fn start_open(&mut self)
        ensures
            final(self)@ == opening(old(self)@),
            final(self)@.wf(),
    {
        self.selected.path = Vec::new();
        proof {
            assert(self.selected.path.deep_view() =~= Seq::<Seq<char>>::empty());
        }
        self.validated_selection = self.selected.clone();
        self.pending = None;
        self.edit_err = None;
        self.dialogs.confirm_delete_reg = None;
        self.dialogs.confirm_reg_addr_conflict = None;
        self.dialogs.confirm_switch_rif = None;
        self.clear_pending_edits();
        self.dialogs.confirm_reload = false;
    }

    /// Shows a file that was opened.
    pub fn finish_open(&mut self, o: Opened)
        ensures
            final(self)@ == opened(old(self)@, o),
    {
        match o {
            Opened::Compiled(src, name) => {
                let ghost path = self.selected.path.deep_view();
                self.selected.path.push(name);
                proof {
                    assert(self.selected.path.deep_view() =~= path.push(name@));
                }
                self.last_err = None;
                self.rif_src = Some(src);
            },
            Opened::NotCompiled(src, e) => {
                self.last_err = Some(e);
                self.rif_src = Some(src);
            },
            Opened::NotParsed(e) => {
                self.rif_src = None;
                self.last_err = Some(e);
            },
        }
    }

    /// Whether the file is to be read again at once. Where there are edits, the user is asked
    /// first.
    pub fn request_reload(&mut self) -> (r: bool)
        ensures
            r == !unsaved(old(self)@),
            final(self)@ == (if unsaved(old(self)@) {
                RifViewerView {
                    dialogs: DialogsView { confirm_reload: true, ..old(self)@.dialogs },
                    ..old(self)@
                }
            } else {
                old(self)@
            }),
    {
        if self.has_unsaved() {
            self.dialogs.confirm_reload = true;
            false
        } else {
            true
        }
    }

    /// The file of a RIF.
    pub fn resolve_rif_file(&self, rif_type: &String) -> (r: Option<RifFile>)
        ensures
            match self@.rif_src {
                Some(src) => match file_of(src, rif_type@) {
                    Some(f) => r is Some && rif_file_view(r->0) == f,
                    None => r is None,
                },
                None => r is None,
            },
    {
        let src = match &self.rif_src {
            Some(s) => s,
            None => {
                return None;
            },
        };
        let is_top = match &src.top {
            Top::Rif(n) => *n == *rif_type,
            Top::Rifmux(n) => *n == *rif_type,
            Top::Empty => false,
        };
        if is_top {
            return Some(RifFile::Opened);
        }
        let key = remove_rif(rif_type.as_str());
        match find_path(&src.paths, &key) {
            Some(k) => {
                proof {
                    assert(src@.paths[k as int] == src.paths@[k as int]@);
                }
                Some(RifFile::In(src.paths[k].dir.clone()))
            },
            None => None,
        }
    }

    /// Where a RIF is saved, or why it cannot be.
    pub fn save_place(&self, rif_type: &String) -> (r: Result<RifFile, String>)
        ensures
            match place_of(self@, rif_type@) {
                Ok(f) => r is Ok && rif_file_view(r->Ok_0) == f,
                Err(t) => r is Err && r->Err_0@ == t,
            },
    {
        match &self.rif_src {
            None => Err("No source loaded".to_owned()),
            Some(src) => {
                if find_rif(&src.rifs, rif_type).is_none() {
                    return Err(join3("Unknown RIF '", rif_type.as_str(), "'"));
                }
                match self.resolve_rif_file(rif_type) {
                    Some(f) => Ok(f),
                    None => Err(
                        join3("Could not locate the source file defining '", rif_type.as_str(), "'"),
                    ),
                }
            },
        }
    }

    /// The text that the file of a RIF is to have, given the text that it has.
    pub fn save_rif_file(&self, rif_type: &String, content: &str) -> (r: Result<String, String>)
        requires
            self@.wf(),
        ensures
            match text_to_save(self@, rif_type@, content@) {
                Ok(t) => r is Ok && r->Ok_0@ == t,
                Err(t) => r is Err && r->Err_0@ == t,
            },
    {
        match &self.rif_src {
            None => Err("No source loaded".to_owned()),
            Some(src) => match find_rif(&src.rifs, rif_type) {
                Some(k) => {
                    proof {
                        assert(src@.rifs[k as int] == src.rifs@[k as int]@);
                    }
                    Ok(save_rif_text(&src.rifs[k].rif, &self.edits, content))
                },
                None => Err(join3("Unknown RIF '", rif_type.as_str(), "'")),
            },
        }
    }

    fn is_save_blocked(&self) -> (r: bool)
        ensures
            r == save_blocked(self@),
    {
        let field = match &self.editors.field_editor {
            Some(e) => e.parse_err.is_some(),
            None => false,
        };
        let reg = match &self.editors.reg_editor {
            Some(e) => e.parse_err.is_some(),
            None => false,
        };
        let reg_override = match &self.editors.reg_override_editor {
            Some(e) => e.parse_err.is_some(),
            None => false,
        };
        let field_override = match &self.editors.field_override_editor {
            Some(e) => e.parse_err.is_some(),
            None => false,
        };
        self.dialogs.confirm_reg_addr_conflict.is_some() || field || reg || reg_override || field_override
    }

    /// The RIF that is to be saved; `None` where there is none, or something must be put right
    /// first.
    pub fn save_target(&mut self) -> (r: Option<String>)
        ensures
            if save_blocked(old(self)@) || !unsaved(old(self)@) {
                r is None && final(self)@ == old(self)@
            } else {
                match old(self)@.editing_rif {
                    Some(n) => r is Some && r->0@ == n && final(self)@ == old(self)@,
                    None => r is None && final(self)@ == (RifViewerView {
                        edit_err: Some(
                            "Internal error: unsaved edits are pending but no RIF is tracked as being edited"@,
                        ),
                        ..old(self)@
                    }),
                }
            },
    {
        if self.is_save_blocked() || !self.has_unsaved() {
            return None;
        }
        match &self.editing_rif {
            Some(n) => Some(n.clone()),
            None => {
                self.edit_err =
                Some(
                    "Internal error: unsaved edits are pending but no RIF is tracked as being edited".to_owned(),
                );
                None
            },
        }
    }

    /// Shows why the file could not be written. Everything else stays as it was, the edits that wait
    /// among it.
    pub fn fail_save(&mut self, e: String)
        ensures
            final(self)@ == (RifViewerView { edit_err: Some(e@), ..old(self)@ }),
            old(self)@.wf() ==> final(self)@.wf(),
    {
        self.edit_err = Some(e);
    }

    /// Forgets the edits that were saved, and shows what was read again.
    pub fn finish_save(&mut self, r: Reread)
        ensures
            final(self)@ == saved(old(self)@, r),
            final(self)@.wf(),
    {
        self.clear_pending_edits();
        match r {
            Reread::Compiled(src) => {
                self.rif_src = Some(src);
                self.edit_err = None;
            },
            Reread::NotCompiled(e) => {
                self.edit_err = Some(join("Saved, but recompile failed: ", e.as_str()));
            },
            Reread::NotParsed(e) => {
                self.edit_err = Some(join("Saved, but re-parse failed: ", e.as_str()));
            },
        }
    }

    /// The RIF that has edits, saved in the source or still in an editor.
    pub fn pending_edit_owner(&self) -> (r: Option<String>)
        ensures
            r.deep_view() == edit_owner(self@),
    {
        match &self.editing_rif {
            Some(n) => Some(n.clone()),
            None => self.editors.changed_owner(),
        }
    }

    /// Keeps the user from leaving edits behind: `attempted` is the RIF that is selected now,
    /// `current` the one that was selected before.
    pub fn guard_switch(&mut self, attempted: &String, current: &String)
        ensures
            final(self)@ == guarded(old(self)@, attempted@, current@),
    {
        if *attempted == *current {
            return;
        }
        let owner = self.pending_edit_owner();
        let leave: Option<String> = match owner {
            Some(o) => if o != *attempted {
                Some(o)
            } else {
                None
            },
            None => None,
        };
        match leave {
            Some(o) => {
                let target = self.selected.clone();
                self.dialogs.confirm_switch_rif = Some(PendingRifSwitch { target, from_rif: o });
                self.selected = self.validated_selection.clone();
            },
            None => {
                self.validated_selection = self.selected.clone();
            },
        }
    }

    /// Answers the question about edits that would be left behind.
    pub fn answer_switch(&mut self, a: SwitchAnswer)
        ensures
            final(self)@ == answered(old(self)@, a),
    {
        let target = match &self.dialogs.confirm_switch_rif {
            Some(s) => s.target.clone(),
            None => {
                return;
            },
        };
        match a {
            SwitchAnswer::Saved => {
                if self.has_unsaved() {
                    return;
                }
                self.selected = target.clone();
                self.validated_selection = target;
            },
            SwitchAnswer::Discard => {
                self.clear_pending_edits();
                self.selected = target.clone();
                self.validated_selection = target;
            },
            SwitchAnswer::Cancel => {},
        }
        self.dialogs.confirm_switch_rif = None;
    }

    /// Answers whether a register is to be deleted.
    pub fn answer_delete(&mut self, yes: bool)
        ensures
            final(self)@ == (RifViewerView {
                pending: match old(self)@.dialogs.confirm_delete_reg {
                    Some(p) if yes => Some(
                        EditActionView::DeleteRegister {
                            rif_type: p.rif_type,
                            page_name: p.page_name,
                            reg_type: p.reg_type,
                            inst_name: p.inst_name,
                        },
                    ),
                    _ => old(self)@.pending,
                },
                dialogs: DialogsView { confirm_delete_reg: None, ..old(self)@.dialogs },
                ..old(self)@
            }),
    {
        let open = self.dialogs.confirm_delete_reg.take();
        if let Some(p) = open {
            if yes {
                self.pending = Some(p.confirm());
            }
        }
    }

    /// Resolves an address that another register has, in a way that was offered; `None` takes
    /// the address back.
    pub fn answer_conflict(&mut self, how: Option<RegAddrResolution>)
        requires
            old(self)@.dialogs.confirm_reg_addr_conflict matches Some(c) ==> how matches Some(h)
                ==> moves_under(c, h) is Some,
        ensures
            final(self)@.dialogs == (DialogsView {
                confirm_reg_addr_conflict: None,
                ..old(self)@.dialogs
            }),
            match (old(self)@.dialogs.confirm_reg_addr_conflict, how) {
                (Some(c), Some(h)) => final(self)@ == (RifViewerView {
                    pending: Some(
                        EditActionView::UpdateRegDefWithMoves {
                            rif_type: c.rif_type,
                            orig_name: c.orig_name,
                            inst_name: c.inst_name,
                            vals: c.vals,
                            companions: moves_under(c, h)->0,
                        },
                    ),
                    dialogs: final(self)@.dialogs,
                    ..old(self)@
                }),
                (Some(_), None) => final(self)@ == (RifViewerView {
                    editors: EditorsView {
                        reg_editor: match old(self)@.editors.reg_editor {
                            Some(e) => Some(addr_reset(e)),
                            None => None,
                        },
                        ..old(self)@.editors
                    },
                    dialogs: final(self)@.dialogs,
                    ..old(self)@
                }),
                (None, _) => final(self)@ == old(self)@,
            },
    {
        let open = self.dialogs.confirm_reg_addr_conflict.take();
        if let Some(c) = open {
            match how {
                Some(h) => {
                    let action = c.resolve(h);
                    self.pending = action;
                },
                None => {
                    let editor = self.editors.reg_editor.take();
                    if let Some(e) = editor {
                        self.editors.reg_editor = Some(e.reset_addr());
                    }
                },
            }
        }
    }

    /// Answers whether an array size is to be changed; where not, it is taken back.
    pub fn answer_array(&mut self, yes: bool)
        ensures
            final(self)@.dialogs == (DialogsView {
                confirm_reg_array_change: None,
                ..old(self)@.dialogs
            }),
            match old(self)@.dialogs.confirm_reg_array_change {
                Some(c) => if yes {
                    final(self)@ == (RifViewerView {
                        pending: Some(array_change_action(c)),
                        dialogs: final(self)@.dialogs,
                        ..old(self)@
                    })
                } else {
                    final(self)@ == (RifViewerView {
                        editors: EditorsView {
                            reg_editor: match old(self)@.editors.reg_editor {
                                Some(e) => Some(array_reset(e)),
                                None => None,
                            },
                            ..old(self)@.editors
                        },
                        dialogs: final(self)@.dialogs,
                        ..old(self)@
                    })
                },
                None => final(self)@ == old(self)@,
            },
    {
        let open = self.dialogs.confirm_reg_array_change.take();
        if let Some(c) = open {
            if yes {
                self.pending = Some(c.confirm());
            } else {
                let editor = self.editors.reg_editor.take();
                if let Some(e) = editor {
                    self.editors.reg_editor = Some(e.reset_array());
                }
            }
        }
    }

    /// Makes the edit that was left in the editor of a field, where there is one, the one to
    /// apply.
    pub fn flush_field_editor(&mut self) -> (r: bool)
        requires
            old(self)@.editors.field_editor matches Some(e) ==> !buffers_same(e.buf, e.orig) ==> can_build(
                e,
            ),
        ensures
            match old(self)@.editors.field_editor {
                Some(e) if !buffers_same(e.buf, e.orig) => exists|
                    after: FieldEditorView,
                    action: Option<EditActionView>,
                | #[trigger]
                    field_flushed(e, after, action) && r == (action is Some) && final(self)@ == (
                    RifViewerView {
                        editors: EditorsView { field_editor: Some(after), ..old(self)@.editors },
                        pending: or_else(action, old(self)@.pending),
                        ..old(self)@
                    }),
                _ => !r && final(self)@ == old(self)@,
            },
    {
        let open = self.editors.field_editor.take();
        match open {
            Some(e) => {
                let mut e = e;
                if e.is_unchanged() {
                    self.editors.field_editor = Some(e);
                    return false;
                }
                let ghost before = e@;
                let action = e.build_action();
                proof {
                    assert(field_flushed(before, e@, action.deep_view()));
                }
                self.editors.field_editor = Some(e);
                match action {
                    Some(a) => {
                        self.pending = Some(a);
                        true
                    },
                    None => false,
                }
            },
            None => false,
        }
    }

    /// Makes the edit that was left in the editor of what is overridden for a field, where there
    /// is one, the one to apply.
    pub fn flush_field_override_editor(&mut self) -> (r: bool)
        ensures
            match old(self)@.editors.field_override_editor {
                Some(e) if !field_override_unchanged(e) => exists|
                    after: FieldOverrideEditorView,
                    action: Option<EditActionView>,
                | #[trigger]
                    field_override_built(e, after, action) && r == (action is Some) && final(self)@ == (
                    RifViewerView {
                        editors: EditorsView {
                            field_override_editor: Some(after),
                            ..old(self)@.editors
                        },
                        pending: or_else(action, old(self)@.pending),
                        ..old(self)@
                    }),
                _ => !r && final(self)@ == old(self)@,
            },
    {
        let open = self.editors.field_override_editor.take();
        match open {
            Some(e) => {
                let mut e = e;
                if e.is_unchanged() {
                    self.editors.field_override_editor = Some(e);
                    return false;
                }
                let ghost before = e@;
                let action = e.build_action();
                proof {
                    assert(field_override_built(before, e@, action.deep_view()));
                }
                self.editors.field_override_editor = Some(e);
                match action {
                    Some(a) => {
                        self.pending = Some(a);
                        true
                    },
                    None => false,
                }
            },
            None => false,
        }
    }
}

} // verus!
