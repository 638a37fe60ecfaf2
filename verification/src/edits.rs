//! Edits that wait to be written back to the file.
use vstd::prelude::*;
use std::collections::{HashMap, HashSet};
use crate::lines::push_line;
use crate::model::props::{FieldOverrideProp, FieldProp, RegOverrideProp, RegProp, RifProp};
use crate::model::values::IntrKind;

verus! {

/// A line that lists one signal for each clock of a RIF.
#[derive(Clone, Copy, Debug, PartialEq, Eq, Structural, Hash)]
pub enum RifClockLineKind {
    SwClock,
    HwClock,
    SwClkEn,
    HwClkEn,
    SwClear,
    HwClear,
}

/// What happens to the line of a property.
#[derive(Debug)]
pub enum LineEdit {
    /// The line stays as it is.
    Keep,
    /// The line goes.
    Remove,
    /// The line is written, without its indentation.
    Write(String),
}

/// The value of a [`LineEdit`].
pub enum LineEditView {
    Keep,
    Remove,
    Write(Seq<char>),
}

impl DeepView for LineEdit {
    type V = LineEditView;

    open spec fn deep_view(&self) -> LineEditView {
        match self {
            LineEdit::Keep => LineEditView::Keep,
            LineEdit::Remove => LineEditView::Remove,
            LineEdit::Write(a) => LineEditView::Write(a.deep_view()),
        }
    }
}

impl View for LineEdit {
    type V = LineEditView;

    open spec fn view(&self) -> LineEditView {
        self.deep_view()
    }
}

impl Clone for LineEdit {
    fn clone(&self) -> (r: Self)
        ensures
            r@ == self@,
    {
        match self {
            LineEdit::Keep => LineEdit::Keep,
            LineEdit::Remove => LineEdit::Remove,
            LineEdit::Write(a) => LineEdit::Write(a.clone()),
        }
    }
}

/// What happens to a description block.
#[derive(Debug)]
pub enum BlockEdit {
    /// The block goes.
    Remove,
    /// The block is written, without its indentation.
    Write(Vec<String>),
}

/// The value of a [`BlockEdit`].
pub enum BlockEditView {
    Remove,
    Write(Seq<Seq<char>>),
}

impl DeepView for BlockEdit {
    type V = BlockEditView;

    open spec fn deep_view(&self) -> BlockEditView {
        match self {
            BlockEdit::Remove => BlockEditView::Remove,
            BlockEdit::Write(a) => BlockEditView::Write(a.deep_view()),
        }
    }
}

impl View for BlockEdit {
    type V = BlockEditView;

    open spec fn view(&self) -> BlockEditView {
        self.deep_view()
    }
}

impl Clone for BlockEdit {
    fn clone(&self) -> (r: Self)
        ensures
            r@ == self@,
    {
        match self {
            BlockEdit::Remove => BlockEdit::Remove,
            BlockEdit::Write(a) => BlockEdit::Write(a.clone()),
        }
    }
}

/// Edits of what an instance overrides for one field.
#[derive(Debug)]
pub struct FieldOvrEdit {
    /// Name of the field.
    pub field: String,
    /// Description line.
    pub desc: LineEdit,
    /// Reset or disable line.
    pub reset: LineEdit,
}

/// The value of a [`FieldOvrEdit`].
pub struct FieldOvrEditView {
    pub field: Seq<char>,
    pub desc: LineEditView,
    pub reset: LineEditView,
}

impl DeepView for FieldOvrEdit {
    type V = FieldOvrEditView;

    open spec fn deep_view(&self) -> FieldOvrEditView {
        FieldOvrEditView {
            field: self.field.deep_view(),
            desc: self.desc.deep_view(),
            reset: self.reset.deep_view(),
        }
    }
}

impl View for FieldOvrEdit {
    type V = FieldOvrEditView;

    open spec fn view(&self) -> FieldOvrEditView {
        self.deep_view()
    }
}

impl Clone for FieldOvrEdit {
    fn clone(&self) -> (r: Self)
        ensures
            r@ == self@,
    {
        let r = FieldOvrEdit {
            field: self.field.clone(),
            desc: self.desc.clone(),
            reset: self.reset.clone(),
        };
        r
    }
}

/// One change that an edit leaves to be saved. Lines are those of the file as it was read.
#[derive(Debug)]
pub enum Record {
    /// A field declaration changed.
    FieldDirty(usize),
    /// A field was deleted.
    FieldDeleted(usize),
    /// A property of a field changed.
    FieldLine(usize, FieldProp, LineEdit),
    /// The description block of a field changed.
    FieldDesc(usize, BlockEdit),
    /// A derived description of a field changed.
    FieldIntrDesc(usize, IntrKind, BlockEdit),
    /// An enum entry changed.
    EnumDirty(usize),
    /// An enum entry was deleted.
    EnumDeleted(usize),
    /// A register declaration changed.
    RegDirty(usize),
    /// A property of a register changed.
    RegLine(usize, RegProp, LineEdit),
    /// The description block of a register changed.
    RegDesc(usize, BlockEdit),
    /// A derived description of a register changed.
    RegIntrDesc(usize, IntrKind, BlockEdit),
    /// A register definition was deleted.
    RegDeleted(usize),
    /// An instance declaration changed.
    InstDirty(usize),
    /// An instance was deleted.
    InstDeleted(usize),
    /// An overridden register property changed.
    RegOvrLine(usize, RegOverrideProp, LineEdit),
    /// The block of an overridden description changed.
    RegOvrDesc(usize, BlockEdit),
    /// An overridden field property changed.
    FieldOvrLine(usize, String, FieldOverrideProp, LineEdit),
    /// The RIF declaration changed.
    RifDirty(usize),
    /// A property of the RIF changed.
    RifLine(RifProp, LineEdit),
    /// The description block of the RIF changed.
    RifDesc(BlockEdit),
    /// A clock line changed.
    ClockLine(RifClockLineKind, LineEdit),
    /// A reset line goes.
    ResetDeleted(usize),
    /// The reset lines of the hardware clocks, or else of the software clocks, are written anew.
    ResetLines(bool, Vec<String>),
    /// A parameter changed.
    ParamLine(usize, LineEdit),
    /// A parameter is new.
    ParamInsert(String),
    /// A generic changed.
    GenericLine(usize, LineEdit),
    /// A generic is new.
    GenericInsert(String),
}

/// The value of a [`Record`].
pub enum RecordView {
    FieldDirty(usize),
    FieldDeleted(usize),
    FieldLine(usize, FieldProp, LineEditView),
    FieldDesc(usize, BlockEditView),
    FieldIntrDesc(usize, IntrKind, BlockEditView),
    EnumDirty(usize),
    EnumDeleted(usize),
    RegDirty(usize),
    RegLine(usize, RegProp, LineEditView),
    RegDesc(usize, BlockEditView),
    RegIntrDesc(usize, IntrKind, BlockEditView),
    RegDeleted(usize),
    InstDirty(usize),
    InstDeleted(usize),
    RegOvrLine(usize, RegOverrideProp, LineEditView),
    RegOvrDesc(usize, BlockEditView),
    FieldOvrLine(usize, Seq<char>, FieldOverrideProp, LineEditView),
    RifDirty(usize),
    RifLine(RifProp, LineEditView),
    RifDesc(BlockEditView),
    ClockLine(RifClockLineKind, LineEditView),
    ResetDeleted(usize),
    ResetLines(bool, Seq<Seq<char>>),
    ParamLine(usize, LineEditView),
    ParamInsert(Seq<char>),
    GenericLine(usize, LineEditView),
    GenericInsert(Seq<char>),
}

impl DeepView for Record {
    type V = RecordView;

    open spec fn deep_view(&self) -> RecordView {
        match self {
            Record::FieldDirty(a) => RecordView::FieldDirty(*a),
            Record::FieldDeleted(a) => RecordView::FieldDeleted(*a),
            Record::FieldLine(a, b, c) => RecordView::FieldLine(*a, *b, c.deep_view()),
            Record::FieldDesc(a, b) => RecordView::FieldDesc(*a, b.deep_view()),
            Record::FieldIntrDesc(a, b, c) => RecordView::FieldIntrDesc(*a, *b, c.deep_view()),
            Record::EnumDirty(a) => RecordView::EnumDirty(*a),
            Record::EnumDeleted(a) => RecordView::EnumDeleted(*a),
            Record::RegDirty(a) => RecordView::RegDirty(*a),
            Record::RegLine(a, b, c) => RecordView::RegLine(*a, *b, c.deep_view()),
            Record::RegDesc(a, b) => RecordView::RegDesc(*a, b.deep_view()),
            Record::RegIntrDesc(a, b, c) => RecordView::RegIntrDesc(*a, *b, c.deep_view()),
            Record::RegDeleted(a) => RecordView::RegDeleted(*a),
            Record::InstDirty(a) => RecordView::InstDirty(*a),
            Record::InstDeleted(a) => RecordView::InstDeleted(*a),
            Record::RegOvrLine(a, b, c) => RecordView::RegOvrLine(*a, *b, c.deep_view()),
            Record::RegOvrDesc(a, b) => RecordView::RegOvrDesc(*a, b.deep_view()),
            Record::FieldOvrLine(a, b, c, d) => RecordView::FieldOvrLine(*a, b.deep_view(), *c, d.deep_view()),
            Record::RifDirty(a) => RecordView::RifDirty(*a),
            Record::RifLine(a, b) => RecordView::RifLine(*a, b.deep_view()),
            Record::RifDesc(a) => RecordView::RifDesc(a.deep_view()),
            Record::ClockLine(a, b) => RecordView::ClockLine(*a, b.deep_view()),
            Record::ResetDeleted(a) => RecordView::ResetDeleted(*a),
            Record::ResetLines(a, b) => RecordView::ResetLines(*a, b.deep_view()),
            Record::ParamLine(a, b) => RecordView::ParamLine(*a, b.deep_view()),
            Record::ParamInsert(a) => RecordView::ParamInsert(a.deep_view()),
            Record::GenericLine(a, b) => RecordView::GenericLine(*a, b.deep_view()),
            Record::GenericInsert(a) => RecordView::GenericInsert(a.deep_view()),
        }
    }
}

impl View for Record {
    type V = RecordView;

    open spec fn view(&self) -> RecordView {
        self.deep_view()
    }
}

impl Clone for Record {
    fn clone(&self) -> (r: Self)
        ensures
            r@ == self@,
    {
        match self {
            Record::FieldDirty(a) => Record::FieldDirty(*a),
            Record::FieldDeleted(a) => Record::FieldDeleted(*a),
            Record::FieldLine(a, b, c) => Record::FieldLine(*a, *b, c.clone()),
            Record::FieldDesc(a, b) => Record::FieldDesc(*a, b.clone()),
            Record::FieldIntrDesc(a, b, c) => Record::FieldIntrDesc(*a, *b, c.clone()),
            Record::EnumDirty(a) => Record::EnumDirty(*a),
            Record::EnumDeleted(a) => Record::EnumDeleted(*a),
            Record::RegDirty(a) => Record::RegDirty(*a),
            Record::RegLine(a, b, c) => Record::RegLine(*a, *b, c.clone()),
            Record::RegDesc(a, b) => Record::RegDesc(*a, b.clone()),
            Record::RegIntrDesc(a, b, c) => Record::RegIntrDesc(*a, *b, c.clone()),
            Record::RegDeleted(a) => Record::RegDeleted(*a),
            Record::InstDirty(a) => Record::InstDirty(*a),
            Record::InstDeleted(a) => Record::InstDeleted(*a),
            Record::RegOvrLine(a, b, c) => Record::RegOvrLine(*a, *b, c.clone()),
            Record::RegOvrDesc(a, b) => Record::RegOvrDesc(*a, b.clone()),
            Record::FieldOvrLine(a, b, c, d) => Record::FieldOvrLine(*a, b.clone(), *c, d.clone()),
            Record::RifDirty(a) => Record::RifDirty(*a),
            Record::RifLine(a, b) => Record::RifLine(*a, b.clone()),
            Record::RifDesc(a) => Record::RifDesc(a.clone()),
            Record::ClockLine(a, b) => Record::ClockLine(*a, b.clone()),
            Record::ResetDeleted(a) => Record::ResetDeleted(*a),
            Record::ResetLines(a, b) => Record::ResetLines(*a, b.clone()),
            Record::ParamLine(a, b) => Record::ParamLine(*a, b.clone()),
            Record::ParamInsert(a) => Record::ParamInsert(a.clone()),
            Record::GenericLine(a, b) => Record::GenericLine(*a, b.clone()),
            Record::GenericInsert(a) => Record::GenericInsert(a.clone()),
        }
    }
}


impl RifClockLineKind {
    /// Position of the kind among the clock lines.
    pub open spec fn index(self) -> int {
        match self {
            RifClockLineKind::SwClock => 0,
            RifClockLineKind::HwClock => 1,
            RifClockLineKind::SwClkEn => 2,
            RifClockLineKind::HwClkEn => 3,
            RifClockLineKind::SwClear => 4,
            RifClockLineKind::HwClear => 5,
        }
    }

    /// Position of the kind among the clock lines.
    pub fn rank(self) -> (r: usize)
        ensures
            r == self.index(),
            r < 6,
    {
        match self {
            RifClockLineKind::SwClock => 0,
            RifClockLineKind::HwClock => 1,
            RifClockLineKind::SwClkEn => 2,
            RifClockLineKind::HwClkEn => 3,
            RifClockLineKind::SwClear => 4,
            RifClockLineKind::HwClear => 5,
        }
    }
}

/// Position of a derived interrupt register among the three; `None` for the others.
pub open spec fn intr_index(kind: IntrKind) -> Option<int> {
    match kind {
        IntrKind::Enable => Some(0),
        IntrKind::Mask => Some(1),
        IntrKind::Pending => Some(2),
        _ => None,
    }
}

/// Position of a derived interrupt register among the three; `None` for the others.
pub fn intr_rank(kind: IntrKind) -> (r: Option<usize>)
    ensures
        match intr_index(kind) {
            Some(i) => r is Some && r->0 == i && i < 3,
            None => r is None,
        },
{
    match kind {
        IntrKind::Enable => Some(0),
        IntrKind::Mask => Some(1),
        IntrKind::Pending => Some(2),
        _ => None,
    }
}

/// Edits to the property lines of the items of one kind, by declaration line.
pub type LineEdits = HashMap<usize, Vec<LineEdit>>;

/// Edits to the description blocks of the items of one kind, by declaration line.
pub type BlockEdits = HashMap<usize, BlockEdit>;

/// Edits to the derived descriptions of the items of one kind, by declaration line.
pub type IntrEdits = HashMap<usize, Vec<Option<BlockEdit>>>;

pub open spec fn line_edits(m: LineEdits) -> Map<usize, Seq<LineEditView>> {
    m@.map_values(|v: Vec<LineEdit>| v.deep_view())
}

pub open spec fn block_edits(m: BlockEdits) -> Map<usize, BlockEditView> {
    m@.map_values(|v: BlockEdit| v@)
}

pub open spec fn intr_edits(m: IntrEdits) -> Map<usize, Seq<Option<BlockEditView>>> {
    m@.map_values(|v: Vec<Option<BlockEdit>>| v.deep_view())
}

pub open spec fn single_edits(m: HashMap<usize, LineEdit>) -> Map<usize, LineEditView> {
    m@.map_values(|v: LineEdit| v@)
}

pub open spec fn ovr_edits(m: HashMap<usize, Vec<FieldOvrEdit>>) -> Map<
    usize,
    Seq<FieldOvrEditView>,
> {
    m@.map_values(|v: Vec<FieldOvrEdit>| v.deep_view())
}

/// Every edit that waits to be saved. There is at most one RIF with pending edits, so a line
/// number says which item is meant.
pub struct PendingEdits {
    /// Field declarations that changed.
    pub dirty: HashSet<usize>,
    /// Field declarations that were deleted.
    pub deleted: HashSet<usize>,
    /// Field properties, by [`FieldProp::rank`].
    pub prop_edits: LineEdits,
    /// Description blocks of fields.
    pub desc_block_edits: BlockEdits,
    /// Derived descriptions of fields.
    pub field_intr_desc_block_edits: IntrEdits,
    /// Enum entries that changed.
    pub enum_dirty: HashSet<usize>,
    /// Enum entries that were deleted.
    pub enum_deleted: HashSet<usize>,
    /// Register declarations that changed.
    pub reg_dirty: HashSet<usize>,
    /// Register properties, by [`RegProp::rank`].
    pub reg_prop_edits: LineEdits,
    /// Description blocks of registers.
    pub reg_desc_block_edits: BlockEdits,
    /// Derived descriptions of registers.
    pub reg_intr_desc_block_edits: IntrEdits,
    /// Register definitions that were deleted.
    pub reg_deleted: HashSet<usize>,
    /// Instance declarations that changed.
    pub reg_inst_dirty: HashSet<usize>,
    /// Instances that were deleted.
    pub reg_inst_deleted: HashSet<usize>,
    /// Overridden register properties, by [`RegOverrideProp::rank`].
    pub reg_override_edits: LineEdits,
    /// Blocks of overridden register descriptions.
    pub reg_override_desc_block_edits: BlockEdits,
    /// Overridden field properties, one entry for each field.
    pub field_override_edits: HashMap<usize, Vec<FieldOvrEdit>>,
    /// The RIF declaration, where it changed.
    pub rif_dirty: HashSet<usize>,
    /// Properties of the RIF, by [`RifProp::rank`].
    pub rif_prop_edits: Vec<LineEdit>,
    /// Description block of the RIF.
    pub rif_desc_block_edits: Option<BlockEdit>,
    /// Clock lines, by [`RifClockLineKind::rank`].
    pub rif_clock_line_edits: Vec<LineEdit>,
    /// Reset lines that go.
    pub rif_reset_deleted: HashSet<usize>,
    /// New reset lines of the software clocks.
    pub rif_reset_sw: Option<Vec<String>>,
    /// New reset lines of the hardware clocks.
    pub rif_reset_hw: Option<Vec<String>>,
    /// Parameters, by line.
    pub rif_param_edits: HashMap<usize, LineEdit>,
    /// Generics, by line.
    pub rif_generic_edits: HashMap<usize, LineEdit>,
    /// New parameters.
    pub rif_param_inserts: Vec<String>,
    /// New generics.
    pub rif_generic_inserts: Vec<String>,
}

/// The value of [`PendingEdits`].
pub struct PendingEditsView {
    pub dirty: Set<usize>,
    pub deleted: Set<usize>,
    pub prop_edits: Map<usize, Seq<LineEditView>>,
    pub desc_block_edits: Map<usize, BlockEditView>,
    pub field_intr_desc_block_edits: Map<usize, Seq<Option<BlockEditView>>>,
    pub enum_dirty: Set<usize>,
    pub enum_deleted: Set<usize>,
    pub reg_dirty: Set<usize>,
    pub reg_prop_edits: Map<usize, Seq<LineEditView>>,
    pub reg_desc_block_edits: Map<usize, BlockEditView>,
    pub reg_intr_desc_block_edits: Map<usize, Seq<Option<BlockEditView>>>,
    pub reg_deleted: Set<usize>,
    pub reg_inst_dirty: Set<usize>,
    pub reg_inst_deleted: Set<usize>,
    pub reg_override_edits: Map<usize, Seq<LineEditView>>,
    pub reg_override_desc_block_edits: Map<usize, BlockEditView>,
    pub field_override_edits: Map<usize, Seq<FieldOvrEditView>>,
    pub rif_dirty: Set<usize>,
    pub rif_prop_edits: Seq<LineEditView>,
    pub rif_desc_block_edits: Option<BlockEditView>,
    pub rif_clock_line_edits: Seq<LineEditView>,
    pub rif_reset_deleted: Set<usize>,
    pub rif_reset_sw: Option<Seq<Seq<char>>>,
    pub rif_reset_hw: Option<Seq<Seq<char>>>,
    pub rif_param_edits: Map<usize, LineEditView>,
    pub rif_generic_edits: Map<usize, LineEditView>,
    pub rif_param_inserts: Seq<Seq<char>>,
    pub rif_generic_inserts: Seq<Seq<char>>,
}

impl View for PendingEdits {
    type V = PendingEditsView;

    open spec fn view(&self) -> PendingEditsView {
        PendingEditsView {
            dirty: self.dirty@,
            deleted: self.deleted@,
            prop_edits: line_edits(self.prop_edits),
            desc_block_edits: block_edits(self.desc_block_edits),
            field_intr_desc_block_edits: intr_edits(self.field_intr_desc_block_edits),
            enum_dirty: self.enum_dirty@,
            enum_deleted: self.enum_deleted@,
            reg_dirty: self.reg_dirty@,
            reg_prop_edits: line_edits(self.reg_prop_edits),
            reg_desc_block_edits: block_edits(self.reg_desc_block_edits),
            reg_intr_desc_block_edits: intr_edits(self.reg_intr_desc_block_edits),
            reg_deleted: self.reg_deleted@,
            reg_inst_dirty: self.reg_inst_dirty@,
            reg_inst_deleted: self.reg_inst_deleted@,
            reg_override_edits: line_edits(self.reg_override_edits),
            reg_override_desc_block_edits: block_edits(self.reg_override_desc_block_edits),
            field_override_edits: ovr_edits(self.field_override_edits),
            rif_dirty: self.rif_dirty@,
            rif_prop_edits: self.rif_prop_edits.deep_view(),
            rif_desc_block_edits: self.rif_desc_block_edits.deep_view(),
            rif_clock_line_edits: self.rif_clock_line_edits.deep_view(),
            rif_reset_deleted: self.rif_reset_deleted@,
            rif_reset_sw: self.rif_reset_sw.deep_view(),
            rif_reset_hw: self.rif_reset_hw.deep_view(),
            rif_param_edits: single_edits(self.rif_param_edits),
            rif_generic_edits: single_edits(self.rif_generic_edits),
            rif_param_inserts: self.rif_param_inserts.deep_view(),
            rif_generic_inserts: self.rif_generic_inserts.deep_view(),
        }
    }
}

/// `n` lines that stay.
pub open spec fn kept(n: nat) -> Seq<LineEditView> {
    Seq::new(n, |i: int| LineEditView::Keep)
}

/// Nothing to save.
pub open spec fn no_edits() -> PendingEditsView {
    PendingEditsView {
        dirty: Set::empty(),
        deleted: Set::empty(),
        prop_edits: Map::empty(),
        desc_block_edits: Map::empty(),
        field_intr_desc_block_edits: Map::empty(),
        enum_dirty: Set::empty(),
        enum_deleted: Set::empty(),
        reg_dirty: Set::empty(),
        reg_prop_edits: Map::empty(),
        reg_desc_block_edits: Map::empty(),
        reg_intr_desc_block_edits: Map::empty(),
        reg_deleted: Set::empty(),
        reg_inst_dirty: Set::empty(),
        reg_inst_deleted: Set::empty(),
        reg_override_edits: Map::empty(),
        reg_override_desc_block_edits: Map::empty(),
        field_override_edits: Map::empty(),
        rif_dirty: Set::empty(),
        rif_prop_edits: kept(10),
        rif_desc_block_edits: None,
        rif_clock_line_edits: kept(6),
        rif_reset_deleted: Set::empty(),
        rif_reset_sw: None,
        rif_reset_hw: None,
        rif_param_edits: Map::empty(),
        rif_generic_edits: Map::empty(),
        rif_param_inserts: Seq::empty(),
        rif_generic_inserts: Seq::empty(),
    }
}

/// Whether every entry has `n` parts.
pub open spec fn all_len<T>(m: Map<usize, Seq<T>>, n: nat) -> bool {
    forall|k: usize| m.contains_key(k) ==> (#[trigger] m[k]).len() == n
}

impl PendingEditsView {
    /// There is one place for each property.
    pub open spec fn wf(self) -> bool {
        &&& all_len(self.prop_edits, 12)
        &&& all_len(self.field_intr_desc_block_edits, 3)
        &&& all_len(self.reg_prop_edits, 10)
        &&& all_len(self.reg_intr_desc_block_edits, 3)
        &&& all_len(self.reg_override_edits, 4)
        &&& self.rif_prop_edits.len() == 10
        &&& self.rif_clock_line_edits.len() == 6
    }
}

/// The entry at `line` with part `i` set, the other parts as they were.
pub open spec fn with_part<T>(
    m: Map<usize, Seq<T>>,
    line: usize,
    n: nat,
    empty: T,
    i: int,
    e: T,
) -> Map<usize, Seq<T>> {
    let before = if m.contains_key(line) {
        m[line]
    } else {
        Seq::new(n, |k: int| empty)
    };
    m.insert(line, before.update(i, e))
}

/// The edits of one field, with one of them set.
pub open spec fn with_ovr_edit(
    s: Seq<FieldOvrEditView>,
    field: Seq<char>,
    p: FieldOverrideProp,
    e: LineEditView,
) -> Seq<FieldOvrEditView>
    decreases s.len(),
{
    if s.len() == 0 {
        let fresh = FieldOvrEditView { field, desc: LineEditView::Keep, reset: LineEditView::Keep };
        seq![set_ovr_edit(fresh, p, e)]
    } else if s[0].field == field {
        seq![set_ovr_edit(s[0], p, e)] + s.skip(1)
    } else {
        seq![s[0]] + with_ovr_edit(s.skip(1), field, p, e)
    }
}

pub open spec fn set_ovr_edit(
    x: FieldOvrEditView,
    p: FieldOverrideProp,
    e: LineEditView,
) -> FieldOvrEditView {
    match p {
        FieldOverrideProp::Description => FieldOvrEditView { desc: e, ..x },
        FieldOverrideProp::Reset => FieldOvrEditView { reset: e, ..x },
    }
}

/// The edits after one more change.
pub open spec fn recorded(s: PendingEditsView, r: RecordView) -> PendingEditsView {
    match r {
        RecordView::FieldDirty(l) => PendingEditsView { dirty: s.dirty.insert(l), ..s },
        RecordView::FieldDeleted(l) => PendingEditsView { deleted: s.deleted.insert(l), ..s },
        RecordView::FieldLine(l, p, e) => PendingEditsView {
            prop_edits: with_part(s.prop_edits, l, 12, LineEditView::Keep, p.index(), e),
            ..s
        },
        RecordView::FieldDesc(l, e) => PendingEditsView {
            desc_block_edits: s.desc_block_edits.insert(l, e),
            ..s
        },
        RecordView::FieldIntrDesc(l, k, e) => match intr_index(k) {
            Some(i) => PendingEditsView {
                field_intr_desc_block_edits: with_part(
                    s.field_intr_desc_block_edits,
                    l,
                    3,
                    None,
                    i,
                    Some(e),
                ),
                ..s
            },
            None => s,
        },
        RecordView::EnumDirty(l) => PendingEditsView { enum_dirty: s.enum_dirty.insert(l), ..s },
        RecordView::EnumDeleted(l) => PendingEditsView {
            enum_deleted: s.enum_deleted.insert(l),
            ..s
        },
        RecordView::RegDirty(l) => PendingEditsView { reg_dirty: s.reg_dirty.insert(l), ..s },
        RecordView::RegLine(l, p, e) => PendingEditsView {
            reg_prop_edits: with_part(s.reg_prop_edits, l, 10, LineEditView::Keep, p.index(), e),
            ..s
        },
        RecordView::RegDesc(l, e) => PendingEditsView {
            reg_desc_block_edits: s.reg_desc_block_edits.insert(l, e),
            ..s
        },
        RecordView::RegIntrDesc(l, k, e) => match intr_index(k) {
            Some(i) => PendingEditsView {
                reg_intr_desc_block_edits: with_part(
                    s.reg_intr_desc_block_edits,
                    l,
                    3,
                    None,
                    i,
                    Some(e),
                ),
                ..s
            },
            None => s,
        },
        RecordView::RegDeleted(l) => PendingEditsView { reg_deleted: s.reg_deleted.insert(l), ..s },
        RecordView::InstDirty(l) => PendingEditsView {
            reg_inst_dirty: s.reg_inst_dirty.insert(l),
            ..s
        },
        RecordView::InstDeleted(l) => PendingEditsView {
            reg_inst_deleted: s.reg_inst_deleted.insert(l),
            ..s
        },
        RecordView::RegOvrLine(l, p, e) => PendingEditsView {
            reg_override_edits: with_part(
                s.reg_override_edits,
                l,
                4,
                LineEditView::Keep,
                p.index(),
                e,
            ),
            ..s
        },
        RecordView::RegOvrDesc(l, e) => PendingEditsView {
            reg_override_desc_block_edits: s.reg_override_desc_block_edits.insert(l, e),
            ..s
        },
        RecordView::FieldOvrLine(l, field, p, e) => PendingEditsView {
            field_override_edits: s.field_override_edits.insert(
                l,
                with_ovr_edit(
                    if s.field_override_edits.contains_key(l) {
                        s.field_override_edits[l]
                    } else {
                        seq![]
                    },
                    field,
                    p,
                    e,
                ),
            ),
            ..s
        },
        RecordView::RifDirty(l) => PendingEditsView { rif_dirty: s.rif_dirty.insert(l), ..s },
        RecordView::RifLine(p, e) => PendingEditsView {
            rif_prop_edits: s.rif_prop_edits.update(p.index(), e),
            ..s
        },
        RecordView::RifDesc(e) => PendingEditsView { rif_desc_block_edits: Some(e), ..s },
        RecordView::ClockLine(k, e) => PendingEditsView {
            rif_clock_line_edits: s.rif_clock_line_edits.update(k.index(), e),
            ..s
        },
        RecordView::ResetDeleted(l) => PendingEditsView {
            rif_reset_deleted: s.rif_reset_deleted.insert(l),
            ..s
        },
        RecordView::ResetLines(hw, lines) => if hw {
            PendingEditsView { rif_reset_hw: Some(lines), ..s }
        } else {
            PendingEditsView { rif_reset_sw: Some(lines), ..s }
        },
        RecordView::ParamLine(l, e) => PendingEditsView {
            rif_param_edits: s.rif_param_edits.insert(l, e),
            ..s
        },
        RecordView::ParamInsert(t) => PendingEditsView {
            rif_param_inserts: s.rif_param_inserts.push(t),
            ..s
        },
        RecordView::GenericLine(l, e) => PendingEditsView {
            rif_generic_edits: s.rif_generic_edits.insert(l, e),
            ..s
        },
        RecordView::GenericInsert(t) => PendingEditsView {
            rif_generic_inserts: s.rif_generic_inserts.push(t),
            ..s
        },
    }
}

/// The edits after a run of changes, from the first to the last.
pub open spec fn recorded_all(s: PendingEditsView, rs: Seq<RecordView>) -> PendingEditsView
    decreases rs.len(),
{
    if rs.len() == 0 {
        s
    } else {
        recorded(recorded_all(s, rs.drop_last()), rs.last())
    }
}

/// Recording a change keeps one place for each property.
pub proof fn recording_keeps_shape(s: PendingEditsView, r: RecordView)
    requires
        s.wf(),
    ensures
        recorded(s, r).wf(),
{
}

fn set_line(m: &mut LineEdits, line: usize, n: usize, i: usize, e: LineEdit)
    requires
        i < n,
        all_len(line_edits(*old(m)), n as nat),
    ensures
        line_edits(*final(m)) == with_part(
            line_edits(*old(m)),
            line,
            n as nat,
            LineEditView::Keep,
            i as int,
            e@,
        ),
{
    let ghost before = line_edits(*old(m));
    let entry = m.remove(&line);
    let mut parts: Vec<LineEdit> = match entry {
        Some(v) => {
            proof {
                assert(before.contains_key(line));
                assert(before[line].len() == n);
            }
            v
        },
        None => {
            let v = kept_lines(n);
            v
        },
    };
    let ghost base = parts.deep_view();
    proof {
        assert(base.len() == n);
        assert(parts@.len() == n);
    }
    parts[i] = e;
    proof {
        assert(parts.deep_view() =~= base.update(i as int, e@));
    }
    m.insert(line, parts);
    proof {
        assert(line_edits(*m) =~= with_part(before, line, n as nat, LineEditView::Keep, i as int, e@));
    }
}

fn set_block(m: &mut BlockEdits, line: usize, e: BlockEdit)
    ensures
        block_edits(*final(m)) == block_edits(*old(m)).insert(line, e@),
{
    m.insert(line, e);
    proof {
        assert(block_edits(*m) =~= block_edits(*old(m)).insert(line, e@));
    }
}

fn set_single(m: &mut HashMap<usize, LineEdit>, line: usize, e: LineEdit)
    ensures
        single_edits(*final(m)) == single_edits(*old(m)).insert(line, e@),
{
    m.insert(line, e);
    proof {
        assert(single_edits(*m) =~= single_edits(*old(m)).insert(line, e@));
    }
}

fn set_intr(m: &mut IntrEdits, line: usize, i: usize, e: BlockEdit)
    requires
        i < 3,
        all_len(intr_edits(*old(m)), 3),
    ensures
        intr_edits(*final(m)) == with_part(
            intr_edits(*old(m)),
            line,
            3,
            None,
            i as int,
            Some(e@),
        ),
{
    let ghost before = intr_edits(*old(m));
    let entry = m.remove(&line);
    let mut parts: Vec<Option<BlockEdit>> = match entry {
        Some(v) => {
            proof {
                assert(before.contains_key(line));
                assert(before[line].len() == 3);
            }
            v
        },
        None => {
            let mut v: Vec<Option<BlockEdit>> = Vec::new();
            v.push(None);
            v.push(None);
            v.push(None);
            proof {
                assert(v.deep_view() =~= Seq::new(3, |k: int| None::<BlockEditView>));
            }
            v
        },
    };
    let ghost base = parts.deep_view();
    parts[i] = Some(e);
    proof {
        assert(parts.deep_view() =~= base.update(i as int, Some(e@)));
    }
    m.insert(line, parts);
    proof {
        assert(intr_edits(*m) =~= with_part(before, line, 3, None, i as int, Some(e@)));
    }
}

fn set_ovr(m: &mut HashMap<usize, Vec<FieldOvrEdit>>, line: usize, field: String, p: FieldOverrideProp, e: LineEdit)
    ensures
        ovr_edits(*final(m)) == ovr_edits(*old(m)).insert(
            line,
            with_ovr_edit(
                if ovr_edits(*old(m)).contains_key(line) {
                    ovr_edits(*old(m))[line]
                } else {
                    seq![]
                },
                field@,
                p,
                e@,
            ),
        ),
{
    let ghost before = ovr_edits(*old(m));
    let entry = m.remove(&line);
    let mut v: Vec<FieldOvrEdit> = match entry {
        Some(v) => {
            proof {
                assert(before.contains_key(line));
            }
            v
        },
        None => {
            let v: Vec<FieldOvrEdit> = Vec::new();
            proof {
                assert(v.deep_view() =~= Seq::<FieldOvrEditView>::empty());
            }
            v
        },
    };
    let ghost base = v.deep_view();
    let ghost want = with_ovr_edit(base, field@, p, e@);
    let mut i: usize = 0;
    let mut found = false;
    proof {
        assert(base.skip(0) =~= base);
        assert(base.take(0) + want =~= want);
    }
    while i < v.len() && !found
        invariant
            i <= v@.len(),
            base == v.deep_view(),
            found ==> i < v@.len() && v@[i as int].field@ == field@,
            base.take(i as int) + with_ovr_edit(base.skip(i as int), field@, p, e@) == want,
        decreases v@.len() - i + (if found {
            0int
        } else {
            1int
        }),
    {
        if v[i].field == field {
            found = true;
        } else {
            proof {
                let rest = base.skip(i as int);
                assert(rest.skip(1) =~= base.skip(i + 1));
                assert(base.take(i as int) + (seq![rest[0]] + with_ovr_edit(
                    base.skip(i + 1),
                    field@,
                    p,
                    e@,
                )) =~= base.take(i + 1) + with_ovr_edit(base.skip(i + 1), field@, p, e@));
            }
            i += 1;
        }
    }
    if found {
        let mut x = v[i].clone();
        let ghost old_x = x@;
        match p {
            FieldOverrideProp::Description => {
                x.desc = e;
            },
            FieldOverrideProp::Reset => {
                x.reset = e;
            },
        }
        v[i] = x;
        proof {
            let rest = base.skip(i as int);
            assert(rest[0] == old_x);
            assert(v.deep_view() =~= base.update(i as int, set_ovr_edit(old_x, p, e@)));
            assert(rest.skip(1) =~= base.skip(i + 1));
            assert(base.update(i as int, set_ovr_edit(old_x, p, e@)) =~= base.take(i as int) + (
            seq![set_ovr_edit(old_x, p, e@)] + rest.skip(1)));
        }
    } else {
        let mut x = FieldOvrEdit { field, desc: LineEdit::Keep, reset: LineEdit::Keep };
        match p {
            FieldOverrideProp::Description => {
                x.desc = e;
            },
            FieldOverrideProp::Reset => {
                x.reset = e;
            },
        }
        v.push(x);
        proof {
            assert(base.take(i as int) =~= base);
            assert(base.skip(i as int) =~= Seq::<FieldOvrEditView>::empty());
            assert(v.deep_view() =~= base.push(x@));
            assert(base.push(x@) =~= base + seq![x@]);
        }
    }
    m.insert(line, v);
    proof {
        assert(ovr_edits(*m) =~= before.insert(line, want));
    }
}

fn set_at(v: &mut Vec<LineEdit>, i: usize, e: LineEdit)
    requires
        i < old(v)@.len(),
    ensures
        final(v).deep_view() == old(v).deep_view().update(i as int, e@),
{
    v[i] = e;
    proof {
        assert(v.deep_view() =~= old(v).deep_view().update(i as int, e@));
    }
}

fn kept_lines(n: usize) -> (r: Vec<LineEdit>)
    ensures
        r.deep_view() == kept(n as nat),
{
    let mut v: Vec<LineEdit> = Vec::new();
    let mut k: usize = 0;
    while k < n
        invariant
            k <= n,
            v.deep_view() =~= kept(k as nat),
        decreases n - k,
    {
        let ghost before = v.deep_view();
        v.push(LineEdit::Keep);
        proof {
            assert(v.deep_view() =~= before.push(LineEditView::Keep));
        }
        k += 1;
    }
    v
}

impl PendingEdits {
    /// Nothing to save.
    pub fn new() -> (r: PendingEdits)
        ensures
            r@ == no_edits(),
            r@.wf(),
    {
        let r = PendingEdits {
            dirty: HashSet::new(),
            deleted: HashSet::new(),
            prop_edits: HashMap::new(),
            desc_block_edits: HashMap::new(),
            field_intr_desc_block_edits: HashMap::new(),
            enum_dirty: HashSet::new(),
            enum_deleted: HashSet::new(),
            reg_dirty: HashSet::new(),
            reg_prop_edits: HashMap::new(),
            reg_desc_block_edits: HashMap::new(),
            reg_intr_desc_block_edits: HashMap::new(),
            reg_deleted: HashSet::new(),
            reg_inst_dirty: HashSet::new(),
            reg_inst_deleted: HashSet::new(),
            reg_override_edits: HashMap::new(),
            reg_override_desc_block_edits: HashMap::new(),
            field_override_edits: HashMap::new(),
            rif_dirty: HashSet::new(),
            rif_prop_edits: kept_lines(10),
            rif_desc_block_edits: None,
            rif_clock_line_edits: kept_lines(6),
            rif_reset_deleted: HashSet::new(),
            rif_reset_sw: None,
            rif_reset_hw: None,
            rif_param_edits: HashMap::new(),
            rif_generic_edits: HashMap::new(),
            rif_param_inserts: Vec::new(),
            rif_generic_inserts: Vec::new(),
        };
        proof {
            let e = no_edits();
            assert(r@.dirty =~= e.dirty && r@.deleted =~= e.deleted && r@.enum_dirty =~= e.enum_dirty
                && r@.enum_deleted =~= e.enum_deleted && r@.reg_dirty =~= e.reg_dirty
                && r@.reg_deleted =~= e.reg_deleted && r@.reg_inst_dirty =~= e.reg_inst_dirty
                && r@.reg_inst_deleted =~= e.reg_inst_deleted && r@.rif_dirty =~= e.rif_dirty
                && r@.rif_reset_deleted =~= e.rif_reset_deleted);
            assert(r@.prop_edits =~= e.prop_edits && r@.reg_prop_edits =~= e.reg_prop_edits
                && r@.reg_override_edits =~= e.reg_override_edits);
            assert(r@.desc_block_edits =~= e.desc_block_edits && r@.reg_desc_block_edits
                =~= e.reg_desc_block_edits && r@.reg_override_desc_block_edits
                =~= e.reg_override_desc_block_edits);
            assert(r@.field_intr_desc_block_edits =~= e.field_intr_desc_block_edits
                && r@.reg_intr_desc_block_edits =~= e.reg_intr_desc_block_edits);
            assert(r@.field_override_edits =~= e.field_override_edits && r@.rif_param_edits
                =~= e.rif_param_edits && r@.rif_generic_edits =~= e.rif_generic_edits);
            assert(r@.rif_param_inserts =~= e.rif_param_inserts && r@.rif_generic_inserts
                =~= e.rif_generic_inserts);
        }
        r
    }

    /// Records one more change.
    #[verifier::rlimit(60)]
    pub fn record(&mut self, r: Record)
        requires
            old(self)@.wf(),
        ensures
            final(self)@ == recorded(old(self)@, r@),
            final(self)@.wf(),
    {
        let ghost before = self@;
        proof {
            recording_keeps_shape(before, r@);
        }
        match r {
            Record::FieldDirty(l) => {
                self.dirty.insert(l);
            },
            Record::FieldDeleted(l) => {
                self.deleted.insert(l);
            },
            Record::FieldLine(l, p, e) => {
                set_line(&mut self.prop_edits, l, 12, p.rank(), e);
            },
            Record::FieldDesc(l, e) => {
                set_block(&mut self.desc_block_edits, l, e);
            },
            Record::FieldIntrDesc(l, k, e) => {
                if let Some(i) = intr_rank(k) {
                    set_intr(&mut self.field_intr_desc_block_edits, l, i, e);
                }
            },
            Record::EnumDirty(l) => {
                self.enum_dirty.insert(l);
            },
            Record::EnumDeleted(l) => {
                self.enum_deleted.insert(l);
            },
            Record::RegDirty(l) => {
                self.reg_dirty.insert(l);
            },
            Record::RegLine(l, p, e) => {
                set_line(&mut self.reg_prop_edits, l, 10, p.rank(), e);
            },
            Record::RegDesc(l, e) => {
                set_block(&mut self.reg_desc_block_edits, l, e);
            },
            Record::RegIntrDesc(l, k, e) => {
                if let Some(i) = intr_rank(k) {
                    set_intr(&mut self.reg_intr_desc_block_edits, l, i, e);
                }
            },
            Record::RegDeleted(l) => {
                self.reg_deleted.insert(l);
            },
            Record::InstDirty(l) => {
                self.reg_inst_dirty.insert(l);
            },
            Record::InstDeleted(l) => {
                self.reg_inst_deleted.insert(l);
            },
            Record::RegOvrLine(l, p, e) => {
                set_line(&mut self.reg_override_edits, l, 4, p.rank(), e);
            },
            Record::RegOvrDesc(l, e) => {
                set_block(&mut self.reg_override_desc_block_edits, l, e);
            },
            Record::FieldOvrLine(l, field, p, e) => {
                set_ovr(&mut self.field_override_edits, l, field, p, e);
            },
            Record::RifDirty(l) => {
                self.rif_dirty.insert(l);
            },
            Record::RifLine(p, e) => {
                set_at(&mut self.rif_prop_edits, p.rank(), e);
            },
            Record::RifDesc(e) => {
                self.rif_desc_block_edits = Some(e);
            },
            Record::ClockLine(k, e) => {
                set_at(&mut self.rif_clock_line_edits, k.rank(), e);
            },
            Record::ResetDeleted(l) => {
                self.rif_reset_deleted.insert(l);
            },
            Record::ResetLines(hw, lines) => {
                if hw {
                    self.rif_reset_hw = Some(lines);
                } else {
                    self.rif_reset_sw = Some(lines);
                }
            },
            Record::ParamLine(l, e) => {
                set_single(&mut self.rif_param_edits, l, e);
            },
            Record::ParamInsert(t) => {
                push_line(&mut self.rif_param_inserts, t);
            },
            Record::GenericLine(l, e) => {
                set_single(&mut self.rif_generic_edits, l, e);
            },
            Record::GenericInsert(t) => {
                push_line(&mut self.rif_generic_inserts, t);
            },
        }
    }

    /// Records a run of changes.
    pub fn record_all(&mut self, rs: Vec<Record>)
        requires
            old(self)@.wf(),
        ensures
            final(self)@ == recorded_all(old(self)@, rs.deep_view()),
            final(self)@.wf(),
    {
        let ghost all = rs.deep_view();
        let mut i: usize = 0;
        while i < rs.len()
            invariant
                i <= rs@.len(),
                all == rs.deep_view(),
                self@.wf(),
                self@ == recorded_all(old(self)@, all.take(i as int)),
            decreases rs@.len() - i,
        {
            self.record(rs[i].clone());
            proof {
                assert(all.take(i + 1).drop_last() =~= all.take(i as int));
                assert(all.take(i + 1).last() == all[i as int]);
            }
            i += 1;
        }
        proof {
            assert(all.take(all.len() as int) =~= all);
        }
    }
}


/// No field has an edit.
pub open spec fn no_field_edits(s: PendingEditsView) -> bool {
    &&& s.dirty.is_empty()
    &&& s.deleted.is_empty()
    &&& s.prop_edits.is_empty()
    &&& s.desc_block_edits.is_empty()
    &&& s.field_intr_desc_block_edits.is_empty()
    &&& s.enum_dirty.is_empty()
    &&& s.enum_deleted.is_empty()
}

/// No register has an edit.
pub open spec fn no_reg_edits(s: PendingEditsView) -> bool {
    &&& s.reg_dirty.is_empty()
    &&& s.reg_prop_edits.is_empty()
    &&& s.reg_desc_block_edits.is_empty()
    &&& s.reg_intr_desc_block_edits.is_empty()
    &&& s.reg_deleted.is_empty()
}

/// No instance has an edit.
pub open spec fn no_inst_edits(s: PendingEditsView) -> bool {
    &&& s.reg_inst_dirty.is_empty()
    &&& s.reg_inst_deleted.is_empty()
    &&& s.reg_override_edits.is_empty()
    &&& s.reg_override_desc_block_edits.is_empty()
    &&& s.field_override_edits.is_empty()
}

/// Every line stays.
pub open spec fn all_kept(s: Seq<LineEditView>) -> bool {
    forall|i: int| 0 <= i < s.len() ==> (#[trigger] s[i]) is Keep
}

/// The RIF itself has no edit.
pub open spec fn no_rif_edits(s: PendingEditsView) -> bool {
    &&& s.rif_dirty.is_empty()
    &&& all_kept(s.rif_prop_edits)
    &&& s.rif_desc_block_edits is None
    &&& all_kept(s.rif_clock_line_edits)
    &&& s.rif_reset_deleted.is_empty()
    &&& s.rif_reset_sw is None
    &&& s.rif_reset_hw is None
    &&& s.rif_param_edits.is_empty()
    &&& s.rif_generic_edits.is_empty()
    &&& s.rif_param_inserts.len() == 0
    &&& s.rif_generic_inserts.len() == 0
}

/// Nothing waits to be saved.
pub open spec fn nothing_pending(s: PendingEditsView) -> bool {
    &&& no_field_edits(s)
    &&& no_reg_edits(s)
    &&& no_inst_edits(s)
    &&& no_rif_edits(s)
}

/// A fresh set of edits has nothing to save.
pub proof fn no_edits_is_nothing_pending()
    ensures
        nothing_pending(no_edits()),
{
}

/// A record always leaves something to save: an edit is never lost. A derived description is
/// recorded only for the enable, mask and pending registers.
pub proof fn recording_leaves_something_pending(s: PendingEditsView, r: RecordView)
    requires
        s.wf(),
        r matches RecordView::FieldIntrDesc(_, k, _) ==> intr_index(k) is Some,
        r matches RecordView::RegIntrDesc(_, k, _) ==> intr_index(k) is Some,
        r matches RecordView::RifLine(_, e) ==> !(e is Keep),
        r matches RecordView::ClockLine(_, e) ==> !(e is Keep),
    ensures
        !nothing_pending(recorded(s, r)),
{
    let t = recorded(s, r);
    match r {
        RecordView::FieldDirty(l) => {
            assert(t.dirty.contains(l));
        },
        RecordView::FieldDeleted(l) => {
            assert(t.deleted.contains(l));
        },
        RecordView::FieldLine(l, _, _) => {
            assert(t.prop_edits.dom().contains(l));
        },
        RecordView::FieldDesc(l, _) => {
            assert(t.desc_block_edits.dom().contains(l));
        },
        RecordView::FieldIntrDesc(l, _, _) => {
            assert(t.field_intr_desc_block_edits.dom().contains(l));
        },
        RecordView::EnumDirty(l) => {
            assert(t.enum_dirty.contains(l));
        },
        RecordView::EnumDeleted(l) => {
            assert(t.enum_deleted.contains(l));
        },
        RecordView::RegDirty(l) => {
            assert(t.reg_dirty.contains(l));
        },
        RecordView::RegLine(l, _, _) => {
            assert(t.reg_prop_edits.dom().contains(l));
        },
        RecordView::RegDesc(l, _) => {
            assert(t.reg_desc_block_edits.dom().contains(l));
        },
        RecordView::RegIntrDesc(l, _, _) => {
            assert(t.reg_intr_desc_block_edits.dom().contains(l));
        },
        RecordView::RegDeleted(l) => {
            assert(t.reg_deleted.contains(l));
        },
        RecordView::InstDirty(l) => {
            assert(t.reg_inst_dirty.contains(l));
        },
        RecordView::InstDeleted(l) => {
            assert(t.reg_inst_deleted.contains(l));
        },
        RecordView::RegOvrLine(l, _, _) => {
            assert(t.reg_override_edits.dom().contains(l));
        },
        RecordView::RegOvrDesc(l, _) => {
            assert(t.reg_override_desc_block_edits.dom().contains(l));
        },
        RecordView::FieldOvrLine(l, _, _, _) => {
            assert(t.field_override_edits.dom().contains(l));
        },
        RecordView::RifDirty(l) => {
            assert(t.rif_dirty.contains(l));
        },
        RecordView::RifLine(p, _) => {
            assert(!(t.rif_prop_edits[p.index()] is Keep));
        },
        RecordView::ClockLine(k, _) => {
            assert(!(t.rif_clock_line_edits[k.index()] is Keep));
        },
        RecordView::ResetDeleted(l) => {
            assert(t.rif_reset_deleted.contains(l));
        },
        RecordView::ParamLine(l, _) => {
            assert(t.rif_param_edits.dom().contains(l));
        },
        RecordView::GenericLine(l, _) => {
            assert(t.rif_generic_edits.dom().contains(l));
        },
        _ => {},
    }
}

fn no_line_edits(m: &LineEdits) -> (r: bool)
    ensures
        r == line_edits(*m).is_empty(),
{
    proof {
        assert(line_edits(*m).dom() =~= m@.dom());
    }
    m.is_empty()
}

fn no_block_edits(m: &BlockEdits) -> (r: bool)
    ensures
        r == block_edits(*m).is_empty(),
{
    proof {
        assert(block_edits(*m).dom() =~= m@.dom());
    }
    m.is_empty()
}

fn no_intr_edits(m: &IntrEdits) -> (r: bool)
    ensures
        r == intr_edits(*m).is_empty(),
{
    proof {
        assert(intr_edits(*m).dom() =~= m@.dom());
    }
    m.is_empty()
}

fn no_single_edits(m: &HashMap<usize, LineEdit>) -> (r: bool)
    ensures
        r == single_edits(*m).is_empty(),
{
    proof {
        assert(single_edits(*m).dom() =~= m@.dom());
    }
    m.is_empty()
}

fn no_ovr_edits(m: &HashMap<usize, Vec<FieldOvrEdit>>) -> (r: bool)
    ensures
        r == ovr_edits(*m).is_empty(),
{
    proof {
        assert(ovr_edits(*m).dom() =~= m@.dom());
    }
    m.is_empty()
}

fn keeps_all(v: &Vec<LineEdit>) -> (r: bool)
    ensures
        r == all_kept(v.deep_view()),
{
    let ghost s = v.deep_view();
    let mut i: usize = 0;
    while i < v.len()
        invariant
            i <= v@.len(),
            s == v.deep_view(),
            forall|k: int| 0 <= k < i ==> (#[trigger] s[k]) is Keep,
        decreases v@.len() - i,
    {
        proof {
            assert(s[i as int] == v@[i as int]@);
        }
        match &v[i] {
            LineEdit::Keep => {},
            _ => {
                return false;
            },
        }
        i += 1;
    }
    true
}

impl PendingEdits {
    fn fields_clean(&self) -> (r: bool)
        ensures
            r == no_field_edits(self@),
    {
        self.dirty.is_empty() && self.deleted.is_empty() && no_line_edits(&self.prop_edits) && no_block_edits(
            &self.desc_block_edits,
        ) && no_intr_edits(&self.field_intr_desc_block_edits) && self.enum_dirty.is_empty()
            && self.enum_deleted.is_empty()
    }

    fn regs_clean(&self) -> (r: bool)
        ensures
            r == no_reg_edits(self@),
    {
        self.reg_dirty.is_empty() && no_line_edits(&self.reg_prop_edits) && no_block_edits(
            &self.reg_desc_block_edits,
        ) && no_intr_edits(&self.reg_intr_desc_block_edits) && self.reg_deleted.is_empty()
    }

    fn insts_clean(&self) -> (r: bool)
        ensures
            r == no_inst_edits(self@),
    {
        self.reg_inst_dirty.is_empty() && self.reg_inst_deleted.is_empty() && no_line_edits(
            &self.reg_override_edits,
        ) && no_block_edits(&self.reg_override_desc_block_edits) && no_ovr_edits(&self.field_override_edits)
    }

    fn rif_clean(&self) -> (r: bool)
        ensures
            r == no_rif_edits(self@),
    {
        self.rif_dirty.is_empty() && keeps_all(&self.rif_prop_edits) && self.rif_desc_block_edits.is_none()
            && keeps_all(&self.rif_clock_line_edits) && self.rif_reset_deleted.is_empty()
            && self.rif_reset_sw.is_none() && self.rif_reset_hw.is_none() && no_single_edits(&self.rif_param_edits)
            && no_single_edits(&self.rif_generic_edits) && self.rif_param_inserts.len() == 0
            && self.rif_generic_inserts.len() == 0
    }

    /// Whether nothing waits to be saved.
    pub fn is_empty(&self) -> (r: bool)
        ensures
            r == nothing_pending(self@),
    {
        self.fields_clean() && self.regs_clean() && self.insts_clean() && self.rif_clean()
    }
}

/// The edits of the item declared at a line.
pub fn lines_at(m: &LineEdits, line: usize) -> (r: Option<&Vec<LineEdit>>)
    ensures
        match r {
            Some(v) => line_edits(*m).contains_key(line) && v.deep_view() == line_edits(*m)[line],
            None => !line_edits(*m).contains_key(line),
        },
{
    m.get(&line)
}

/// The edit of the description block of the item declared at a line.
pub fn block_at(m: &BlockEdits, line: usize) -> (r: Option<&BlockEdit>)
    ensures
        match r {
            Some(b) => block_edits(*m).contains_key(line) && b@ == block_edits(*m)[line],
            None => !block_edits(*m).contains_key(line),
        },
{
    m.get(&line)
}

/// The edits of the derived descriptions of the item declared at a line.
pub fn intr_at(m: &IntrEdits, line: usize) -> (r: Option<&Vec<Option<BlockEdit>>>)
    ensures
        match r {
            Some(v) => intr_edits(*m).contains_key(line) && v.deep_view() == intr_edits(*m)[line],
            None => !intr_edits(*m).contains_key(line),
        },
{
    m.get(&line)
}

/// The edit of a line.
pub fn single_at(m: &HashMap<usize, LineEdit>, line: usize) -> (r: Option<&LineEdit>)
    ensures
        match r {
            Some(x) => single_edits(*m).contains_key(line) && x@ == single_edits(*m)[line],
            None => !single_edits(*m).contains_key(line),
        },
{
    m.get(&line)
}

/// The edits of what the instance declared at a line overrides for its fields.
pub fn ovrs_at(m: &HashMap<usize, Vec<FieldOvrEdit>>, line: usize) -> (r: Option<&Vec<FieldOvrEdit>>)
    ensures
        match r {
            Some(v) => ovr_edits(*m).contains_key(line) && v.deep_view() == ovr_edits(*m)[line],
            None => !ovr_edits(*m).contains_key(line),
        },
{
    m.get(&line)
}

} // verus!
