//! Editors of a register.
use vstd::prelude::*;
use crate::action::{EditAction, EditActionView};
use crate::bridge::{expr_read, read_expr};
use crate::field_editor::{nonzero_text, opt_reset_text, parse_reset, reset_parsed, show_opt_reset, show_small};
use crate::lines::{join_text, joined};
use crate::model::page::{Instance, InstanceView, Page, PageView, RegOvr, RegOvrView};
use crate::model::register::{RegItem, RegItemView, RegisterDef, RegisterDefView};
use crate::model::values::{
    BusWidth, Dim, DimView, Expr, ExprView, External, HwAcc, IntrClear, IntrInfo, IntrInfoView, Pulse,
    PulseView, Reset, ResetView, Trigger, Vis,
};
use crate::names::{free_name, is_taken, pick_name};
use crate::number::{
    address_value, byte_value, decimal, hexadecimal, read_address, read_byte, show_hex, show_unsigned,
};
use crate::search::{first, lemma_is_first, lemma_no_first};
use crate::source::is_auto;
use crate::stage_reg::{page_is_auto, AddRegKind, AddRegKindView, Companion, CompanionView};
use crate::text::{is_blank, join, join3, trim, trimmed};
use crate::vals::{
    RegAltVals, RegAltValsView, RegDefVals, RegDefValsView, RegIntrVals, RegIntrValsView, RegOverrideVals,
    RegOverrideValsView,
};

verus! {

/// What the user sees of the access pulses of a register.
#[derive(Clone, Copy, Debug, PartialEq, Eq, Structural)]
pub struct PulseBuffers {
    /// Whether a write gives a pulse.
    pub wr_on: bool,
    /// Whether the write pulse is registered.
    pub wr_reg: bool,
    /// Whether a read gives a pulse.
    pub rd_on: bool,
    /// Whether the read pulse is registered.
    pub rd_reg: bool,
    /// Whether an access gives a pulse.
    pub acc_on: bool,
    /// Whether the access pulse is registered.
    pub acc_reg: bool,
}

/// What the user sees of an interrupt of a register.
#[derive(Debug)]
pub struct BlockBuffers {
    /// Trigger.
    pub trigger: Trigger,
    /// Clear.
    pub clear: IntrClear,
    /// Whether there is an enable register.
    pub enable_on: bool,
    /// Reset of the enable register.
    pub enable_rst: String,
    /// Whether there is a mask register.
    pub mask_on: bool,
    /// Reset of the mask register.
    pub mask_rst: String,
    /// Whether there is a pending register.
    pub pending_on: bool,
}

/// The value of a [`BlockBuffers`].
pub struct BlockBuffersView {
    pub trigger: Trigger,
    pub clear: IntrClear,
    pub enable_on: bool,
    pub enable_rst: Seq<char>,
    pub mask_on: bool,
    pub mask_rst: Seq<char>,
    pub pending_on: bool,
}

impl DeepView for BlockBuffers {
    type V = BlockBuffersView;

    open spec fn deep_view(&self) -> BlockBuffersView {
        BlockBuffersView {
            trigger: self.trigger,
            clear: self.clear,
            enable_on: self.enable_on,
            enable_rst: self.enable_rst.deep_view(),
            mask_on: self.mask_on,
            mask_rst: self.mask_rst.deep_view(),
            pending_on: self.pending_on,
        }
    }
}

impl View for BlockBuffers {
    type V = BlockBuffersView;

    open spec fn view(&self) -> BlockBuffersView {
        self.deep_view()
    }
}

impl Clone for BlockBuffers {
    fn clone(&self) -> (r: Self)
        ensures
            r@ == self@,
    {
        let r = BlockBuffers {
            trigger: self.trigger,
            clear: self.clear,
            enable_on: self.enable_on,
            enable_rst: self.enable_rst.clone(),
            mask_on: self.mask_on,
            mask_rst: self.mask_rst.clone(),
            pending_on: self.pending_on,
        };
        r
    }
}

/// What the user sees of a register and can change.
#[derive(Debug)]
pub struct RegBuffers {
    /// Name.
    pub name: String,
    /// Group.
    pub group: String,
    /// Public description.
    pub desc: String,
    /// Access pulses.
    pub pulse: PulseBuffers,
    /// Address of the instance, in hexadecimal.
    pub addr: String,
    /// Array size of the definition; blank or zero for no array.
    pub array: String,
    /// Array size of the instance; blank for no array.
    pub inst_array: String,
    /// Whether this is an interrupt register.
    pub has_intr: bool,
    /// Primary interrupt.
    pub intr: BlockBuffers,
    /// Name of the secondary interrupt; blank for none.
    pub alt_name: String,
    /// Secondary interrupt.
    pub alt: BlockBuffers,
    /// Visibility.
    pub visibility: Vis,
    /// Own clock; blank for none.
    pub clk: String,
    /// Own reset; blank for none.
    pub rst: String,
    /// External logic.
    pub external: External,
}

/// The value of a [`RegBuffers`].
pub struct RegBuffersView {
    pub name: Seq<char>,
    pub group: Seq<char>,
    pub desc: Seq<char>,
    pub pulse: PulseBuffers,
    pub addr: Seq<char>,
    pub array: Seq<char>,
    pub inst_array: Seq<char>,
    pub has_intr: bool,
    pub intr: BlockBuffersView,
    pub alt_name: Seq<char>,
    pub alt: BlockBuffersView,
    pub visibility: Vis,
    pub clk: Seq<char>,
    pub rst: Seq<char>,
    pub external: External,
}

impl DeepView for RegBuffers {
    type V = RegBuffersView;

    open spec fn deep_view(&self) -> RegBuffersView {
        RegBuffersView {
            name: self.name.deep_view(),
            group: self.group.deep_view(),
            desc: self.desc.deep_view(),
            pulse: self.pulse,
            addr: self.addr.deep_view(),
            array: self.array.deep_view(),
            inst_array: self.inst_array.deep_view(),
            has_intr: self.has_intr,
            intr: self.intr.deep_view(),
            alt_name: self.alt_name.deep_view(),
            alt: self.alt.deep_view(),
            visibility: self.visibility,
            clk: self.clk.deep_view(),
            rst: self.rst.deep_view(),
            external: self.external,
        }
    }
}

impl View for RegBuffers {
    type V = RegBuffersView;

    open spec fn view(&self) -> RegBuffersView {
        self.deep_view()
    }
}

impl Clone for RegBuffers {
    fn clone(&self) -> (r: Self)
        ensures
            r@ == self@,
    {
        let r = RegBuffers {
            name: self.name.clone(),
            group: self.group.clone(),
            desc: self.desc.clone(),
            pulse: self.pulse,
            addr: self.addr.clone(),
            array: self.array.clone(),
            inst_array: self.inst_array.clone(),
            has_intr: self.has_intr,
            intr: self.intr.clone(),
            alt_name: self.alt_name.clone(),
            alt: self.alt.clone(),
            visibility: self.visibility,
            clk: self.clk.clone(),
            rst: self.rst.clone(),
            external: self.external,
        };
        r
    }
}

/// Buffers for the register that is edited: its definition, and the address and array size of
/// the instance in view.
#[derive(Debug)]
pub struct RegEditor {
    /// RIF.
    pub rif_type: String,
    /// Register type.
    pub reg_type: String,
    /// Instance that the buffers were loaded from.
    pub inst_name: String,
    /// Clock of registered pulses.
    pub default_clk: String,
    /// Whether the address can be changed.
    pub addr_editable: bool,
    /// Data width of the RIF.
    pub data_width: BusWidth,
    /// Whether the array size of the definition can be changed.
    pub array_editable: bool,
    /// Whether the array size of the instance can be changed.
    pub inst_array_editable: bool,
    /// The buffers.
    pub buf: RegBuffers,
    /// The buffers as they were loaded.
    pub orig: RegBuffers,
    /// What is wrong with the buffers.
    pub parse_err: Option<String>,
}

/// The value of a [`RegEditor`].
pub struct RegEditorView {
    pub rif_type: Seq<char>,
    pub reg_type: Seq<char>,
    pub inst_name: Seq<char>,
    pub default_clk: Seq<char>,
    pub addr_editable: bool,
    pub data_width: BusWidth,
    pub array_editable: bool,
    pub inst_array_editable: bool,
    pub buf: RegBuffersView,
    pub orig: RegBuffersView,
    pub parse_err: Option<Seq<char>>,
}

impl DeepView for RegEditor {
    type V = RegEditorView;

    open spec fn deep_view(&self) -> RegEditorView {
        RegEditorView {
            rif_type: self.rif_type.deep_view(),
            reg_type: self.reg_type.deep_view(),
            inst_name: self.inst_name.deep_view(),
            default_clk: self.default_clk.deep_view(),
            addr_editable: self.addr_editable,
            data_width: self.data_width,
            array_editable: self.array_editable,
            inst_array_editable: self.inst_array_editable,
            buf: self.buf.deep_view(),
            orig: self.orig.deep_view(),
            parse_err: self.parse_err.deep_view(),
        }
    }
}

impl View for RegEditor {
    type V = RegEditorView;

    open spec fn view(&self) -> RegEditorView {
        self.deep_view()
    }
}

/// Buffers for a new register.
#[derive(Debug)]
pub struct RegAddEditor {
    /// RIF.
    pub rif_type: String,
    /// Page.
    pub page_name: String,
    /// Register types of the page.
    pub page_types: Vec<String>,
    /// Whether the addresses of the page are given in order.
    pub page_is_auto: bool,
    /// What is created.
    pub kind: AddRegKind,
    /// Name.
    pub name: String,
    /// Address, on a page with explicit addresses.
    pub addr: u64,
    /// What is wrong with the buffers.
    pub parse_err: Option<String>,
}

/// The value of a [`RegAddEditor`].
pub struct RegAddEditorView {
    pub rif_type: Seq<char>,
    pub page_name: Seq<char>,
    pub page_types: Seq<Seq<char>>,
    pub page_is_auto: bool,
    pub kind: AddRegKindView,
    pub name: Seq<char>,
    pub addr: u64,
    pub parse_err: Option<Seq<char>>,
}

impl DeepView for RegAddEditor {
    type V = RegAddEditorView;

    open spec fn deep_view(&self) -> RegAddEditorView {
        RegAddEditorView {
            rif_type: self.rif_type.deep_view(),
            page_name: self.page_name.deep_view(),
            page_types: self.page_types.deep_view(),
            page_is_auto: self.page_is_auto,
            kind: self.kind.deep_view(),
            name: self.name.deep_view(),
            addr: self.addr,
            parse_err: self.parse_err.deep_view(),
        }
    }
}

impl View for RegAddEditor {
    type V = RegAddEditorView;

    open spec fn view(&self) -> RegAddEditorView {
        self.deep_view()
    }
}

/// A register that is deleted once this is confirmed.
#[derive(Debug)]
pub struct PendingDeleteReg {
    /// RIF.
    pub rif_type: String,
    /// Page.
    pub page_name: String,
    /// Register type.
    pub reg_type: String,
    /// Instance; `None` for the definition.
    pub inst_name: Option<String>,
}

/// The value of a [`PendingDeleteReg`].
pub struct PendingDeleteRegView {
    pub rif_type: Seq<char>,
    pub page_name: Seq<char>,
    pub reg_type: Seq<char>,
    pub inst_name: Option<Seq<char>>,
}

impl DeepView for PendingDeleteReg {
    type V = PendingDeleteRegView;

    open spec fn deep_view(&self) -> PendingDeleteRegView {
        PendingDeleteRegView {
            rif_type: self.rif_type.deep_view(),
            page_name: self.page_name.deep_view(),
            reg_type: self.reg_type.deep_view(),
            inst_name: self.inst_name.deep_view(),
        }
    }
}

impl View for PendingDeleteReg {
    type V = PendingDeleteRegView;

    open spec fn view(&self) -> PendingDeleteRegView {
        self.deep_view()
    }
}

/// An address that another register has, until the user says what is to be done.
#[derive(Debug)]
pub struct PendingRegAddrConflict {
    /// RIF.
    pub rif_type: String,
    /// Register type.
    pub orig_name: String,
    /// Instance that moves.
    pub inst_name: String,
    /// Address that it moves to.
    pub new_addr: u64,
    /// Instance that has the address.
    pub target_name: String,
    /// The whole edit, with the new address.
    pub vals: RegDefVals,
    /// What moves where the two change places; `None` where they cannot.
    pub swap: Option<Vec<Companion>>,
    /// What moves where the following registers make room; `None` where they cannot.
    pub shift: Option<Vec<Companion>>,
    /// What moves where the registers in between close up; `None` where they cannot.
    pub insert: Option<Vec<Companion>>,
}

/// The value of a [`PendingRegAddrConflict`].
pub struct PendingRegAddrConflictView {
    pub rif_type: Seq<char>,
    pub orig_name: Seq<char>,
    pub inst_name: Seq<char>,
    pub new_addr: u64,
    pub target_name: Seq<char>,
    pub vals: RegDefValsView,
    pub swap: Option<Seq<CompanionView>>,
    pub shift: Option<Seq<CompanionView>>,
    pub insert: Option<Seq<CompanionView>>,
}

impl DeepView for PendingRegAddrConflict {
    type V = PendingRegAddrConflictView;

    open spec fn deep_view(&self) -> PendingRegAddrConflictView {
        PendingRegAddrConflictView {
            rif_type: self.rif_type.deep_view(),
            orig_name: self.orig_name.deep_view(),
            inst_name: self.inst_name.deep_view(),
            new_addr: self.new_addr,
            target_name: self.target_name.deep_view(),
            vals: self.vals.deep_view(),
            swap: self.swap.deep_view(),
            shift: self.shift.deep_view(),
            insert: self.insert.deep_view(),
        }
    }
}

impl View for PendingRegAddrConflict {
    type V = PendingRegAddrConflictView;

    open spec fn view(&self) -> PendingRegAddrConflictView {
        self.deep_view()
    }
}

/// What is done about an address that another register has.
#[derive(Clone, Copy, Debug, PartialEq, Eq, Structural)]
pub enum RegAddrResolution {
    Swap,
    Shift,
    Insert,
}

/// Which array size changes.
#[derive(Debug)]
pub enum RegArrayChangeKind {
    /// That of the definition, with the rest of the edit.
    Definition(RegDefVals),
    /// That of the instance; `None` for no array.
    Instance(Option<Expr>),
}

/// The value of a [`RegArrayChangeKind`].
pub enum RegArrayChangeKindView {
    Definition(RegDefValsView),
    Instance(Option<ExprView>),
}

impl DeepView for RegArrayChangeKind {
    type V = RegArrayChangeKindView;

    open spec fn deep_view(&self) -> RegArrayChangeKindView {
        match self {
            RegArrayChangeKind::Definition(a) => RegArrayChangeKindView::Definition(a.deep_view()),
            RegArrayChangeKind::Instance(a) => RegArrayChangeKindView::Instance(a.deep_view()),
        }
    }
}

impl View for RegArrayChangeKind {
    type V = RegArrayChangeKindView;

    open spec fn view(&self) -> RegArrayChangeKindView {
        self.deep_view()
    }
}

/// An array size that is changed once this is confirmed.
#[derive(Debug)]
pub struct PendingRegArrayChange {
    /// RIF.
    pub rif_type: String,
    /// Register type.
    pub orig_name: String,
    /// Instance.
    pub inst_name: String,
    /// The change.
    pub kind: RegArrayChangeKind,
    /// Fields that become arrays.
    pub fields_to_convert: Vec<String>,
    /// Registers that make room.
    pub companions: Option<Vec<Companion>>,
}

/// The value of a [`PendingRegArrayChange`].
pub struct PendingRegArrayChangeView {
    pub rif_type: Seq<char>,
    pub orig_name: Seq<char>,
    pub inst_name: Seq<char>,
    pub kind: RegArrayChangeKindView,
    pub fields_to_convert: Seq<Seq<char>>,
    pub companions: Option<Seq<CompanionView>>,
}

impl DeepView for PendingRegArrayChange {
    type V = PendingRegArrayChangeView;

    open spec fn deep_view(&self) -> PendingRegArrayChangeView {
        PendingRegArrayChangeView {
            rif_type: self.rif_type.deep_view(),
            orig_name: self.orig_name.deep_view(),
            inst_name: self.inst_name.deep_view(),
            kind: self.kind.deep_view(),
            fields_to_convert: self.fields_to_convert.deep_view(),
            companions: self.companions.deep_view(),
        }
    }
}

impl View for PendingRegArrayChange {
    type V = PendingRegArrayChangeView;

    open spec fn view(&self) -> PendingRegArrayChangeView {
        self.deep_view()
    }
}

/// Buffers for what an instance overrides for its register.
#[derive(Debug)]
pub struct RegOverrideEditor {
    /// RIF.
    pub rif_type: String,
    /// Instance.
    pub inst_name: String,
    /// Description.
    pub desc: String,
    /// Description, as it was loaded.
    pub desc_orig: String,
    /// Whether hardware access is overridden.
    pub hw_on: bool,
    /// Whether hardware access is overridden, as it was loaded.
    pub hw_on_orig: bool,
    /// Hardware access.
    pub hw: HwAcc,
    /// Hardware access, as it was loaded.
    pub hw_orig: HwAcc,
    /// Condition; blank for none.
    pub optional: String,
    /// Condition; blank for none, as it was loaded.
    pub optional_orig: String,
    /// Whether there is an access for when the condition does not hold.
    pub optional_acc_on: bool,
    /// Whether there is an access for when the condition does not hold, as it was loaded.
    pub optional_acc_on_orig: bool,
    /// That access.
    pub optional_acc: HwAcc,
    /// That access, as it was loaded.
    pub optional_acc_orig: HwAcc,
    /// What is wrong with the buffers.
    pub parse_err: Option<String>,
}

/// The value of a [`RegOverrideEditor`].
pub struct RegOverrideEditorView {
    pub rif_type: Seq<char>,
    pub inst_name: Seq<char>,
    pub desc: Seq<char>,
    pub desc_orig: Seq<char>,
    pub hw_on: bool,
    pub hw_on_orig: bool,
    pub hw: HwAcc,
    pub hw_orig: HwAcc,
    pub optional: Seq<char>,
    pub optional_orig: Seq<char>,
    pub optional_acc_on: bool,
    pub optional_acc_on_orig: bool,
    pub optional_acc: HwAcc,
    pub optional_acc_orig: HwAcc,
    pub parse_err: Option<Seq<char>>,
}

impl DeepView for RegOverrideEditor {
    type V = RegOverrideEditorView;

    open spec fn deep_view(&self) -> RegOverrideEditorView {
        RegOverrideEditorView {
            rif_type: self.rif_type.deep_view(),
            inst_name: self.inst_name.deep_view(),
            desc: self.desc.deep_view(),
            desc_orig: self.desc_orig.deep_view(),
            hw_on: self.hw_on,
            hw_on_orig: self.hw_on_orig,
            hw: self.hw,
            hw_orig: self.hw_orig,
            optional: self.optional.deep_view(),
            optional_orig: self.optional_orig.deep_view(),
            optional_acc_on: self.optional_acc_on,
            optional_acc_on_orig: self.optional_acc_on_orig,
            optional_acc: self.optional_acc,
            optional_acc_orig: self.optional_acc_orig,
            parse_err: self.parse_err.deep_view(),
        }
    }
}

impl View for RegOverrideEditor {
    type V = RegOverrideEditorView;

    open spec fn view(&self) -> RegOverrideEditorView {
        self.deep_view()
    }
}

/// The address that a text stands for, always in hexadecimal; otherwise the text of the error.
pub open spec fn addr_parsed(s: Seq<char>) -> Result<u64, Seq<char>> {
    match address_value(trimmed(s)) {
        Some(v) => Ok(v),
        None => Err("Invalid address '"@ + trimmed(s) + "'"@),
    }
}

/// Reads an address, which is in hexadecimal with or without `0x`.
pub fn parse_addr(s: &str) -> (r: Result<u64, String>)
    ensures
        match addr_parsed(s@) {
            Ok(v) => r == Ok::<u64, String>(v),
            Err(e) => r is Err && r->Err_0@ == e,
        },
{
    let t = trim(s);
    match read_address(t.as_str()) {
        Some(v) => Ok(v),
        None => Err(join3("Invalid address '", t.as_str(), "'")),
    }
}

/// Bytes that an address is aligned to.
pub open spec fn bus_bytes(w: BusWidth) -> u8 {
    match w {
        BusWidth::W8(_) => 1,
        BusWidth::W16(_) => 2,
        BusWidth::W32(_) => 4,
        BusWidth::W64(_) => 8,
        BusWidth::W128(_) => 16,
    }
}

/// Bytes that an address is aligned to.
pub fn nb_byte(w: BusWidth) -> (r: u8)
    ensures
        r == bus_bytes(w),
{
    match w {
        BusWidth::W8(_) => 1,
        BusWidth::W16(_) => 2,
        BusWidth::W32(_) => 4,
        BusWidth::W64(_) => 8,
        BusWidth::W128(_) => 16,
    }
}

/// Kinds of access pulses.
pub open spec fn on_write() -> spec_fn(PulseView) -> bool {
    |p: PulseView| p is Write
}

pub open spec fn on_read() -> spec_fn(PulseView) -> bool {
    |p: PulseView| p is Read
}

pub open spec fn on_access() -> spec_fn(PulseView) -> bool {
    |p: PulseView| p is Access
}

/// The clock of a pulse.
pub open spec fn pulse_clock(p: PulseView) -> Seq<char> {
    match p {
        PulseView::Write(c) => c,
        PulseView::Read(c) => c,
        PulseView::Access(c) => c,
    }
}

/// Whether there is a pulse of a kind, and whether it is registered. A pulse that is not there
/// would be.
pub open spec fn pulse_buffers(s: Seq<PulseView>, kind: spec_fn(PulseView) -> bool) -> (bool, bool) {
    match first(s, kind) {
        Some(k) => (true, pulse_clock(s[k]).len() > 0),
        None => (false, true),
    }
}

/// The primary interrupt of a register.
pub open spec fn primary(d: RegisterDefView) -> Option<IntrInfoView> {
    if d.interrupt.len() > 0 {
        Some(d.interrupt[0])
    } else {
        None
    }
}

/// The secondary interrupt of a register.
pub open spec fn secondary(d: RegisterDefView) -> Option<IntrInfoView> {
    if d.interrupt.len() > 1 {
        Some(d.interrupt[1])
    } else {
        None
    }
}

/// The reset of the enable register of a block.
pub open spec fn enable_of(b: Option<IntrInfoView>) -> Option<ResetView> {
    match b {
        Some(i) => i.enable,
        None => None,
    }
}

/// The reset of the mask register of a block.
pub open spec fn mask_of(b: Option<IntrInfoView>) -> Option<ResetView> {
    match b {
        Some(i) => i.mask,
        None => None,
    }
}

/// The trigger of a block, or else a given one.
pub open spec fn trigger_of(b: Option<IntrInfoView>, other: Trigger) -> Trigger {
    match b {
        Some(i) => i.trigger,
        None => other,
    }
}

/// The clear of a block, or else a given one.
pub open spec fn clear_of(b: Option<IntrInfoView>, other: IntrClear) -> IntrClear {
    match b {
        Some(i) => i.clear,
        None => other,
    }
}

/// Whether a block has a pending register.
pub open spec fn pending_of(b: Option<IntrInfoView>) -> bool {
    match b {
        Some(i) => i.pending,
        None => false,
    }
}

/// An optional text; empty where there is none.
pub open spec fn text_or_empty(t: Option<Seq<char>>) -> Seq<char> {
    match t {
        Some(x) => x,
        None => seq![],
    }
}

/// The array size of the instance in view.
pub open spec fn array_of(i: Option<InstanceView>) -> ExprView {
    match i {
        Some(x) => x.array,
        None => ExprView { text: seq![], rif: seq![] },
    }
}

/// What the editor of a register is loaded from.
pub struct RegSource {
    pub inst_name: Seq<char>,
    pub reg_type: Seq<char>,
    pub def: RegisterDefView,
    pub addr: u64,
    pub addr_editable: bool,
    pub rif_type: Seq<char>,
    pub default_clk: Seq<char>,
    pub data_width: BusWidth,
    pub src_inst: Option<InstanceView>,
    pub array_scope_ok: bool,
}

/// The buffers of an interrupt block, with a trigger and a clear for one that is not there.
pub open spec fn block_shown(b: Option<IntrInfoView>, trigger: Trigger, clear: IntrClear) -> BlockBuffersView {
    BlockBuffersView {
        trigger: trigger_of(b, trigger),
        clear: clear_of(b, clear),
        enable_on: enable_of(b) is Some,
        enable_rst: opt_reset_text(enable_of(b)),
        mask_on: mask_of(b) is Some,
        mask_rst: opt_reset_text(mask_of(b)),
        pending_on: pending_of(b),
    }
}

/// Whether buffers are those of a register. A new secondary interrupt starts out like the
/// primary one.
pub open spec fn shows_reg(e: RegBuffersView, s: RegSource) -> bool {
    let p = primary(s.def);
    let a = secondary(s.def);
    &&& e.name == s.def.name
    &&& e.group == s.def.group_name
    &&& e.desc == s.def.description.public
    &&& (e.pulse.wr_on, e.pulse.wr_reg) == pulse_buffers(s.def.pulse, on_write())
    &&& (e.pulse.rd_on, e.pulse.rd_reg) == pulse_buffers(s.def.pulse, on_read())
    &&& (e.pulse.acc_on, e.pulse.acc_reg) == pulse_buffers(s.def.pulse, on_access())
    &&& e.addr == hexadecimal(s.addr as nat)
    &&& e.array == match s.def.array {
        DimView::Value(n) => nonzero_text(n as int),
        DimView::Param(_) => seq![],
    }
    &&& e.inst_array == array_of(s.src_inst).rif
    &&& e.has_intr == (p is Some)
    &&& e.intr == block_shown(p, Trigger::High, IntrClear::Read)
    &&& e.alt_name == match a {
        Some(i) => i.name,
        None => seq![],
    }
    &&& e.alt == block_shown(a, e.intr.trigger, e.intr.clear)
    &&& e.visibility == s.def.visibility
    &&& e.clk == text_or_empty(s.def.clk)
    &&& e.rst == text_or_empty(s.def.rst)
    &&& e.external == s.def.external
}

/// Whether an editor was loaded from a register.
pub open spec fn loaded_from(e: RegEditorView, s: RegSource) -> bool {
    &&& e.rif_type == s.rif_type
    &&& e.reg_type == s.reg_type
    &&& e.inst_name == s.inst_name
    &&& e.default_clk == s.default_clk
    &&& e.addr_editable == s.addr_editable
    &&& e.data_width == s.data_width
    &&& e.array_editable == (s.array_scope_ok && s.def.array is Value && array_of(
        s.src_inst,
    ).text.len() == 0)
    &&& e.inst_array_editable == (s.array_scope_ok && s.addr_editable && s.def.array == DimView::Value(
        0,
    ))
    &&& shows_reg(e.orig, s)
    &&& e.buf == e.orig
    &&& e.parse_err is None
}

/// Whether the primary interrupt is as it was loaded; where there is none, there is nothing to
/// compare.
pub open spec fn primary_unchanged(e: RegEditorView) -> bool {
    !e.buf.has_intr || e.buf.intr == e.orig.intr
}

/// Whether the secondary interrupt is as it was loaded; where there is none, there is nothing
/// to compare.
pub open spec fn secondary_unchanged(e: RegEditorView) -> bool {
    trimmed(e.buf.alt_name).len() == 0 || e.buf.alt == e.orig.alt
}

/// Whether every buffer that counts is as it was loaded.
pub open spec fn reg_unchanged(e: RegEditorView) -> bool {
    &&& e.buf.name == e.orig.name
    &&& e.buf.group == e.orig.group
    &&& e.buf.desc == e.orig.desc
    &&& e.buf.pulse == e.orig.pulse
    &&& e.buf.addr == e.orig.addr
    &&& e.buf.array == e.orig.array
    &&& e.buf.inst_array == e.orig.inst_array
    &&& e.buf.has_intr == e.orig.has_intr
    &&& primary_unchanged(e)
    &&& e.buf.alt_name == e.orig.alt_name
    &&& secondary_unchanged(e)
    &&& e.buf.visibility == e.orig.visibility
    &&& e.buf.clk == e.orig.clk
    &&& e.buf.rst == e.orig.rst
    &&& e.buf.external == e.orig.external
}

/// A register whose buffers were just loaded counts as unchanged.
pub proof fn loaded_reg_is_unchanged(e: RegEditorView)
    requires
        e.buf == e.orig,
    ensures
        reg_unchanged(e),
{
}

/// The clock of a pulse that is on.
pub open spec fn pulse_on(e: RegEditorView, registered: bool) -> Seq<char> {
    if registered {
        e.default_clk
    } else {
        seq![]
    }
}

/// The pulses that the buffers stand for. All registered ones share one clock.
pub open spec fn pulses_of(e: RegEditorView) -> Seq<PulseView> {
    (if e.buf.pulse.wr_on {
        seq![PulseView::Write(pulse_on(e, e.buf.pulse.wr_reg))]
    } else {
        seq![]
    }) + (if e.buf.pulse.rd_on {
        seq![PulseView::Read(pulse_on(e, e.buf.pulse.rd_reg))]
    } else {
        seq![]
    }) + (if e.buf.pulse.acc_on {
        seq![PulseView::Access(pulse_on(e, e.buf.pulse.acc_reg))]
    } else {
        seq![]
    })
}

/// The new address, where it can be changed and was.
pub open spec fn addr_edit(e: RegEditorView) -> Result<Option<u64>, Seq<char>> {
    if e.addr_editable && e.buf.addr != e.orig.addr {
        match addr_parsed(e.buf.addr) {
            Ok(v) => if v % (bus_bytes(e.data_width) as u64) != 0 {
                Err(
                    "Address must be aligned to "@ + decimal(bus_bytes(e.data_width) as int)
                        + " bytes (the RIF's data width)"@,
                )
            } else {
                Ok(Some(v))
            },
            Err(t) => Err(t),
        }
    } else {
        Ok(None)
    }
}

/// The new array size, where it can be changed and was.
pub open spec fn array_edit(e: RegEditorView) -> Result<Option<u8>, Seq<char>> {
    if e.array_editable && e.buf.array != e.orig.array {
        if trimmed(e.buf.array).len() == 0 {
            Ok(Some(0))
        } else {
            match byte_value(trimmed(e.buf.array)) {
                Some(v) => Ok(Some(v)),
                None => Err("Invalid array size"@),
            }
        }
    } else {
        Ok(None)
    }
}

/// The reset of a derived register, where there is one.
pub open spec fn derived_reset(on: bool, text: Seq<char>, what: Seq<char>) -> Result<
    Option<ResetView>,
    Seq<char>,
> {
    if on {
        match reset_parsed(text, false) {
            Ok(v) => Ok(Some(v)),
            Err(t) => Err(what + t),
        }
    } else {
        Ok(None)
    }
}

/// The primary interrupt: left alone, removed or set.
pub open spec fn primary_edit(e: RegEditorView) -> Result<Option<Option<RegIntrValsView>>, Seq<char>> {
    if !e.buf.has_intr {
        if e.orig.has_intr {
            Ok(Some(None))
        } else {
            Ok(None)
        }
    } else {
        match derived_reset(e.buf.intr.enable_on, e.buf.intr.enable_rst, "Enable reset: "@) {
            Err(t) => Err(t),
            Ok(enable) => match derived_reset(e.buf.intr.mask_on, e.buf.intr.mask_rst, "Mask reset: "@) {
                Err(t) => Err(t),
                Ok(mask) => Ok(
                    Some(
                        Some(
                            RegIntrValsView {
                                trigger: e.buf.intr.trigger,
                                clear: e.buf.intr.clear,
                                enable,
                                mask,
                                pending: e.buf.intr.pending_on,
                            },
                        ),
                    ),
                ),
            },
        }
    }
}

/// The secondary interrupt: left alone, removed or set. It needs a primary one.
pub open spec fn secondary_edit(e: RegEditorView) -> Result<Option<Option<RegAltValsView>>, Seq<char>> {
    if !e.buf.has_intr {
        Ok(None)
    } else if trimmed(e.buf.alt_name).len() == 0 {
        Ok(Some(None))
    } else {
        match derived_reset(e.buf.alt.enable_on, e.buf.alt.enable_rst, "Alt enable reset: "@) {
            Err(t) => Err(t),
            Ok(enable) => match derived_reset(e.buf.alt.mask_on, e.buf.alt.mask_rst, "Alt mask reset: "@) {
                Err(t) => Err(t),
                Ok(mask) => Ok(
                    Some(
                        Some(
                            RegAltValsView {
                                name: trimmed(e.buf.alt_name),
                                trigger: e.buf.alt.trigger,
                                clear: e.buf.alt.clear,
                                enable,
                                mask,
                                pending: e.buf.alt.pending_on,
                            },
                        ),
                    ),
                ),
            },
        }
    }
}

/// A text without the blanks around it; `None` where nothing is left.
pub open spec fn filled(s: Seq<char>) -> Option<Seq<char>> {
    if trimmed(s).len() == 0 {
        None
    } else {
        Some(trimmed(s))
    }
}

/// The values that the buffers stand for, or what is wrong with them. The group is carried over
/// only where it was edited.
pub open spec fn reg_vals(e: RegEditorView) -> Result<RegDefValsView, Seq<char>> {
    if trimmed(e.buf.name).len() == 0 {
        Err("Name is empty"@)
    } else if trimmed(e.buf.group).len() == 0 {
        Err("Group is empty"@)
    } else {
        match (addr_edit(e), array_edit(e), primary_edit(e), secondary_edit(e)) {
            (Err(t), _, _, _) => Err(t),
            (Ok(_), Err(t), _, _) => Err(t),
            (Ok(_), Ok(_), Err(t), _) => Err(t),
            (Ok(_), Ok(_), Ok(_), Err(t)) => Err(t),
            (Ok(addr), Ok(array), Ok(intr), Ok(alt)) => Ok(
                RegDefValsView {
                    name: trimmed(e.buf.name),
                    group: if trimmed(e.buf.group) != e.orig.group {
                        Some(trimmed(e.buf.group))
                    } else {
                        None
                    },
                    desc: e.buf.desc,
                    pulse: pulses_of(e),
                    addr,
                    intr,
                    alt,
                    array,
                    visibility: e.buf.visibility,
                    clk: filled(e.buf.clk),
                    rst: filled(e.buf.rst),
                    external: e.buf.external,
                },
            ),
        }
    }
}

/// What an editor makes of its buffers.
pub open spec fn reg_built(e: RegEditorView, after: RegEditorView, action: Option<EditActionView>) -> bool {
    match reg_vals(e) {
        Err(t) => action is None && after == (RegEditorView { parse_err: Some(t), ..e }),
        Ok(vals) => after == (RegEditorView { parse_err: None, ..e }) && action == Some(
            EditActionView::UpdateRegDef {
                rif_type: e.rif_type,
                orig_name: e.reg_type,
                inst_name: e.inst_name,
                vals,
            },
        ),
    }
}

/// An address that was not touched, or cannot be changed, is never written anew.
pub proof fn untouched_addr_is_kept(e: RegEditorView)
    requires
        reg_vals(e) is Ok,
        !e.addr_editable || e.buf.addr == e.orig.addr,
    ensures
        reg_vals(e)->Ok_0.addr is None,
{
}

fn find_pulse(s: &Vec<Pulse>, which: u8) -> (r: (bool, bool))
    requires
        which < 3,
    ensures
        r == pulse_buffers(
            s.deep_view(),
            if which == 0 {
                on_write()
            } else if which == 1 {
                on_read()
            } else {
                on_access()
            },
        ),
{
    let ghost kind = if which == 0 {
        on_write()
    } else if which == 1 {
        on_read()
    } else {
        on_access()
    };
    let ghost v = s.deep_view();
    let mut i: usize = 0;
    while i < s.len()
        invariant
            i <= s@.len(),
            which < 3,
            v == s.deep_view(),
            kind == (if which == 0 {
                on_write()
            } else if which == 1 {
                on_read()
            } else {
                on_access()
            }),
            forall|k: int| 0 <= k < i ==> !kind(v[k]),
        decreases s@.len() - i,
    {
        proof {
            assert(v[i as int] == s@[i as int]@);
        }
        let clock: Option<&String> = match &s[i] {
            Pulse::Write(c) => if which == 0 {
                Some(c)
            } else {
                None
            },
            Pulse::Read(c) => if which == 1 {
                Some(c)
            } else {
                None
            },
            Pulse::Access(c) => if which == 2 {
                Some(c)
            } else {
                None
            },
        };
        if let Some(c) = clock {
            proof {
                lemma_is_first(v, kind, i as int);
            }
            return (true, !c.as_str().is_empty());
        }
        i += 1;
    }
    proof {
        lemma_no_first(v, kind);
    }
    (false, true)
}

fn copy_text(t: &Option<String>) -> (r: String)
    ensures
        r@ == text_or_empty(t.deep_view()),
{
    match t {
        Some(x) => x.clone(),
        None => String::new(),
    }
}

fn keep_filled(s: &String) -> (r: Option<String>)
    ensures
        r.deep_view() == filled(s@),
{
    let t = trim(s.as_str());
    if t.as_str().is_empty() {
        None
    } else {
        Some(t)
    }
}

fn read_derived(on: bool, text: &String, what: &str) -> (r: Result<Option<Reset>, String>)
    ensures
        match derived_reset(on, text@, what@) {
            Ok(v) => r is Ok && (r->Ok_0).deep_view() == v,
            Err(t) => r is Err && r->Err_0@ == t,
        },
{
    if on {
        match parse_reset(text.as_str(), false) {
            Ok(v) => Ok(Some(v)),
            Err(e) => Err(join(what, e.as_str())),
        }
    } else {
        Ok(None)
    }
}

fn load_block(b: Option<&IntrInfo>, trigger: Trigger, clear: IntrClear) -> (r: BlockBuffers)
    ensures
        r@ == block_shown(
            match b {
                Some(x) => Some(x@),
                None => None,
            },
            trigger,
            clear,
        ),
{
    match b {
        Some(i) => BlockBuffers {
            trigger: i.trigger,
            clear: i.clear,
            enable_on: i.enable.is_some(),
            enable_rst: show_opt_reset(&i.enable),
            mask_on: i.mask.is_some(),
            mask_rst: show_opt_reset(&i.mask),
            pending_on: i.pending,
        },
        None => BlockBuffers {
            trigger,
            clear,
            enable_on: false,
            enable_rst: String::new(),
            mask_on: false,
            mask_rst: String::new(),
            pending_on: false,
        },
    }
}

fn same_blocks(a: &BlockBuffers, b: &BlockBuffers) -> (r: bool)
    ensures
        r == (a@ == b@),
{
    a.trigger == b.trigger && a.clear == b.clear && a.enable_on == b.enable_on && a.enable_rst == b.enable_rst
        && a.mask_on == b.mask_on && a.mask_rst == b.mask_rst && a.pending_on == b.pending_on
}

fn copy_array(i: Option<&Instance>) -> (r: String)
    ensures
        r@ == array_of(
            match i {
                Some(x) => Some(x@),
                None => None,
            },
        ).rif,
{
    match i {
        Some(x) => x.array.rif.clone(),
        None => String::new(),
    }
}

fn load_reg(def: &RegisterDef, addr: u64, src_inst: Option<&Instance>) -> (r: RegBuffers)
    ensures
        forall|s: RegSource|
            s.def == def@ && s.addr == addr && s.src_inst == (match src_inst {
                Some(i) => Some(i@),
                None => None,
            }) ==> #[trigger] shows_reg(r@, s),
{
    let (wr_on, wr_reg) = find_pulse(&def.pulse, 0);
    let (rd_on, rd_reg) = find_pulse(&def.pulse, 1);
    let (acc_on, acc_reg) = find_pulse(&def.pulse, 2);
    let n: usize = def.interrupt.len();
    let first_block: Option<&IntrInfo> = if n > 0 {
        proof {
            assert(def@.interrupt[0] == def.interrupt@[0]@);
        }
        Some(&def.interrupt[0])
    } else {
        None
    };
    let second_block: Option<&IntrInfo> = if n > 1 {
        proof {
            assert(def@.interrupt[1] == def.interrupt@[1]@);
        }
        Some(&def.interrupt[1])
    } else {
        None
    };
    let p = load_block(first_block, Trigger::High, IntrClear::Read);
    let a = load_block(second_block, p.trigger, p.clear);
    let array = match &def.array {
        Dim::Value(n) => show_small(*n as u128),
        Dim::Param(_) => String::new(),
    };
    let alt_name = match second_block {
        Some(i) => i.name.clone(),
        None => String::new(),
    };
    RegBuffers {
        name: def.name.clone(),
        group: def.group_name.clone(),
        desc: def.description.public.clone(),
        pulse: PulseBuffers { wr_on, wr_reg, rd_on, rd_reg, acc_on, acc_reg },
        addr: show_hex(addr as u128),
        array,
        inst_array: copy_array(src_inst),
        has_intr: n > 0,
        intr: p,
        alt_name,
        alt: a,
        visibility: def.visibility,
        clk: copy_text(&def.clk),
        rst: copy_text(&def.rst),
        external: def.external,
    }
}

impl RegEditor {
    /// Loads the buffers of a register and of the instance in view.
    pub fn from_regdef(
        inst_name: String,
        reg_type: String,
        def: &RegisterDef,
        addr: u64,
        addr_editable: bool,
        rif_type: &str,
        default_clk: &str,
        data_width: BusWidth,
        src_inst: Option<&Instance>,
        array_scope_ok: bool,
    ) -> (r: Self)
        ensures
            loaded_from(
                r@,
                (RegSource {
                    inst_name: inst_name@,
                    reg_type: reg_type@,
                    def: def@,
                    addr,
                    addr_editable,
                    rif_type: rif_type@,
                    default_clk: default_clk@,
                    data_width,
                    src_inst: match src_inst {
                        Some(i) => Some(i@),
                        None => None,
                    },
                    array_scope_ok,
                }),
            ),
            reg_unchanged(r@),
    {
        let orig = load_reg(def, addr, src_inst);
        let buf = orig.clone();
        let (fixed, zero) = match &def.array {
            Dim::Value(n) => (true, *n == 0),
            Dim::Param(_) => (false, false),
        };
        let has_inst_array = match src_inst {
            Some(i) => !i.array.text.as_str().is_empty(),
            None => false,
        };
        RegEditor {
            rif_type: rif_type.to_owned(),
            reg_type,
            inst_name,
            default_clk: default_clk.to_owned(),
            addr_editable,
            data_width,
            array_editable: array_scope_ok && fixed && !has_inst_array,
            inst_array_editable: array_scope_ok && addr_editable && zero,
            buf,
            orig,
            parse_err: None,
        }
    }

    /// The pulses that the buffers stand for.
    fn build_pulse(&self) -> (r: Vec<Pulse>)
        ensures
            r.deep_view() == pulses_of(self@),
    {
        let mut r: Vec<Pulse> = Vec::new();
        if self.buf.pulse.wr_on {
            r.push(Pulse::Write(self.pulse_clk(self.buf.pulse.wr_reg)));
        }
        if self.buf.pulse.rd_on {
            r.push(Pulse::Read(self.pulse_clk(self.buf.pulse.rd_reg)));
        }
        if self.buf.pulse.acc_on {
            r.push(Pulse::Access(self.pulse_clk(self.buf.pulse.acc_reg)));
        }
        proof {
            assert(r.deep_view() =~= pulses_of(self@));
        }
        r
    }

    fn pulse_clk(&self, registered: bool) -> (r: String)
        ensures
            r@ == pulse_on(self@, registered),
    {
        if registered {
            self.default_clk.clone()
        } else {
            String::new()
        }
    }

    /// Whether every buffer that counts is as it was loaded.
    pub fn is_unchanged(&self) -> (r: bool)
        ensures
            r == reg_unchanged(self@),
    {
        let (b, o) = (&self.buf, &self.orig);
        b.name == o.name && b.group == o.group && b.desc == o.desc && b.pulse == o.pulse && b.addr == o.addr
            && b.array == o.array && b.inst_array == o.inst_array && b.has_intr == o.has_intr && (!b.has_intr
            || same_blocks(&b.intr, &o.intr)) && b.alt_name == o.alt_name && (is_blank(b.alt_name.as_str())
            || same_blocks(&b.alt, &o.alt)) && b.visibility == o.visibility && b.clk == o.clk && b.rst == o.rst
            && b.external == o.external
    }

    fn new_addr(&self) -> (r: Result<Option<u64>, String>)
        ensures
            match addr_edit(self@) {
                Ok(v) => r == Ok::<Option<u64>, String>(v),
                Err(t) => r is Err && r->Err_0@ == t,
            },
    {
        if self.addr_editable && self.buf.addr != self.orig.addr {
            match parse_addr(self.buf.addr.as_str()) {
                Ok(v) => {
                    let n: u8 = nb_byte(self.data_width);
                    if v % (n as u64) != 0 {
                        Err(
                            join3(
                                "Address must be aligned to ",
                                show_unsigned(n as u128).as_str(),
                                " bytes (the RIF's data width)",
                            ),
                        )
                    } else {
                        Ok(Some(v))
                    }
                },
                Err(e) => Err(e),
            }
        } else {
            Ok(None)
        }
    }

    fn new_array(&self) -> (r: Result<Option<u8>, String>)
        ensures
            match array_edit(self@) {
                Ok(v) => r == Ok::<Option<u8>, String>(v),
                Err(t) => r is Err && r->Err_0@ == t,
            },
    {
        if self.array_editable && self.buf.array != self.orig.array {
            let t = trim(self.buf.array.as_str());
            if t.as_str().is_empty() {
                Ok(Some(0))
            } else {
                match read_byte(t.as_str()) {
                    Some(v) => Ok(Some(v)),
                    None => Err("Invalid array size".to_owned()),
                }
            }
        } else {
            Ok(None)
        }
    }

    fn new_primary(&self) -> (r: Result<Option<Option<RegIntrVals>>, String>)
        ensures
            match primary_edit(self@) {
                Ok(v) => r is Ok && (r->Ok_0).deep_view() == v,
                Err(t) => r is Err && r->Err_0@ == t,
            },
    {
        if !self.buf.has_intr {
            return if self.orig.has_intr {
                Ok(Some(None))
            } else {
                Ok(None)
            };
        }
        let enable = match read_derived(self.buf.intr.enable_on, &self.buf.intr.enable_rst, "Enable reset: ") {
            Ok(v) => v,
            Err(e) => {
                return Err(e);
            },
        };
        let mask = match read_derived(self.buf.intr.mask_on, &self.buf.intr.mask_rst, "Mask reset: ") {
            Ok(v) => v,
            Err(e) => {
                return Err(e);
            },
        };
        Ok(
            Some(
                Some(
                    RegIntrVals {
                        trigger: self.buf.intr.trigger,
                        clear: self.buf.intr.clear,
                        enable,
                        mask,
                        pending: self.buf.intr.pending_on,
                    },
                ),
            ),
        )
    }

    fn new_secondary(&self) -> (r: Result<Option<Option<RegAltVals>>, String>)
        ensures
            match secondary_edit(self@) {
                Ok(v) => r is Ok && (r->Ok_0).deep_view() == v,
                Err(t) => r is Err && r->Err_0@ == t,
            },
    {
        if !self.buf.has_intr {
            return Ok(None);
        }
        let name = trim(self.buf.alt_name.as_str());
        if name.as_str().is_empty() {
            return Ok(Some(None));
        }
        let enable = match read_derived(self.buf.alt.enable_on, &self.buf.alt.enable_rst, "Alt enable reset: ") {
            Ok(v) => v,
            Err(e) => {
                return Err(e);
            },
        };
        let mask = match read_derived(self.buf.alt.mask_on, &self.buf.alt.mask_rst, "Alt mask reset: ") {
            Ok(v) => v,
            Err(e) => {
                return Err(e);
            },
        };
        Ok(
            Some(
                Some(
                    RegAltVals {
                        name,
                        trigger: self.buf.alt.trigger,
                        clear: self.buf.alt.clear,
                        enable,
                        mask,
                        pending: self.buf.alt.pending_on,
                    },
                ),
            ),
        )
    }

    fn check(&self) -> (r: Result<RegDefVals, String>)
        ensures
            match reg_vals(self@) {
                Ok(v) => r is Ok && r->Ok_0@ == v,
                Err(t) => r is Err && r->Err_0@ == t,
            },
    {
        if is_blank(self.buf.name.as_str()) {
            return Err("Name is empty".to_owned());
        }
        let group = trim(self.buf.group.as_str());
        if group.as_str().is_empty() {
            return Err("Group is empty".to_owned());
        }
        let group = if group != self.orig.group {
            Some(group)
        } else {
            None
        };
        let addr = match self.new_addr() {
            Ok(v) => v,
            Err(e) => {
                return Err(e);
            },
        };
        let array = match self.new_array() {
            Ok(v) => v,
            Err(e) => {
                return Err(e);
            },
        };
        let intr = match self.new_primary() {
            Ok(v) => v,
            Err(e) => {
                return Err(e);
            },
        };
        let alt = match self.new_secondary() {
            Ok(v) => v,
            Err(e) => {
                return Err(e);
            },
        };
        Ok(
            RegDefVals {
                name: trim(self.buf.name.as_str()),
                group,
                desc: self.buf.desc.clone(),
                pulse: self.build_pulse(),
                addr,
                intr,
                alt,
                array,
                visibility: self.buf.visibility,
                clk: keep_filled(&self.buf.clk),
                rst: keep_filled(&self.buf.rst),
                external: self.buf.external,
            },
        )
    }

    /// Checks the buffers and makes the edit. `None` where something is wrong with them, which is
    /// then told.
    pub fn build_action(&mut self) -> (r: Option<EditAction>)
        ensures
            reg_built(old(self)@, final(self)@, r.deep_view()),
    {
        match self.check() {
            Ok(vals) => {
                self.parse_err = None;
                Some(
                    EditAction::UpdateRegDef {
                        rif_type: self.rif_type.clone(),
                        orig_name: self.reg_type.clone(),
                        inst_name: self.inst_name.clone(),
                        vals,
                    },
                )
            },
            Err(e) => {
                self.parse_err = Some(e);
                None
            },
        }
    }
}

/// The names of the definitions among the first `n` items.
pub open spec fn def_names(items: Seq<RegItemView>, n: int) -> Seq<Seq<char>>
    decreases n,
{
    if n <= 0 {
        seq![]
    } else {
        match items[n - 1] {
            RegItemView::Def(d) => def_names(items, n - 1).push(d.name),
            _ => def_names(items, n - 1),
        }
    }
}

/// The register types of a page.
pub open spec fn types_on(p: PageView) -> Seq<Seq<char>> {
    def_names(p.registers, p.registers.len() as int)
}

/// Every name that a register of a page has: its types, its instances, and the types of these.
pub open spec fn names_on(p: PageView) -> Seq<Seq<char>> {
    types_on(p) + Seq::new(p.instances.len(), |i: int| p.instances[i].inst_name) + Seq::new(
        p.instances.len(),
        |i: int| p.instances[i].reg_type,
    )
}

fn list_types(p: &Page) -> (r: Vec<String>)
    ensures
        r.deep_view() == types_on(p@),
{
    let ghost items = p.registers.deep_view();
    let mut r: Vec<String> = Vec::new();
    let mut i: usize = 0;
    proof {
        assert(r.deep_view() =~= Seq::<Seq<char>>::empty());
    }
    while i < p.registers.len()
        invariant
            i <= p.registers@.len(),
            items == p.registers.deep_view(),
            r.deep_view() == def_names(items, i as int),
        decreases p.registers@.len() - i,
    {
        proof {
            assert(items[i as int] == p.registers@[i as int]@);
        }
        let ghost sofar = r.deep_view();
        if let RegItem::Def(d) = &p.registers[i] {
            let ghost name = d.name@;
            r.push(d.name.clone());
            proof {
                assert(r.deep_view() =~= sofar.push(name));
            }
        }
        i += 1;
    }
    r
}

fn list_names(p: &Page) -> (r: Vec<String>)
    ensures
        r.deep_view() == names_on(p@),
{
    let mut r = list_types(p);
    let ghost types = types_on(p@);
    let n: usize = p.instances.len();
    let mut i: usize = 0;
    while i < n
        invariant
            i <= n == p.instances@.len(),
            types == types_on(p@),
            r.deep_view() == types + Seq::new(i as nat, |k: int| p@.instances[k].inst_name),
        decreases n - i,
    {
        let ghost sofar = r.deep_view();
        proof {
            assert(p@.instances[i as int] == p.instances@[i as int]@);
        }
        r.push(p.instances[i].inst_name.clone());
        proof {
            assert(r.deep_view() =~= sofar.push(p@.instances[i as int].inst_name));
            assert(r.deep_view() =~= types + Seq::new((i + 1) as nat, |k: int| p@.instances[k].inst_name));
        }
        i += 1;
    }
    let ghost mid = r.deep_view();
    let mut i: usize = 0;
    proof {
        assert(mid =~= mid + Seq::new(0, |k: int| p@.instances[k].reg_type));
    }
    while i < n
        invariant
            i <= n == p.instances@.len(),
            r.deep_view() == mid + Seq::new(i as nat, |k: int| p@.instances[k].reg_type),
        decreases n - i,
    {
        let ghost sofar = r.deep_view();
        proof {
            assert(p@.instances[i as int] == p.instances@[i as int]@);
        }
        r.push(p.instances[i].reg_type.clone());
        proof {
            assert(r.deep_view() =~= sofar.push(p@.instances[i as int].reg_type));
            assert(r.deep_view() =~= mid + Seq::new((i + 1) as nat, |k: int| p@.instances[k].reg_type));
        }
        i += 1;
    }
    r
}

/// Whether a register of the page has the name.
pub fn reg_name_taken(page: &Page, name: &String) -> (r: bool)
    ensures
        r == names_on(page@).contains(name@),
{
    is_taken(&list_names(page), name)
}

/// A register name that is free on the page.
pub fn unique_reg_name(page: &Page) -> (r: String)
    ensures
        r@ == free_name(names_on(page@), "new_reg"@),
        !names_on(page@).contains(r@),
{
    pick_name(&list_names(page), "new_reg")
}

impl RegAddEditor {
    /// Opens the buffers of a new register on a page.
    pub fn open(rif_type: String, page_name: String, page: &Page, addr: u64) -> (r: Self)
        ensures
            r@ == (RegAddEditorView {
                rif_type: rif_type@,
                page_name: page_name@,
                page_types: types_on(page@),
                page_is_auto: is_auto(page@),
                kind: AddRegKindView::New,
                name: free_name(names_on(page@), "new_reg"@),
                addr,
                parse_err: None,
            }),
    {
        RegAddEditor {
            rif_type,
            page_name,
            page_types: list_types(page),
            page_is_auto: page_is_auto(page),
            kind: AddRegKind::New,
            name: unique_reg_name(page),
            addr,
            parse_err: None,
        }
    }
}

/// The question before a register is deleted.
pub open spec fn delete_question(p: PendingDeleteRegView) -> Seq<char> {
    match p.inst_name {
        Some(name) => "Delete instance '"@ + name + "'? It's the last instance of register type '"@ + p.reg_type
            + "', so its definition (and all its fields) will be removed too."@,
        None => "Delete register '"@ + p.reg_type
            + "'? Its definition (and all its fields) will be removed."@,
    }
}

impl PendingDeleteReg {
    /// The question before a register is deleted.
    pub fn question(&self) -> (r: String)
        ensures
            r@ == delete_question(self@),
    {
        match &self.inst_name {
            Some(name) => {
                let what = join3(
                    "Delete instance '",
                    name.as_str(),
                    "'? It's the last instance of register type '",
                );
                join3(
                    what.as_str(),
                    self.reg_type.as_str(),
                    "', so its definition (and all its fields) will be removed too.",
                )
            },
            None => join3(
                "Delete register '",
                self.reg_type.as_str(),
                "'? Its definition (and all its fields) will be removed.",
            ),
        }
    }

    /// The edit, once it is confirmed.
    pub fn confirm(self) -> (r: EditAction)
        ensures
            r@ == (EditActionView::DeleteRegister {
                rif_type: self@.rif_type,
                page_name: self@.page_name,
                reg_type: self@.reg_type,
                inst_name: self@.inst_name,
            }),
    {
        EditAction::DeleteRegister {
            rif_type: self.rif_type,
            page_name: self.page_name,
            reg_type: self.reg_type,
            inst_name: self.inst_name,
        }
    }
}

/// What moves under a resolution, where it is offered.
pub open spec fn moves_under(c: PendingRegAddrConflictView, how: RegAddrResolution) -> Option<
    Seq<CompanionView>,
> {
    match how {
        RegAddrResolution::Swap => c.swap,
        RegAddrResolution::Shift => c.shift,
        RegAddrResolution::Insert => c.insert,
    }
}

/// The question about an address that another register has.
pub open spec fn conflict_question(c: PendingRegAddrConflictView) -> Seq<char> {
    "Moving '"@ + c.inst_name + "' to "@ + hexadecimal(c.new_addr as nat) + " collides with '"@ + c.target_name
        + "'. How should this be resolved?"@
}

impl PendingRegAddrConflict {
    /// The question about an address that another register has.
    pub fn question(&self) -> (r: String)
        ensures
            r@ == conflict_question(self@),
    {
        let mover = join3("Moving '", self.inst_name.as_str(), "' to ");
        let place = join3(mover.as_str(), show_hex(self.new_addr as u128).as_str(), " collides with '");
        join3(place.as_str(), self.target_name.as_str(), "'. How should this be resolved?")
    }

    /// The edit under a resolution; `None` where that one is not offered.
    pub fn resolve(self, how: RegAddrResolution) -> (r: Option<EditAction>)
        ensures
            r.deep_view() == match moves_under(self@, how) {
                Some(companions) => Some(
                    EditActionView::UpdateRegDefWithMoves {
                        rif_type: self@.rif_type,
                        orig_name: self@.orig_name,
                        inst_name: self@.inst_name,
                        vals: self@.vals,
                        companions,
                    },
                ),
                None => None,
            },
    {
        let companions = match how {
            RegAddrResolution::Swap => self.swap,
            RegAddrResolution::Shift => self.shift,
            RegAddrResolution::Insert => self.insert,
        };
        match companions {
            Some(companions) => Some(
                EditAction::UpdateRegDefWithMoves {
                    rif_type: self.rif_type,
                    orig_name: self.orig_name,
                    inst_name: self.inst_name,
                    vals: self.vals,
                    companions,
                },
            ),
            None => None,
        }
    }
}

/// The edit of a confirmed array size.
pub open spec fn array_change_action(c: PendingRegArrayChangeView) -> EditActionView {
    let companions = match c.companions {
        Some(s) => s,
        None => seq![],
    };
    match c.kind {
        RegArrayChangeKindView::Definition(vals) => if companions.len() == 0 {
            EditActionView::UpdateRegDef {
                rif_type: c.rif_type,
                orig_name: c.orig_name,
                inst_name: c.inst_name,
                vals,
            }
        } else {
            EditActionView::UpdateRegDefWithMoves {
                rif_type: c.rif_type,
                orig_name: c.orig_name,
                inst_name: c.inst_name,
                vals,
                companions,
            }
        },
        RegArrayChangeKindView::Instance(array) => EditActionView::UpdateRegInstArray {
            rif_type: c.rif_type,
            inst_name: c.inst_name,
            array,
            companions,
        },
    }
}

/// What is said of fields that become arrays, where there are any.
pub open spec fn conversion_note(c: PendingRegArrayChangeView) -> Option<Seq<char>> {
    if c.fields_to_convert.len() == 0 {
        None
    } else {
        Some(
            "These fields aren't arrays yet and will be converted to [1]: "@ + joined(
                c.fields_to_convert,
                ", "@,
            )
                + ". Once converted, they become read-only in the field panel (same as any array field on an array register) — set reset/description/access first if you still need to change them."@,
        )
    }
}

/// What is said of registers that make room, where there are any.
pub open spec fn shift_note(c: PendingRegArrayChangeView) -> Option<Seq<char>> {
    match c.companions {
        Some(s) => if s.len() == 0 {
            None
        } else {
            Some(
                "These following registers will shift forward to make room: "@ + joined(
                    Seq::new(s.len(), |i: int| s[i].name),
                    ", "@,
                ) + "."@,
            )
        },
        None => None,
    }
}

impl PendingRegArrayChange {
    /// What is said of fields that become arrays, where there are any.
    pub fn conversion_text(&self) -> (r: Option<String>)
        ensures
            r.deep_view() == conversion_note(self@),
    {
        if self.fields_to_convert.len() == 0 {
            None
        } else {
            Some(
                join3(
                    "These fields aren't arrays yet and will be converted to [1]: ",
                    join_text(&self.fields_to_convert, ", ").as_str(),
                    ". Once converted, they become read-only in the field panel (same as any array field on an array register) — set reset/description/access first if you still need to change them.",
                ),
            )
        }
    }

    /// What is said of registers that make room, where there are any.
    pub fn shift_text(&self) -> (r: Option<String>)
        ensures
            r.deep_view() == shift_note(self@),
    {
        match &self.companions {
            Some(s) => {
                if s.len() == 0 {
                    return None;
                }
                let ghost v = s.deep_view();
                let mut names: Vec<String> = Vec::new();
                let mut i: usize = 0;
                while i < s.len()
                    invariant
                        i <= s@.len(),
                        v == s.deep_view(),
                        names@.len() == i,
                        forall|k: int| 0 <= k < i ==> (#[trigger] names@[k])@ == v[k].name,
                    decreases s@.len() - i,
                {
                    proof {
                        assert(v[i as int] == s@[i as int].deep_view());
                    }
                    names.push(s[i].name.clone());
                    i += 1;
                }
                proof {
                    assert(names.deep_view() =~= Seq::new(v.len(), |k: int| v[k].name));
                }
                Some(
                    join3(
                        "These following registers will shift forward to make room: ",
                        join_text(&names, ", ").as_str(),
                        ".",
                    ),
                )
            },
            None => None,
        }
    }

    /// The edit, once it is confirmed.
    pub fn confirm(self) -> (r: EditAction)
        ensures
            r@ == array_change_action(self@),
    {
        let companions = match self.companions {
            Some(s) => s,
            None => Vec::new(),
        };
        proof {
            assert(self.companions is None ==> companions.deep_view() =~= Seq::<CompanionView>::empty());
        }
        match self.kind {
            RegArrayChangeKind::Definition(vals) => {
                if companions.len() == 0 {
                    EditAction::UpdateRegDef {
                        rif_type: self.rif_type,
                        orig_name: self.orig_name,
                        inst_name: self.inst_name,
                        vals,
                    }
                } else {
                    EditAction::UpdateRegDefWithMoves {
                        rif_type: self.rif_type,
                        orig_name: self.orig_name,
                        inst_name: self.inst_name,
                        vals,
                        companions,
                    }
                }
            },
            RegArrayChangeKind::Instance(array) => EditAction::UpdateRegInstArray {
                rif_type: self.rif_type,
                inst_name: self.inst_name,
                array,
                companions,
            },
        }
    }
}

/// The buffers of what an instance overrides for its register, as they are loaded.
pub open spec fn loaded_reg_override(
    rif_type: Seq<char>,
    inst_name: Seq<char>,
    ovr: Option<RegOvrView>,
) -> RegOverrideEditorView {
    let desc = match ovr {
        Some(o) => match o.description {
            Some(d) => d.public,
            None => seq![],
        },
        None => seq![],
    };
    let hw = match ovr {
        Some(o) => o.hw_acc,
        None => None,
    };
    let acc = match ovr {
        Some(o) => o.optional_acc,
        None => None,
    };
    let optional = match ovr {
        Some(o) => o.optional.rif,
        None => seq![],
    };
    let hw_value = match hw {
        Some(a) => a,
        None => HwAcc::NA,
    };
    let acc_value = match acc {
        Some(a) => a,
        None => HwAcc::NA,
    };
    RegOverrideEditorView {
        rif_type,
        inst_name,
        desc,
        desc_orig: desc,
        hw_on: hw is Some,
        hw_on_orig: hw is Some,
        hw: hw_value,
        hw_orig: hw_value,
        optional,
        optional_orig: optional,
        optional_acc_on: acc is Some,
        optional_acc_on_orig: acc is Some,
        optional_acc: acc_value,
        optional_acc_orig: acc_value,
        parse_err: None,
    }
}

/// Whether every buffer is as it was loaded.
pub open spec fn reg_override_unchanged(e: RegOverrideEditorView) -> bool {
    &&& e.desc == e.desc_orig
    &&& e.hw_on == e.hw_on_orig
    &&& e.hw == e.hw_orig
    &&& e.optional == e.optional_orig
    &&& e.optional_acc_on == e.optional_acc_on_orig
    &&& e.optional_acc == e.optional_acc_orig
}

/// Whether `r` is what the condition is read as; `None` where there is none to read.
pub open spec fn reads_condition(e: RegOverrideEditorView, r: Option<Result<Seq<char>, Seq<char>>>) -> bool {
    let t = trimmed(e.optional);
    if t.len() == 0 {
        r is None
    } else {
        match expr_read(t) {
            Some(x) => r == Some(Ok::<Seq<char>, Seq<char>>(x)),
            None => r matches Some(Err(_)),
        }
    }
}

/// The value of what a condition was read as.
pub open spec fn condition_view(r: Option<Result<String, String>>) -> Option<Result<Seq<char>, Seq<char>>> {
    match r {
        Some(Ok(t)) => Some(Ok(t@)),
        Some(Err(e)) => Some(Err(e@)),
        None => None,
    }
}

/// What an editor makes of its buffers, given what the condition was read as.
pub open spec fn reg_override_built(
    e: RegOverrideEditorView,
    r: Option<Result<Seq<char>, Seq<char>>>,
    after: RegOverrideEditorView,
    action: Option<EditActionView>,
) -> bool {
    match r {
        Some(Err(t)) => action is None && after == (RegOverrideEditorView {
            parse_err: Some("Invalid optional condition: "@ + t),
            ..e
        }),
        _ => after == (RegOverrideEditorView { parse_err: None, ..e }) && action == Some(
            EditActionView::UpdateRegOverride {
                rif_type: e.rif_type,
                inst_name: e.inst_name,
                vals: RegOverrideValsView {
                    desc: e.desc,
                    hw: if e.hw_on {
                        Some(e.hw)
                    } else {
                        None
                    },
                    optional: match r {
                        Some(Ok(x)) => Some(ExprView { text: trimmed(e.optional), rif: x }),
                        _ => None,
                    },
                    optional_acc: if e.optional_acc_on {
                        Some(e.optional_acc)
                    } else {
                        None
                    },
                },
            },
        ),
    }
}

impl RegOverrideEditor {
    /// Loads the buffers of what an instance overrides for its register.
    pub fn from_reg_inst(rif_type: &str, inst_name: &str, ovr: Option<&RegOvr>) -> (r: Self)
        ensures
            r@ == loaded_reg_override(
                rif_type@,
                inst_name@,
                match ovr {
                    Some(o) => Some(o@),
                    None => None,
                },
            ),
            reg_override_unchanged(r@),
    {
        let mut desc = String::new();
        let mut hw_on = false;
        let mut hw = HwAcc::NA;
        let mut optional = String::new();
        let mut optional_acc_on = false;
        let mut optional_acc = HwAcc::NA;
        if let Some(o) = ovr {
            if let Some(d) = &o.description {
                desc = d.public.clone();
            }
            if let Some(a) = o.hw_acc {
                hw_on = true;
                hw = a;
            }
            optional = o.optional.rif.clone();
            if let Some(a) = o.optional_acc {
                optional_acc_on = true;
                optional_acc = a;
            }
        }
        RegOverrideEditor {
            rif_type: rif_type.to_owned(),
            inst_name: inst_name.to_owned(),
            desc: desc.clone(),
            desc_orig: desc,
            hw_on,
            hw_on_orig: hw_on,
            hw,
            hw_orig: hw,
            optional: optional.clone(),
            optional_orig: optional,
            optional_acc_on,
            optional_acc_on_orig: optional_acc_on,
            optional_acc,
            optional_acc_orig: optional_acc,
            parse_err: None,
        }
    }

    /// Whether every buffer is as it was loaded.
    pub fn is_unchanged(&self) -> (r: bool)
        ensures
            r == reg_override_unchanged(self@),
    {
        self.desc == self.desc_orig && self.hw_on == self.hw_on_orig && self.hw == self.hw_orig && self.optional
            == self.optional_orig && self.optional_acc_on == self.optional_acc_on_orig && self.optional_acc
            == self.optional_acc_orig
    }

    /// Reads the condition.
    pub fn read(&self) -> (r: Option<Result<String, String>>)
        ensures
            reads_condition(self@, condition_view(r)),
    {
        let t = trim(self.optional.as_str());
        if t.as_str().is_empty() {
            None
        } else {
            Some(read_expr(t.as_str()))
        }
    }

    /// Makes the edit, given what the condition was read as. `None` where it is none, which is
    /// then told.
    pub fn build_with(&mut self, reading: Option<Result<String, String>>) -> (r: Option<EditAction>)
        ensures
            reg_override_built(old(self)@, condition_view(reading), final(self)@, r.deep_view()),
    {
        self.parse_err = None;
        let optional = match reading {
            None => None,
            Some(Ok(rif)) => Some(Expr { text: trim(self.optional.as_str()), rif }),
            Some(Err(e)) => {
                self.parse_err = Some(join("Invalid optional condition: ", e.as_str()));
                return None;
            },
        };
        let hw = if self.hw_on {
            Some(self.hw)
        } else {
            None
        };
        let optional_acc = if self.optional_acc_on {
            Some(self.optional_acc)
        } else {
            None
        };
        Some(
            EditAction::UpdateRegOverride {
                rif_type: self.rif_type.clone(),
                inst_name: self.inst_name.clone(),
                vals: RegOverrideVals { desc: self.desc.clone(), hw, optional, optional_acc },
            },
        )
    }

    /// Reads the condition and makes the edit. `None` where it is none, which is then told.
    pub fn build_action(&mut self) -> (r: Option<EditAction>)
        ensures
            exists|reading: Option<Result<Seq<char>, Seq<char>>>| #[trigger]
                reads_condition(old(self)@, reading) && reg_override_built(
                    old(self)@,
                    reading,
                    final(self)@,
                    r.deep_view(),
                ),
    {
        let reading = self.read();
        self.build_with(reading)
    }
}

} // verus!
