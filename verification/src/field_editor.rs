//! Editors of a field.
use vstd::prelude::*;
use crate::action::{EditAction, EditActionView};
use crate::bridge::{
    counter_read, limit_read, password_read, read_counter, read_limit, read_password, read_signal, signal_read,
};
use crate::compiled::{FieldInst, FieldInstView, ResetInt};
use crate::condition::{check_condition, condition_problem};
use crate::counter::{check_counter, is_counter};
use crate::lines::{join_text, joined};
use crate::model::page::{FieldOvr, FieldOvrView, ResetOvr, ResetOvrView};
use crate::model::props::FieldProp;
use crate::model::register::{FieldDef, FieldDefView};
use crate::model::rif::{EnumType, EnumTypeView};
use crate::model::values::{
    BitPos, BitPosView, CountDir, Counter, Dim, DimView, EnumRef, EnumRefView, HwAcc, HwKind, IntrClear,
    IntrOvr, Limit, LimitValue, LimitValueView, LimitView, Password, PasswordView, RawVis, Reset, ResetView,
    SwKind, SwKindView, Trigger, Vis, WriteLock, WriteLockView,
};
use crate::number::{
    byte_value, decimal, decimal_is_trimmed, decimal_reads_back, isize_value, prefixed_signed,
    prefixed_unsigned, read_byte, read_isize, read_prefixed_signed, read_prefixed_unsigned, show_signed,
    show_unsigned,
};
use crate::search::{first, lemma_is_first, lemma_no_first};
use crate::source::{enum_named, find_enum};
use crate::syntax::{other_lines, reset_text, same_reset, short_desc, show_reset, tail_lines};
use crate::text::{is_blank, join, join3, same, to_chars, trim, trimmed};
use crate::vals::{FieldOverrideVals, FieldOverrideValsView, FieldVals, FieldValsView};

verus! {

/// Visibility choices. A condition for a disabled field is shown and cannot be picked.
#[derive(Clone, Copy, Debug, PartialEq, Eq, Structural)]
pub enum VisMode {
    Full,
    Hidden,
    Reserved,
    Disabled,
}

/// Enum choices.
#[derive(Clone, Copy, Debug, PartialEq, Eq, Structural)]
pub enum EnumMode {
    Plain,
    Doc,
    Type,
}

/// Whether the enum name is new or that of an enum that is there.
#[derive(Clone, Copy, Debug, PartialEq, Eq, Structural)]
pub enum EnumTypeSrc {
    New,
    Existing,
}

/// Limit choices.
#[derive(Clone, Copy, Debug, PartialEq, Eq, Structural)]
pub enum LimitKind {
    Any,
    Range,
    List,
    Enum,
    External,
}

/// What the user sees of a field and can change.
#[derive(Debug)]
pub struct FieldBuffers {
    /// Name.
    pub name: String,
    /// Lowest bit.
    pub lsb: String,
    /// Width.
    pub width: String,
    /// Array size; blank or zero for no array.
    pub array: String,
    /// Position increment between elements; blank or zero for the width.
    pub array_pos_incr: String,
    /// Reset value.
    pub reset: String,
    /// Public description.
    pub desc: String,
    /// Software access.
    pub sw_kind: SwKind,
    /// Whether the value is signed.
    pub signed: bool,
    /// Hardware access.
    pub hw_acc: HwAcc,
    /// Visibility.
    pub visibility: VisMode,
    /// Fractional bits.
    pub nb_frac: String,
    /// Whether there is a write lock.
    pub lock_on: bool,
    /// Write lock.
    pub lock: String,
    /// Kind of limit.
    pub limit_kind: LimitKind,
    /// Lower limit.
    pub limit_min: String,
    /// Upper limit.
    pub limit_max: String,
    /// Allowed values, separated by commas.
    pub limit_list: String,
    /// Signal that bypasses the limit.
    pub limit_bypass: String,
    /// Whether the field counts.
    pub counter_on: bool,
    /// Increment; blank where it does not count up.
    pub counter_up: String,
    /// Decrement; blank where it does not count down.
    pub counter_down: String,
    /// Whether the counter saturates.
    pub counter_sat: bool,
    /// Whether the counter raises an event.
    pub counter_event: bool,
    /// Whether the counter has a clear input.
    pub counter_clr: bool,
    /// Whether the field is a password.
    pub password_on: bool,
    /// Value that unlocks for one access.
    pub password_once: String,
    /// Value that unlocks until the next write.
    pub password_hold: String,
    /// Whether the password is protected.
    pub password_protect: bool,
    /// Kind of enum.
    pub enum_mode: EnumMode,
    /// Name of the enum type.
    pub enum_name: String,
    /// Whether the field has its own trigger.
    pub intr_trigger_ovr_on: bool,
    /// Own trigger.
    pub intr_trigger_ovr: Trigger,
    /// Whether the field has its own clear.
    pub intr_clear_ovr_on: bool,
    /// Own clear.
    pub intr_clear_ovr: IntrClear,
}

/// The value of a [`FieldBuffers`].
pub struct FieldBuffersView {
    pub name: Seq<char>,
    pub lsb: Seq<char>,
    pub width: Seq<char>,
    pub array: Seq<char>,
    pub array_pos_incr: Seq<char>,
    pub reset: Seq<char>,
    pub desc: Seq<char>,
    pub sw_kind: SwKindView,
    pub signed: bool,
    pub hw_acc: HwAcc,
    pub visibility: VisMode,
    pub nb_frac: Seq<char>,
    pub lock_on: bool,
    pub lock: Seq<char>,
    pub limit_kind: LimitKind,
    pub limit_min: Seq<char>,
    pub limit_max: Seq<char>,
    pub limit_list: Seq<char>,
    pub limit_bypass: Seq<char>,
    pub counter_on: bool,
    pub counter_up: Seq<char>,
    pub counter_down: Seq<char>,
    pub counter_sat: bool,
    pub counter_event: bool,
    pub counter_clr: bool,
    pub password_on: bool,
    pub password_once: Seq<char>,
    pub password_hold: Seq<char>,
    pub password_protect: bool,
    pub enum_mode: EnumMode,
    pub enum_name: Seq<char>,
    pub intr_trigger_ovr_on: bool,
    pub intr_trigger_ovr: Trigger,
    pub intr_clear_ovr_on: bool,
    pub intr_clear_ovr: IntrClear,
}

impl DeepView for FieldBuffers {
    type V = FieldBuffersView;

    open spec fn deep_view(&self) -> FieldBuffersView {
        FieldBuffersView {
            name: self.name.deep_view(),
            lsb: self.lsb.deep_view(),
            width: self.width.deep_view(),
            array: self.array.deep_view(),
            array_pos_incr: self.array_pos_incr.deep_view(),
            reset: self.reset.deep_view(),
            desc: self.desc.deep_view(),
            sw_kind: self.sw_kind.deep_view(),
            signed: self.signed,
            hw_acc: self.hw_acc,
            visibility: self.visibility,
            nb_frac: self.nb_frac.deep_view(),
            lock_on: self.lock_on,
            lock: self.lock.deep_view(),
            limit_kind: self.limit_kind,
            limit_min: self.limit_min.deep_view(),
            limit_max: self.limit_max.deep_view(),
            limit_list: self.limit_list.deep_view(),
            limit_bypass: self.limit_bypass.deep_view(),
            counter_on: self.counter_on,
            counter_up: self.counter_up.deep_view(),
            counter_down: self.counter_down.deep_view(),
            counter_sat: self.counter_sat,
            counter_event: self.counter_event,
            counter_clr: self.counter_clr,
            password_on: self.password_on,
            password_once: self.password_once.deep_view(),
            password_hold: self.password_hold.deep_view(),
            password_protect: self.password_protect,
            enum_mode: self.enum_mode,
            enum_name: self.enum_name.deep_view(),
            intr_trigger_ovr_on: self.intr_trigger_ovr_on,
            intr_trigger_ovr: self.intr_trigger_ovr,
            intr_clear_ovr_on: self.intr_clear_ovr_on,
            intr_clear_ovr: self.intr_clear_ovr,
        }
    }
}

impl View for FieldBuffers {
    type V = FieldBuffersView;

    open spec fn view(&self) -> FieldBuffersView {
        self.deep_view()
    }
}

impl Clone for FieldBuffers {
    fn clone(&self) -> (r: Self)
        ensures
            r@ == self@,
    {
        let r = FieldBuffers {
            name: self.name.clone(),
            lsb: self.lsb.clone(),
            width: self.width.clone(),
            array: self.array.clone(),
            array_pos_incr: self.array_pos_incr.clone(),
            reset: self.reset.clone(),
            desc: self.desc.clone(),
            sw_kind: self.sw_kind.clone(),
            signed: self.signed,
            hw_acc: self.hw_acc,
            visibility: self.visibility,
            nb_frac: self.nb_frac.clone(),
            lock_on: self.lock_on,
            lock: self.lock.clone(),
            limit_kind: self.limit_kind,
            limit_min: self.limit_min.clone(),
            limit_max: self.limit_max.clone(),
            limit_list: self.limit_list.clone(),
            limit_bypass: self.limit_bypass.clone(),
            counter_on: self.counter_on,
            counter_up: self.counter_up.clone(),
            counter_down: self.counter_down.clone(),
            counter_sat: self.counter_sat,
            counter_event: self.counter_event,
            counter_clr: self.counter_clr,
            password_on: self.password_on,
            password_once: self.password_once.clone(),
            password_hold: self.password_hold.clone(),
            password_protect: self.password_protect,
            enum_mode: self.enum_mode,
            enum_name: self.enum_name.clone(),
            intr_trigger_ovr_on: self.intr_trigger_ovr_on,
            intr_trigger_ovr: self.intr_trigger_ovr,
            intr_clear_ovr_on: self.intr_clear_ovr_on,
            intr_clear_ovr: self.intr_clear_ovr,
        };
        r
    }
}

/// Buffers for the field that is edited.
#[derive(Debug)]
pub struct FieldEditor {
    /// Register type and name of the field as it was loaded.
    pub key: (String, String),
    /// RIF.
    pub rif_type: String,
    /// Register group.
    pub group_type: String,
    /// The buffers.
    pub buf: FieldBuffers,
    /// Whether the enum name is new.
    pub enum_type_src: EnumTypeSrc,
    /// Interrupt settings of the register, where it is an interrupt register.
    pub reg_intr_default: Option<IntrOvr>,
    /// The buffers as they were loaded.
    pub orig: FieldBuffers,
    /// What is wrong with the buffers.
    pub parse_err: Option<String>,
}

/// The value of a [`FieldEditor`].
pub struct FieldEditorView {
    pub key: (Seq<char>, Seq<char>),
    pub rif_type: Seq<char>,
    pub group_type: Seq<char>,
    pub buf: FieldBuffersView,
    pub enum_type_src: EnumTypeSrc,
    pub reg_intr_default: Option<IntrOvr>,
    pub orig: FieldBuffersView,
    pub parse_err: Option<Seq<char>>,
}

impl DeepView for FieldEditor {
    type V = FieldEditorView;

    open spec fn deep_view(&self) -> FieldEditorView {
        FieldEditorView {
            key: self.key.deep_view(),
            rif_type: self.rif_type.deep_view(),
            group_type: self.group_type.deep_view(),
            buf: self.buf.deep_view(),
            enum_type_src: self.enum_type_src,
            reg_intr_default: self.reg_intr_default,
            orig: self.orig.deep_view(),
            parse_err: self.parse_err.deep_view(),
        }
    }
}

impl View for FieldEditor {
    type V = FieldEditorView;

    open spec fn view(&self) -> FieldEditorView {
        self.deep_view()
    }
}

/// Buffers for what an instance overrides for one field.
#[derive(Debug)]
pub struct FieldOverrideEditor {
    /// RIF.
    pub rif_type: String,
    /// Instance.
    pub inst_name: String,
    /// Field.
    pub field_name: String,
    /// Description.
    pub desc: String,
    /// Description as it was loaded.
    pub desc_orig: String,
    /// Whether the description has more than one line, and is not edited here.
    pub desc_locked: bool,
    /// Whether the field is disabled.
    pub disable_on: bool,
    /// Whether the field was disabled when it was loaded.
    pub disable_on_orig: bool,
    /// Reset value; blank for none.
    pub reset_val: String,
    /// Reset value as it was loaded.
    pub reset_val_orig: String,
    /// Reset value that the field has by itself.
    pub field_reset: Reset,
    /// What is wrong with the buffers.
    pub parse_err: Option<String>,
}

/// The value of a [`FieldOverrideEditor`].
pub struct FieldOverrideEditorView {
    pub rif_type: Seq<char>,
    pub inst_name: Seq<char>,
    pub field_name: Seq<char>,
    pub desc: Seq<char>,
    pub desc_orig: Seq<char>,
    pub desc_locked: bool,
    pub disable_on: bool,
    pub disable_on_orig: bool,
    pub reset_val: Seq<char>,
    pub reset_val_orig: Seq<char>,
    pub field_reset: ResetView,
    pub parse_err: Option<Seq<char>>,
}

impl DeepView for FieldOverrideEditor {
    type V = FieldOverrideEditorView;

    open spec fn deep_view(&self) -> FieldOverrideEditorView {
        FieldOverrideEditorView {
            rif_type: self.rif_type.deep_view(),
            inst_name: self.inst_name.deep_view(),
            field_name: self.field_name.deep_view(),
            desc: self.desc.deep_view(),
            desc_orig: self.desc_orig.deep_view(),
            desc_locked: self.desc_locked,
            disable_on: self.disable_on,
            disable_on_orig: self.disable_on_orig,
            reset_val: self.reset_val.deep_view(),
            reset_val_orig: self.reset_val_orig.deep_view(),
            field_reset: self.field_reset.deep_view(),
            parse_err: self.parse_err.deep_view(),
        }
    }
}

impl View for FieldOverrideEditor {
    type V = FieldOverrideEditorView;

    open spec fn view(&self) -> FieldOverrideEditorView {
        self.deep_view()
    }
}

impl VisMode {
    /// The choice for a visibility.
    pub open spec fn of(v: RawVis) -> VisMode {
        match v {
            RawVis::Full => VisMode::Full,
            RawVis::Hidden => VisMode::Hidden,
            RawVis::Reserved => VisMode::Reserved,
            RawVis::Disabled => VisMode::Disabled,
        }
    }

    /// The choice for a visibility.
    pub fn from_raw(v: &RawVis) -> (r: Self)
        ensures
            r == VisMode::of(*v),
    {
        match v {
            RawVis::Full => VisMode::Full,
            RawVis::Hidden => VisMode::Hidden,
            RawVis::Reserved => VisMode::Reserved,
            RawVis::Disabled => VisMode::Disabled,
        }
    }

    /// The text of a choice.
    pub fn label(self) -> (r: &'static str)
        ensures
            r@ == (match self {
                VisMode::Full => "Full"@,
                VisMode::Hidden => "Hidden"@,
                VisMode::Reserved => "Reserved"@,
                VisMode::Disabled => "Disabled (expr)"@,
            }),
    {
        match self {
            VisMode::Full => "Full",
            VisMode::Hidden => "Hidden",
            VisMode::Reserved => "Reserved",
            VisMode::Disabled => "Disabled (expr)",
        }
    }
}

impl EnumMode {
    /// The choice for an enum.
    pub open spec fn of(k: EnumRefView) -> EnumMode {
        match k {
            EnumRefView::Plain => EnumMode::Plain,
            EnumRefView::Doc(_) => EnumMode::Doc,
            EnumRefView::Type(_) => EnumMode::Type,
        }
    }

    /// The choice for an enum.
    pub fn from_kind(k: &EnumRef) -> (r: Self)
        ensures
            r == EnumMode::of(k@),
    {
        match k {
            EnumRef::Plain => EnumMode::Plain,
            EnumRef::Doc(_) => EnumMode::Doc,
            EnumRef::Type(_) => EnumMode::Type,
        }
    }

    /// The text of a choice.
    pub fn label(self) -> (r: &'static str)
        ensures
            r@ == (match self {
                EnumMode::Plain => "None"@,
                EnumMode::Doc => "Doc"@,
                EnumMode::Type => "Type"@,
            }),
    {
        match self {
            EnumMode::Plain => "None",
            EnumMode::Doc => "Doc",
            EnumMode::Type => "Type",
        }
    }
}

impl LimitKind {
    /// The text of a choice.
    pub fn label(self) -> (r: &'static str)
        ensures
            r@ == (match self {
                LimitKind::Any => "None"@,
                LimitKind::Range => "Range"@,
                LimitKind::List => "List"@,
                LimitKind::Enum => "Enum"@,
                LimitKind::External => "External"@,
            }),
    {
        match self {
            LimitKind::Any => "None",
            LimitKind::Range => "Range",
            LimitKind::List => "List",
            LimitKind::Enum => "Enum",
            LimitKind::External => "External",
        }
    }
}

/// What a reset value is read as: an integer, in hexadecimal behind `0x`; otherwise the text of
/// the error.
pub open spec fn reset_parsed(s: Seq<char>, signed: bool) -> Result<ResetView, Seq<char>> {
    let t = trimmed(s);
    if t.len() == 0 {
        Err("Reset value is empty"@)
    } else if signed {
        match prefixed_signed(t) {
            Some(v) if i128::MIN <= v <= i128::MAX => Ok(ResetView::Signed(v as i128)),
            _ => Err("Invalid signed reset '"@ + t + "'"@),
        }
    } else {
        match prefixed_unsigned(t) {
            Some(v) if v <= u128::MAX => Ok(ResetView::Unsigned(v as u128)),
            _ => Err("Invalid unsigned reset '"@ + t + "'"@),
        }
    }
}

/// Reads a reset value: an integer, in hexadecimal behind `0x`.
pub fn parse_reset(s: &str, signed: bool) -> (r: Result<Reset, String>)
    ensures
        match reset_parsed(s@, signed) {
            Ok(v) => r is Ok && r->Ok_0@ == v,
            Err(e) => r is Err && r->Err_0@ == e,
        },
{
    let t = trim(s);
    if t.as_str().is_empty() {
        return Err("Reset value is empty".to_owned());
    }
    if signed {
        match read_prefixed_signed(t.as_str()) {
            Some(v) => Ok(Reset::Signed(v)),
            None => Err(join3("Invalid signed reset '", t.as_str(), "'")),
        }
    } else {
        match read_prefixed_unsigned(t.as_str()) {
            Some(v) => Ok(Reset::Unsigned(v)),
            None => Err(join3("Invalid unsigned reset '", t.as_str(), "'")),
        }
    }
}

/// The enum that a choice stands for: an empty one is for the documents only, `type` makes up a
/// name, and anything else is the name.
pub open spec fn enum_ref(kind: Seq<char>, reg_name: Seq<char>, field_name: Seq<char>) -> EnumRefView {
    if kind.len() == 0 {
        EnumRefView::Doc("doc:"@ + reg_name + "_"@ + field_name)
    } else if kind == "type"@ {
        EnumRefView::Type("e_"@ + reg_name + "_"@ + field_name)
    } else {
        EnumRefView::Type(kind)
    }
}

fn make_enum_ref(kind: &str, reg_name: &str, field_name: &str) -> (r: EnumRef)
    ensures
        r@ == enum_ref(kind@, reg_name@, field_name@),
{
    if kind.is_empty() {
        EnumRef::Doc(join(join3("doc:", reg_name, "_").as_str(), field_name))
    } else if same(kind, "type") {
        EnumRef::Type(join(join3("e_", reg_name, "_").as_str(), field_name))
    } else {
        EnumRef::Type(kind.to_owned())
    }
}

/// The text and signedness of a compiled reset value.
pub open spec fn reset_buffer(r: ResetInt) -> (Seq<char>, bool) {
    match r {
        ResetInt::Unsigned(v) => (decimal(v as int), false),
        ResetInt::Signed(v) => (decimal(v as int), true),
    }
}

/// A number that is shown only where it is not zero.
pub open spec fn nonzero_text(n: int) -> Seq<char> {
    if n == 0 {
        seq![]
    } else {
        decimal(n)
    }
}

/// The texts of reset values.
pub open spec fn reset_texts(vs: Seq<ResetView>) -> Seq<Seq<char>> {
    Seq::new(vs.len(), |i: int| reset_text(vs[i]))
}

/// The limit buffers: kind, lower limit, upper limit and list.
pub open spec fn limit_buffers(v: LimitValueView) -> (LimitKind, Seq<char>, Seq<char>, Seq<char>) {
    match v {
        LimitValueView::Any => (LimitKind::Any, seq![], seq![], seq![]),
        LimitValueView::Min(a) => (LimitKind::Range, reset_text(a), seq![], seq![]),
        LimitValueView::Max(b) => (LimitKind::Range, seq![], reset_text(b), seq![]),
        LimitValueView::MinMax(a, b) => (LimitKind::Range, reset_text(a), reset_text(b), seq![]),
        LimitValueView::List(vs) => (LimitKind::List, seq![], seq![], joined(reset_texts(vs), ","@)),
        LimitValueView::Enum => (LimitKind::Enum, seq![], seq![], seq![]),
        LimitValueView::External => (LimitKind::External, seq![], seq![], seq![]),
    }
}

/// Whether a hardware kind is a counter.
pub open spec fn counts() -> spec_fn(HwKind) -> bool {
    |k: HwKind| k is Counter
}

/// The counter settings of a field.
pub open spec fn counter_in(kinds: Seq<HwKind>) -> Option<Counter> {
    match first(kinds, counts()) {
        Some(i) => Some(kinds[i]->Counter_0),
        None => None,
    }
}

/// The step of a counter in one direction, where it counts that way.
pub open spec fn step_text(counter: Option<Counter>, up: bool) -> Seq<char> {
    match counter {
        Some(c) => if up && c.kind != CountDir::Down {
            decimal(c.incr_val as int)
        } else if !up && c.kind != CountDir::Up {
            decimal(c.decr_val as int)
        } else {
            seq![]
        },
        None => seq![],
    }
}

/// The text of an optional value; empty where there is none.
pub open spec fn opt_reset_text(r: Option<ResetView>) -> Seq<char> {
    match r {
        Some(v) => reset_text(v),
        None => seq![],
    }
}

/// The password settings of a field.
pub open spec fn password_in(k: SwKindView) -> Option<PasswordView> {
    match k {
        SwKindView::Password(p) => Some(p),
        _ => None,
    }
}

/// Whether a local enum has that name: a name with a scope is not local.
pub open spec fn local_enum(defs: Seq<EnumTypeView>, name: Seq<char>) -> bool {
    !name.contains(':') && first(defs, enum_named(name)) is Some
}

/// The trigger that a field shows: its own, or else that of the register.
pub open spec fn shown_trigger(own: Option<Trigger>, reg: Option<IntrOvr>) -> Trigger {
    match own {
        Some(t) => t,
        None => match reg {
            Some(d) => match d.trigger {
                Some(t) => t,
                None => Trigger::High,
            },
            None => Trigger::High,
        },
    }
}

/// The clear that a field shows: its own, or else that of the register.
pub open spec fn shown_clear(own: Option<IntrClear>, reg: Option<IntrOvr>) -> IntrClear {
    match own {
        Some(c) => c,
        None => match reg {
            Some(d) => match d.clear {
                Some(c) => c,
                None => IntrClear::Read,
            },
            None => IntrClear::Read,
        },
    }
}

/// The software access that is shown. A password field shows plain read and write, to which it
/// goes back once it is no password any more.
pub open spec fn shown_sw_kind(f: FieldInstView, def: FieldDefView) -> SwKindView {
    if password_in(def.sw_kind) is Some {
        SwKindView::ReadWrite
    } else {
        f.sw_kind
    }
}

/// The buffers that a field is loaded into.
pub open spec fn loaded_buffers(f: FieldInstView, def: FieldDefView, reg: Option<IntrOvr>) -> FieldBuffersView {
    let limit = limit_buffers(def.limit.value);
    let counter = counter_in(def.hw_kind);
    let password = password_in(def.sw_kind);
    FieldBuffersView {
        name: f.name,
        lsb: decimal(f.lsb as int),
        width: decimal(f.width.bits() as int),
        array: match def.array {
            DimView::Value(n) => nonzero_text(n as int),
            DimView::Param(_) => seq![],
        },
        array_pos_incr: nonzero_text(def.array_pos_incr as int),
        reset: reset_buffer(f.reset).0,
        desc: f.description.public,
        sw_kind: shown_sw_kind(f, def),
        signed: reset_buffer(f.reset).1,
        hw_acc: def.hw_acc,
        visibility: VisMode::of(def.visibility),
        nb_frac: nonzero_text(def.nb_frac as int),
        lock_on: !(def.lock is Open),
        lock: match def.lock {
            WriteLockView::Expr(t) => t,
            _ => seq![],
        },
        limit_kind: limit.0,
        limit_min: limit.1,
        limit_max: limit.2,
        limit_list: limit.3,
        limit_bypass: def.limit.bypass,
        counter_on: counter is Some,
        counter_up: step_text(counter, true),
        counter_down: step_text(counter, false),
        counter_sat: counter is Some && counter->0.sat,
        counter_event: counter is Some && counter->0.event,
        counter_clr: counter is Some && counter->0.clr,
        password_on: password is Some,
        password_once: match password {
            Some(p) => opt_reset_text(p.once),
            None => seq![],
        },
        password_hold: match password {
            Some(p) => opt_reset_text(p.hold),
            None => seq![],
        },
        password_protect: password is Some && password->0.protect,
        enum_mode: EnumMode::of(def.enum_kind),
        enum_name: match def.enum_kind {
            EnumRefView::Type(n) => n,
            _ => seq![],
        },
        intr_trigger_ovr_on: def.intr_ovr.trigger is Some,
        intr_trigger_ovr: shown_trigger(def.intr_ovr.trigger, reg),
        intr_clear_ovr_on: def.intr_ovr.clear is Some,
        intr_clear_ovr: shown_clear(def.intr_ovr.clear, reg),
    }
}

/// Whether an editor was loaded from a field.
pub open spec fn loaded(
    e: FieldEditorView,
    key: (Seq<char>, Seq<char>),
    f: FieldInstView,
    def: FieldDefView,
    enum_defs: Seq<EnumTypeView>,
    rif_type: Seq<char>,
    group_type: Seq<char>,
    reg: Option<IntrOvr>,
) -> bool {
    &&& e.key == key
    &&& e.rif_type == rif_type
    &&& e.group_type == group_type
    &&& e.buf == loaded_buffers(f, def, reg)
    &&& e.orig == e.buf
    &&& e.reg_intr_default == reg
    &&& e.enum_type_src == if local_enum(enum_defs, e.buf.enum_name) {
        EnumTypeSrc::Existing
    } else {
        EnumTypeSrc::New
    }
    &&& e.parse_err is None
}

/// A field whose buffers were just loaded counts as unchanged, whatever kind of field it is.
pub proof fn loading_changes_nothing(
    e: FieldEditorView,
    key: (Seq<char>, Seq<char>),
    f: FieldInstView,
    def: FieldDefView,
    enum_defs: Seq<EnumTypeView>,
    rif_type: Seq<char>,
    group_type: Seq<char>,
    reg: Option<IntrOvr>,
)
    requires
        loaded(e, key, f, def, enum_defs, rif_type, group_type, reg),
    ensures
        buffers_same(e.buf, e.orig),
{
}

/// What the buffers with a grammar of their own were read as; `None` where there was nothing to
/// read.
#[derive(Debug)]
pub struct FieldReadings {
    /// Write lock: how it prints, where it can.
    pub lock: Option<Result<Option<String>, String>>,
    /// Limit.
    pub limit: Option<Result<Limit, String>>,
    /// Counter settings.
    pub counter: Option<Result<Counter, String>>,
    /// Password settings.
    pub password: Option<Result<Password, String>>,
}

/// The value of [`FieldReadings`].
pub struct FieldReadingsView {
    pub lock: Option<Result<Option<Seq<char>>, Seq<char>>>,
    pub limit: Option<Result<LimitView, Seq<char>>>,
    pub counter: Option<Result<Counter, Seq<char>>>,
    pub password: Option<Result<PasswordView, Seq<char>>>,
}

impl View for FieldReadings {
    type V = FieldReadingsView;

    open spec fn view(&self) -> FieldReadingsView {
        FieldReadingsView {
            lock: match self.lock {
                Some(Ok(t)) => Some(Ok(t.deep_view())),
                Some(Err(e)) => Some(Err(e@)),
                None => None,
            },
            limit: match self.limit {
                Some(Ok(l)) => Some(Ok(l@)),
                Some(Err(e)) => Some(Err(e@)),
                None => None,
            },
            counter: match self.counter {
                Some(Ok(c)) => Some(Ok(c)),
                Some(Err(e)) => Some(Err(e@)),
                None => None,
            },
            password: match self.password {
                Some(Ok(p)) => Some(Ok(p@)),
                Some(Err(e)) => Some(Err(e@)),
                None => None,
            },
        }
    }
}

/// The lock to read.
pub open spec fn lock_text(e: FieldEditorView) -> Option<Seq<char>> {
    if !e.buf.lock_on || trimmed(e.buf.lock).len() == 0 {
        None
    } else {
        Some(trimmed(e.buf.lock))
    }
}

/// The limit in source syntax; empty for none.
pub open spec fn limit_text(e: FieldEditorView) -> Seq<char> {
    let spec_text = match e.buf.limit_kind {
        LimitKind::Any => seq![],
        LimitKind::Range => "["@ + trimmed(e.buf.limit_min) + ":"@ + trimmed(e.buf.limit_max) + "]"@,
        LimitKind::List => "{"@ + trimmed(e.buf.limit_list) + "}"@,
        LimitKind::Enum => "enum"@,
        LimitKind::External => "external"@,
    };
    if e.buf.limit_kind == LimitKind::Any || trimmed(e.buf.limit_bypass).len() == 0 {
        spec_text
    } else {
        spec_text + " "@ + trimmed(e.buf.limit_bypass)
    }
}

/// `key` and `value`, where the value is neither blank nor the default step.
pub open spec fn step_setting(key: Seq<char>, value: Seq<char>) -> Seq<char> {
    if value.len() == 0 || value == "0"@ {
        seq![]
    } else {
        key + value
    }
}

/// A word that is there or not.
pub open spec fn word_if(cond: bool, word: Seq<char>) -> Seq<char> {
    if cond {
        word
    } else {
        seq![]
    }
}

/// The counter settings in source syntax; empty where it counts neither way.
pub open spec fn counter_text(e: FieldEditorView) -> Seq<char> {
    let up = trimmed(e.buf.counter_up);
    let down = trimmed(e.buf.counter_down);
    if up.len() == 0 && down.len() == 0 {
        seq![]
    } else {
        (if up.len() > 0 && down.len() > 0 {
            "updown"@
        } else if up.len() > 0 {
            "up"@
        } else {
            "down"@
        }) + step_setting(" incrVal="@, up) + step_setting(" decrVal="@, down) + word_if(
            e.buf.counter_sat,
            " sat"@,
        ) + word_if(e.buf.counter_event, " event"@) + word_if(e.buf.counter_clr, " clr"@)
    }
}

/// The parts of the password settings.
pub open spec fn password_parts(e: FieldEditorView) -> Seq<Seq<char>> {
    let once = trimmed(e.buf.password_once);
    let hold = trimmed(e.buf.password_hold);
    (if once.len() > 0 {
        seq!["once="@ + once]
    } else {
        seq![]
    }) + (if hold.len() > 0 {
        seq!["hold="@ + hold]
    } else {
        seq![]
    }) + (if e.buf.password_protect {
        seq!["protect"@]
    } else {
        seq![]
    })
}

/// The password settings in source syntax; empty where there are none.
pub open spec fn password_text(e: FieldEditorView) -> Seq<char> {
    joined(password_parts(e), " "@)
}

/// Whether `r` is what the buffers are read as. A lock that its reader cannot take is no lock.
pub open spec fn reads(e: FieldEditorView, r: FieldReadingsView) -> bool {
    &&& match lock_text(e) {
        None => r.lock is None,
        Some(t) => r.lock is Some && match condition_problem(t) {
            Some(p) => r.lock->0 == Err::<Option<Seq<char>>, Seq<char>>(p),
            None => match signal_read(t) {
                Some(x) => r.lock->0 == Ok::<Option<Seq<char>>, Seq<char>>(x),
                None => r.lock->0 is Err,
            },
        },
    }
    &&& r.limit == if limit_text(e).len() == 0 {
        None
    } else {
        Some(limit_read(limit_text(e)))
    }
    &&& r.counter == if !e.buf.counter_on || counter_text(e).len() == 0 {
        None
    } else if !is_counter(counter_text(e)) {
        Some(Err("a step is no number below 256"@))
    } else {
        Some(counter_read(counter_text(e)))
    }
    &&& r.password == if !e.buf.password_on || password_text(e).len() == 0 {
        None
    } else {
        Some(password_read(password_text(e)))
    }
}

/// A decimal byte; zero where the text is blank.
pub open spec fn byte_or_zero(s: Seq<char>) -> Option<u8> {
    if trimmed(s).len() == 0 {
        Some(0)
    } else {
        byte_value(trimmed(s))
    }
}

/// A decimal integer; zero where the text is blank.
pub open spec fn isize_or_zero(s: Seq<char>) -> Option<isize> {
    if trimmed(s).len() == 0 {
        Some(0)
    } else {
        isize_value(trimmed(s))
    }
}

/// The reset value, where it or its signedness was changed. Otherwise the field keeps the one
/// that it has, which may be a label or a parameter.
pub open spec fn reset_edit(e: FieldEditorView) -> Option<Result<ResetView, Seq<char>>> {
    if e.buf.reset != e.orig.reset || e.buf.signed != e.orig.signed {
        Some(reset_parsed(e.buf.reset, e.buf.signed))
    } else {
        None
    }
}

/// What is wrong with the buffers that hold plain texts and numbers.
pub open spec fn text_problem(e: FieldEditorView) -> Option<Seq<char>> {
    if byte_value(trimmed(e.buf.lsb)) is None {
        Some("Invalid lsb"@)
    } else if byte_value(trimmed(e.buf.width)) is None || byte_value(trimmed(e.buf.width)) == Some(0u8) {
        Some("Width must be >= 1"@)
    } else if trimmed(e.buf.name).len() == 0 {
        Some("Name is empty"@)
    } else if byte_or_zero(e.buf.array) is None {
        Some("Invalid array size"@)
    } else if byte_or_zero(e.buf.array_pos_incr) is None {
        Some("Invalid array position increment"@)
    } else if let Some(Err(t)) = reset_edit(e) {
        Some(t)
    } else if isize_or_zero(e.buf.nb_frac) is None {
        Some("Invalid fractional bits"@)
    } else {
        None
    }
}

/// What is wrong with the buffers.
pub open spec fn field_problem(e: FieldEditorView, r: FieldReadingsView) -> Option<Seq<char>> {
    if text_problem(e) is Some {
        text_problem(e)
    } else if let Some(Err(t)) = r.lock {
        Some("Invalid lock: "@ + t)
    } else if let Some(Ok(None)) = r.lock {
        Some("Lock expression too complex to persist yet"@)
    } else if let Some(Err(t)) = r.limit {
        Some("Invalid limit: "@ + t)
    } else if let Some(Err(t)) = r.counter {
        Some("Invalid counter: "@ + t)
    } else if let Some(Err(t)) = r.password {
        Some("Invalid password: "@ + t)
    } else {
        None
    }
}

/// Whether the field ends within the bits that a position can name.
pub open spec fn position_fits(e: FieldEditorView) -> bool {
    match (byte_value(trimmed(e.buf.lsb)), byte_value(trimmed(e.buf.width))) {
        (Some(l), Some(w)) => l + w - 1 <= u8::MAX,
        _ => true,
    }
}

pub open spec fn prop_if(cond: bool, p: FieldProp) -> Seq<FieldProp> {
    if cond {
        seq![p]
    } else {
        seq![]
    }
}

/// Whether software access makes a pulse.
pub open spec fn is_pulse(k: SwKindView) -> bool {
    k is W1Pulse
}

pub open spec fn enum_changed(e: FieldEditorView) -> bool {
    e.buf.enum_mode != e.orig.enum_mode || trimmed(e.buf.enum_name) != e.orig.enum_name
}

pub open spec fn lock_changed(e: FieldEditorView) -> bool {
    e.buf.lock_on != e.orig.lock_on || trimmed(e.buf.lock) != e.orig.lock
}

pub open spec fn limit_changed(e: FieldEditorView) -> bool {
    ||| e.buf.limit_kind != e.orig.limit_kind
    ||| trimmed(e.buf.limit_min) != e.orig.limit_min
    ||| trimmed(e.buf.limit_max) != e.orig.limit_max
    ||| trimmed(e.buf.limit_list) != e.orig.limit_list
    ||| trimmed(e.buf.limit_bypass) != e.orig.limit_bypass
}

pub open spec fn counter_changed(e: FieldEditorView) -> bool {
    ||| e.buf.counter_on != e.orig.counter_on
    ||| trimmed(e.buf.counter_up) != e.orig.counter_up
    ||| trimmed(e.buf.counter_down) != e.orig.counter_down
    ||| e.buf.counter_sat != e.orig.counter_sat
    ||| e.buf.counter_event != e.orig.counter_event
    ||| e.buf.counter_clr != e.orig.counter_clr
}

pub open spec fn password_changed(e: FieldEditorView) -> bool {
    ||| e.buf.password_on != e.orig.password_on
    ||| trimmed(e.buf.password_once) != e.orig.password_once
    ||| trimmed(e.buf.password_hold) != e.orig.password_hold
    ||| e.buf.password_protect != e.orig.password_protect
}

pub open spec fn interrupt_changed(e: FieldEditorView) -> bool {
    &&& e.reg_intr_default is Some
    &&& (e.buf.intr_trigger_ovr_on != e.orig.intr_trigger_ovr_on || e.buf.intr_trigger_ovr
        != e.orig.intr_trigger_ovr || e.buf.intr_clear_ovr_on != e.orig.intr_clear_ovr_on || e.buf.intr_clear_ovr
        != e.orig.intr_clear_ovr)
}

/// The properties that were changed. The line of a pulse is always looked at, since a pulse may
/// stand on a line of its own or in the declaration.
pub open spec fn changed_props(e: FieldEditorView) -> Seq<FieldProp> {
    prop_if(e.buf.signed != e.orig.signed, FieldProp::Signed) + prop_if(
        e.buf.hw_acc != e.orig.hw_acc,
        FieldProp::HwAcc,
    ) + prop_if(trimmed(e.buf.nb_frac) != e.orig.nb_frac, FieldProp::NbFrac) + prop_if(
        trimmed(e.buf.array_pos_incr) != e.orig.array_pos_incr,
        FieldProp::ArrayPosIncr,
    ) + prop_if(e.buf.visibility != e.orig.visibility, FieldProp::Visibility) + prop_if(
        enum_changed(e),
        FieldProp::EnumKind,
    ) + prop_if(lock_changed(e), FieldProp::Lock) + prop_if(
        is_pulse(e.buf.sw_kind) || is_pulse(e.orig.sw_kind),
        FieldProp::Pulse,
    ) + prop_if(limit_changed(e), FieldProp::Limit) + prop_if(counter_changed(e), FieldProp::Counter) + prop_if(
        password_changed(e),
        FieldProp::Password,
    ) + prop_if(interrupt_changed(e), FieldProp::Interrupt)
}

/// The enum that the buffers stand for.
pub open spec fn enum_edit(e: FieldEditorView) -> EnumRefView {
    match e.buf.enum_mode {
        EnumMode::Plain => EnumRefView::Plain,
        EnumMode::Doc => enum_ref(seq![], e.group_type, trimmed(e.buf.name)),
        EnumMode::Type => if trimmed(e.buf.enum_name).len() == 0 {
            enum_ref("type"@, e.group_type, trimmed(e.buf.name))
        } else {
            enum_ref(trimmed(e.buf.enum_name), e.group_type, trimmed(e.buf.name))
        },
    }
}

/// The visibility that the buffer stands for; `None` keeps the condition of a disabled field.
pub open spec fn visibility_edit(e: FieldEditorView) -> Option<RawVis> {
    match e.buf.visibility {
        VisMode::Full => Some(RawVis::Full),
        VisMode::Hidden => Some(RawVis::Hidden),
        VisMode::Reserved => Some(RawVis::Reserved),
        VisMode::Disabled => None,
    }
}

/// The interrupt settings that the buffers stand for, in an interrupt register.
pub open spec fn interrupt_edit(e: FieldEditorView) -> Option<IntrOvr> {
    match e.reg_intr_default {
        Some(_) => Some(
            IntrOvr {
                trigger: if e.buf.intr_trigger_ovr_on {
                    Some(e.buf.intr_trigger_ovr)
                } else {
                    None
                },
                clear: if e.buf.intr_clear_ovr_on {
                    Some(e.buf.intr_clear_ovr)
                } else {
                    None
                },
            },
        ),
        None => None,
    }
}

/// No limit.
pub open spec fn unlimited() -> LimitView {
    LimitView { value: LimitValueView::Any, bypass: seq![] }
}

/// The values that the buffers stand for.
pub open spec fn field_vals(e: FieldEditorView, r: FieldReadingsView) -> FieldValsView {
    let lsb = byte_value(trimmed(e.buf.lsb))->0;
    let width = byte_value(trimmed(e.buf.width))->0;
    FieldValsView {
        name: trimmed(e.buf.name),
        pos: BitPosView::MsbLsb(DimView::Value((lsb + width - 1) as u8), DimView::Value(lsb)),
        array: DimView::Value(byte_or_zero(e.buf.array)->0),
        array_pos_incr: byte_or_zero(e.buf.array_pos_incr)->0,
        reset: match reset_edit(e) {
            Some(Ok(v)) => Some(v),
            _ => None,
        },
        signed: e.buf.signed,
        sw_kind: e.buf.sw_kind,
        desc: e.buf.desc,
        hw_acc: e.buf.hw_acc,
        visibility: visibility_edit(e),
        nb_frac: isize_or_zero(e.buf.nb_frac)->0,
        lock: match r.lock {
            Some(Ok(Some(t))) => WriteLockView::Expr(t),
            _ => WriteLockView::Open,
        },
        limit: match r.limit {
            Some(Ok(l)) => l,
            _ => unlimited(),
        },
        counter: match r.counter {
            Some(Ok(c)) => Some(c),
            _ => None,
        },
        password: match r.password {
            Some(Ok(p)) => Some(p),
            _ => if e.buf.password_on {
                Some(PasswordView { once: None, hold: None, protect: false })
            } else {
                None
            },
        },
        enum_kind: enum_edit(e),
        intr_ovr: interrupt_edit(e),
        reg_intr_default: match e.reg_intr_default {
            Some(d) => d,
            None => IntrOvr { trigger: None, clear: None },
        },
        changed: changed_props(e),
    }
}

/// What an editor makes of its buffers, given what those with a grammar of their own were read
/// as.
pub open spec fn field_built(
    e: FieldEditorView,
    r: FieldReadingsView,
    after: FieldEditorView,
    action: Option<EditActionView>,
) -> bool {
    match field_problem(e, r) {
        Some(t) => action is None && after == (FieldEditorView { parse_err: Some(t), ..e }),
        None => after == (FieldEditorView { parse_err: None, ..e }) && action == Some(
            EditActionView::UpdateField {
                rif_type: e.rif_type,
                reg_type: e.key.0,
                orig_name: e.key.1,
                vals: field_vals(e, r),
            },
        ),
    }
}

/// A reset value that was not touched stays as it is in the definition, though it may be a label
/// or a parameter there.
pub proof fn untouched_reset_is_kept(e: FieldEditorView, r: FieldReadingsView)
    requires
        e.buf.reset == e.orig.reset,
        e.buf.signed == e.orig.signed,
    ensures
        field_vals(e, r).reset is None,
{
}

/// Numbers that were loaded and not touched stand for what the field has: its position, its array
/// size and increment, and its fractional bits.
pub proof fn loaded_numbers_read_back(
    e: FieldEditorView,
    f: FieldInstView,
    def: FieldDefView,
    reg: Option<IntrOvr>,
    r: FieldReadingsView,
)
    requires
        e.buf == loaded_buffers(f, def, reg),
        f.width is Fixed,
        1 <= f.width.bits() <= u8::MAX,
        def.array is Value,
    ensures
        field_vals(e, r).pos == BitPosView::MsbLsb(
            DimView::Value((f.lsb + f.width.bits() - 1) as u8),
            DimView::Value(f.lsb),
        ),
        field_vals(e, r).array == def.array,
        field_vals(e, r).array_pos_incr == def.array_pos_incr,
        field_vals(e, r).nb_frac == def.nb_frac,
{
    let n = def.array->Value_0;
    assert(trimmed(Seq::<char>::empty()) =~= Seq::<char>::empty());
    decimal_reads_back(f.lsb as int);
    decimal_is_trimmed(f.lsb as int);
    decimal_reads_back(f.width.bits() as int);
    decimal_is_trimmed(f.width.bits() as int);
    decimal_reads_back(n as int);
    decimal_is_trimmed(n as int);
    decimal_reads_back(def.array_pos_incr as int);
    decimal_is_trimmed(def.array_pos_incr as int);
    decimal_reads_back(def.nb_frac as int);
    decimal_is_trimmed(def.nb_frac as int);
}

/// Buffers that are as they were loaded, without blanks around them, change no property, but for
/// the line of a pulse.
pub proof fn unchanged_buffers_change_no_property(e: FieldEditorView)
    requires
        e.buf == e.orig,
        trimmed(e.buf.nb_frac) == e.buf.nb_frac,
        trimmed(e.buf.array_pos_incr) == e.buf.array_pos_incr,
        trimmed(e.buf.enum_name) == e.buf.enum_name,
        trimmed(e.buf.lock) == e.buf.lock,
        trimmed(e.buf.limit_min) == e.buf.limit_min,
        trimmed(e.buf.limit_max) == e.buf.limit_max,
        trimmed(e.buf.limit_list) == e.buf.limit_list,
        trimmed(e.buf.limit_bypass) == e.buf.limit_bypass,
        trimmed(e.buf.counter_up) == e.buf.counter_up,
        trimmed(e.buf.counter_down) == e.buf.counter_down,
        trimmed(e.buf.password_once) == e.buf.password_once,
        trimmed(e.buf.password_hold) == e.buf.password_hold,
    ensures
        changed_props(e) == prop_if(is_pulse(e.buf.sw_kind), FieldProp::Pulse),
{
    assert(changed_props(e) =~= prop_if(is_pulse(e.buf.sw_kind), FieldProp::Pulse));
}

/// Writes a number that is shown only where it is not zero.
pub fn show_small(n: u128) -> (r: String)
    ensures
        r@ == nonzero_text(n as int),
{
    if n == 0 {
        String::new()
    } else {
        show_unsigned(n)
    }
}

fn same_opt_reset(a: &Option<Reset>, b: &Option<Reset>) -> (r: bool)
    ensures
        r == (a.deep_view() == b.deep_view()),
{
    match (a, b) {
        (Some(x), Some(y)) => same_reset(x, y),
        (None, None) => true,
        _ => false,
    }
}

/// Whether two kinds of software access are the same.
pub fn same_sw_kind(a: &SwKind, b: &SwKind) -> (r: bool)
    ensures
        r == (a@ == b@),
{
    match (a, b) {
        (SwKind::ReadWrite, SwKind::ReadWrite) => true,
        (SwKind::ReadOnly, SwKind::ReadOnly) => true,
        (SwKind::WriteOnly, SwKind::WriteOnly) => true,
        (SwKind::ReadClr, SwKind::ReadClr) => true,
        (SwKind::W1Clr, SwKind::W1Clr) => true,
        (SwKind::W0Clr, SwKind::W0Clr) => true,
        (SwKind::W1Set, SwKind::W1Set) => true,
        (SwKind::W1Tgl, SwKind::W1Tgl) => true,
        (SwKind::W1Pulse(x, y), SwKind::W1Pulse(v, w)) => *x == *v && *y == *w,
        (SwKind::Password(p), SwKind::Password(q)) => {
            same_opt_reset(&p.once, &q.once) && same_opt_reset(&p.hold, &q.hold) && p.protect == q.protect
        },
        _ => false,
    }
}

fn find_counter(kinds: &Vec<HwKind>) -> (r: Option<Counter>)
    ensures
        r == counter_in(kinds@),
{
    let mut i: usize = 0;
    while i < kinds.len()
        invariant
            i <= kinds@.len(),
            forall|k: int| 0 <= k < i ==> !(counts())(kinds@[k]),
        decreases kinds@.len() - i,
    {
        if let HwKind::Counter(c) = &kinds[i] {
            proof {
                lemma_is_first(kinds@, counts(), i as int);
            }
            return Some(*c);
        }
        i += 1;
    }
    proof {
        lemma_no_first(kinds@, counts());
    }
    None
}

fn show_step(counter: &Option<Counter>, up: bool) -> (r: String)
    ensures
        r@ == step_text(*counter, up),
{
    match counter {
        Some(c) => {
            if up && c.kind != CountDir::Down {
                show_unsigned(c.incr_val as u128)
            } else if !up && c.kind != CountDir::Up {
                show_unsigned(c.decr_val as u128)
            } else {
                String::new()
            }
        },
        None => String::new(),
    }
}

/// The text of an optional value; empty where there is none.
pub fn show_opt_reset(r: &Option<Reset>) -> (t: String)
    ensures
        t@ == opt_reset_text(r.deep_view()),
{
    match r {
        Some(v) => show_reset(v),
        None => String::new(),
    }
}

fn has_char(s: &str, c: char) -> (r: bool)
    ensures
        r == s@.contains(c),
{
    let cs = to_chars(s);
    let mut i: usize = 0;
    while i < cs.len()
        invariant
            i <= cs@.len(),
            cs@ == s@,
            forall|k: int| 0 <= k < i ==> cs@[k] != c,
        decreases cs@.len() - i,
    {
        if cs[i] == c {
            proof {
                assert(s@[i as int] == c);
            }
            return true;
        }
        i += 1;
    }
    false
}

fn is_local_enum(defs: &Vec<EnumType>, name: &String) -> (r: bool)
    ensures
        r == local_enum(defs.deep_view(), name@),
{
    if has_char(name.as_str(), ':') {
        return false;
    }
    match find_enum(defs, name) {
        Some(_) => true,
        None => false,
    }
}

fn show_resets(vs: &Vec<Reset>) -> (r: Vec<String>)
    ensures
        r.deep_view() == reset_texts(vs.deep_view()),
{
    let mut r: Vec<String> = Vec::new();
    let mut i: usize = 0;
    while i < vs.len()
        invariant
            i <= vs@.len(),
            r@.len() == i,
            forall|k: int| 0 <= k < i ==> (#[trigger] r@[k])@ == reset_text(vs@[k]@),
        decreases vs@.len() - i,
    {
        r.push(show_reset(&vs[i]));
        i += 1;
    }
    proof {
        assert(r.deep_view() =~= reset_texts(vs.deep_view()));
    }
    r
}

fn load_limit(v: &LimitValue) -> (r: (LimitKind, String, String, String))
    ensures
        (r.0, r.1@, r.2@, r.3@) == limit_buffers(v@),
{
    match v {
        LimitValue::Any => (LimitKind::Any, String::new(), String::new(), String::new()),
        LimitValue::Min(a) => (LimitKind::Range, show_reset(a), String::new(), String::new()),
        LimitValue::Max(b) => (LimitKind::Range, String::new(), show_reset(b), String::new()),
        LimitValue::MinMax(a, b) => (LimitKind::Range, show_reset(a), show_reset(b), String::new()),
        LimitValue::List(vs) => {
            (LimitKind::List, String::new(), String::new(), join_text(&show_resets(vs), ","))
        },
        LimitValue::Enum => (LimitKind::Enum, String::new(), String::new(), String::new()),
        LimitValue::External => (LimitKind::External, String::new(), String::new(), String::new()),
    }
}

fn pick_trigger(own: Option<Trigger>, reg: Option<IntrOvr>) -> (r: Trigger)
    ensures
        r == shown_trigger(own, reg),
{
    match own {
        Some(t) => t,
        None => match reg {
            Some(d) => match d.trigger {
                Some(t) => t,
                None => Trigger::High,
            },
            None => Trigger::High,
        },
    }
}

fn pick_clear(own: Option<IntrClear>, reg: Option<IntrOvr>) -> (r: IntrClear)
    ensures
        r == shown_clear(own, reg),
{
    match own {
        Some(c) => c,
        None => match reg {
            Some(d) => match d.clear {
                Some(c) => c,
                None => IntrClear::Read,
            },
            None => IntrClear::Read,
        },
    }
}

fn load_buffers(f: &FieldInst, def: &FieldDef, reg: Option<IntrOvr>) -> (r: FieldBuffers)
    ensures
        r@ == loaded_buffers(f@, def@, reg),
{
    let (reset, signed) = match f.reset {
        ResetInt::Unsigned(v) => (show_unsigned(v), false),
        ResetInt::Signed(v) => (show_signed(v), true),
    };
    let nb_frac = if def.nb_frac == 0 {
        String::new()
    } else {
        show_signed(def.nb_frac as i128)
    };
    let (lock_on, lock) = match &def.lock {
        WriteLock::Open => (false, String::new()),
        WriteLock::Expr(t) => (true, t.clone()),
        WriteLock::Complex => (true, String::new()),
    };
    let (limit_kind, limit_min, limit_max, limit_list) = load_limit(&def.limit.value);
    proof {
        assert(def.hw_kind.deep_view() =~= def.hw_kind@);
    }
    let counter = find_counter(&def.hw_kind);
    let (counter_on, counter_sat, counter_event, counter_clr) = match counter {
        Some(c) => (true, c.sat, c.event, c.clr),
        None => (false, false, false, false),
    };
    let (password_on, password_once, password_hold, password_protect) = match &def.sw_kind {
        SwKind::Password(p) => (true, show_opt_reset(&p.once), show_opt_reset(&p.hold), p.protect),
        _ => (false, String::new(), String::new(), false),
    };
    let enum_name = match &def.enum_kind {
        EnumRef::Type(n) => n.clone(),
        _ => String::new(),
    };
    let sw_kind = if password_on {
        SwKind::ReadWrite
    } else {
        f.sw_kind.clone()
    };
    let array = match &def.array {
        Dim::Value(n) => show_small(*n as u128),
        Dim::Param(_) => String::new(),
    };
    FieldBuffers {
        name: f.name.clone(),
        lsb: show_unsigned(f.lsb as u128),
        width: show_unsigned(f.width() as u128),
        array,
        array_pos_incr: show_small(def.array_pos_incr as u128),
        reset,
        desc: f.description.public.clone(),
        sw_kind,
        signed,
        hw_acc: def.hw_acc,
        visibility: VisMode::from_raw(&def.visibility),
        nb_frac,
        lock_on,
        lock,
        limit_kind,
        limit_min,
        limit_max,
        limit_list,
        limit_bypass: def.limit.bypass.clone(),
        counter_on,
        counter_up: show_step(&counter, true),
        counter_down: show_step(&counter, false),
        counter_sat,
        counter_event,
        counter_clr,
        password_on,
        password_once,
        password_hold,
        password_protect,
        enum_mode: EnumMode::from_kind(&def.enum_kind),
        enum_name,
        intr_trigger_ovr_on: def.intr_ovr.trigger.is_some(),
        intr_trigger_ovr: pick_trigger(def.intr_ovr.trigger, reg),
        intr_clear_ovr_on: def.intr_ovr.clear.is_some(),
        intr_clear_ovr: pick_clear(def.intr_ovr.clear, reg),
    }
}

fn add_when(props: &mut Vec<FieldProp>, cond: bool, p: FieldProp)
    ensures
        final(props)@ == old(props)@ + prop_if(cond, p),
{
    if cond {
        props.push(p);
    }
    proof {
        assert(props@ =~= old(props)@ + prop_if(cond, p));
    }
}

fn trims_to(s: &String, t: &String) -> (r: bool)
    ensures
        r == (trimmed(s@) == t@),
{
    trim(s.as_str()) == *t
}

fn small_number(s: &String) -> (r: Option<u8>)
    ensures
        r == byte_or_zero(s@),
{
    let t = trim(s.as_str());
    if t.as_str().is_empty() {
        Some(0)
    } else {
        read_byte(t.as_str())
    }
}

pub open spec fn place_same(a: FieldBuffersView, b: FieldBuffersView) -> bool {
    &&& a.name == b.name
    &&& a.lsb == b.lsb
    &&& a.width == b.width
    &&& a.array == b.array
    &&& a.array_pos_incr == b.array_pos_incr
    &&& a.reset == b.reset
    &&& a.desc == b.desc
    &&& a.sw_kind == b.sw_kind
    &&& a.signed == b.signed
}

fn same_place(a: &FieldBuffers, b: &FieldBuffers) -> (r: bool)
    ensures
        r == place_same(a@, b@),
{
    a.name == b.name
        && a.lsb == b.lsb
        && a.width == b.width
        && a.array == b.array
        && a.array_pos_incr == b.array_pos_incr
        && a.reset == b.reset
        && a.desc == b.desc
        && same_sw_kind(&a.sw_kind, &b.sw_kind)
        && a.signed == b.signed
}

pub open spec fn access_same(a: FieldBuffersView, b: FieldBuffersView) -> bool {
    &&& a.hw_acc == b.hw_acc
    &&& a.visibility == b.visibility
    &&& a.nb_frac == b.nb_frac
    &&& a.lock_on == b.lock_on
    &&& a.lock == b.lock
}

fn same_access(a: &FieldBuffers, b: &FieldBuffers) -> (r: bool)
    ensures
        r == access_same(a@, b@),
{
    a.hw_acc == b.hw_acc
        && a.visibility == b.visibility
        && a.nb_frac == b.nb_frac
        && a.lock_on == b.lock_on
        && a.lock == b.lock
}

pub open spec fn limit_same(a: FieldBuffersView, b: FieldBuffersView) -> bool {
    &&& a.limit_kind == b.limit_kind
    &&& a.limit_min == b.limit_min
    &&& a.limit_max == b.limit_max
    &&& a.limit_list == b.limit_list
    &&& a.limit_bypass == b.limit_bypass
}

fn same_limit(a: &FieldBuffers, b: &FieldBuffers) -> (r: bool)
    ensures
        r == limit_same(a@, b@),
{
    a.limit_kind == b.limit_kind
        && a.limit_min == b.limit_min
        && a.limit_max == b.limit_max
        && a.limit_list == b.limit_list
        && a.limit_bypass == b.limit_bypass
}

pub open spec fn counter_same(a: FieldBuffersView, b: FieldBuffersView) -> bool {
    &&& a.counter_on == b.counter_on
    &&& a.counter_up == b.counter_up
    &&& a.counter_down == b.counter_down
    &&& a.counter_sat == b.counter_sat
    &&& a.counter_event == b.counter_event
    &&& a.counter_clr == b.counter_clr
}

fn same_counter(a: &FieldBuffers, b: &FieldBuffers) -> (r: bool)
    ensures
        r == counter_same(a@, b@),
{
    a.counter_on == b.counter_on
        && a.counter_up == b.counter_up
        && a.counter_down == b.counter_down
        && a.counter_sat == b.counter_sat
        && a.counter_event == b.counter_event
        && a.counter_clr == b.counter_clr
}

pub open spec fn special_same(a: FieldBuffersView, b: FieldBuffersView) -> bool {
    &&& a.password_on == b.password_on
    &&& a.password_once == b.password_once
    &&& a.password_hold == b.password_hold
    &&& a.password_protect == b.password_protect
    &&& a.enum_mode == b.enum_mode
    &&& a.enum_name == b.enum_name
    &&& a.intr_trigger_ovr_on == b.intr_trigger_ovr_on
    &&& a.intr_trigger_ovr == b.intr_trigger_ovr
    &&& a.intr_clear_ovr_on == b.intr_clear_ovr_on
    &&& a.intr_clear_ovr == b.intr_clear_ovr
}

fn same_special(a: &FieldBuffers, b: &FieldBuffers) -> (r: bool)
    ensures
        r == special_same(a@, b@),
{
    a.password_on == b.password_on
        && a.password_once == b.password_once
        && a.password_hold == b.password_hold
        && a.password_protect == b.password_protect
        && a.enum_mode == b.enum_mode
        && a.enum_name == b.enum_name
        && a.intr_trigger_ovr_on == b.intr_trigger_ovr_on
        && a.intr_trigger_ovr == b.intr_trigger_ovr
        && a.intr_clear_ovr_on == b.intr_clear_ovr_on
        && a.intr_clear_ovr == b.intr_clear_ovr
}

/// Whether two sets of buffers hold the same.
pub open spec fn buffers_same(a: FieldBuffersView, b: FieldBuffersView) -> bool {
    &&& place_same(a, b)
    &&& access_same(a, b)
    &&& limit_same(a, b)
    &&& counter_same(a, b)
    &&& special_same(a, b)
}

/// Buffers that hold the same are equal.
pub proof fn same_buffers_are_equal(a: FieldBuffersView, b: FieldBuffersView)
    ensures
        buffers_same(a, b) <==> a == b,
{
}

impl FieldEditor {
    /// Loads the buffers of a field.
    pub fn from_field(
        key: (String, String),
        f: &FieldInst,
        def: &FieldDef,
        enum_defs: &Vec<EnumType>,
        rif_type: &str,
        group_type: &str,
        reg_intr_default: Option<IntrOvr>,
    ) -> (r: Self)
        ensures
            loaded(
                r@,
                key.deep_view(),
                f@,
                def@,
                enum_defs.deep_view(),
                rif_type@,
                group_type@,
                reg_intr_default,
            ),
    {
        let buf = load_buffers(f, def, reg_intr_default);
        let orig = buf.clone();
        let enum_type_src = if is_local_enum(enum_defs, &buf.enum_name) {
            EnumTypeSrc::Existing
        } else {
            EnumTypeSrc::New
        };
        FieldEditor {
            key,
            rif_type: rif_type.to_owned(),
            group_type: group_type.to_owned(),
            buf,
            enum_type_src,
            reg_intr_default,
            orig,
            parse_err: None,
        }
    }

    /// Whether every buffer still is as it was loaded.
    pub fn is_unchanged(&self) -> (r: bool)
        ensures
            r == buffers_same(self@.buf, self@.orig),
    {
        same_place(&self.buf, &self.orig) && same_access(&self.buf, &self.orig) && same_limit(
            &self.buf,
            &self.orig,
        ) && same_counter(&self.buf, &self.orig) && same_special(&self.buf, &self.orig)
    }

    /// The limit in source syntax; empty for none.
    fn limit_string(&self) -> (r: String)
        ensures
            r@ == limit_text(self@),
    {
        let text = match self.buf.limit_kind {
            LimitKind::Any => {
                return String::new();
            },
            LimitKind::Range => {
                let low = join3("[", trim(self.buf.limit_min.as_str()).as_str(), ":");
                join3(low.as_str(), trim(self.buf.limit_max.as_str()).as_str(), "]")
            },
            LimitKind::List => join3("{", trim(self.buf.limit_list.as_str()).as_str(), "}"),
            LimitKind::Enum => "enum".to_owned(),
            LimitKind::External => "external".to_owned(),
        };
        let bypass = trim(self.buf.limit_bypass.as_str());
        if bypass.as_str().is_empty() {
            text
        } else {
            join3(text.as_str(), " ", bypass.as_str())
        }
    }

    /// The counter settings in source syntax; empty where it counts neither way.
    fn counter_string(&self) -> (r: String)
        ensures
            r@ == counter_text(self@),
    {
        let up = trim(self.buf.counter_up.as_str());
        let down = trim(self.buf.counter_down.as_str());
        let (no_up, no_down) = (up.as_str().is_empty(), down.as_str().is_empty());
        if no_up && no_down {
            return String::new();
        }
        let mut s = if !no_up && !no_down {
            "updown".to_owned()
        } else if !no_up {
            "up".to_owned()
        } else {
            "down".to_owned()
        };
        let ghost base = s@;
        if !no_up && !same(up.as_str(), "0") {
            s = join3(s.as_str(), " incrVal=", up.as_str());
        }
        proof {
            assert(s@ =~= base + step_setting(" incrVal="@, up@));
        }
        let ghost base = s@;
        if !no_down && !same(down.as_str(), "0") {
            s = join3(s.as_str(), " decrVal=", down.as_str());
        }
        proof {
            assert(s@ =~= base + step_setting(" decrVal="@, down@));
        }
        let s = word_when(s, self.buf.counter_sat, " sat");
        let s = word_when(s, self.buf.counter_event, " event");
        word_when(s, self.buf.counter_clr, " clr")
    }

    /// The password settings in source syntax; empty where there are none.
    fn password_string(&self) -> (r: String)
        ensures
            r@ == password_text(self@),
    {
        let mut parts: Vec<String> = Vec::new();
        let once = trim(self.buf.password_once.as_str());
        let hold = trim(self.buf.password_hold.as_str());
        if !once.as_str().is_empty() {
            parts.push(join("once=", once.as_str()));
        }
        if !hold.as_str().is_empty() {
            parts.push(join("hold=", hold.as_str()));
        }
        if self.buf.password_protect {
            parts.push("protect".to_owned());
        }
        proof {
            assert(parts.deep_view() =~= password_parts(self@));
        }
        join_text(&parts, " ")
    }

    /// Reads the buffers that have a grammar of their own.
    pub fn read(&self) -> (r: FieldReadings)
        ensures
            reads(self@, r@),
    {
        let lock_src = trim(self.buf.lock.as_str());
        let lock = if !self.buf.lock_on || lock_src.as_str().is_empty() {
            None
        } else if let Some(e) = check_condition(lock_src.as_str()) {
            Some(Err(e))
        } else {
            Some(read_signal(lock_src.as_str()))
        };
        let limit_src = self.limit_string();
        let limit = if limit_src.as_str().is_empty() {
            None
        } else {
            Some(read_limit(limit_src.as_str()))
        };
        let counter_src = self.counter_string();
        let counter = if !self.buf.counter_on || counter_src.as_str().is_empty() {
            None
        } else if !check_counter(counter_src.as_str()) {
            Some(Err("a step is no number below 256".to_owned()))
        } else {
            Some(read_counter(counter_src.as_str()))
        };
        let password_src = self.password_string();
        let password = if !self.buf.password_on || password_src.as_str().is_empty() {
            None
        } else {
            Some(read_password(password_src.as_str()))
        };
        FieldReadings { lock, limit, counter, password }
    }

    /// Whether the field ends within the bits that a position can name.
    pub fn fits(&self) -> (r: bool)
        ensures
            r == position_fits(self@),
    {
        match (read_byte(trim(self.buf.lsb.as_str()).as_str()), read_byte(trim(self.buf.width.as_str()).as_str())) {
            (Some(l), Some(w)) => (l as u16) + (w as u16) <= 256,
            _ => true,
        }
    }

    fn limit_differs(&self) -> (r: bool)
        ensures
            r == limit_changed(self@),
    {
        let o = &self.orig;
        self.buf.limit_kind != o.limit_kind || !trims_to(&self.buf.limit_min, &o.limit_min) || !trims_to(
            &self.buf.limit_max,
            &o.limit_max,
        ) || !trims_to(&self.buf.limit_list, &o.limit_list) || !trims_to(&self.buf.limit_bypass, &o.limit_bypass)
    }

    fn counter_differs(&self) -> (r: bool)
        ensures
            r == counter_changed(self@),
    {
        let o = &self.orig;
        self.buf.counter_on != o.counter_on || !trims_to(&self.buf.counter_up, &o.counter_up) || !trims_to(
            &self.buf.counter_down,
            &o.counter_down,
        ) || self.buf.counter_sat != o.counter_sat || self.buf.counter_event != o.counter_event || self.buf.counter_clr
            != o.counter_clr
    }

    fn password_differs(&self) -> (r: bool)
        ensures
            r == password_changed(self@),
    {
        let o = &self.orig;
        self.buf.password_on != o.password_on || !trims_to(&self.buf.password_once, &o.password_once) || !trims_to(
            &self.buf.password_hold,
            &o.password_hold,
        ) || self.buf.password_protect != o.password_protect
    }

    fn interrupt_differs(&self) -> (r: bool)
        ensures
            r == interrupt_changed(self@),
    {
        let o = &self.orig;
        self.reg_intr_default.is_some() && (self.buf.intr_trigger_ovr_on != o.intr_trigger_ovr_on
            || self.buf.intr_trigger_ovr != o.intr_trigger_ovr || self.buf.intr_clear_ovr_on != o.intr_clear_ovr_on
            || self.buf.intr_clear_ovr != o.intr_clear_ovr)
    }

    fn enum_differs(&self) -> (r: bool)
        ensures
            r == enum_changed(self@),
    {
        self.buf.enum_mode != self.orig.enum_mode || !trims_to(&self.buf.enum_name, &self.orig.enum_name)
    }

    fn lock_differs(&self) -> (r: bool)
        ensures
            r == lock_changed(self@),
    {
        self.buf.lock_on != self.orig.lock_on || !trims_to(&self.buf.lock, &self.orig.lock)
    }

    fn pulses(&self) -> (r: bool)
        ensures
            r == (is_pulse(self@.buf.sw_kind) || is_pulse(self@.orig.sw_kind)),
    {
        matches!(self.buf.sw_kind, SwKind::W1Pulse(_, _)) || matches!(self.orig.sw_kind, SwKind::W1Pulse(_, _))
    }

    fn changed(&self) -> (r: Vec<FieldProp>)
        ensures
            r@ == changed_props(self@),
    {
        let o = &self.orig;
        let mut r: Vec<FieldProp> = Vec::new();
        add_when(&mut r, self.buf.signed != o.signed, FieldProp::Signed);
        proof {
            assert(r@ =~= prop_if(self.buf.signed != o.signed, FieldProp::Signed));
        }
        add_when(&mut r, self.buf.hw_acc != o.hw_acc, FieldProp::HwAcc);
        add_when(&mut r, !trims_to(&self.buf.nb_frac, &o.nb_frac), FieldProp::NbFrac);
        add_when(&mut r, !trims_to(&self.buf.array_pos_incr, &o.array_pos_incr), FieldProp::ArrayPosIncr);
        add_when(&mut r, self.buf.visibility != o.visibility, FieldProp::Visibility);
        add_when(&mut r, self.enum_differs(), FieldProp::EnumKind);
        add_when(&mut r, self.lock_differs(), FieldProp::Lock);
        add_when(&mut r, self.pulses(), FieldProp::Pulse);
        add_when(&mut r, self.limit_differs(), FieldProp::Limit);
        add_when(&mut r, self.counter_differs(), FieldProp::Counter);
        add_when(&mut r, self.password_differs(), FieldProp::Password);
        add_when(&mut r, self.interrupt_differs(), FieldProp::Interrupt);
        r
    }

    fn enum_kind(&self) -> (r: EnumRef)
        ensures
            r@ == enum_edit(self@),
    {
        let name = trim(self.buf.name.as_str());
        match self.buf.enum_mode {
            EnumMode::Plain => EnumRef::Plain,
            EnumMode::Doc => {
                let r = make_enum_ref("", self.group_type.as_str(), name.as_str());
                proof {
                    reveal_strlit("");
                    assert(""@ =~= Seq::<char>::empty());
                }
                r
            },
            EnumMode::Type => {
                let kind = trim(self.buf.enum_name.as_str());
                if kind.as_str().is_empty() {
                    proof {
                        reveal_strlit("type");
                    }
                    make_enum_ref("type", self.group_type.as_str(), name.as_str())
                } else {
                    make_enum_ref(kind.as_str(), self.group_type.as_str(), name.as_str())
                }
            },
        }
    }

    /// What is wrong with the buffers that hold plain texts and numbers; otherwise the lowest
    /// bit, the width, the array size, the position increment, the reset value and the
    /// fractional bits.
    fn plain_values(&self) -> (r: Result<(u8, u8, u8, u8, Option<Reset>, isize), String>)
        ensures
            match text_problem(self@) {
                Some(t) => r is Err && r->Err_0@ == t,
                None => {
                    &&& r is Ok
                    &&& byte_value(trimmed(self@.buf.lsb)) == Some((r->Ok_0).0)
                    &&& byte_value(trimmed(self@.buf.width)) == Some((r->Ok_0).1)
                    &&& (r->Ok_0).1 >= 1
                    &&& byte_or_zero(self@.buf.array) == Some((r->Ok_0).2)
                    &&& byte_or_zero(self@.buf.array_pos_incr) == Some((r->Ok_0).3)
                    &&& (r->Ok_0).4.deep_view() == match reset_edit(self@) {
                        Some(Ok(v)) => Some(v),
                        _ => None,
                    }
                    &&& isize_or_zero(self@.buf.nb_frac) == Some((r->Ok_0).5)
                },
            },
    {
        let lsb: u8 = match read_byte(trim(self.buf.lsb.as_str()).as_str()) {
            Some(v) => v,
            None => {
                return Err("Invalid lsb".to_owned());
            },
        };
        let width: u8 = match read_byte(trim(self.buf.width.as_str()).as_str()) {
            Some(v) => v,
            None => {
                return Err("Width must be >= 1".to_owned());
            },
        };
        if width == 0 {
            return Err("Width must be >= 1".to_owned());
        }
        if is_blank(self.buf.name.as_str()) {
            return Err("Name is empty".to_owned());
        }
        let array: u8 = match small_number(&self.buf.array) {
            Some(v) => v,
            None => {
                return Err("Invalid array size".to_owned());
            },
        };
        let incr: u8 = match small_number(&self.buf.array_pos_incr) {
            Some(v) => v,
            None => {
                return Err("Invalid array position increment".to_owned());
            },
        };
        let reset = if self.buf.reset != self.orig.reset || self.buf.signed != self.orig.signed {
            match parse_reset(self.buf.reset.as_str(), self.buf.signed) {
                Ok(v) => Some(v),
                Err(e) => {
                    return Err(e);
                },
            }
        } else {
            None
        };
        let frac_text = trim(self.buf.nb_frac.as_str());
        let nb_frac: isize = if frac_text.as_str().is_empty() {
            0
        } else {
            match read_isize(frac_text.as_str()) {
                Some(v) => v,
                None => {
                    return Err("Invalid fractional bits".to_owned());
                },
            }
        };
        Ok((lsb, width, array, incr, reset, nb_frac))
    }

    fn visible(&self) -> (r: Option<RawVis>)
        ensures
            r == visibility_edit(self@),
    {
        match self.buf.visibility {
            VisMode::Full => Some(RawVis::Full),
            VisMode::Hidden => Some(RawVis::Hidden),
            VisMode::Reserved => Some(RawVis::Reserved),
            VisMode::Disabled => None,
        }
    }

    fn own_interrupt(&self) -> (r: Option<IntrOvr>)
        ensures
            r == interrupt_edit(self@),
    {
        match self.reg_intr_default {
            Some(_) => Some(
                IntrOvr {
                    trigger: if self.buf.intr_trigger_ovr_on {
                        Some(self.buf.intr_trigger_ovr)
                    } else {
                        None
                    },
                    clear: if self.buf.intr_clear_ovr_on {
                        Some(self.buf.intr_clear_ovr)
                    } else {
                        None
                    },
                },
            ),
            None => None,
        }
    }

    fn check(&self, readings: FieldReadings) -> (r: Result<FieldVals, String>)
        requires
            text_problem(self@) is None ==> position_fits(self@),
        ensures
            match field_problem(self@, readings@) {
                Some(t) => r is Err && r->Err_0@ == t,
                None => r is Ok && r->Ok_0@ == field_vals(self@, readings@),
            },
    {
        let (lsb, width, array, array_pos_incr, reset, nb_frac) = match self.plain_values() {
            Ok(v) => v,
            Err(e) => {
                return Err(e);
            },
        };
        let lock = match readings.lock {
            None => WriteLock::Open,
            Some(Ok(Some(t))) => WriteLock::Expr(t),
            Some(Ok(None)) => {
                return Err("Lock expression too complex to persist yet".to_owned());
            },
            Some(Err(e)) => {
                return Err(join("Invalid lock: ", e.as_str()));
            },
        };
        let limit = match readings.limit {
            None => Limit { value: LimitValue::Any, bypass: String::new() },
            Some(Ok(l)) => l,
            Some(Err(e)) => {
                return Err(join("Invalid limit: ", e.as_str()));
            },
        };
        let counter = match readings.counter {
            None => None,
            Some(Ok(c)) => Some(c),
            Some(Err(e)) => {
                return Err(join("Invalid counter: ", e.as_str()));
            },
        };
        let password = match readings.password {
            None => if self.buf.password_on {
                Some(Password { once: None, hold: None, protect: false })
            } else {
                None
            },
            Some(Ok(p)) => Some(p),
            Some(Err(e)) => {
                return Err(join("Invalid password: ", e.as_str()));
            },
        };
        let reg_intr_default = match self.reg_intr_default {
            Some(d) => d,
            None => IntrOvr { trigger: None, clear: None },
        };
        let msb: u8 = lsb + (width - 1);
        let changed = self.changed();
        proof {
            assert(changed.deep_view() =~= changed@);
        }
        Ok(
            FieldVals {
                name: trim(self.buf.name.as_str()),
                pos: BitPos::MsbLsb(Dim::Value(msb), Dim::Value(lsb)),
                array: Dim::Value(array),
                array_pos_incr,
                reset,
                signed: self.buf.signed,
                sw_kind: self.buf.sw_kind.clone(),
                desc: self.buf.desc.clone(),
                hw_acc: self.buf.hw_acc,
                visibility: self.visible(),
                nb_frac,
                lock,
                limit,
                counter,
                password,
                enum_kind: self.enum_kind(),
                intr_ovr: self.own_interrupt(),
                reg_intr_default,
                changed,
            },
        )
    }

    /// Checks the buffers and makes the edit, given what those with a grammar of their own were
    /// read as. `None` where something is wrong with them, which is then told.
    pub fn build_with(&mut self, readings: FieldReadings) -> (r: Option<EditAction>)
        requires
            text_problem(old(self)@) is None ==> position_fits(old(self)@),
        ensures
            field_built(old(self)@, readings@, final(self)@, r.deep_view()),
    {
        match self.check(readings) {
            Ok(vals) => {
                self.parse_err = None;
                Some(
                    EditAction::UpdateField {
                        rif_type: self.rif_type.clone(),
                        reg_type: self.key.0.clone(),
                        orig_name: self.key.1.clone(),
                        vals: Box::new(vals),
                    },
                )
            },
            Err(e) => {
                self.parse_err = Some(e);
                None
            },
        }
    }

    /// Reads and checks the buffers and makes the edit. `None` where something is wrong with
    /// them, which is then told.
    pub fn build_action(&mut self) -> (r: Option<EditAction>)
        requires
            text_problem(old(self)@) is None ==> position_fits(old(self)@),
        ensures
            exists|readings: FieldReadingsView| #[trigger]
                reads(old(self)@, readings) && field_built(
                    old(self)@,
                    readings,
                    final(self)@,
                    r.deep_view(),
                ),
    {
        let readings = self.read();
        self.build_with(readings)
    }
}

fn word_when(s: String, cond: bool, word: &str) -> (r: String)
    ensures
        r@ == s@ + word_if(cond, word@),
{
    if cond {
        join(s.as_str(), word)
    } else {
        proof {
            assert(s@ =~= s@ + Seq::<char>::empty());
        }
        s
    }
}

/// The buffers of what an instance overrides for one field, as they are loaded.
pub open spec fn loaded_field_override(
    rif_type: Seq<char>,
    inst_name: Seq<char>,
    field_name: Seq<char>,
    ovr: Option<FieldOvrView>,
    field_reset: ResetView,
) -> FieldOverrideEditorView {
    let desc = match ovr {
        Some(o) => match o.description {
            Some(d) => short_desc(d, true),
            None => seq![],
        },
        None => seq![],
    };
    let disabled = ovr is Some && ovr->0.visibility == Some(Vis::Disabled);
    let reset_val = match ovr {
        Some(o) => match o.reset {
            ResetOvrView::Reset(v) => reset_text(v),
            _ => seq![],
        },
        None => seq![],
    };
    FieldOverrideEditorView {
        rif_type,
        inst_name,
        field_name,
        desc,
        desc_orig: desc,
        desc_locked: ovr is Some && ovr->0.description is Some && other_lines(
            ovr->0.description->0.public,
        ) is Some,
        disable_on: disabled,
        disable_on_orig: disabled,
        reset_val,
        reset_val_orig: reset_val,
        field_reset,
        parse_err: None,
    }
}

/// Whether every buffer is as it was loaded.
pub open spec fn field_override_unchanged(e: FieldOverrideEditorView) -> bool {
    e.desc == e.desc_orig && e.disable_on == e.disable_on_orig && e.reset_val == e.reset_val_orig
}

/// The reset value that the buffer stands for; a blank one stands for none.
pub open spec fn override_reset(e: FieldOverrideEditorView) -> Result<Option<ResetView>, Seq<char>> {
    if trimmed(e.reset_val).len() == 0 {
        Ok(None)
    } else {
        match reset_parsed(e.reset_val, e.field_reset is Signed) {
            Ok(v) => Ok(Some(v)),
            Err(t) => Err(t),
        }
    }
}

/// What an editor makes of its buffers.
pub open spec fn field_override_built(
    e: FieldOverrideEditorView,
    after: FieldOverrideEditorView,
    action: Option<EditActionView>,
) -> bool {
    match override_reset(e) {
        Err(t) => action is None && after == (FieldOverrideEditorView { parse_err: Some(t), ..e }),
        Ok(reset) => after == (FieldOverrideEditorView { parse_err: None, ..e }) && action == Some(
            EditActionView::UpdateFieldOverride {
                rif_type: e.rif_type,
                inst_name: e.inst_name,
                field_name: e.field_name,
                vals: FieldOverrideValsView {
                    desc: e.desc,
                    disabled: e.disable_on,
                    reset,
                    field_reset: e.field_reset,
                },
            },
        ),
    }
}

impl FieldOverrideEditor {
    /// Loads the buffers of what an instance overrides for one field.
    pub fn from_field_override(
        rif_type: &str,
        inst_name: &str,
        field_name: &str,
        ovr: Option<&FieldOvr>,
        field_reset: Reset,
    ) -> (r: Self)
        ensures
            r@ == loaded_field_override(
                rif_type@,
                inst_name@,
                field_name@,
                match ovr {
                    Some(o) => Some(o@),
                    None => None,
                },
                field_reset@,
            ),
            field_override_unchanged(r@),
    {
        let mut desc = String::new();
        let mut desc_locked = false;
        let mut disable_on = false;
        let mut reset_val = String::new();
        if let Some(o) = ovr {
            if let Some(d) = &o.description {
                desc = d.short(true);
                desc_locked = tail_lines(d.public.as_str()).is_some();
            }
            disable_on = match o.visibility {
                Some(Vis::Disabled) => true,
                _ => false,
            };
            if let ResetOvr::Reset(v) = &o.reset {
                reset_val = show_reset(v);
            }
        }
        FieldOverrideEditor {
            rif_type: rif_type.to_owned(),
            inst_name: inst_name.to_owned(),
            field_name: field_name.to_owned(),
            desc: desc.clone(),
            desc_orig: desc,
            desc_locked,
            disable_on,
            disable_on_orig: disable_on,
            reset_val: reset_val.clone(),
            reset_val_orig: reset_val,
            field_reset,
            parse_err: None,
        }
    }

    /// Whether every buffer is as it was loaded.
    pub fn is_unchanged(&self) -> (r: bool)
        ensures
            r == field_override_unchanged(self@),
    {
        self.desc == self.desc_orig && self.disable_on == self.disable_on_orig && self.reset_val
            == self.reset_val_orig
    }

    /// Checks the buffers and makes the edit. `None` where the reset value is none, which is then
    /// told.
    pub fn build_action(&mut self) -> (r: Option<EditAction>)
        ensures
            field_override_built(old(self)@, final(self)@, r.deep_view()),
    {
        self.parse_err = None;
        let signed = match self.field_reset {
            Reset::Signed(_) => true,
            _ => false,
        };
        let reset = if is_blank(self.reset_val.as_str()) {
            None
        } else {
            match parse_reset(self.reset_val.as_str(), signed) {
                Ok(v) => Some(v),
                Err(e) => {
                    self.parse_err = Some(e);
                    return None;
                },
            }
        };
        Some(
            EditAction::UpdateFieldOverride {
                rif_type: self.rif_type.clone(),
                inst_name: self.inst_name.clone(),
                field_name: self.field_name.clone(),
                vals: FieldOverrideVals {
                    desc: self.desc.clone(),
                    disabled: self.disable_on,
                    reset,
                    field_reset: self.field_reset.clone(),
                },
            },
        )
    }
}

} // verus!
