//! New values for an item, as an editor hands them over.
use vstd::prelude::*;
use crate::model::props::FieldProp;
use crate::model::rif::{Range, RangeView};
use crate::model::values::{
    BitPos, BitPosView, Bus, BusView, BusWidth, Counter, Dim, DimView, EnumRef, EnumRefView, Expr, ExprView,
    External, HwAcc, IntrClear, IntrOvr, Limit, LimitView, Password, PasswordView, Pulse, PulseView, RawVis,
    Reset, ResetView, SwKind, SwKindView, Trigger, Vis, WriteLock, WriteLockView,
};

verus! {

/// New values for a field.
#[derive(Debug)]
pub struct FieldVals {
    /// Name.
    pub name: String,
    /// Position.
    pub pos: BitPos,
    /// Array size; zero for no array.
    pub array: Dim,
    /// Position increment between elements; zero for the width.
    pub array_pos_incr: u8,
    /// Reset value; `None` keeps the one that the field has.
    pub reset: Option<Reset>,
    /// Whether the value is signed.
    pub signed: bool,
    /// Software access.
    pub sw_kind: SwKind,
    /// Public description.
    pub desc: String,
    /// Hardware access.
    pub hw_acc: HwAcc,
    /// Visibility; `None` keeps the one that the field has.
    pub visibility: Option<RawVis>,
    /// Fractional bits.
    pub nb_frac: isize,
    /// Write lock.
    pub lock: WriteLock,
    /// Write limit.
    pub limit: Limit,
    /// Counter settings.
    pub counter: Option<Counter>,
    /// Password settings, which take the place of the software access.
    pub password: Option<Password>,
    /// Enum.
    pub enum_kind: EnumRef,
    /// Own interrupt settings; `None` leaves them alone.
    pub intr_ovr: Option<IntrOvr>,
    /// Interrupt settings of the register.
    pub reg_intr_default: IntrOvr,
    /// Properties that were changed, whose lines are to be looked at on save.
    pub changed: Vec<FieldProp>,
}

/// The value of a [`FieldVals`].
pub struct FieldValsView {
    pub name: Seq<char>,
    pub pos: BitPosView,
    pub array: DimView,
    pub array_pos_incr: u8,
    pub reset: Option<ResetView>,
    pub signed: bool,
    pub sw_kind: SwKindView,
    pub desc: Seq<char>,
    pub hw_acc: HwAcc,
    pub visibility: Option<RawVis>,
    pub nb_frac: isize,
    pub lock: WriteLockView,
    pub limit: LimitView,
    pub counter: Option<Counter>,
    pub password: Option<PasswordView>,
    pub enum_kind: EnumRefView,
    pub intr_ovr: Option<IntrOvr>,
    pub reg_intr_default: IntrOvr,
    pub changed: Seq<FieldProp>,
}

impl DeepView for FieldVals {
    type V = FieldValsView;

    open spec fn deep_view(&self) -> FieldValsView {
        FieldValsView {
            name: self.name.deep_view(),
            pos: self.pos.deep_view(),
            array: self.array.deep_view(),
            array_pos_incr: self.array_pos_incr,
            reset: self.reset.deep_view(),
            signed: self.signed,
            sw_kind: self.sw_kind.deep_view(),
            desc: self.desc.deep_view(),
            hw_acc: self.hw_acc,
            visibility: self.visibility,
            nb_frac: self.nb_frac,
            lock: self.lock.deep_view(),
            limit: self.limit.deep_view(),
            counter: self.counter,
            password: self.password.deep_view(),
            enum_kind: self.enum_kind.deep_view(),
            intr_ovr: self.intr_ovr,
            reg_intr_default: self.reg_intr_default,
            changed: self.changed.deep_view(),
        }
    }
}

impl View for FieldVals {
    type V = FieldValsView;

    open spec fn view(&self) -> FieldValsView {
        self.deep_view()
    }
}

/// New values for what an instance overrides for one field.
#[derive(Debug)]
pub struct FieldOverrideVals {
    /// Description; blank for none.
    pub desc: String,
    /// Whether the field is disabled.
    pub disabled: bool,
    /// Reset value.
    pub reset: Option<Reset>,
    /// Reset value that the field has by itself.
    pub field_reset: Reset,
}

/// The value of a [`FieldOverrideVals`].
pub struct FieldOverrideValsView {
    pub desc: Seq<char>,
    pub disabled: bool,
    pub reset: Option<ResetView>,
    pub field_reset: ResetView,
}

impl DeepView for FieldOverrideVals {
    type V = FieldOverrideValsView;

    open spec fn deep_view(&self) -> FieldOverrideValsView {
        FieldOverrideValsView {
            desc: self.desc.deep_view(),
            disabled: self.disabled,
            reset: self.reset.deep_view(),
            field_reset: self.field_reset.deep_view(),
        }
    }
}

impl View for FieldOverrideVals {
    type V = FieldOverrideValsView;

    open spec fn view(&self) -> FieldOverrideValsView {
        self.deep_view()
    }
}

/// New values for the primary interrupt of a register.
#[derive(Debug)]
pub struct RegIntrVals {
    /// Trigger.
    pub trigger: Trigger,
    /// Clear.
    pub clear: IntrClear,
    /// Reset of the enable register, where there is one.
    pub enable: Option<Reset>,
    /// Reset of the mask register, where there is one.
    pub mask: Option<Reset>,
    /// Whether there is a pending register.
    pub pending: bool,
}

/// The value of a [`RegIntrVals`].
pub struct RegIntrValsView {
    pub trigger: Trigger,
    pub clear: IntrClear,
    pub enable: Option<ResetView>,
    pub mask: Option<ResetView>,
    pub pending: bool,
}

impl DeepView for RegIntrVals {
    type V = RegIntrValsView;

    open spec fn deep_view(&self) -> RegIntrValsView {
        RegIntrValsView {
            trigger: self.trigger,
            clear: self.clear,
            enable: self.enable.deep_view(),
            mask: self.mask.deep_view(),
            pending: self.pending,
        }
    }
}

impl View for RegIntrVals {
    type V = RegIntrValsView;

    open spec fn view(&self) -> RegIntrValsView {
        self.deep_view()
    }
}

/// New values for the secondary interrupt of a register.
#[derive(Debug)]
pub struct RegAltVals {
    /// Name.
    pub name: String,
    /// Trigger.
    pub trigger: Trigger,
    /// Clear.
    pub clear: IntrClear,
    /// Reset of the enable register, where there is one.
    pub enable: Option<Reset>,
    /// Reset of the mask register, where there is one.
    pub mask: Option<Reset>,
    /// Whether there is a pending register.
    pub pending: bool,
}

/// The value of a [`RegAltVals`].
pub struct RegAltValsView {
    pub name: Seq<char>,
    pub trigger: Trigger,
    pub clear: IntrClear,
    pub enable: Option<ResetView>,
    pub mask: Option<ResetView>,
    pub pending: bool,
}

impl DeepView for RegAltVals {
    type V = RegAltValsView;

    open spec fn deep_view(&self) -> RegAltValsView {
        RegAltValsView {
            name: self.name.deep_view(),
            trigger: self.trigger,
            clear: self.clear,
            enable: self.enable.deep_view(),
            mask: self.mask.deep_view(),
            pending: self.pending,
        }
    }
}

impl View for RegAltVals {
    type V = RegAltValsView;

    open spec fn view(&self) -> RegAltValsView {
        self.deep_view()
    }
}

/// New values for a register definition.
#[derive(Debug)]
pub struct RegDefVals {
    /// Name.
    pub name: String,
    /// Group; `None` where it was not edited.
    pub group: Option<String>,
    /// Public description.
    pub desc: String,
    /// Access pulses.
    pub pulse: Vec<Pulse>,
    /// New absolute address of the instance in view.
    pub addr: Option<u64>,
    /// Primary interrupt: `None` leaves it alone, `Some(None)` removes it.
    pub intr: Option<Option<RegIntrVals>>,
    /// Secondary interrupt: `None` leaves it alone, `Some(None)` removes it.
    pub alt: Option<Option<RegAltVals>>,
    /// New array size; `None` leaves it alone.
    pub array: Option<u8>,
    /// Visibility.
    pub visibility: Vis,
    /// Own clock.
    pub clk: Option<String>,
    /// Own reset.
    pub rst: Option<String>,
    /// External logic.
    pub external: External,
}

/// The value of a [`RegDefVals`].
pub struct RegDefValsView {
    pub name: Seq<char>,
    pub group: Option<Seq<char>>,
    pub desc: Seq<char>,
    pub pulse: Seq<PulseView>,
    pub addr: Option<u64>,
    pub intr: Option<Option<RegIntrValsView>>,
    pub alt: Option<Option<RegAltValsView>>,
    pub array: Option<u8>,
    pub visibility: Vis,
    pub clk: Option<Seq<char>>,
    pub rst: Option<Seq<char>>,
    pub external: External,
}

impl DeepView for RegDefVals {
    type V = RegDefValsView;

    open spec fn deep_view(&self) -> RegDefValsView {
        RegDefValsView {
            name: self.name.deep_view(),
            group: self.group.deep_view(),
            desc: self.desc.deep_view(),
            pulse: self.pulse.deep_view(),
            addr: self.addr,
            intr: self.intr.deep_view(),
            alt: self.alt.deep_view(),
            array: self.array,
            visibility: self.visibility,
            clk: self.clk.deep_view(),
            rst: self.rst.deep_view(),
            external: self.external,
        }
    }
}

impl View for RegDefVals {
    type V = RegDefValsView;

    open spec fn view(&self) -> RegDefValsView {
        self.deep_view()
    }
}

/// New values for what an instance overrides for its register.
#[derive(Debug)]
pub struct RegOverrideVals {
    /// Description; blank for none.
    pub desc: String,
    /// Hardware access.
    pub hw: Option<HwAcc>,
    /// Condition.
    pub optional: Option<Expr>,
    /// Access when the condition does not hold.
    pub optional_acc: Option<HwAcc>,
}

/// The value of a [`RegOverrideVals`].
pub struct RegOverrideValsView {
    pub desc: Seq<char>,
    pub hw: Option<HwAcc>,
    pub optional: Option<ExprView>,
    pub optional_acc: Option<HwAcc>,
}

impl DeepView for RegOverrideVals {
    type V = RegOverrideValsView;

    open spec fn deep_view(&self) -> RegOverrideValsView {
        RegOverrideValsView {
            desc: self.desc.deep_view(),
            hw: self.hw,
            optional: self.optional.deep_view(),
            optional_acc: self.optional_acc,
        }
    }
}

impl View for RegOverrideVals {
    type V = RegOverrideValsView;

    open spec fn view(&self) -> RegOverrideValsView {
        self.deep_view()
    }
}

/// New values for a RIF.
#[derive(Debug)]
pub struct RifDefVals {
    /// Name.
    pub name: String,
    /// Address width.
    pub addr_width: u8,
    /// Data width.
    pub data_width: BusWidth,
    /// Processor interface.
    pub interface: Bus,
    /// Public description.
    pub desc: String,
}

/// The value of a [`RifDefVals`].
pub struct RifDefValsView {
    pub name: Seq<char>,
    pub addr_width: u8,
    pub data_width: BusWidth,
    pub interface: BusView,
    pub desc: Seq<char>,
}

impl DeepView for RifDefVals {
    type V = RifDefValsView;

    open spec fn deep_view(&self) -> RifDefValsView {
        RifDefValsView {
            name: self.name.deep_view(),
            addr_width: self.addr_width,
            data_width: self.data_width,
            interface: self.interface.deep_view(),
            desc: self.desc.deep_view(),
        }
    }
}

impl View for RifDefVals {
    type V = RifDefValsView;

    open spec fn view(&self) -> RifDefValsView {
        self.deep_view()
    }
}

/// A row of the parameter table.
#[derive(Debug)]
pub struct ParamEntry {
    /// Name as it was read; `None` for a new parameter.
    pub orig_name: Option<String>,
    /// Name.
    pub name: String,
    /// Value.
    pub value: Expr,
}

/// The value of a [`ParamEntry`].
pub struct ParamEntryView {
    pub orig_name: Option<Seq<char>>,
    pub name: Seq<char>,
    pub value: ExprView,
}

impl DeepView for ParamEntry {
    type V = ParamEntryView;

    open spec fn deep_view(&self) -> ParamEntryView {
        ParamEntryView {
            orig_name: self.orig_name.deep_view(),
            name: self.name.deep_view(),
            value: self.value.deep_view(),
        }
    }
}

impl View for ParamEntry {
    type V = ParamEntryView;

    open spec fn view(&self) -> ParamEntryView {
        self.deep_view()
    }
}

/// A row of the generic table.
#[derive(Debug)]
pub struct GenericEntry {
    /// Name as it was read; `None` for a new generic.
    pub orig_name: Option<String>,
    /// Name.
    pub name: String,
    /// Values.
    pub range: Range,
}

/// The value of a [`GenericEntry`].
pub struct GenericEntryView {
    pub orig_name: Option<Seq<char>>,
    pub name: Seq<char>,
    pub range: RangeView,
}

impl DeepView for GenericEntry {
    type V = GenericEntryView;

    open spec fn deep_view(&self) -> GenericEntryView {
        GenericEntryView {
            orig_name: self.orig_name.deep_view(),
            name: self.name.deep_view(),
            range: self.range.deep_view(),
        }
    }
}

impl View for GenericEntry {
    type V = GenericEntryView;

    open spec fn view(&self) -> GenericEntryView {
        self.deep_view()
    }
}

} // verus!
