//! Properties that have a source line of their own.
use vstd::prelude::*;

verus! {

/// A field property that has a source line of its own, in the order in which a new field writes them.
#[derive(Clone, Copy, Debug, PartialEq, Eq, Structural)]
pub enum FieldProp {
    Signed,
    HwAcc,
    NbFrac,
    ArrayPosIncr,
    Visibility,
    EnumKind,
    Limit,
    Lock,
    Counter,
    Password,
    Pulse,
    Interrupt,
}

impl DeepView for FieldProp {
    type V = FieldProp;

    open spec fn deep_view(&self) -> FieldProp {
        *self
    }
}

/// A register property that has a source line of its own, in the order in which a new register writes them.
#[derive(Clone, Copy, Debug, PartialEq, Eq, Structural)]
pub enum RegProp {
    Interrupt,
    InterruptAlt,
    Clock,
    Reset,
    External,
    Lock,
    WrPulse,
    RdPulse,
    AccPulse,
    Visibility,
}

/// A property that an instance can override for its register.
#[derive(Clone, Copy, Debug, PartialEq, Eq, Structural)]
pub enum RegOverrideProp {
    Description,
    Hw,
    Optional,
    OptionalAcc,
}

/// A property that an instance can override for one field.
#[derive(Clone, Copy, Debug, PartialEq, Eq, Structural)]
pub enum FieldOverrideProp {
    Description,
    Reset,
}

/// A RIF property that has a source line of its own.
#[derive(Clone, Copy, Debug, PartialEq, Eq, Structural)]
pub enum RifProp {
    AddrWidth,
    DataWidth,
    Interface,
    SuffixPkg,
    SwClock,
    SwClkEn,
    SwClear,
    HwClock,
    HwClkEn,
    HwClear,
}

impl FieldProp {
    /// Position of the property in the canonical order.
    pub open spec fn index(self) -> int {
        match self {
            FieldProp::Signed => 0,
            FieldProp::HwAcc => 1,
            FieldProp::NbFrac => 2,
            FieldProp::ArrayPosIncr => 3,
            FieldProp::Visibility => 4,
            FieldProp::EnumKind => 5,
            FieldProp::Limit => 6,
            FieldProp::Lock => 7,
            FieldProp::Counter => 8,
            FieldProp::Password => 9,
            FieldProp::Pulse => 10,
            FieldProp::Interrupt => 11,
        }
    }

    /// The property at a position of the canonical order; the last one from there on.
    pub open spec fn at_index(i: int) -> FieldProp {
        if i <= 0 {
            FieldProp::Signed
        } else if i == 1 {
            FieldProp::HwAcc
        } else if i == 2 {
            FieldProp::NbFrac
        } else if i == 3 {
            FieldProp::ArrayPosIncr
        } else if i == 4 {
            FieldProp::Visibility
        } else if i == 5 {
            FieldProp::EnumKind
        } else if i == 6 {
            FieldProp::Limit
        } else if i == 7 {
            FieldProp::Lock
        } else if i == 8 {
            FieldProp::Counter
        } else if i == 9 {
            FieldProp::Password
        } else if i == 10 {
            FieldProp::Pulse
        } else {
            FieldProp::Interrupt
        }
    }

    /// Position of the property in the canonical order.
    pub fn rank(self) -> (r: usize)
        ensures
            r == self.index(),
            r < 12,
    {
        match self {
            FieldProp::Signed => 0,
            FieldProp::HwAcc => 1,
            FieldProp::NbFrac => 2,
            FieldProp::ArrayPosIncr => 3,
            FieldProp::Visibility => 4,
            FieldProp::EnumKind => 5,
            FieldProp::Limit => 6,
            FieldProp::Lock => 7,
            FieldProp::Counter => 8,
            FieldProp::Password => 9,
            FieldProp::Pulse => 10,
            FieldProp::Interrupt => 11,
        }
    }

    /// The property at a position of the canonical order; the last one from there on.
    pub fn at(i: usize) -> (r: FieldProp)
        ensures
            r == FieldProp::at_index(i as int),
            i < 12 ==> r.index() == i,
    {
        if i == 0 {
            FieldProp::Signed
        } else if i == 1 {
            FieldProp::HwAcc
        } else if i == 2 {
            FieldProp::NbFrac
        } else if i == 3 {
            FieldProp::ArrayPosIncr
        } else if i == 4 {
            FieldProp::Visibility
        } else if i == 5 {
            FieldProp::EnumKind
        } else if i == 6 {
            FieldProp::Limit
        } else if i == 7 {
            FieldProp::Lock
        } else if i == 8 {
            FieldProp::Counter
        } else if i == 9 {
            FieldProp::Password
        } else if i == 10 {
            FieldProp::Pulse
        } else {
            FieldProp::Interrupt
        }
    }
}

impl RegProp {
    /// Position of the property in the canonical order.
    pub open spec fn index(self) -> int {
        match self {
            RegProp::Interrupt => 0,
            RegProp::InterruptAlt => 1,
            RegProp::Clock => 2,
            RegProp::Reset => 3,
            RegProp::External => 4,
            RegProp::Lock => 5,
            RegProp::WrPulse => 6,
            RegProp::RdPulse => 7,
            RegProp::AccPulse => 8,
            RegProp::Visibility => 9,
        }
    }

    /// The property at a position of the canonical order; the last one from there on.
    pub open spec fn at_index(i: int) -> RegProp {
        if i <= 0 {
            RegProp::Interrupt
        } else if i == 1 {
            RegProp::InterruptAlt
        } else if i == 2 {
            RegProp::Clock
        } else if i == 3 {
            RegProp::Reset
        } else if i == 4 {
            RegProp::External
        } else if i == 5 {
            RegProp::Lock
        } else if i == 6 {
            RegProp::WrPulse
        } else if i == 7 {
            RegProp::RdPulse
        } else if i == 8 {
            RegProp::AccPulse
        } else {
            RegProp::Visibility
        }
    }

    /// Position of the property in the canonical order.
    pub fn rank(self) -> (r: usize)
        ensures
            r == self.index(),
            r < 10,
    {
        match self {
            RegProp::Interrupt => 0,
            RegProp::InterruptAlt => 1,
            RegProp::Clock => 2,
            RegProp::Reset => 3,
            RegProp::External => 4,
            RegProp::Lock => 5,
            RegProp::WrPulse => 6,
            RegProp::RdPulse => 7,
            RegProp::AccPulse => 8,
            RegProp::Visibility => 9,
        }
    }

    /// The property at a position of the canonical order; the last one from there on.
    pub fn at(i: usize) -> (r: RegProp)
        ensures
            r == RegProp::at_index(i as int),
            i < 10 ==> r.index() == i,
    {
        if i == 0 {
            RegProp::Interrupt
        } else if i == 1 {
            RegProp::InterruptAlt
        } else if i == 2 {
            RegProp::Clock
        } else if i == 3 {
            RegProp::Reset
        } else if i == 4 {
            RegProp::External
        } else if i == 5 {
            RegProp::Lock
        } else if i == 6 {
            RegProp::WrPulse
        } else if i == 7 {
            RegProp::RdPulse
        } else if i == 8 {
            RegProp::AccPulse
        } else {
            RegProp::Visibility
        }
    }
}

impl RegOverrideProp {
    /// Position of the property in the canonical order.
    pub open spec fn index(self) -> int {
        match self {
            RegOverrideProp::Description => 0,
            RegOverrideProp::Hw => 1,
            RegOverrideProp::Optional => 2,
            RegOverrideProp::OptionalAcc => 3,
        }
    }

    /// The property at a position of the canonical order; the last one from there on.
    pub open spec fn at_index(i: int) -> RegOverrideProp {
        if i <= 0 {
            RegOverrideProp::Description
        } else if i == 1 {
            RegOverrideProp::Hw
        } else if i == 2 {
            RegOverrideProp::Optional
        } else {
            RegOverrideProp::OptionalAcc
        }
    }

    /// Position of the property in the canonical order.
    pub fn rank(self) -> (r: usize)
        ensures
            r == self.index(),
            r < 4,
    {
        match self {
            RegOverrideProp::Description => 0,
            RegOverrideProp::Hw => 1,
            RegOverrideProp::Optional => 2,
            RegOverrideProp::OptionalAcc => 3,
        }
    }

    /// The property at a position of the canonical order; the last one from there on.
    pub fn at(i: usize) -> (r: RegOverrideProp)
        ensures
            r == RegOverrideProp::at_index(i as int),
            i < 4 ==> r.index() == i,
    {
        if i == 0 {
            RegOverrideProp::Description
        } else if i == 1 {
            RegOverrideProp::Hw
        } else if i == 2 {
            RegOverrideProp::Optional
        } else {
            RegOverrideProp::OptionalAcc
        }
    }
}

impl FieldOverrideProp {
    /// Position of the property in the canonical order.
    pub open spec fn index(self) -> int {
        match self {
            FieldOverrideProp::Description => 0,
            FieldOverrideProp::Reset => 1,
        }
    }

    /// The property at a position of the canonical order; the last one from there on.
    pub open spec fn at_index(i: int) -> FieldOverrideProp {
        if i <= 0 {
            FieldOverrideProp::Description
        } else {
            FieldOverrideProp::Reset
        }
    }

    /// Position of the property in the canonical order.
    pub fn rank(self) -> (r: usize)
        ensures
            r == self.index(),
            r < 2,
    {
        match self {
            FieldOverrideProp::Description => 0,
            FieldOverrideProp::Reset => 1,
        }
    }

    /// The property at a position of the canonical order; the last one from there on.
    pub fn at(i: usize) -> (r: FieldOverrideProp)
        ensures
            r == FieldOverrideProp::at_index(i as int),
            i < 2 ==> r.index() == i,
    {
        if i == 0 {
            FieldOverrideProp::Description
        } else {
            FieldOverrideProp::Reset
        }
    }
}

impl RifProp {
    /// Position of the property in the canonical order.
    pub open spec fn index(self) -> int {
        match self {
            RifProp::AddrWidth => 0,
            RifProp::DataWidth => 1,
            RifProp::Interface => 2,
            RifProp::SuffixPkg => 3,
            RifProp::SwClock => 4,
            RifProp::SwClkEn => 5,
            RifProp::SwClear => 6,
            RifProp::HwClock => 7,
            RifProp::HwClkEn => 8,
            RifProp::HwClear => 9,
        }
    }

    /// The property at a position of the canonical order; the last one from there on.
    pub open spec fn at_index(i: int) -> RifProp {
        if i <= 0 {
            RifProp::AddrWidth
        } else if i == 1 {
            RifProp::DataWidth
        } else if i == 2 {
            RifProp::Interface
        } else if i == 3 {
            RifProp::SuffixPkg
        } else if i == 4 {
            RifProp::SwClock
        } else if i == 5 {
            RifProp::SwClkEn
        } else if i == 6 {
            RifProp::SwClear
        } else if i == 7 {
            RifProp::HwClock
        } else if i == 8 {
            RifProp::HwClkEn
        } else {
            RifProp::HwClear
        }
    }

    /// Position of the property in the canonical order.
    pub fn rank(self) -> (r: usize)
        ensures
            r == self.index(),
            r < 10,
    {
        match self {
            RifProp::AddrWidth => 0,
            RifProp::DataWidth => 1,
            RifProp::Interface => 2,
            RifProp::SuffixPkg => 3,
            RifProp::SwClock => 4,
            RifProp::SwClkEn => 5,
            RifProp::SwClear => 6,
            RifProp::HwClock => 7,
            RifProp::HwClkEn => 8,
            RifProp::HwClear => 9,
        }
    }

    /// The property at a position of the canonical order; the last one from there on.
    pub fn at(i: usize) -> (r: RifProp)
        ensures
            r == RifProp::at_index(i as int),
            i < 10 ==> r.index() == i,
    {
        if i == 0 {
            RifProp::AddrWidth
        } else if i == 1 {
            RifProp::DataWidth
        } else if i == 2 {
            RifProp::Interface
        } else if i == 3 {
            RifProp::SuffixPkg
        } else if i == 4 {
            RifProp::SwClock
        } else if i == 5 {
            RifProp::SwClkEn
        } else if i == 6 {
            RifProp::SwClear
        } else if i == 7 {
            RifProp::HwClock
        } else if i == 8 {
            RifProp::HwClkEn
        } else {
            RifProp::HwClear
        }
    }
}

} // verus!
