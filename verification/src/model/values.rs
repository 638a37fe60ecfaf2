//! Values of the properties of fields and registers.
use vstd::prelude::*;

verus! {

/// Access of the hardware side to a field.
#[derive(Clone, Copy, Debug, PartialEq, Eq, Structural)]
pub enum HwAcc {
    RW,
    RO,
    WO,
    NA,
}

/// Visibility of a register in the generated documents.
#[derive(Clone, Copy, Debug, PartialEq, Eq, Structural)]
pub enum Vis {
    Full,
    Hidden,
    Reserved,
    Disabled,
    Unused,
}

/// Visibility of a field. A disabled field keeps its condition in the file.
#[derive(Clone, Copy, Debug, PartialEq, Eq, Structural)]
pub enum RawVis {
    Full,
    Hidden,
    Reserved,
    Disabled,
}

/// What raises an interrupt.
#[derive(Clone, Copy, Debug, PartialEq, Eq, Structural)]
pub enum Trigger {
    High,
    Low,
    Rising,
    Falling,
    Edge,
}

/// What clears an interrupt.
#[derive(Clone, Copy, Debug, PartialEq, Eq, Structural)]
pub enum IntrClear {
    Read,
    Write0,
    Write1,
    Hw,
}

/// The part that a register plays in an interrupt.
#[derive(Clone, Copy, Debug, PartialEq, Eq, Structural)]
pub enum IntrKind {
    Plain,
    Base,
    Enable,
    Mask,
    Pending,
}

/// Where the logic of a register lives.
#[derive(Clone, Copy, Debug, PartialEq, Eq, Structural)]
pub enum External {
    Internal,
    ReadWrite,
    Read,
    Write,
    Done,
}

/// Direction of a counter.
#[derive(Clone, Copy, Debug, PartialEq, Eq, Structural)]
pub enum CountDir {
    Up,
    Down,
    UpDown,
}

/// How the registers of a page get their addresses.
#[derive(Clone, Copy, Debug, PartialEq, Eq, Structural)]
pub enum InstMode {
    Manual,
    Automatic,
    AutoLegacy,
}

/// What an instance address is relative to.
#[derive(Clone, Copy, Debug, PartialEq, Eq, Structural)]
pub enum AddrKind {
    Absolute,
    Relative,
    RelativeSet,
}

/// Data width of a RIF: the bus size and the width in bits.
#[derive(Clone, Copy, Debug, PartialEq, Eq, Structural)]
pub enum BusWidth {
    W8(u8),
    W16(u8),
    W32(u8),
    W64(u8),
    W128(u8),
}

/// Counter settings of a field.
#[derive(Clone, Copy, Debug, PartialEq, Eq, Structural)]
pub struct Counter {
    /// Direction.
    pub kind: CountDir,
    /// Increment; zero for the default step.
    pub incr_val: u8,
    /// Decrement; zero for the default step.
    pub decr_val: u8,
    /// Saturates.
    pub sat: bool,
    /// Has a clear input.
    pub clr: bool,
    /// Raises an event.
    pub event: bool,
}

/// Hardware behaviour of a field.
#[derive(Clone, Copy, Debug, PartialEq, Eq, Structural)]
pub enum HwKind {
    /// A counter.
    Counter(Counter),
    /// An interrupt with its trigger.
    Interrupt(Trigger),
    /// Cleared by a hardware pulse.
    Clear,
    /// Any other kind: the rank of the entry as it was read.
    Other(usize),
}

impl DeepView for HwKind {
    type V = HwKind;

    open spec fn deep_view(&self) -> HwKind {
        *self
    }
}

/// Interrupt settings that a field overrides.
#[derive(Clone, Copy, Debug)]
pub struct IntrOvr {
    /// Overridden trigger.
    pub trigger: Option<Trigger>,
    /// Overridden clear.
    pub clear: Option<IntrClear>,
}

/// A width or a size: a literal or a parameter.
#[derive(Debug)]
pub enum Dim {
    Value(u8),
    Param(String),
}

/// The value of a [`Dim`].
pub enum DimView {
    Value(u8),
    Param(Seq<char>),
}

impl DeepView for Dim {
    type V = DimView;

    open spec fn deep_view(&self) -> DimView {
        match self {
            Dim::Value(a) => DimView::Value(*a),
            Dim::Param(a) => DimView::Param(a.deep_view()),
        }
    }
}

impl View for Dim {
    type V = DimView;

    open spec fn view(&self) -> DimView {
        self.deep_view()
    }
}

impl Clone for Dim {
    fn clone(&self) -> (r: Self)
        ensures
            r@ == self@,
    {
        match self {
            Dim::Value(a) => Dim::Value(*a),
            Dim::Param(a) => Dim::Param(a.clone()),
        }
    }
}

/// Position of a field in its register.
#[derive(Debug)]
pub enum BitPos {
    /// `msb:lsb`
    MsbLsb(Dim, Dim),
    /// `lsb+:width`
    LsbSize(Dim, Dim),
    /// `Nb`, placed after the previous field.
    Size(Dim),
}

/// The value of a [`BitPos`].
pub enum BitPosView {
    MsbLsb(DimView, DimView),
    LsbSize(DimView, DimView),
    Size(DimView),
}

impl DeepView for BitPos {
    type V = BitPosView;

    open spec fn deep_view(&self) -> BitPosView {
        match self {
            BitPos::MsbLsb(a, b) => BitPosView::MsbLsb(a.deep_view(), b.deep_view()),
            BitPos::LsbSize(a, b) => BitPosView::LsbSize(a.deep_view(), b.deep_view()),
            BitPos::Size(a) => BitPosView::Size(a.deep_view()),
        }
    }
}

impl View for BitPos {
    type V = BitPosView;

    open spec fn view(&self) -> BitPosView {
        self.deep_view()
    }
}

impl Clone for BitPos {
    fn clone(&self) -> (r: Self)
        ensures
            r@ == self@,
    {
        match self {
            BitPos::MsbLsb(a, b) => BitPos::MsbLsb(a.clone(), b.clone()),
            BitPos::LsbSize(a, b) => BitPos::LsbSize(a.clone(), b.clone()),
            BitPos::Size(a) => BitPos::Size(a.clone()),
        }
    }
}

/// A reset value as written in a declaration. A real number is kept as its text.
#[derive(Debug)]
pub enum Reset {
    Unsigned(u128),
    Signed(i128),
    FloatU(String),
    FloatS(String),
    Param(String),
    /// Label of an enum entry.
    Label(String),
}

/// The value of a [`Reset`].
pub enum ResetView {
    Unsigned(u128),
    Signed(i128),
    FloatU(Seq<char>),
    FloatS(Seq<char>),
    Param(Seq<char>),
    Label(Seq<char>),
}

impl DeepView for Reset {
    type V = ResetView;

    open spec fn deep_view(&self) -> ResetView {
        match self {
            Reset::Unsigned(a) => ResetView::Unsigned(*a),
            Reset::Signed(a) => ResetView::Signed(*a),
            Reset::FloatU(a) => ResetView::FloatU(a.deep_view()),
            Reset::FloatS(a) => ResetView::FloatS(a.deep_view()),
            Reset::Param(a) => ResetView::Param(a.deep_view()),
            Reset::Label(a) => ResetView::Label(a.deep_view()),
        }
    }
}

impl View for Reset {
    type V = ResetView;

    open spec fn view(&self) -> ResetView {
        self.deep_view()
    }
}

impl Clone for Reset {
    fn clone(&self) -> (r: Self)
        ensures
            r@ == self@,
    {
        match self {
            Reset::Unsigned(a) => Reset::Unsigned(*a),
            Reset::Signed(a) => Reset::Signed(*a),
            Reset::FloatU(a) => Reset::FloatU(a.clone()),
            Reset::FloatS(a) => Reset::FloatS(a.clone()),
            Reset::Param(a) => Reset::Param(a.clone()),
            Reset::Label(a) => Reset::Label(a.clone()),
        }
    }
}

/// Password settings of a field.
#[derive(Debug)]
pub struct Password {
    /// Value that unlocks for one access.
    pub once: Option<Reset>,
    /// Value that unlocks until the next write.
    pub hold: Option<Reset>,
    /// Protected.
    pub protect: bool,
}

/// The value of a [`Password`].
pub struct PasswordView {
    pub once: Option<ResetView>,
    pub hold: Option<ResetView>,
    pub protect: bool,
}

impl DeepView for Password {
    type V = PasswordView;

    open spec fn deep_view(&self) -> PasswordView {
        PasswordView {
            once: self.once.deep_view(),
            hold: self.hold.deep_view(),
            protect: self.protect,
        }
    }
}

impl View for Password {
    type V = PasswordView;

    open spec fn view(&self) -> PasswordView {
        self.deep_view()
    }
}

impl Clone for Password {
    fn clone(&self) -> (r: Self)
        ensures
            r@ == self@,
    {
        let r = Password {
            once: self.once.clone(),
            hold: self.hold.clone(),
            protect: self.protect,
        };
        proof {
            assert(r.once.deep_view() =~= self.once.deep_view());
            assert(r.hold.deep_view() =~= self.hold.deep_view());
        }
        r
    }
}

/// Access of the software side to a field.
#[derive(Debug)]
pub enum SwKind {
    ReadWrite,
    ReadOnly,
    WriteOnly,
    ReadClr,
    W1Clr,
    W0Clr,
    W1Set,
    W1Tgl,
    /// Pulse on write: whether it is registered, whether the field is write-only.
    W1Pulse(bool, bool),
    Password(Password),
}

/// The value of a [`SwKind`].
pub enum SwKindView {
    ReadWrite,
    ReadOnly,
    WriteOnly,
    ReadClr,
    W1Clr,
    W0Clr,
    W1Set,
    W1Tgl,
    W1Pulse(bool, bool),
    Password(PasswordView),
}

impl DeepView for SwKind {
    type V = SwKindView;

    open spec fn deep_view(&self) -> SwKindView {
        match self {
            SwKind::ReadWrite => SwKindView::ReadWrite,
            SwKind::ReadOnly => SwKindView::ReadOnly,
            SwKind::WriteOnly => SwKindView::WriteOnly,
            SwKind::ReadClr => SwKindView::ReadClr,
            SwKind::W1Clr => SwKindView::W1Clr,
            SwKind::W0Clr => SwKindView::W0Clr,
            SwKind::W1Set => SwKindView::W1Set,
            SwKind::W1Tgl => SwKindView::W1Tgl,
            SwKind::W1Pulse(a, b) => SwKindView::W1Pulse(*a, *b),
            SwKind::Password(a) => SwKindView::Password(a.deep_view()),
        }
    }
}

impl View for SwKind {
    type V = SwKindView;

    open spec fn view(&self) -> SwKindView {
        self.deep_view()
    }
}

impl Clone for SwKind {
    fn clone(&self) -> (r: Self)
        ensures
            r@ == self@,
    {
        match self {
            SwKind::ReadWrite => SwKind::ReadWrite,
            SwKind::ReadOnly => SwKind::ReadOnly,
            SwKind::WriteOnly => SwKind::WriteOnly,
            SwKind::ReadClr => SwKind::ReadClr,
            SwKind::W1Clr => SwKind::W1Clr,
            SwKind::W0Clr => SwKind::W0Clr,
            SwKind::W1Set => SwKind::W1Set,
            SwKind::W1Tgl => SwKind::W1Tgl,
            SwKind::W1Pulse(a, b) => SwKind::W1Pulse(*a, *b),
            SwKind::Password(a) => SwKind::Password(a.clone()),
        }
    }
}

/// Values that may be written to a field.
#[derive(Debug)]
pub enum LimitValue {
    Any,
    Min(Reset),
    Max(Reset),
    MinMax(Reset, Reset),
    /// The values.
    List(Vec<Reset>),
    Enum,
    External,
}

/// The value of a [`LimitValue`].
pub enum LimitValueView {
    Any,
    Min(ResetView),
    Max(ResetView),
    MinMax(ResetView, ResetView),
    List(Seq<ResetView>),
    Enum,
    External,
}

impl DeepView for LimitValue {
    type V = LimitValueView;

    open spec fn deep_view(&self) -> LimitValueView {
        match self {
            LimitValue::Any => LimitValueView::Any,
            LimitValue::Min(a) => LimitValueView::Min(a.deep_view()),
            LimitValue::Max(a) => LimitValueView::Max(a.deep_view()),
            LimitValue::MinMax(a, b) => LimitValueView::MinMax(a.deep_view(), b.deep_view()),
            LimitValue::List(a) => LimitValueView::List(a.deep_view()),
            LimitValue::Enum => LimitValueView::Enum,
            LimitValue::External => LimitValueView::External,
        }
    }
}

impl View for LimitValue {
    type V = LimitValueView;

    open spec fn view(&self) -> LimitValueView {
        self.deep_view()
    }
}

impl Clone for LimitValue {
    fn clone(&self) -> (r: Self)
        ensures
            r@ == self@,
    {
        match self {
            LimitValue::Any => LimitValue::Any,
            LimitValue::Min(a) => LimitValue::Min(a.clone()),
            LimitValue::Max(a) => LimitValue::Max(a.clone()),
            LimitValue::MinMax(a, b) => LimitValue::MinMax(a.clone(), b.clone()),
            LimitValue::List(a) => {
                let b = a.clone();
                proof {
                    assert(b.deep_view() =~= a.deep_view());
                }
                LimitValue::List(b)
            },
            LimitValue::Enum => LimitValue::Enum,
            LimitValue::External => LimitValue::External,
        }
    }
}

/// Write limit of a field.
#[derive(Debug)]
pub struct Limit {
    /// Allowed values.
    pub value: LimitValue,
    /// Signal that bypasses the limit; empty for none.
    pub bypass: String,
}

/// The value of a [`Limit`].
pub struct LimitView {
    pub value: LimitValueView,
    pub bypass: Seq<char>,
}

impl DeepView for Limit {
    type V = LimitView;

    open spec fn deep_view(&self) -> LimitView {
        LimitView {
            value: self.value.deep_view(),
            bypass: self.bypass.deep_view(),
        }
    }
}

impl View for Limit {
    type V = LimitView;

    open spec fn view(&self) -> LimitView {
        self.deep_view()
    }
}

impl Clone for Limit {
    fn clone(&self) -> (r: Self)
        ensures
            r@ == self@,
    {
        let r = Limit {
            value: self.value.clone(),
            bypass: self.bypass.clone(),
        };
        r
    }
}

/// The enum that a field takes its values from.
#[derive(Debug)]
pub enum EnumRef {
    Plain,
    /// Enum for the documents only.
    Doc(String),
    /// Enum with a type.
    Type(String),
}

/// The value of a [`EnumRef`].
pub enum EnumRefView {
    Plain,
    Doc(Seq<char>),
    Type(Seq<char>),
}

impl DeepView for EnumRef {
    type V = EnumRefView;

    open spec fn deep_view(&self) -> EnumRefView {
        match self {
            EnumRef::Plain => EnumRefView::Plain,
            EnumRef::Doc(a) => EnumRefView::Doc(a.deep_view()),
            EnumRef::Type(a) => EnumRefView::Type(a.deep_view()),
        }
    }
}

impl View for EnumRef {
    type V = EnumRefView;

    open spec fn view(&self) -> EnumRefView {
        self.deep_view()
    }
}

impl Clone for EnumRef {
    fn clone(&self) -> (r: Self)
        ensures
            r@ == self@,
    {
        match self {
            EnumRef::Plain => EnumRef::Plain,
            EnumRef::Doc(a) => EnumRef::Doc(a.clone()),
            EnumRef::Type(a) => EnumRef::Type(a.clone()),
        }
    }
}

/// An expression over parameters.
#[derive(Debug)]
pub struct Expr {
    /// The text that it was read from; empty for no expression.
    pub text: String,
    /// Its canonical form.
    pub rif: String,
}

/// The value of a [`Expr`].
pub struct ExprView {
    pub text: Seq<char>,
    pub rif: Seq<char>,
}

impl DeepView for Expr {
    type V = ExprView;

    open spec fn deep_view(&self) -> ExprView {
        ExprView {
            text: self.text.deep_view(),
            rif: self.rif.deep_view(),
        }
    }
}

impl View for Expr {
    type V = ExprView;

    open spec fn view(&self) -> ExprView {
        self.deep_view()
    }
}

impl Clone for Expr {
    fn clone(&self) -> (r: Self)
        ensures
            r@ == self@,
    {
        let r = Expr {
            text: self.text.clone(),
            rif: self.rif.clone(),
        };
        r
    }
}

/// Condition that locks the writes to an item.
#[derive(Debug)]
pub enum WriteLock {
    Open,
    /// A signal, possibly negated, in source syntax.
    Expr(String),
    /// An expression that stays as it is in the file.
    Complex,
}

/// The value of a [`WriteLock`].
pub enum WriteLockView {
    Open,
    Expr(Seq<char>),
    Complex,
}

impl DeepView for WriteLock {
    type V = WriteLockView;

    open spec fn deep_view(&self) -> WriteLockView {
        match self {
            WriteLock::Open => WriteLockView::Open,
            WriteLock::Expr(a) => WriteLockView::Expr(a.deep_view()),
            WriteLock::Complex => WriteLockView::Complex,
        }
    }
}

impl View for WriteLock {
    type V = WriteLockView;

    open spec fn view(&self) -> WriteLockView {
        self.deep_view()
    }
}

impl Clone for WriteLock {
    fn clone(&self) -> (r: Self)
        ensures
            r@ == self@,
    {
        match self {
            WriteLock::Open => WriteLock::Open,
            WriteLock::Expr(a) => WriteLock::Expr(a.clone()),
            WriteLock::Complex => WriteLock::Complex,
        }
    }
}

/// A description: public lines and private lines.
#[derive(Debug)]
pub struct Desc {
    /// Public text.
    pub public: String,
    /// Private text.
    pub private: String,
}

/// The value of a [`Desc`].
pub struct DescView {
    pub public: Seq<char>,
    pub private: Seq<char>,
}

impl DeepView for Desc {
    type V = DescView;

    open spec fn deep_view(&self) -> DescView {
        DescView {
            public: self.public.deep_view(),
            private: self.private.deep_view(),
        }
    }
}

impl View for Desc {
    type V = DescView;

    open spec fn view(&self) -> DescView {
        self.deep_view()
    }
}

impl Clone for Desc {
    fn clone(&self) -> (r: Self)
        ensures
            r@ == self@,
    {
        let r = Desc {
            public: self.public.clone(),
            private: self.private.clone(),
        };
        r
    }
}

/// Descriptions of the registers derived from an interrupt.
#[derive(Debug)]
pub struct IntrDesc {
    /// Enable register.
    pub enable: Desc,
    /// Mask register.
    pub mask: Desc,
    /// Pending register.
    pub pending: Desc,
}

/// The value of a [`IntrDesc`].
pub struct IntrDescView {
    pub enable: DescView,
    pub mask: DescView,
    pub pending: DescView,
}

impl DeepView for IntrDesc {
    type V = IntrDescView;

    open spec fn deep_view(&self) -> IntrDescView {
        IntrDescView {
            enable: self.enable.deep_view(),
            mask: self.mask.deep_view(),
            pending: self.pending.deep_view(),
        }
    }
}

impl View for IntrDesc {
    type V = IntrDescView;

    open spec fn view(&self) -> IntrDescView {
        self.deep_view()
    }
}

impl Clone for IntrDesc {
    fn clone(&self) -> (r: Self)
        ensures
            r@ == self@,
    {
        let r = IntrDesc {
            enable: self.enable.clone(),
            mask: self.mask.clone(),
            pending: self.pending.clone(),
        };
        r
    }
}

/// An interrupt block of a register.
#[derive(Debug)]
pub struct IntrInfo {
    /// Name; empty for the primary block.
    pub name: String,
    /// Trigger.
    pub trigger: Trigger,
    /// Clear.
    pub clear: IntrClear,
    /// Reset of the enable register, where there is one.
    pub enable: Option<Reset>,
    /// Reset of the mask register, where there is one.
    pub mask: Option<Reset>,
    /// Whether there is a pending register.
    pub pending: bool,
    /// Descriptions.
    pub description: IntrDesc,
}

/// The value of a [`IntrInfo`].
pub struct IntrInfoView {
    pub name: Seq<char>,
    pub trigger: Trigger,
    pub clear: IntrClear,
    pub enable: Option<ResetView>,
    pub mask: Option<ResetView>,
    pub pending: bool,
    pub description: IntrDescView,
}

impl DeepView for IntrInfo {
    type V = IntrInfoView;

    open spec fn deep_view(&self) -> IntrInfoView {
        IntrInfoView {
            name: self.name.deep_view(),
            trigger: self.trigger,
            clear: self.clear,
            enable: self.enable.deep_view(),
            mask: self.mask.deep_view(),
            pending: self.pending,
            description: self.description.deep_view(),
        }
    }
}

impl View for IntrInfo {
    type V = IntrInfoView;

    open spec fn view(&self) -> IntrInfoView {
        self.deep_view()
    }
}

impl Clone for IntrInfo {
    fn clone(&self) -> (r: Self)
        ensures
            r@ == self@,
    {
        let r = IntrInfo {
            name: self.name.clone(),
            trigger: self.trigger,
            clear: self.clear,
            enable: self.enable.clone(),
            mask: self.mask.clone(),
            pending: self.pending,
            description: self.description.clone(),
        };
        proof {
            assert(r.enable.deep_view() =~= self.enable.deep_view());
            assert(r.mask.deep_view() =~= self.mask.deep_view());
        }
        r
    }
}

/// A pulse on access to a register, with its clock; an empty clock makes it combinatorial.
#[derive(Debug)]
pub enum Pulse {
    Write(String),
    Read(String),
    Access(String),
}

/// The value of a [`Pulse`].
pub enum PulseView {
    Write(Seq<char>),
    Read(Seq<char>),
    Access(Seq<char>),
}

impl DeepView for Pulse {
    type V = PulseView;

    open spec fn deep_view(&self) -> PulseView {
        match self {
            Pulse::Write(a) => PulseView::Write(a.deep_view()),
            Pulse::Read(a) => PulseView::Read(a.deep_view()),
            Pulse::Access(a) => PulseView::Access(a.deep_view()),
        }
    }
}

impl View for Pulse {
    type V = PulseView;

    open spec fn view(&self) -> PulseView {
        self.deep_view()
    }
}

impl Clone for Pulse {
    fn clone(&self) -> (r: Self)
        ensures
            r@ == self@,
    {
        match self {
            Pulse::Write(a) => Pulse::Write(a.clone()),
            Pulse::Read(a) => Pulse::Read(a.clone()),
            Pulse::Access(a) => Pulse::Access(a.clone()),
        }
    }
}

/// Offset of an address.
#[derive(Debug)]
pub enum Offset {
    Value(u64),
    Param(String),
}

/// The value of a [`Offset`].
pub enum OffsetView {
    Value(u64),
    Param(Seq<char>),
}

impl DeepView for Offset {
    type V = OffsetView;

    open spec fn deep_view(&self) -> OffsetView {
        match self {
            Offset::Value(a) => OffsetView::Value(*a),
            Offset::Param(a) => OffsetView::Param(a.deep_view()),
        }
    }
}

impl View for Offset {
    type V = OffsetView;

    open spec fn view(&self) -> OffsetView {
        self.deep_view()
    }
}

impl Clone for Offset {
    fn clone(&self) -> (r: Self)
        ensures
            r@ == self@,
    {
        match self {
            Offset::Value(a) => Offset::Value(*a),
            Offset::Param(a) => Offset::Param(a.clone()),
        }
    }
}

/// Address of an instance.
#[derive(Debug)]
pub struct Addr {
    /// What the offset is relative to.
    pub kind: AddrKind,
    /// Offset.
    pub offset: Offset,
}

/// The value of a [`Addr`].
pub struct AddrView {
    pub kind: AddrKind,
    pub offset: OffsetView,
}

impl DeepView for Addr {
    type V = AddrView;

    open spec fn deep_view(&self) -> AddrView {
        AddrView {
            kind: self.kind,
            offset: self.offset.deep_view(),
        }
    }
}

impl View for Addr {
    type V = AddrView;

    open spec fn view(&self) -> AddrView {
        self.deep_view()
    }
}

impl Clone for Addr {
    fn clone(&self) -> (r: Self)
        ensures
            r@ == self@,
    {
        let r = Addr {
            kind: self.kind,
            offset: self.offset.clone(),
        };
        r
    }
}

/// Processor interface of a RIF.
#[derive(Debug)]
pub enum Bus {
    Default,
    Apb,
    Uaux,
    /// Name and implementation file.
    Custom(String, String),
}

/// The value of a [`Bus`].
pub enum BusView {
    Default,
    Apb,
    Uaux,
    Custom(Seq<char>, Seq<char>),
}

impl DeepView for Bus {
    type V = BusView;

    open spec fn deep_view(&self) -> BusView {
        match self {
            Bus::Default => BusView::Default,
            Bus::Apb => BusView::Apb,
            Bus::Uaux => BusView::Uaux,
            Bus::Custom(a, b) => BusView::Custom(a.deep_view(), b.deep_view()),
        }
    }
}

impl View for Bus {
    type V = BusView;

    open spec fn view(&self) -> BusView {
        self.deep_view()
    }
}

impl Clone for Bus {
    fn clone(&self) -> (r: Self)
        ensures
            r@ == self@,
    {
        match self {
            Bus::Default => Bus::Default,
            Bus::Apb => Bus::Apb,
            Bus::Uaux => Bus::Uaux,
            Bus::Custom(a, b) => Bus::Custom(a.clone(), b.clone()),
        }
    }
}

} // verus!
