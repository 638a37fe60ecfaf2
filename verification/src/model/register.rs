//! Fields and register definitions.
use vstd::prelude::*;
use crate::model::values::{
    BitPos, BitPosView, Desc, DescView, Dim, DimView, EnumRef, EnumRefView, External, HwAcc, HwKind, IntrDesc,
    IntrDescView, IntrInfo, IntrInfoView, IntrOvr, Limit, LimitView, Pulse, PulseView, RawVis, Reset, ResetView,
    SwKind, SwKindView, Vis, WriteLock, WriteLockView,
};

verus! {

/// Source line ranges, first and last, of the description blocks of an item.
#[derive(Clone, Copy, Debug)]
pub struct DescBlocks {
    /// `description:` block.
    pub public: Option<(usize, usize)>,
    /// `enable.description:` block.
    pub intr_enable: Option<(usize, usize)>,
    /// `mask.description:` block.
    pub intr_mask: Option<(usize, usize)>,
    /// `pending.description:` block.
    pub intr_pending: Option<(usize, usize)>,
}

/// Where a field was read from.
#[derive(Clone, Copy, Debug)]
pub struct FieldSrc {
    /// Line of the declaration; `None` for a field that is not in the file yet.
    pub decl_line: Option<usize>,
    /// Whether the declaration line carries a description.
    pub has_inline_desc: bool,
    /// Line of each property, by [`FieldProp::rank`].
    pub prop_lines: [Option<usize>; 12],
    /// Description blocks.
    pub desc_blocks: DescBlocks,
}

/// Where a register definition was read from.
#[derive(Clone, Copy, Debug)]
pub struct RegSrc {
    /// Line of the declaration; `None` for a register that is not in the file yet.
    pub decl_line: Option<usize>,
    /// Whether the declaration line carries a description.
    pub has_inline_desc: bool,
    /// Line of each property, by [`RegProp::rank`].
    pub prop_lines: [Option<usize>; 10],
    /// Description blocks.
    pub desc_blocks: DescBlocks,
}

/// A field definition.
#[derive(Debug)]
pub struct FieldDef {
    /// Name.
    pub name: String,
    /// Position.
    pub pos: BitPos,
    /// Array size; zero for no array.
    pub array: Dim,
    /// Position increment between elements; zero for the width.
    pub array_pos_incr: u8,
    /// Reset value, or one for each element.
    pub reset: Vec<Reset>,
    /// Whether the value is signed.
    pub signed: bool,
    /// Description.
    pub description: Desc,
    /// Enum.
    pub enum_kind: EnumRef,
    /// Hardware behaviour.
    pub hw_kind: Vec<HwKind>,
    /// Software access.
    pub sw_kind: SwKind,
    /// Hardware access.
    pub hw_acc: HwAcc,
    /// Write lock.
    pub lock: WriteLock,
    /// Visibility.
    pub visibility: RawVis,
    /// Own descriptions in the derived interrupt registers.
    pub intr_desc: Option<IntrDesc>,
    /// Own interrupt settings.
    pub intr_ovr: IntrOvr,
    /// Write limit.
    pub limit: Limit,
    /// Fractional bits.
    pub nb_frac: isize,
    /// Split over several registers: bit offset and element offset.
    pub partial: (Option<u16>, u16),
    /// Source lines.
    pub src: FieldSrc,
}

/// The value of a [`FieldDef`].
pub struct FieldDefView {
    pub name: Seq<char>,
    pub pos: BitPosView,
    pub array: DimView,
    pub array_pos_incr: u8,
    pub reset: Seq<ResetView>,
    pub signed: bool,
    pub description: DescView,
    pub enum_kind: EnumRefView,
    pub hw_kind: Seq<HwKind>,
    pub sw_kind: SwKindView,
    pub hw_acc: HwAcc,
    pub lock: WriteLockView,
    pub visibility: RawVis,
    pub intr_desc: Option<IntrDescView>,
    pub intr_ovr: IntrOvr,
    pub limit: LimitView,
    pub nb_frac: isize,
    pub partial: (Option<u16>, u16),
    pub src: FieldSrc,
}

impl DeepView for FieldDef {
    type V = FieldDefView;

    open spec fn deep_view(&self) -> FieldDefView {
        FieldDefView {
            name: self.name.deep_view(),
            pos: self.pos.deep_view(),
            array: self.array.deep_view(),
            array_pos_incr: self.array_pos_incr,
            reset: self.reset.deep_view(),
            signed: self.signed,
            description: self.description.deep_view(),
            enum_kind: self.enum_kind.deep_view(),
            hw_kind: self.hw_kind.deep_view(),
            sw_kind: self.sw_kind.deep_view(),
            hw_acc: self.hw_acc,
            lock: self.lock.deep_view(),
            visibility: self.visibility,
            intr_desc: self.intr_desc.deep_view(),
            intr_ovr: self.intr_ovr,
            limit: self.limit.deep_view(),
            nb_frac: self.nb_frac,
            partial: self.partial,
            src: self.src,
        }
    }
}

impl View for FieldDef {
    type V = FieldDefView;

    open spec fn view(&self) -> FieldDefView {
        self.deep_view()
    }
}

impl Clone for FieldDef {
    fn clone(&self) -> (r: Self)
        ensures
            r@ == self@,
    {
        let r = FieldDef {
            name: self.name.clone(),
            pos: self.pos.clone(),
            array: self.array.clone(),
            array_pos_incr: self.array_pos_incr,
            reset: self.reset.clone(),
            signed: self.signed,
            description: self.description.clone(),
            enum_kind: self.enum_kind.clone(),
            hw_kind: self.hw_kind.clone(),
            sw_kind: self.sw_kind.clone(),
            hw_acc: self.hw_acc,
            lock: self.lock.clone(),
            visibility: self.visibility,
            intr_desc: self.intr_desc.clone(),
            intr_ovr: self.intr_ovr,
            limit: self.limit.clone(),
            nb_frac: self.nb_frac,
            partial: self.partial,
            src: self.src,
        };
        proof {
            assert(r.reset.deep_view() =~= self.reset.deep_view());
            assert(r.hw_kind.deep_view() =~= self.hw_kind.deep_view());
            assert(r.intr_desc.deep_view() =~= self.intr_desc.deep_view());
        }
        r
    }
}

/// A register definition.
#[derive(Debug)]
pub struct RegisterDef {
    /// Type name.
    pub name: String,
    /// Group that the register belongs to.
    pub group_name: String,
    /// Package of the group.
    pub group_pkg: Option<String>,
    /// Description.
    pub description: Desc,
    /// Access pulses.
    pub pulse: Vec<Pulse>,
    /// Fields.
    pub fields: Vec<FieldDef>,
    /// Interrupt blocks, the primary one first.
    pub interrupt: Vec<IntrInfo>,
    /// Visibility.
    pub visibility: Vis,
    /// Own clock.
    pub clk: Option<String>,
    /// Own reset.
    pub rst: Option<String>,
    /// Write lock.
    pub lock: WriteLock,
    /// Array size; zero for no array.
    pub array: Dim,
    /// External logic.
    pub external: External,
    /// Source lines.
    pub src: RegSrc,
}

/// The value of a [`RegisterDef`].
pub struct RegisterDefView {
    pub name: Seq<char>,
    pub group_name: Seq<char>,
    pub group_pkg: Option<Seq<char>>,
    pub description: DescView,
    pub pulse: Seq<PulseView>,
    pub fields: Seq<FieldDefView>,
    pub interrupt: Seq<IntrInfoView>,
    pub visibility: Vis,
    pub clk: Option<Seq<char>>,
    pub rst: Option<Seq<char>>,
    pub lock: WriteLockView,
    pub array: DimView,
    pub external: External,
    pub src: RegSrc,
}

impl DeepView for RegisterDef {
    type V = RegisterDefView;

    open spec fn deep_view(&self) -> RegisterDefView {
        RegisterDefView {
            name: self.name.deep_view(),
            group_name: self.group_name.deep_view(),
            group_pkg: self.group_pkg.deep_view(),
            description: self.description.deep_view(),
            pulse: self.pulse.deep_view(),
            fields: self.fields.deep_view(),
            interrupt: self.interrupt.deep_view(),
            visibility: self.visibility,
            clk: self.clk.deep_view(),
            rst: self.rst.deep_view(),
            lock: self.lock.deep_view(),
            array: self.array.deep_view(),
            external: self.external,
            src: self.src,
        }
    }
}

impl View for RegisterDef {
    type V = RegisterDefView;

    open spec fn view(&self) -> RegisterDefView {
        self.deep_view()
    }
}

impl Clone for RegisterDef {
    fn clone(&self) -> (r: Self)
        ensures
            r@ == self@,
    {
        let r = RegisterDef {
            name: self.name.clone(),
            group_name: self.group_name.clone(),
            group_pkg: self.group_pkg.clone(),
            description: self.description.clone(),
            pulse: self.pulse.clone(),
            fields: self.fields.clone(),
            interrupt: self.interrupt.clone(),
            visibility: self.visibility,
            clk: self.clk.clone(),
            rst: self.rst.clone(),
            lock: self.lock.clone(),
            array: self.array.clone(),
            external: self.external,
            src: self.src,
        };
        proof {
            assert(r.group_pkg.deep_view() =~= self.group_pkg.deep_view());
            assert(r.pulse.deep_view() =~= self.pulse.deep_view());
            assert(r.fields.deep_view() =~= self.fields.deep_view());
            assert(r.interrupt.deep_view() =~= self.interrupt.deep_view());
            assert(r.clk.deep_view() =~= self.clk.deep_view());
            assert(r.rst.deep_view() =~= self.rst.deep_view());
        }
        r
    }
}

/// An entry of the `registers:` list of a page.
#[derive(Debug)]
pub enum RegItem {
    /// A register of another RIF.
    Incl(String),
    /// A definition.
    Def(RegisterDef),
}

/// The value of a [`RegItem`].
pub enum RegItemView {
    Incl(Seq<char>),
    Def(RegisterDefView),
}

impl DeepView for RegItem {
    type V = RegItemView;

    open spec fn deep_view(&self) -> RegItemView {
        match self {
            RegItem::Incl(a) => RegItemView::Incl(a.deep_view()),
            RegItem::Def(a) => RegItemView::Def(a.deep_view()),
        }
    }
}

impl View for RegItem {
    type V = RegItemView;

    open spec fn view(&self) -> RegItemView {
        self.deep_view()
    }
}

impl Clone for RegItem {
    fn clone(&self) -> (r: Self)
        ensures
            r@ == self@,
    {
        match self {
            RegItem::Incl(a) => RegItem::Incl(a.clone()),
            RegItem::Def(a) => RegItem::Def(a.clone()),
        }
    }
}

} // verus!
