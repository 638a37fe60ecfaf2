//! RIFs and everything that is read with them.
use vstd::prelude::*;
use crate::model::page::{Page, PageView};
use crate::model::values::{Bus, BusView, BusWidth, Desc, DescView, Expr, ExprView};

verus! {

/// An entry of an enum.
#[derive(Debug)]
pub struct EnumItem {
    /// Label.
    pub name: String,
    /// Value.
    pub value: u8,
    /// Real number that the value stands for, as text.
    pub repr: Option<String>,
    /// Description.
    pub description: Desc,
    /// Line of the declaration; `None` for an entry that is not in the file yet.
    pub decl_line: Option<usize>,
}

/// The value of a [`EnumItem`].
pub struct EnumItemView {
    pub name: Seq<char>,
    pub value: u8,
    pub repr: Option<Seq<char>>,
    pub description: DescView,
    pub decl_line: Option<usize>,
}

impl DeepView for EnumItem {
    type V = EnumItemView;

    open spec fn deep_view(&self) -> EnumItemView {
        EnumItemView {
            name: self.name.deep_view(),
            value: self.value,
            repr: self.repr.deep_view(),
            description: self.description.deep_view(),
            decl_line: self.decl_line,
        }
    }
}

impl View for EnumItem {
    type V = EnumItemView;

    open spec fn view(&self) -> EnumItemView {
        self.deep_view()
    }
}

impl Clone for EnumItem {
    fn clone(&self) -> (r: Self)
        ensures
            r@ == self@,
    {
        let r = EnumItem {
            name: self.name.clone(),
            value: self.value,
            repr: self.repr.clone(),
            description: self.description.clone(),
            decl_line: self.decl_line,
        };
        proof {
            assert(r.repr.deep_view() =~= self.repr.deep_view());
        }
        r
    }
}

/// An enum definition.
#[derive(Debug)]
pub struct EnumType {
    /// Name.
    pub name: String,
    /// Entries.
    pub values: Vec<EnumItem>,
    /// Line of the header; `None` for an enum that is not in the file yet.
    pub decl_line: Option<usize>,
}

/// The value of a [`EnumType`].
pub struct EnumTypeView {
    pub name: Seq<char>,
    pub values: Seq<EnumItemView>,
    pub decl_line: Option<usize>,
}

impl DeepView for EnumType {
    type V = EnumTypeView;

    open spec fn deep_view(&self) -> EnumTypeView {
        EnumTypeView {
            name: self.name.deep_view(),
            values: self.values.deep_view(),
            decl_line: self.decl_line,
        }
    }
}

impl View for EnumType {
    type V = EnumTypeView;

    open spec fn view(&self) -> EnumTypeView {
        self.deep_view()
    }
}

impl Clone for EnumType {
    fn clone(&self) -> (r: Self)
        ensures
            r@ == self@,
    {
        let r = EnumType {
            name: self.name.clone(),
            values: self.values.clone(),
            decl_line: self.decl_line,
        };
        proof {
            assert(r.values.deep_view() =~= self.values.deep_view());
        }
        r
    }
}

/// The reset of a clock.
#[derive(Debug)]
pub struct ResetLine {
    /// Signal.
    pub name: String,
    /// Synchronous.
    pub sync: bool,
    /// Active high.
    pub active_high: bool,
    /// Line of the declaration.
    pub decl_line: Option<usize>,
}

/// The value of a [`ResetLine`].
pub struct ResetLineView {
    pub name: Seq<char>,
    pub sync: bool,
    pub active_high: bool,
    pub decl_line: Option<usize>,
}

impl DeepView for ResetLine {
    type V = ResetLineView;

    open spec fn deep_view(&self) -> ResetLineView {
        ResetLineView {
            name: self.name.deep_view(),
            sync: self.sync,
            active_high: self.active_high,
            decl_line: self.decl_line,
        }
    }
}

impl View for ResetLine {
    type V = ResetLineView;

    open spec fn view(&self) -> ResetLineView {
        self.deep_view()
    }
}

impl Clone for ResetLine {
    fn clone(&self) -> (r: Self)
        ensures
            r@ == self@,
    {
        let r = ResetLine {
            name: self.name.clone(),
            sync: self.sync,
            active_high: self.active_high,
            decl_line: self.decl_line,
        };
        r
    }
}

/// A clock with its reset, enable and clear signals.
#[derive(Debug)]
pub struct Clocking {
    /// Clock.
    pub clk: String,
    /// Reset.
    pub rst: ResetLine,
    /// Enable; empty for none.
    pub en: String,
    /// Clear; empty for none.
    pub clear: String,
}

/// The value of a [`Clocking`].
pub struct ClockingView {
    pub clk: Seq<char>,
    pub rst: ResetLineView,
    pub en: Seq<char>,
    pub clear: Seq<char>,
}

impl DeepView for Clocking {
    type V = ClockingView;

    open spec fn deep_view(&self) -> ClockingView {
        ClockingView {
            clk: self.clk.deep_view(),
            rst: self.rst.deep_view(),
            en: self.en.deep_view(),
            clear: self.clear.deep_view(),
        }
    }
}

impl View for Clocking {
    type V = ClockingView;

    open spec fn view(&self) -> ClockingView {
        self.deep_view()
    }
}

impl Clone for Clocking {
    fn clone(&self) -> (r: Self)
        ensures
            r@ == self@,
    {
        let r = Clocking {
            clk: self.clk.clone(),
            rst: self.rst.clone(),
            en: self.en.clone(),
            clear: self.clear.clone(),
        };
        r
    }
}

/// A parameter of a RIF.
#[derive(Debug)]
pub struct Param {
    /// Name.
    pub name: String,
    /// Value.
    pub value: Expr,
}

/// The value of a [`Param`].
pub struct ParamView {
    pub name: Seq<char>,
    pub value: ExprView,
}

impl DeepView for Param {
    type V = ParamView;

    open spec fn deep_view(&self) -> ParamView {
        ParamView {
            name: self.name.deep_view(),
            value: self.value.deep_view(),
        }
    }
}

impl View for Param {
    type V = ParamView;

    open spec fn view(&self) -> ParamView {
        self.deep_view()
    }
}

impl Clone for Param {
    fn clone(&self) -> (r: Self)
        ensures
            r@ == self@,
    {
        let r = Param {
            name: self.name.clone(),
            value: self.value.clone(),
        };
        r
    }
}

/// Range of a generic.
#[derive(Debug)]
pub struct Range {
    /// Lowest value.
    pub min: u16,
    /// Highest value.
    pub max: u16,
    /// Default value.
    pub default: u16,
    /// Description.
    pub desc: Option<String>,
}

/// The value of a [`Range`].
pub struct RangeView {
    pub min: u16,
    pub max: u16,
    pub default: u16,
    pub desc: Option<Seq<char>>,
}

impl DeepView for Range {
    type V = RangeView;

    open spec fn deep_view(&self) -> RangeView {
        RangeView {
            min: self.min,
            max: self.max,
            default: self.default,
            desc: self.desc.deep_view(),
        }
    }
}

impl View for Range {
    type V = RangeView;

    open spec fn view(&self) -> RangeView {
        self.deep_view()
    }
}

impl Clone for Range {
    fn clone(&self) -> (r: Self)
        ensures
            r@ == self@,
    {
        let r = Range {
            min: self.min,
            max: self.max,
            default: self.default,
            desc: self.desc.clone(),
        };
        proof {
            assert(r.desc.deep_view() =~= self.desc.deep_view());
        }
        r
    }
}

/// A generic of a RIF.
#[derive(Debug)]
pub struct Generic {
    /// Name.
    pub name: String,
    /// Values.
    pub range: Range,
}

/// The value of a [`Generic`].
pub struct GenericView {
    pub name: Seq<char>,
    pub range: RangeView,
}

impl DeepView for Generic {
    type V = GenericView;

    open spec fn deep_view(&self) -> GenericView {
        GenericView {
            name: self.name.deep_view(),
            range: self.range.deep_view(),
        }
    }
}

impl View for Generic {
    type V = GenericView;

    open spec fn view(&self) -> GenericView {
        self.deep_view()
    }
}

impl Clone for Generic {
    fn clone(&self) -> (r: Self)
        ensures
            r@ == self@,
    {
        let r = Generic {
            name: self.name.clone(),
            range: self.range.clone(),
        };
        r
    }
}

/// The source line of a named entry.
#[derive(Debug)]
pub struct NamedLine {
    /// Name.
    pub name: String,
    /// Line.
    pub line: usize,
}

/// The value of a [`NamedLine`].
pub struct NamedLineView {
    pub name: Seq<char>,
    pub line: usize,
}

impl DeepView for NamedLine {
    type V = NamedLineView;

    open spec fn deep_view(&self) -> NamedLineView {
        NamedLineView {
            name: self.name.deep_view(),
            line: self.line,
        }
    }
}

impl View for NamedLine {
    type V = NamedLineView;

    open spec fn view(&self) -> NamedLineView {
        self.deep_view()
    }
}

impl Clone for NamedLine {
    fn clone(&self) -> (r: Self)
        ensures
            r@ == self@,
    {
        let r = NamedLine {
            name: self.name.clone(),
            line: self.line,
        };
        r
    }
}

/// Where a RIF was read from.
#[derive(Debug)]
pub struct RifSrc {
    /// Line of the declaration.
    pub decl_line: Option<usize>,
    /// Line of each property, by [`RifProp::rank`].
    pub prop_lines: [Option<usize>; 10],
    /// Lines of the description block.
    pub desc_block: Option<(usize, usize)>,
    /// Line of the `parameters:` header.
    pub params_header_line: Option<usize>,
    /// Line of each parameter.
    pub param_lines: Vec<NamedLine>,
    /// Line of the `generics:` header.
    pub generics_header_line: Option<usize>,
    /// Line of each generic.
    pub generic_lines: Vec<NamedLine>,
}

/// The value of a [`RifSrc`].
pub struct RifSrcView {
    pub decl_line: Option<usize>,
    pub prop_lines: [Option<usize>; 10],
    pub desc_block: Option<(usize, usize)>,
    pub params_header_line: Option<usize>,
    pub param_lines: Seq<NamedLineView>,
    pub generics_header_line: Option<usize>,
    pub generic_lines: Seq<NamedLineView>,
}

impl DeepView for RifSrc {
    type V = RifSrcView;

    open spec fn deep_view(&self) -> RifSrcView {
        RifSrcView {
            decl_line: self.decl_line,
            prop_lines: self.prop_lines,
            desc_block: self.desc_block,
            params_header_line: self.params_header_line,
            param_lines: self.param_lines.deep_view(),
            generics_header_line: self.generics_header_line,
            generic_lines: self.generic_lines.deep_view(),
        }
    }
}

impl View for RifSrc {
    type V = RifSrcView;

    open spec fn view(&self) -> RifSrcView {
        self.deep_view()
    }
}

impl Clone for RifSrc {
    fn clone(&self) -> (r: Self)
        ensures
            r@ == self@,
    {
        let r = RifSrc {
            decl_line: self.decl_line,
            prop_lines: self.prop_lines,
            desc_block: self.desc_block,
            params_header_line: self.params_header_line,
            param_lines: self.param_lines.clone(),
            generics_header_line: self.generics_header_line,
            generic_lines: self.generic_lines.clone(),
        };
        proof {
            assert(r.param_lines.deep_view() =~= self.param_lines.deep_view());
            assert(r.generic_lines.deep_view() =~= self.generic_lines.deep_view());
        }
        r
    }
}

/// A register interface.
#[derive(Debug)]
pub struct RifDef {
    /// Type name.
    pub name: String,
    /// Address width.
    pub addr_width: u8,
    /// Data width.
    pub data_width: BusWidth,
    /// Description.
    pub description: Desc,
    /// Processor interface.
    pub interface: Bus,
    /// Whether suffixes apply to the package too.
    pub suffix_pkg: bool,
    /// Software clocks.
    pub sw_clocking: Vec<Clocking>,
    /// Hardware clocks.
    pub hw_clocking: Vec<Clocking>,
    /// Pages.
    pub pages: Vec<Page>,
    /// Enums.
    pub enum_defs: Vec<EnumType>,
    /// Parameters.
    pub parameters: Vec<Param>,
    /// Generics.
    pub generics: Vec<Generic>,
    /// Source lines.
    pub src: RifSrc,
}

/// The value of a [`RifDef`].
pub struct RifDefView {
    pub name: Seq<char>,
    pub addr_width: u8,
    pub data_width: BusWidth,
    pub description: DescView,
    pub interface: BusView,
    pub suffix_pkg: bool,
    pub sw_clocking: Seq<ClockingView>,
    pub hw_clocking: Seq<ClockingView>,
    pub pages: Seq<PageView>,
    pub enum_defs: Seq<EnumTypeView>,
    pub parameters: Seq<ParamView>,
    pub generics: Seq<GenericView>,
    pub src: RifSrcView,
}

impl DeepView for RifDef {
    type V = RifDefView;

    open spec fn deep_view(&self) -> RifDefView {
        RifDefView {
            name: self.name.deep_view(),
            addr_width: self.addr_width,
            data_width: self.data_width,
            description: self.description.deep_view(),
            interface: self.interface.deep_view(),
            suffix_pkg: self.suffix_pkg,
            sw_clocking: self.sw_clocking.deep_view(),
            hw_clocking: self.hw_clocking.deep_view(),
            pages: self.pages.deep_view(),
            enum_defs: self.enum_defs.deep_view(),
            parameters: self.parameters.deep_view(),
            generics: self.generics.deep_view(),
            src: self.src.deep_view(),
        }
    }
}

impl View for RifDef {
    type V = RifDefView;

    open spec fn view(&self) -> RifDefView {
        self.deep_view()
    }
}

impl Clone for RifDef {
    fn clone(&self) -> (r: Self)
        ensures
            r@ == self@,
    {
        let r = RifDef {
            name: self.name.clone(),
            addr_width: self.addr_width,
            data_width: self.data_width,
            description: self.description.clone(),
            interface: self.interface.clone(),
            suffix_pkg: self.suffix_pkg,
            sw_clocking: self.sw_clocking.clone(),
            hw_clocking: self.hw_clocking.clone(),
            pages: self.pages.clone(),
            enum_defs: self.enum_defs.clone(),
            parameters: self.parameters.clone(),
            generics: self.generics.clone(),
            src: self.src.clone(),
        };
        proof {
            assert(r.sw_clocking.deep_view() =~= self.sw_clocking.deep_view());
            assert(r.hw_clocking.deep_view() =~= self.hw_clocking.deep_view());
            assert(r.pages.deep_view() =~= self.pages.deep_view());
            assert(r.enum_defs.deep_view() =~= self.enum_defs.deep_view());
            assert(r.parameters.deep_view() =~= self.parameters.deep_view());
            assert(r.generics.deep_view() =~= self.generics.deep_view());
        }
        r
    }
}

/// A RIF under the name that it is found by.
#[derive(Debug)]
pub struct RifEntry {
    /// Name.
    pub key: String,
    /// Definition.
    pub rif: RifDef,
}

/// The value of a [`RifEntry`].
pub struct RifEntryView {
    pub key: Seq<char>,
    pub rif: RifDefView,
}

impl DeepView for RifEntry {
    type V = RifEntryView;

    open spec fn deep_view(&self) -> RifEntryView {
        RifEntryView {
            key: self.key.deep_view(),
            rif: self.rif.deep_view(),
        }
    }
}

impl View for RifEntry {
    type V = RifEntryView;

    open spec fn view(&self) -> RifEntryView {
        self.deep_view()
    }
}

impl Clone for RifEntry {
    fn clone(&self) -> (r: Self)
        ensures
            r@ == self@,
    {
        let r = RifEntry {
            key: self.key.clone(),
            rif: self.rif.clone(),
        };
        r
    }
}

/// The top component of a file.
#[derive(Debug)]
pub enum Top {
    Empty,
    Rifmux(String),
    Rif(String),
}

/// The value of a [`Top`].
pub enum TopView {
    Empty,
    Rifmux(Seq<char>),
    Rif(Seq<char>),
}

impl DeepView for Top {
    type V = TopView;

    open spec fn deep_view(&self) -> TopView {
        match self {
            Top::Empty => TopView::Empty,
            Top::Rifmux(a) => TopView::Rifmux(a.deep_view()),
            Top::Rif(a) => TopView::Rif(a.deep_view()),
        }
    }
}

impl View for Top {
    type V = TopView;

    open spec fn view(&self) -> TopView {
        self.deep_view()
    }
}

impl Clone for Top {
    fn clone(&self) -> (r: Self)
        ensures
            r@ == self@,
    {
        match self {
            Top::Empty => Top::Empty,
            Top::Rifmux(a) => Top::Rifmux(a.clone()),
            Top::Rif(a) => Top::Rif(a.clone()),
        }
    }
}

/// An item of a multiplexer.
#[derive(Debug)]
pub struct MuxItem {
    /// Name of the RIF, where the item is one.
    pub rif: Option<String>,
}

/// The value of a [`MuxItem`].
pub struct MuxItemView {
    pub rif: Option<Seq<char>>,
}

impl DeepView for MuxItem {
    type V = MuxItemView;

    open spec fn deep_view(&self) -> MuxItemView {
        MuxItemView {
            rif: self.rif.deep_view(),
        }
    }
}

impl View for MuxItem {
    type V = MuxItemView;

    open spec fn view(&self) -> MuxItemView {
        self.deep_view()
    }
}

impl Clone for MuxItem {
    fn clone(&self) -> (r: Self)
        ensures
            r@ == self@,
    {
        let r = MuxItem {
            rif: self.rif.clone(),
        };
        proof {
            assert(r.rif.deep_view() =~= self.rif.deep_view());
        }
        r
    }
}

/// A multiplexer of RIFs.
#[derive(Debug)]
pub struct Mux {
    /// Name.
    pub name: String,
    /// Items.
    pub items: Vec<MuxItem>,
}

/// The value of a [`Mux`].
pub struct MuxView {
    pub name: Seq<char>,
    pub items: Seq<MuxItemView>,
}

impl DeepView for Mux {
    type V = MuxView;

    open spec fn deep_view(&self) -> MuxView {
        MuxView {
            name: self.name.deep_view(),
            items: self.items.deep_view(),
        }
    }
}

impl View for Mux {
    type V = MuxView;

    open spec fn view(&self) -> MuxView {
        self.deep_view()
    }
}

impl Clone for Mux {
    fn clone(&self) -> (r: Self)
        ensures
            r@ == self@,
    {
        let r = Mux {
            name: self.name.clone(),
            items: self.items.clone(),
        };
        proof {
            assert(r.items.deep_view() =~= self.items.deep_view());
        }
        r
    }
}

/// The directory that a component was read from.
#[derive(Debug)]
pub struct PathEntry {
    /// Component, without its RIF affix.
    pub key: String,
    /// Directory.
    pub dir: String,
}

/// The value of a [`PathEntry`].
pub struct PathEntryView {
    pub key: Seq<char>,
    pub dir: Seq<char>,
}

impl DeepView for PathEntry {
    type V = PathEntryView;

    open spec fn deep_view(&self) -> PathEntryView {
        PathEntryView {
            key: self.key.deep_view(),
            dir: self.dir.deep_view(),
        }
    }
}

impl View for PathEntry {
    type V = PathEntryView;

    open spec fn view(&self) -> PathEntryView {
        self.deep_view()
    }
}

impl Clone for PathEntry {
    fn clone(&self) -> (r: Self)
        ensures
            r@ == self@,
    {
        let r = PathEntry {
            key: self.key.clone(),
            dir: self.dir.clone(),
        };
        r
    }
}

/// Everything that was read from a file and the files that it refers to.
#[derive(Debug)]
pub struct Source {
    /// Top component.
    pub top: Top,
    /// RIFs.
    pub rifs: Vec<RifEntry>,
    /// Multiplexers.
    pub rifmux: Vec<Mux>,
    /// Directories.
    pub paths: Vec<PathEntry>,
}

/// The value of a [`Source`].
pub struct SourceView {
    pub top: TopView,
    pub rifs: Seq<RifEntryView>,
    pub rifmux: Seq<MuxView>,
    pub paths: Seq<PathEntryView>,
}

impl DeepView for Source {
    type V = SourceView;

    open spec fn deep_view(&self) -> SourceView {
        SourceView {
            top: self.top.deep_view(),
            rifs: self.rifs.deep_view(),
            rifmux: self.rifmux.deep_view(),
            paths: self.paths.deep_view(),
        }
    }
}

impl View for Source {
    type V = SourceView;

    open spec fn view(&self) -> SourceView {
        self.deep_view()
    }
}

impl Clone for Source {
    fn clone(&self) -> (r: Self)
        ensures
            r@ == self@,
    {
        let r = Source {
            top: self.top.clone(),
            rifs: self.rifs.clone(),
            rifmux: self.rifmux.clone(),
            paths: self.paths.clone(),
        };
        proof {
            assert(r.rifs.deep_view() =~= self.rifs.deep_view());
            assert(r.rifmux.deep_view() =~= self.rifmux.deep_view());
            assert(r.paths.deep_view() =~= self.paths.deep_view());
        }
        r
    }
}

} // verus!
