//! Register instances and pages.
use vstd::prelude::*;
use crate::model::register::{RegItem, RegItemView};
use crate::model::values::{
    Addr, AddrView, Desc, DescView, Expr, ExprView, HwAcc, InstMode, Reset, ResetView, Vis,
};

verus! {

/// Reset that an instance overrides.
#[derive(Debug)]
pub enum ResetOvr {
    Keep,
    Reset(Reset),
    Disable(Reset),
}

/// The value of a [`ResetOvr`].
pub enum ResetOvrView {
    Keep,
    Reset(ResetView),
    Disable(ResetView),
}

impl DeepView for ResetOvr {
    type V = ResetOvrView;

    open spec fn deep_view(&self) -> ResetOvrView {
        match self {
            ResetOvr::Keep => ResetOvrView::Keep,
            ResetOvr::Reset(a) => ResetOvrView::Reset(a.deep_view()),
            ResetOvr::Disable(a) => ResetOvrView::Disable(a.deep_view()),
        }
    }
}

impl View for ResetOvr {
    type V = ResetOvrView;

    open spec fn view(&self) -> ResetOvrView {
        self.deep_view()
    }
}

impl Clone for ResetOvr {
    fn clone(&self) -> (r: Self)
        ensures
            r@ == self@,
    {
        match self {
            ResetOvr::Keep => ResetOvr::Keep,
            ResetOvr::Reset(a) => ResetOvr::Reset(a.clone()),
            ResetOvr::Disable(a) => ResetOvr::Disable(a.clone()),
        }
    }
}

/// What an instance overrides for one field.
#[derive(Debug)]
pub struct FieldOvr {
    /// Name of the field.
    pub field: String,
    /// Description.
    pub description: Option<Desc>,
    /// Condition; empty for none.
    pub optional: Expr,
    /// Visibility.
    pub visibility: Option<Vis>,
    /// Reset.
    pub reset: ResetOvr,
    /// Whether it also overrides a limit or information entries.
    pub has_more: bool,
}

/// The value of a [`FieldOvr`].
pub struct FieldOvrView {
    pub field: Seq<char>,
    pub description: Option<DescView>,
    pub optional: ExprView,
    pub visibility: Option<Vis>,
    pub reset: ResetOvrView,
    pub has_more: bool,
}

impl DeepView for FieldOvr {
    type V = FieldOvrView;

    open spec fn deep_view(&self) -> FieldOvrView {
        FieldOvrView {
            field: self.field.deep_view(),
            description: self.description.deep_view(),
            optional: self.optional.deep_view(),
            visibility: self.visibility,
            reset: self.reset.deep_view(),
            has_more: self.has_more,
        }
    }
}

impl View for FieldOvr {
    type V = FieldOvrView;

    open spec fn view(&self) -> FieldOvrView {
        self.deep_view()
    }
}

impl Clone for FieldOvr {
    fn clone(&self) -> (r: Self)
        ensures
            r@ == self@,
    {
        let r = FieldOvr {
            field: self.field.clone(),
            description: self.description.clone(),
            optional: self.optional.clone(),
            visibility: self.visibility,
            reset: self.reset.clone(),
            has_more: self.has_more,
        };
        proof {
            assert(r.description.deep_view() =~= self.description.deep_view());
        }
        r
    }
}

/// What an instance overrides for its whole register.
#[derive(Debug)]
pub struct RegOvr {
    /// Address.
    pub addr: Option<Addr>,
    /// Description.
    pub description: Option<Desc>,
    /// Condition; empty for none.
    pub optional: Expr,
    /// Access when the condition does not hold.
    pub optional_acc: Option<HwAcc>,
    /// Visibility.
    pub visibility: Option<Vis>,
    /// Hardware access.
    pub hw_acc: Option<HwAcc>,
    /// Fields, one entry for each name.
    pub fields: Vec<FieldOvr>,
}

/// The value of a [`RegOvr`].
pub struct RegOvrView {
    pub addr: Option<AddrView>,
    pub description: Option<DescView>,
    pub optional: ExprView,
    pub optional_acc: Option<HwAcc>,
    pub visibility: Option<Vis>,
    pub hw_acc: Option<HwAcc>,
    pub fields: Seq<FieldOvrView>,
}

impl DeepView for RegOvr {
    type V = RegOvrView;

    open spec fn deep_view(&self) -> RegOvrView {
        RegOvrView {
            addr: self.addr.deep_view(),
            description: self.description.deep_view(),
            optional: self.optional.deep_view(),
            optional_acc: self.optional_acc,
            visibility: self.visibility,
            hw_acc: self.hw_acc,
            fields: self.fields.deep_view(),
        }
    }
}

impl View for RegOvr {
    type V = RegOvrView;

    open spec fn view(&self) -> RegOvrView {
        self.deep_view()
    }
}

impl Clone for RegOvr {
    fn clone(&self) -> (r: Self)
        ensures
            r@ == self@,
    {
        let r = RegOvr {
            addr: self.addr.clone(),
            description: self.description.clone(),
            optional: self.optional.clone(),
            optional_acc: self.optional_acc,
            visibility: self.visibility,
            hw_acc: self.hw_acc,
            fields: self.fields.clone(),
        };
        proof {
            assert(r.addr.deep_view() =~= self.addr.deep_view());
            assert(r.description.deep_view() =~= self.description.deep_view());
            assert(r.fields.deep_view() =~= self.fields.deep_view());
        }
        r
    }
}

/// Where the file overrides a field.
#[derive(Debug)]
pub struct FieldOvrSrc {
    /// Name of the field.
    pub field: String,
    /// Line of each property, by [`FieldOverrideProp::rank`].
    pub prop_lines: [Option<usize>; 2],
}

/// The value of a [`FieldOvrSrc`].
pub struct FieldOvrSrcView {
    pub field: Seq<char>,
    pub prop_lines: [Option<usize>; 2],
}

impl DeepView for FieldOvrSrc {
    type V = FieldOvrSrcView;

    open spec fn deep_view(&self) -> FieldOvrSrcView {
        FieldOvrSrcView { field: self.field.deep_view(), prop_lines: self.prop_lines }
    }
}

impl View for FieldOvrSrc {
    type V = FieldOvrSrcView;

    open spec fn view(&self) -> FieldOvrSrcView {
        self.deep_view()
    }
}

impl Clone for FieldOvrSrc {
    fn clone(&self) -> (r: Self)
        ensures
            r@ == self@,
    {
        FieldOvrSrc { field: self.field.clone(), prop_lines: self.prop_lines }
    }
}

/// Where the file overrides properties of an instance. It stays when the overrides go, so that
/// their lines can be taken out of the file.
#[derive(Debug)]
pub struct OvrSrc {
    /// Line of each property, by [`RegOverrideProp::rank`].
    pub prop_lines: [Option<usize>; 4],
    /// Lines of the description block.
    pub desc_block: Option<(usize, usize)>,
    /// Fields, one entry for each name.
    pub fields: Vec<FieldOvrSrc>,
}

/// The value of an [`OvrSrc`].
pub struct OvrSrcView {
    pub prop_lines: [Option<usize>; 4],
    pub desc_block: Option<(usize, usize)>,
    pub fields: Seq<FieldOvrSrcView>,
}

impl DeepView for OvrSrc {
    type V = OvrSrcView;

    open spec fn deep_view(&self) -> OvrSrcView {
        OvrSrcView {
            prop_lines: self.prop_lines,
            desc_block: self.desc_block,
            fields: self.fields.deep_view(),
        }
    }
}

impl View for OvrSrc {
    type V = OvrSrcView;

    open spec fn view(&self) -> OvrSrcView {
        self.deep_view()
    }
}

impl Clone for OvrSrc {
    fn clone(&self) -> (r: Self)
        ensures
            r@ == self@,
    {
        let r = OvrSrc {
            prop_lines: self.prop_lines,
            desc_block: self.desc_block,
            fields: self.fields.clone(),
        };
        proof {
            assert(r.fields.deep_view() =~= self.fields.deep_view());
        }
        r
    }
}

/// A register instance.
#[derive(Debug)]
pub struct Instance {
    /// Instance name.
    pub inst_name: String,
    /// Register type.
    pub reg_type: String,
    /// Group; empty for the default.
    pub group_name: String,
    /// Address.
    pub addr: Addr,
    /// Array size; empty for no array.
    pub array: Expr,
    /// Overrides for the whole register.
    pub reg_override: Option<RegOvr>,
    /// Where the file has the overrides.
    pub ovr_src: OvrSrc,
    /// Line of the declaration; `None` for an instance that is not in the file yet.
    pub decl_line: Option<usize>,
}

/// The value of a [`Instance`].
pub struct InstanceView {
    pub inst_name: Seq<char>,
    pub reg_type: Seq<char>,
    pub group_name: Seq<char>,
    pub addr: AddrView,
    pub array: ExprView,
    pub reg_override: Option<RegOvrView>,
    pub ovr_src: OvrSrcView,
    pub decl_line: Option<usize>,
}

impl DeepView for Instance {
    type V = InstanceView;

    open spec fn deep_view(&self) -> InstanceView {
        InstanceView {
            inst_name: self.inst_name.deep_view(),
            reg_type: self.reg_type.deep_view(),
            group_name: self.group_name.deep_view(),
            addr: self.addr.deep_view(),
            array: self.array.deep_view(),
            reg_override: self.reg_override.deep_view(),
            ovr_src: self.ovr_src.deep_view(),
            decl_line: self.decl_line,
        }
    }
}

impl View for Instance {
    type V = InstanceView;

    open spec fn view(&self) -> InstanceView {
        self.deep_view()
    }
}

impl Clone for Instance {
    fn clone(&self) -> (r: Self)
        ensures
            r@ == self@,
    {
        let r = Instance {
            inst_name: self.inst_name.clone(),
            reg_type: self.reg_type.clone(),
            group_name: self.group_name.clone(),
            addr: self.addr.clone(),
            array: self.array.clone(),
            reg_override: self.reg_override.clone(),
            ovr_src: self.ovr_src.clone(),
            decl_line: self.decl_line,
        };
        proof {
            assert(r.reg_override.deep_view() =~= self.reg_override.deep_view());
        }
        r
    }
}

/// A page of a RIF.
#[derive(Debug)]
pub struct Page {
    /// Name.
    pub name: String,
    /// Register definitions.
    pub registers: Vec<RegItem>,
    /// Register instances.
    pub instances: Vec<Instance>,
    /// Addressing.
    pub inst_auto: InstMode,
    /// Line of the `instances:` header.
    pub instances_line: Option<usize>,
}

/// The value of a [`Page`].
pub struct PageView {
    pub name: Seq<char>,
    pub registers: Seq<RegItemView>,
    pub instances: Seq<InstanceView>,
    pub inst_auto: InstMode,
    pub instances_line: Option<usize>,
}

impl DeepView for Page {
    type V = PageView;

    open spec fn deep_view(&self) -> PageView {
        PageView {
            name: self.name.deep_view(),
            registers: self.registers.deep_view(),
            instances: self.instances.deep_view(),
            inst_auto: self.inst_auto,
            instances_line: self.instances_line,
        }
    }
}

impl View for Page {
    type V = PageView;

    open spec fn view(&self) -> PageView {
        self.deep_view()
    }
}

impl Clone for Page {
    fn clone(&self) -> (r: Self)
        ensures
            r@ == self@,
    {
        let r = Page {
            name: self.name.clone(),
            registers: self.registers.clone(),
            instances: self.instances.clone(),
            inst_auto: self.inst_auto,
            instances_line: self.instances_line,
        };
        proof {
            assert(r.registers.deep_view() =~= self.registers.deep_view());
            assert(r.instances.deep_view() =~= self.instances.deep_view());
        }
        r
    }
}

} // verus!
