//! Calls into the `yarig` crate: how it prints declarations and reads expressions.
//!
//! The values of this crate are handed over one for one. What the printers and readers give
//! back is not restated here: it is named, and the contracts of the library speak of the names.
use vstd::prelude::*;
use crate::condition::is_readable;
use crate::counter::is_counter;
use crate::model::props::{FieldProp, RegProp};
use crate::model::register::{FieldDef, FieldDefView, RegisterDef, RegisterDefView};
use crate::model::values::{
    BitPos, CountDir, Counter, Dim, EnumRef, External, HwAcc, HwKind, IntrClear, IntrInfo, Limit, LimitValue,
    LimitView, Password, PasswordView, Pulse, RawVis, Reset, SwKind, Trigger, Vis,
};

verus! {

/// A field of `yarig`.
#[verifier::external_type_specification]
#[verifier::external_body]
pub struct ExField(yarig::rifgen::Field);

/// A register definition of `yarig`.
#[verifier::external_type_specification]
#[verifier::external_body]
pub struct ExRegDef(yarig::rifgen::RegDef);

/// A width of `yarig`.
#[verifier::external_type_specification]
#[verifier::external_body]
pub struct ExWidth(yarig::rifgen::Width);

/// A field position of `yarig`.
#[verifier::external_type_specification]
#[verifier::external_body]
pub struct ExFieldPos(yarig::rifgen::FieldPos);

/// A reset value of `yarig`.
#[verifier::external_type_specification]
#[verifier::external_body]
pub struct ExResetValP(yarig::rifgen::ResetValP);

/// A software access of `yarig`.
#[verifier::external_type_specification]
#[verifier::external_body]
pub struct ExFieldSwKind(yarig::rifgen::FieldSwKind);

/// A hardware behaviour of `yarig`.
#[verifier::external_type_specification]
#[verifier::external_body]
pub struct ExFieldHwKind(yarig::rifgen::FieldHwKind);

/// A hardware access of `yarig`.
#[verifier::external_type_specification]
#[verifier::external_body]
pub struct ExAccess(yarig::rifgen::Access);

/// A write limit of `yarig`.
#[verifier::external_type_specification]
#[verifier::external_body]
pub struct ExLimitP(yarig::rifgen::LimitP);

/// An interrupt trigger of `yarig`.
#[verifier::external_type_specification]
#[verifier::external_body]
pub struct ExInterruptTrigger(yarig::rifgen::InterruptTrigger);

/// An interrupt clear of `yarig`.
#[verifier::external_type_specification]
#[verifier::external_body]
pub struct ExInterruptClr(yarig::rifgen::InterruptClr);

/// An interrupt block of `yarig`.
#[verifier::external_type_specification]
#[verifier::external_body]
pub struct ExInterruptInfo(yarig::rifgen::InterruptInfo);

/// What `Field::fmt_decl` prints for a field, without indentation.
pub uninterp spec fn field_decl(f: FieldDefView) -> Seq<char>;

/// What `Field::fmt_prop` prints for a property of a field, without indentation; `None` where
/// the property needs no line.
pub uninterp spec fn field_prop_line(f: FieldDefView, p: FieldProp) -> Option<Seq<char>>;

/// What `RegDef::fmt_decl` prints for a register, without indentation.
pub uninterp spec fn reg_decl(d: RegisterDefView) -> Seq<char>;

/// What `RegDef::fmt_prop` prints for a property of a register, without indentation; `None`
/// where the property needs no line.
pub uninterp spec fn reg_prop_line(d: RegisterDefView, p: RegProp) -> Option<Seq<char>>;

/// What `limit_def` makes of a limit: the limit, or the text of the error.
pub uninterp spec fn limit_read(text: Seq<char>) -> Result<LimitView, Seq<char>>;

/// What `counter_def` makes of counter settings: the settings, or the text of the error.
pub uninterp spec fn counter_read(text: Seq<char>) -> Result<Counter, Seq<char>>;

/// What `password_info` makes of password settings: the settings, or the text of the error.
pub uninterp spec fn password_read(text: Seq<char>) -> Result<PasswordView, Seq<char>>;

/// What `signal_or_expr` makes of a condition: `None` where it rejects it; otherwise how
/// `LogicExpr::to_rif` prints the condition, where it can.
pub uninterp spec fn signal_read(text: Seq<char>) -> Option<Option<Seq<char>>>;

/// What `parse_expr` makes of an expression: `None` where it rejects it; otherwise how
/// `ExprTokens::to_rif` prints the expression.
pub uninterp spec fn expr_read(text: Seq<char>) -> Option<Seq<char>>;

/// Hands a width to `yarig`.
#[verifier::external_body]
fn to_width(d: &Dim) -> yarig::rifgen::Width {
    match d {
        Dim::Value(v) => yarig::rifgen::Width::Value(*v),
        Dim::Param(p) => yarig::rifgen::Width::Param(p.clone()),
    }
}

/// Hands a position to `yarig`.
#[verifier::external_body]
fn to_pos(p: &BitPos) -> yarig::rifgen::FieldPos {
    match p {
        BitPos::MsbLsb(m, l) => yarig::rifgen::FieldPos::MsbLsb((to_width(m), to_width(l))),
        BitPos::LsbSize(l, w) => yarig::rifgen::FieldPos::LsbSize((to_width(l), to_width(w))),
        BitPos::Size(w) => yarig::rifgen::FieldPos::Size(to_width(w)),
    }
}

/// Hands a reset value to `yarig`. The text of a real number reads back as that number.
#[verifier::external_body]
fn to_reset(r: &Reset) -> yarig::rifgen::ResetValP {
    match r {
        Reset::Unsigned(v) => yarig::rifgen::ResetValP::Unsigned(*v),
        Reset::Signed(v) => yarig::rifgen::ResetValP::Signed(*v),
        Reset::FloatU(t) => yarig::rifgen::ResetValP::FloatU(t.parse().unwrap_or_default()),
        Reset::FloatS(t) => yarig::rifgen::ResetValP::FloatS(t.parse().unwrap_or_default()),
        Reset::Param(p) => yarig::rifgen::ResetValP::Param(p.clone()),
        Reset::Label(e) => yarig::rifgen::ResetValP::Enum(e.clone()),
    }
}

/// Takes a reset value from `yarig`. A real number is kept as its text.
#[verifier::external_body]
fn from_reset(r: &yarig::rifgen::ResetValP) -> Reset {
    match r {
        yarig::rifgen::ResetValP::Unsigned(v) => Reset::Unsigned(*v),
        yarig::rifgen::ResetValP::Signed(v) => Reset::Signed(*v),
        yarig::rifgen::ResetValP::FloatU(v) => Reset::FloatU(v.to_string()),
        yarig::rifgen::ResetValP::FloatS(v) => Reset::FloatS(v.to_string()),
        yarig::rifgen::ResetValP::Param(p) => Reset::Param(p.clone()),
        yarig::rifgen::ResetValP::Enum(e) => Reset::Label(e.clone()),
    }
}

/// Hands a software access to `yarig`.
#[verifier::external_body]
fn to_sw_kind(k: &SwKind) -> yarig::rifgen::FieldSwKind {
    match k {
        SwKind::ReadWrite => yarig::rifgen::FieldSwKind::ReadWrite,
        SwKind::ReadOnly => yarig::rifgen::FieldSwKind::ReadOnly,
        SwKind::WriteOnly => yarig::rifgen::FieldSwKind::WriteOnly,
        SwKind::ReadClr => yarig::rifgen::FieldSwKind::ReadClr,
        SwKind::W1Clr => yarig::rifgen::FieldSwKind::W1Clr,
        SwKind::W0Clr => yarig::rifgen::FieldSwKind::W0Clr,
        SwKind::W1Set => yarig::rifgen::FieldSwKind::W1Set,
        SwKind::W1Tgl => yarig::rifgen::FieldSwKind::W1Tgl,
        SwKind::W1Pulse(reg, wo) => yarig::rifgen::FieldSwKind::W1Pulse(*reg, *wo),
        SwKind::Password(p) => to_password(p),
    }
}

/// Hands password settings to `yarig`.
#[verifier::external_body]
fn to_password(p: &Password) -> yarig::rifgen::FieldSwKind {
    yarig::rifgen::FieldSwKind::Password(yarig::rifgen::PasswordInfo {
        once: p.once.as_ref().map(to_reset),
        hold: p.hold.as_ref().map(to_reset),
        protect: p.protect,
    })
}

/// Hands a hardware access to `yarig`.
#[verifier::external_body]
fn to_access(a: HwAcc) -> yarig::rifgen::Access {
    match a {
        HwAcc::RW => yarig::rifgen::Access::RW,
        HwAcc::RO => yarig::rifgen::Access::RO,
        HwAcc::WO => yarig::rifgen::Access::WO,
        HwAcc::NA => yarig::rifgen::Access::NA,
    }
}

/// Hands a limit to `yarig`.
#[verifier::external_body]
fn to_limit(l: &Limit) -> yarig::rifgen::LimitP {
    let value = match &l.value {
        LimitValue::Any => yarig::rifgen::LimitValueP::None,
        LimitValue::Min(v) => yarig::rifgen::LimitValueP::Min(to_reset(v)),
        LimitValue::Max(v) => yarig::rifgen::LimitValueP::Max(to_reset(v)),
        LimitValue::MinMax(a, b) => yarig::rifgen::LimitValueP::MinMax(to_reset(a), to_reset(b)),
        LimitValue::List(vs) => yarig::rifgen::LimitValueP::List(vs.iter().map(to_reset).collect()),
        LimitValue::Enum => yarig::rifgen::LimitValueP::Enum,
        LimitValue::External => yarig::rifgen::LimitValueP::External,
    };
    yarig::rifgen::LimitP { value, bypass: l.bypass.clone() }
}

/// Takes a limit from `yarig`.
#[verifier::external_body]
fn from_limit(l: &yarig::rifgen::LimitP) -> Limit {
    let value = match &l.value {
        yarig::rifgen::LimitValueP::None => LimitValue::Any,
        yarig::rifgen::LimitValueP::Min(v) => LimitValue::Min(from_reset(v)),
        yarig::rifgen::LimitValueP::Max(v) => LimitValue::Max(from_reset(v)),
        yarig::rifgen::LimitValueP::MinMax(a, b) => LimitValue::MinMax(from_reset(a), from_reset(b)),
        yarig::rifgen::LimitValueP::List(vs) => LimitValue::List(vs.iter().map(from_reset).collect()),
        yarig::rifgen::LimitValueP::Enum => LimitValue::Enum,
        yarig::rifgen::LimitValueP::External => LimitValue::External,
    };
    Limit { value, bypass: l.bypass.clone() }
}

/// Hands a trigger to `yarig`.
#[verifier::external_body]
fn to_trigger(t: Trigger) -> yarig::rifgen::InterruptTrigger {
    match t {
        Trigger::High => yarig::rifgen::InterruptTrigger::High,
        Trigger::Low => yarig::rifgen::InterruptTrigger::Low,
        Trigger::Rising => yarig::rifgen::InterruptTrigger::Rising,
        Trigger::Falling => yarig::rifgen::InterruptTrigger::Falling,
        Trigger::Edge => yarig::rifgen::InterruptTrigger::Edge,
    }
}

/// Hands a clear to `yarig`.
#[verifier::external_body]
fn to_clear(c: IntrClear) -> yarig::rifgen::InterruptClr {
    match c {
        IntrClear::Read => yarig::rifgen::InterruptClr::Read,
        IntrClear::Write0 => yarig::rifgen::InterruptClr::Write0,
        IntrClear::Write1 => yarig::rifgen::InterruptClr::Write1,
        IntrClear::Hw => yarig::rifgen::InterruptClr::Hw,
    }
}

/// Hands what a field declaration shows to `yarig`.
#[verifier::external_body]
fn to_field_decl(f: &FieldDef) -> yarig::rifgen::Field {
    let mut y = yarig::rifgen::Field {
        name: f.name.clone(),
        pos: to_pos(&f.pos),
        array: to_width(&f.array),
        reset: f.reset.iter().map(to_reset).collect(),
        sw_kind: to_sw_kind(&f.sw_kind),
        description: f.description.public.as_str().into(),
        ..Default::default()
    };
    y.description.set_private(&f.description.private);
    y.src.has_inline_desc = f.src.has_inline_desc;
    y
}

/// Hands what the enum and visibility lines of a field show to `yarig`, on top of `y`.
#[verifier::external_body]
fn with_choices(f: &FieldDef, mut y: yarig::rifgen::Field) -> yarig::rifgen::Field {
    y.enum_kind = match &f.enum_kind {
        EnumRef::Plain => yarig::rifgen::EnumKind::None,
        EnumRef::Doc(n) => yarig::rifgen::EnumKind::Doc(n.clone()),
        EnumRef::Type(n) => yarig::rifgen::EnumKind::Type(n.clone()),
    };
    y.visibility = match f.visibility {
        RawVis::Full => yarig::rifgen::VisibilityRaw::Full,
        RawVis::Hidden => yarig::rifgen::VisibilityRaw::Hidden,
        RawVis::Reserved => yarig::rifgen::VisibilityRaw::Reserved,
        RawVis::Disabled => yarig::rifgen::VisibilityRaw::Disabled(Default::default()),
    };
    y
}

/// Hands counter settings to `yarig`.
#[verifier::external_body]
fn to_counter(c: &Counter) -> yarig::rifgen::FieldHwKind {
    let kind = match c.kind {
        CountDir::Up => yarig::rifgen::CounterKind::Up,
        CountDir::Down => yarig::rifgen::CounterKind::Down,
        CountDir::UpDown => yarig::rifgen::CounterKind::UpDown,
    };
    let (incr_val, decr_val, sat, clr, event) = (c.incr_val, c.decr_val, c.sat, c.clr, c.event);
    let info = yarig::rifgen::CounterInfo { kind, incr_val, decr_val, sat, clr, event };
    yarig::rifgen::FieldHwKind::Counter(info)
}

/// Hands a hardware behaviour to `yarig`. A kind that only stays in the file prints nothing,
/// like a read-only field.
#[verifier::external_body]
fn to_hw_kind(k: &HwKind) -> yarig::rifgen::FieldHwKind {
    match k {
        HwKind::Counter(c) => to_counter(c),
        HwKind::Interrupt(t) => yarig::rifgen::FieldHwKind::Interrupt(to_trigger(*t)),
        HwKind::Clear => yarig::rifgen::FieldHwKind::Clear(None),
        HwKind::Other(_) => yarig::rifgen::FieldHwKind::ReadOnly,
    }
}

/// Hands a field to `yarig`, as far as its property lines show it.
#[verifier::external_body]
fn to_field(f: &FieldDef) -> yarig::rifgen::Field {
    let mut y = with_choices(f, to_field_decl(f));
    y.hw_kind = f.hw_kind.iter().map(to_hw_kind).collect();
    y.signed = f.signed;
    y.hw_acc = to_access(f.hw_acc);
    y.nb_frac = f.nb_frac;
    y.array_pos_incr = f.array_pos_incr;
    y.limit = to_limit(&f.limit);
    y.intr_ovr.trigger = f.intr_ovr.trigger.map(to_trigger);
    y.intr_ovr.clear = f.intr_ovr.clear.map(to_clear);
    y
}

/// Hands an interrupt block to `yarig`.
#[verifier::external_body]
fn to_intr(i: &IntrInfo) -> yarig::rifgen::InterruptInfo {
    let mut y = yarig::rifgen::InterruptInfo::new(&i.name, (None, None, None, None, None));
    y.trigger = to_trigger(i.trigger);
    y.clear = to_clear(i.clear);
    y.enable = i.enable.as_ref().map(to_reset);
    y.mask = i.mask.as_ref().map(to_reset);
    y.pending = i.pending;
    y
}

/// Hands what a register declaration shows to `yarig`.
#[verifier::external_body]
fn to_reg_decl(d: &RegisterDef) -> yarig::rifgen::RegDef {
    let group = (d.group_pkg.as_deref(), d.group_name.as_str());
    let array = to_width(&d.array);
    let mut y = yarig::rifgen::RegDef::new(&d.name, Some(group), Some(array), &d.description.public);
    y.description.set_private(&d.description.private);
    y.src.has_inline_desc = d.src.has_inline_desc;
    y
}

/// Hands a register to `yarig`, as far as its property lines show it.
#[verifier::external_body]
fn to_reg(d: &RegisterDef) -> yarig::rifgen::RegDef {
    let mut y = with_kinds(d, to_reg_decl(d));
    y.pulse = d.pulse.iter().map(
        |p| match p {
            Pulse::Write(c) => yarig::rifgen::RegPulseKind::Write(c.clone()),
            Pulse::Read(c) => yarig::rifgen::RegPulseKind::Read(c.clone()),
            Pulse::Access(c) => yarig::rifgen::RegPulseKind::Access(c.clone()),
        },
    ).collect();
    y.interrupt = d.interrupt.iter().map(to_intr).collect();
    y.clk = d.clk.clone();
    y.rst = d.rst.clone();
    y
}

/// Hands the visibility and the external kind of a register to `yarig`, on top of `y`.
#[verifier::external_body]
fn with_kinds(d: &RegisterDef, mut y: yarig::rifgen::RegDef) -> yarig::rifgen::RegDef {
    y.visibility = match d.visibility {
        Vis::Full => yarig::rifgen::Visibility::Full,
        Vis::Hidden => yarig::rifgen::Visibility::Hidden,
        Vis::Reserved => yarig::rifgen::Visibility::Reserved,
        Vis::Disabled => yarig::rifgen::Visibility::Disabled,
        Vis::Unused => yarig::rifgen::Visibility::Unused,
    };
    y.external = match d.external {
        External::Internal => yarig::rifgen::ExternalKind::None,
        External::ReadWrite => yarig::rifgen::ExternalKind::ReadWrite,
        External::Read => yarig::rifgen::ExternalKind::Read,
        External::Write => yarig::rifgen::ExternalKind::Write,
        External::Done => yarig::rifgen::ExternalKind::Done,
    };
    y
}

/// `Field::fmt_decl`: the declaration line of a field. Only the name is given to what it
/// prints; the printed line depends on the field alone.
#[verifier::external_body]
pub(crate) fn show_field_decl(f: &FieldDef) -> (r: String)
    ensures
        r@ == field_decl(f@),
{
    to_field_decl(f).fmt_decl("")
}

/// `Field::fmt_prop`: the line of a property of a field, other than its lock. Only the name is
/// given to what it prints; the printed line depends on the field and the property alone.
#[verifier::external_body]
pub(crate) fn show_field_prop(f: &FieldDef, p: FieldProp) -> (r: Option<String>)
    requires
        p != FieldProp::Lock,
    ensures
        r.deep_view() == field_prop_line(f@, p),
{
    let prop = yarig::rifgen::FieldProp::ALL[p.rank()];
    to_field(f).fmt_prop(prop, "")
}

/// `RegDef::fmt_decl`: the declaration line of a register. Only the name is given to what it
/// prints; the printed line depends on the register alone.
#[verifier::external_body]
pub(crate) fn show_reg_decl(d: &RegisterDef) -> (r: String)
    ensures
        r@ == reg_decl(d@),
{
    to_reg_decl(d).fmt_decl("")
}

/// `RegDef::fmt_prop`: the line of a property of a register, other than its lock. Only the name
/// is given to what it prints; the printed line depends on the register and the property alone.
#[verifier::external_body]
pub(crate) fn show_reg_prop(d: &RegisterDef, p: RegProp) -> (r: Option<String>)
    requires
        p != RegProp::Lock,
    ensures
        r.deep_view() == reg_prop_line(d@, p),
{
    let prop = yarig::rifgen::RegProp::ALL[p.rank()];
    to_reg(d).fmt_prop(prop, "")
}

/// `limit_def`: reads a write limit. Only the name is given to what it makes of the text,
/// the limit or the text of the error; it depends on the text alone.
#[verifier::external_body]
pub(crate) fn read_limit(text: &str) -> (r: Result<Limit, String>)
    ensures
        match r {
            Ok(l) => limit_read(text@) == Ok::<LimitView, Seq<char>>(l@),
            Err(e) => limit_read(text@) == Err::<LimitView, Seq<char>>(e@),
        },
{
    match yarig::parser::limit_def(text) {
        Ok(l) => Ok(from_limit(&l)),
        Err(e) => Err(e.to_string()),
    }
}

/// `counter_def`: reads counter settings. Only the name is given to what it makes of the text,
/// the settings or the text of the error; it depends on the text alone. The text is a direction
/// with settings behind it: on other texts the reader may stop the program.
#[verifier::external_body]
pub(crate) fn read_counter(text: &str) -> (r: Result<Counter, String>)
    requires
        is_counter(text@),
    ensures
        match r {
            Ok(c) => counter_read(text@) == Ok::<Counter, Seq<char>>(c),
            Err(e) => counter_read(text@) == Err::<Counter, Seq<char>>(e@),
        },
{
    let c = yarig::parser::counter_def(text).map_err(|e| e.to_string())?;
    let kind = match c.kind {
        yarig::rifgen::CounterKind::Up => CountDir::Up,
        yarig::rifgen::CounterKind::Down => CountDir::Down,
        yarig::rifgen::CounterKind::UpDown => CountDir::UpDown,
    };
    let (incr_val, decr_val, sat, clr, event) = (c.incr_val, c.decr_val, c.sat, c.clr, c.event);
    Ok(Counter { kind, incr_val, decr_val, sat, clr, event })
}

/// `password_info`: reads password settings. Only the name is given to what it makes of the
/// text, the settings or the text of the error; it depends on the text alone.
#[verifier::external_body]
pub(crate) fn read_password(text: &str) -> (r: Result<Password, String>)
    ensures
        match r {
            Ok(p) => password_read(text@) == Ok::<PasswordView, Seq<char>>(p@),
            Err(e) => password_read(text@) == Err::<PasswordView, Seq<char>>(e@),
        },
{
    let p = yarig::parser::password_info(text).map_err(|e| e.to_string())?;
    let once = p.once.as_ref().map(from_reset);
    let hold = p.hold.as_ref().map(from_reset);
    Ok(Password { once, hold, protect: p.protect })
}

/// `signal_or_expr`, then `LogicExpr::to_rif` on what it accepts. Only the name is given to
/// whether the text is accepted and how it prints, which depend on the text alone. Nothing is
/// said of the text of the error: it also shows which file was read last. A text that is not
/// readable is not handed over: the reader stops the program at a backslash in brackets, or where
/// it has more brackets or separators than it can count; and an expression that nests too deep
/// does not fit the stack when it is printed or dropped.
#[verifier::external_body]
pub(crate) fn read_signal(text: &str) -> (r: Result<Option<String>, String>)
    requires
        is_readable(text@),
    ensures
        match r {
            Ok(t) => signal_read(text@) == Some(t.deep_view()),
            Err(_) => signal_read(text@) is None,
        },
{
    match yarig::parser::signal_or_expr(text) {
        Ok(e) => Ok(e.to_rif()),
        Err(e) => Err(e.to_string()),
    }
}

/// `parse_expr`, then `ExprTokens::to_rif` on what it accepts. Only the name is given to whether
/// the text is accepted and how it prints, which depend on the text alone. Nothing is said of
/// the text of the error: it also shows which file was read last.
#[verifier::external_body]
pub(crate) fn read_expr(text: &str) -> (r: Result<String, String>)
    ensures
        match r {
            Ok(t) => expr_read(text@) == Some(t@),
            Err(_) => expr_read(text@) is None,
        },
{
    match yarig::parser::parser_expr::parse_expr(text) {
        Ok(e) => Ok(e.to_rif()),
        Err(e) => Err(e.to_string()),
    }
}

} // verus!
