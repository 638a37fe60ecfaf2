//! Lines of the `.rif` syntax, without their indentation.
use vstd::prelude::*;
use crate::lines::{
    extend_lines, find_from, indent_lines, indented, join_text, joined, lemma_find_bound, push_line, split,
    split_text,
};
use crate::model::page::{
    FieldOvr, FieldOvrView, Instance, InstanceView, RegOvr, RegOvrView, ResetOvr, ResetOvrView,
};
use crate::model::props::{FieldOverrideProp, RegOverrideProp, RifProp};
use crate::model::rif::{
    Clocking, ClockingView, EnumItem, EnumItemView, Range, RangeView, ResetLine, ResetLineView, RifDef,
    RifDefView,
};
use crate::model::values::{
    Addr, AddrKind, AddrView, Bus, BusView, BusWidth, Desc, DescView, HwAcc, IntrDesc, IntrDescView, IntrKind,
    Offset, OffsetView, Reset, ResetView, Vis,
};
use crate::number::{decimal, hexadecimal, show_hex, show_signed, show_unsigned};
use crate::text::{from_chars, join, to_chars};

verus! {

/// The text before the first line break.
pub open spec fn first_line(s: Seq<char>) -> Seq<char> {
    match find_from(s, "\n"@, 0) {
        Some(i) => s.take(i),
        None => s,
    }
}

/// What follows the first line, where anything does.
pub open spec fn other_lines(s: Seq<char>) -> Option<Seq<char>> {
    match find_from(s, "\n"@, 0) {
        Some(i) if i + 1 < s.len() => Some(s.skip(i + 1)),
        _ => None,
    }
}

/// The short form of a description: the first line of its public text or, where private text
/// counts and there is no public one, of its private text.
pub open spec fn short_desc(d: DescView, public_only: bool) -> Seq<char> {
    if d.public.len() == 0 && !public_only {
        first_line(d.private)
    } else {
        first_line(d.public)
    }
}

/// A header line and the lines of `text` one step further in.
pub open spec fn block(header: Seq<char>, text: Seq<char>) -> Seq<Seq<char>> {
    seq![header] + indented(split(text, "\n"@), "  "@)
}

/// The `description:` block of a field or a register: what does not fit the declaration line.
pub open spec fn desc_block(d: DescView) -> Option<Seq<Seq<char>>> {
    match other_lines(d.public) {
        Some(rest) => Some(block("description:"@, rest)),
        None => None,
    }
}

/// The `description:` block of a RIF, which has no room on the declaration line.
pub open spec fn rif_desc_block(d: DescView) -> Option<Seq<Seq<char>>> {
    if d.public.len() == 0 {
        None
    } else {
        Some(block("description:"@, d.public))
    }
}

/// The lines of an override description after the first one.
pub open spec fn override_desc_block(d: Option<DescView>) -> Option<Seq<Seq<char>>> {
    match d {
        Some(d) => match other_lines(d.public) {
            Some(rest) => Some(indented(split(rest, "\n"@), "  "@)),
            None => None,
        },
        None => None,
    }
}

/// The description of one of the registers derived from an interrupt.
pub open spec fn intr_desc_of(d: IntrDescView, kind: IntrKind) -> Option<DescView> {
    match kind {
        IntrKind::Enable => Some(d.enable),
        IntrKind::Mask => Some(d.mask),
        IntrKind::Pending => Some(d.pending),
        _ => None,
    }
}

/// Header of the description block of a derived interrupt register.
pub open spec fn intr_desc_header(kind: IntrKind) -> Seq<char> {
    match kind {
        IntrKind::Enable => "enable.description:"@,
        IntrKind::Mask => "mask.description:"@,
        _ => "pending.description:"@,
    }
}

/// The `{enable,mask,pending}.description:` block.
pub open spec fn intr_desc_block(d: Option<IntrDescView>, kind: IntrKind) -> Option<Seq<Seq<char>>> {
    match d {
        Some(d) => match intr_desc_of(d, kind) {
            Some(x) if x.public.len() > 0 => Some(block(intr_desc_header(kind), x.public)),
            _ => None,
        },
        None => None,
    }
}

/// A reset value in a declaration.
pub open spec fn reset_text(r: ResetView) -> Seq<char> {
    match r {
        ResetView::Unsigned(v) => if v > 9 {
            hexadecimal(v as nat)
        } else {
            decimal(v as int)
        },
        ResetView::Signed(v) => decimal(v as int),
        ResetView::FloatU(t) => t,
        ResetView::FloatS(t) => t,
        ResetView::Param(p) => "$"@ + p,
        ResetView::Label(e) => e,
    }
}

/// An address behind its `@` sign.
pub open spec fn addr_text(a: AddrView) -> Seq<char> {
    let kind = match a.kind {
        AddrKind::Absolute => "@ "@,
        AddrKind::Relative => "@+ "@,
        AddrKind::RelativeSet => "@+= "@,
    };
    kind + match a.offset {
        OffsetView::Value(v) => hexadecimal(v as nat),
        OffsetView::Param(n) => "$"@ + n,
    }
}

/// The address that a declaration leaves out.
pub open spec fn default_addr() -> AddrView {
    AddrView { kind: AddrKind::RelativeSet, offset: OffsetView::Value(0) }
}

/// `text` between `open` and `close`, where `cond` holds.
pub open spec fn opt(cond: bool, open: Seq<char>, text: Seq<char>, close: Seq<char>) -> Seq<char> {
    if cond {
        open + text + close
    } else {
        seq![]
    }
}

/// The declaration line of an instance: `- name[array] = type (group) @ address`.
pub open spec fn inst_decl(i: InstanceView) -> Seq<char> {
    let typed = i.reg_type != i.inst_name;
    let default_group = if typed {
        i.inst_name
    } else {
        seq![]
    };
    "- "@ + i.inst_name + opt(i.array.text.len() > 0, "["@, i.array.rif, "]"@) + opt(
        typed,
        " = "@,
        i.reg_type,
        ""@,
    ) + opt(i.group_name != default_group, " ("@, i.group_name, ")"@) + opt(
        i.addr != default_addr(),
        " "@,
        addr_text(i.addr),
        ""@,
    )
}

/// Keyword of an access.
pub open spec fn acc_keyword(a: HwAcc) -> Seq<char> {
    match a {
        HwAcc::RW => "rw"@,
        HwAcc::RO => "ro"@,
        HwAcc::WO => "wo"@,
        HwAcc::NA => "na"@,
    }
}

/// The line of a register property that an instance overrides.
pub open spec fn reg_ovr_line(o: RegOvrView, p: RegOverrideProp) -> Option<Seq<char>> {
    match p {
        RegOverrideProp::Description => match o.description {
            Some(d) => Some("description : "@ + short_desc(d, true)),
            None => None,
        },
        RegOverrideProp::Hw => match o.hw_acc {
            Some(a) => Some("hw "@ + acc_keyword(a)),
            None => None,
        },
        RegOverrideProp::Optional => if o.optional.text.len() > 0 {
            Some("optional : "@ + o.optional.rif)
        } else {
            None
        },
        RegOverrideProp::OptionalAcc => match o.optional_acc {
            Some(a) => Some("optional_acc: "@ + acc_keyword(a)),
            None => None,
        },
    }
}

/// The line of a field property that an instance overrides. `field_reset` is the reset value
/// that the field has by itself.
pub open spec fn field_ovr_line(
    o: FieldOvrView,
    p: FieldOverrideProp,
    field_reset: ResetView,
) -> Option<Seq<char>> {
    match p {
        FieldOverrideProp::Description => match o.description {
            Some(d) => Some(o.field + ".description "@ + short_desc(d, true)),
            None => None,
        },
        FieldOverrideProp::Reset => if o.visibility == Some(Vis::Disabled) {
            match o.reset {
                ResetOvrView::Keep => Some(o.field + ".disable"@),
                ResetOvrView::Reset(v) => if v == field_reset {
                    Some(o.field + ".disable"@)
                } else {
                    Some(o.field + ".disable = "@ + reset_text(v))
                },
                ResetOvrView::Disable(_) => None,
            }
        } else {
            match o.reset {
                ResetOvrView::Reset(v) => Some(o.field + ".reset = "@ + reset_text(v)),
                _ => None,
            }
        },
    }
}

/// The line of an enum entry: `- name = value (repr) "description"`.
pub open spec fn enum_line(e: EnumItemView) -> Seq<char> {
    "- "@ + e.name + " = "@ + decimal(e.value as int) + (match e.repr {
        Some(r) => " ("@ + r + ")"@,
        None => seq![],
    }) + " \""@ + short_desc(e.description, false) + "\""@
}

/// The line of a parameter: `- name = value`.
pub open spec fn param_line(name: Seq<char>, value: Seq<char>) -> Seq<char> {
    "- "@ + name + " = "@ + value
}

/// The line of a generic: `- name : min:default:max "description"`.
pub open spec fn generic_line(name: Seq<char>, r: RangeView) -> Seq<char> {
    "- "@ + name + " : "@ + decimal(r.min as int) + ":"@ + decimal(r.default as int) + ":"@
        + decimal(r.max as int) + (match r.desc {
        Some(d) => " \""@ + d + "\""@,
        None => seq![],
    })
}

/// The line of a reset: `keyword: name activeLow async`.
pub open spec fn reset_line(keyword: Seq<char>, r: ResetLineView) -> Seq<char> {
    keyword + ": "@ + r.name + (if r.active_high {
        " activeHigh"@
    } else {
        " activeLow"@
    }) + (if r.sync {
        " sync"@
    } else {
        " async"@
    })
}

/// The declaration line of a RIF.
pub open spec fn rif_decl(name: Seq<char>) -> Seq<char> {
    "rif: "@ + name
}

/// One signal of each clock.
pub open spec fn clock_names(cs: Seq<ClockingView>) -> Seq<Seq<char>> {
    Seq::new(cs.len(), |i: int| cs[i].clk)
}

pub open spec fn enable_names(cs: Seq<ClockingView>) -> Seq<Seq<char>> {
    Seq::new(cs.len(), |i: int| cs[i].en)
}

pub open spec fn clear_names(cs: Seq<ClockingView>) -> Seq<Seq<char>> {
    Seq::new(cs.len(), |i: int| cs[i].clear)
}

/// Whether every name is empty.
pub open spec fn all_empty(names: Seq<Seq<char>>) -> bool {
    forall|i: int| 0 <= i < names.len() ==> (#[trigger] names[i]).len() == 0
}

/// The line that names one signal for each clock of a group.
pub open spec fn names_line(keyword: Seq<char>, names: Seq<Seq<char>>) -> Seq<char> {
    keyword + ": "@ + joined(names, " "@)
}

/// The clock line of a group, where it has a clock.
pub open spec fn clock_line(keyword: Seq<char>, names: Seq<Seq<char>>) -> Option<Seq<char>> {
    if names.len() == 0 {
        None
    } else {
        Some(names_line(keyword, names))
    }
}

/// The enable or clear line of a group, where one of its clocks has such a signal.
pub open spec fn signal_line(keyword: Seq<char>, names: Seq<Seq<char>>) -> Option<Seq<char>> {
    if all_empty(names) {
        None
    } else {
        Some(names_line(keyword, names))
    }
}

/// The data width in bits.
pub open spec fn bus_bits(w: BusWidth) -> u8 {
    match w {
        BusWidth::W8(v) => v,
        BusWidth::W16(v) => v,
        BusWidth::W32(v) => v,
        BusWidth::W64(v) => v,
        BusWidth::W128(v) => v,
    }
}

/// The line of a RIF property.
pub open spec fn rif_prop_line(r: RifDefView, p: RifProp) -> Option<Seq<char>> {
    match p {
        RifProp::AddrWidth => Some("addrWidth: "@ + decimal(r.addr_width as int)),
        RifProp::DataWidth => Some("dataWidth: "@ + decimal(bus_bits(r.data_width) as int)),
        RifProp::Interface => match r.interface {
            BusView::Default => None,
            BusView::Apb => Some("interface: apb"@),
            BusView::Uaux => Some("interface: uaux"@),
            BusView::Custom(name, path) => Some("interface: "@ + name + "("@ + path + ")"@),
        },
        RifProp::SuffixPkg => Some(
            if r.suffix_pkg {
                "suffixPkg: true"@
            } else {
                "suffixPkg: false"@
            },
        ),
        RifProp::SwClock => clock_line("swClock"@, clock_names(r.sw_clocking)),
        RifProp::SwClkEn => signal_line("swClkEn"@, enable_names(r.sw_clocking)),
        RifProp::SwClear => signal_line("swClear"@, clear_names(r.sw_clocking)),
        RifProp::HwClock => clock_line("hwClock"@, clock_names(r.hw_clocking)),
        RifProp::HwClkEn => signal_line("hwClkEn"@, enable_names(r.hw_clocking)),
        RifProp::HwClear => signal_line("hwClear"@, clear_names(r.hw_clocking)),
    }
}

/// Position of the first line break.
fn line_break(s: &Vec<char>) -> (r: Option<usize>)
    ensures
        match find_from(s@, "\n"@, 0) {
            Some(i) => r is Some && r->0 == i && 0 <= i < s@.len(),
            None => r is None,
        },
{
    proof {
        reveal_strlit("\n");
        lemma_find_bound(s@, "\n"@, 0);
    }
    let mut i: usize = 0;
    while i < s.len()
        invariant
            i <= s@.len(),
            find_from(s@, "\n"@, i as int) == find_from(s@, "\n"@, 0),
            "\n"@ =~= seq!['\n'],
        decreases s@.len() - i,
    {
        proof {
            assert(s@.subrange(i as int, i + 1) =~= seq![s@[i as int]]);
            assert(seq![s@[i as int]][0] == s@[i as int]);
            assert("\n"@[0] == '\n');
        }
        if s[i] == '\n' {
            return Some(i);
        }
        i += 1;
    }
    None
}

/// The text before the first line break.
pub fn head_line(s: &str) -> (r: String)
    ensures
        r@ == first_line(s@),
{
    let cs = to_chars(s);
    match line_break(&cs) {
        Some(i) => {
            let r = from_chars(&cs, 0, i);
            proof {
                assert(s@.take(i as int) =~= cs@.subrange(0, i as int));
            }
            r
        },
        None => s.to_owned(),
    }
}

/// What follows the first line, where anything does.
pub fn tail_lines(s: &str) -> (r: Option<String>)
    ensures
        r.deep_view() == other_lines(s@),
{
    let cs = to_chars(s);
    match line_break(&cs) {
        Some(i) => {
            if cs.len() - i > 1 {
                let r = from_chars(&cs, i + 1, cs.len());
                proof {
                    assert(s@.skip(i + 1) =~= cs@.subrange(i + 1, cs@.len() as int));
                }
                Some(r)
            } else {
                None
            }
        },
        None => None,
    }
}

impl Desc {
    /// The short form of the description.
    pub fn short(&self, public_only: bool) -> (r: String)
        ensures
            r@ == short_desc(self@, public_only),
    {
        if self.public.as_str().is_empty() && !public_only {
            head_line(self.private.as_str())
        } else {
            head_line(self.public.as_str())
        }
    }
}

fn block_lines(header: &str, text: &str) -> (r: Vec<String>)
    ensures
        r.deep_view() == block(header@, text@),
{
    proof {
        reveal_strlit("\n");
    }
    let body = split_text(text, "\n");
    let mut r: Vec<String> = Vec::new();
    proof {
        assert(r.deep_view() =~= Seq::<Seq<char>>::empty());
    }
    push_line(&mut r, header.to_owned());
    extend_lines(&mut r, indent_lines(&body, "  "));
    proof {
        assert(Seq::<Seq<char>>::empty().push(header@) =~= seq![header@]);
    }
    r
}

/// The `description:` block of a field or a register.
pub fn show_desc_block(d: &Desc) -> (r: Option<Vec<String>>)
    ensures
        r.deep_view() == desc_block(d@),
{
    match tail_lines(d.public.as_str()) {
        Some(rest) => Some(block_lines("description:", rest.as_str())),
        None => None,
    }
}

/// The `description:` block of a RIF.
pub fn show_rif_desc_block(d: &Desc) -> (r: Option<Vec<String>>)
    ensures
        r.deep_view() == rif_desc_block(d@),
{
    if d.public.as_str().is_empty() {
        None
    } else {
        Some(block_lines("description:", d.public.as_str()))
    }
}

/// The lines of an override description after the first one.
pub fn show_override_desc_block(d: &Option<Desc>) -> (r: Option<Vec<String>>)
    ensures
        r.deep_view() == override_desc_block(d.deep_view()),
{
    proof {
        reveal_strlit("\n");
    }
    match d {
        Some(d) => match tail_lines(d.public.as_str()) {
            Some(rest) => {
                let body = split_text(rest.as_str(), "\n");
                Some(indent_lines(&body, "  "))
            },
            None => None,
        },
        None => None,
    }
}

/// The `{enable,mask,pending}.description:` block.
pub fn show_intr_desc_block(d: Option<&IntrDesc>, kind: IntrKind) -> (r: Option<Vec<String>>)
    ensures
        r.deep_view() == intr_desc_block(
            match d {
                Some(x) => Some(x@),
                None => None,
            },
            kind,
        ),
{
    match d {
        Some(d) => {
            let (text, header) = match kind {
                IntrKind::Enable => (d.enable.public.as_str(), "enable.description:"),
                IntrKind::Mask => (d.mask.public.as_str(), "mask.description:"),
                IntrKind::Pending => (d.pending.public.as_str(), "pending.description:"),
                _ => {
                    return None;
                },
            };
            if text.is_empty() {
                None
            } else {
                Some(block_lines(header, text))
            }
        },
        None => None,
    }
}

/// A reset value in a declaration.
pub fn show_reset(r: &Reset) -> (t: String)
    ensures
        t@ == reset_text(r@),
{
    match r {
        Reset::Unsigned(v) => if *v > 9 {
            show_hex(*v)
        } else {
            show_unsigned(*v)
        },
        Reset::Signed(v) => show_signed(*v),
        Reset::FloatU(t) => t.clone(),
        Reset::FloatS(t) => t.clone(),
        Reset::Param(p) => join("$", p.as_str()),
        Reset::Label(e) => e.clone(),
    }
}

/// An address behind its `@` sign.
pub fn show_addr(a: &Addr) -> (r: String)
    ensures
        r@ == addr_text(a@),
{
    let mut r = match a.kind {
        AddrKind::Absolute => "@ ".to_owned(),
        AddrKind::Relative => "@+ ".to_owned(),
        AddrKind::RelativeSet => "@+= ".to_owned(),
    };
    match &a.offset {
        Offset::Value(v) => {
            r.append(show_hex(*v as u128).as_str());
        },
        Offset::Param(n) => {
            r.append(join("$", n.as_str()).as_str());
        },
    }
    r
}

fn is_default_addr(a: &Addr) -> (r: bool)
    ensures
        r == (a@ == default_addr()),
{
    match (&a.kind, &a.offset) {
        (AddrKind::RelativeSet, Offset::Value(v)) => *v == 0,
        _ => false,
    }
}

fn add_opt(out: &mut String, cond: bool, open: &str, text: &str, close: &str)
    ensures
        final(out)@ == old(out)@ + opt(cond, open@, text@, close@),
{
    if cond {
        out.append(open);
        out.append(text);
        out.append(close);
        proof {
            assert(out@ =~= old(out)@ + (open@ + text@ + close@));
        }
    } else {
        proof {
            assert(out@ =~= old(out)@ + Seq::<char>::empty());
        }
    }
}

/// The declaration line of an instance.
pub fn show_inst_decl(i: &Instance) -> (r: String)
    ensures
        r@ == inst_decl(i@),
{
    let typed = i.reg_type != i.inst_name;
    let default_group = if typed {
        i.inst_name.clone()
    } else {
        String::new()
    };
    let mut r = join("- ", i.inst_name.as_str());
    add_opt(&mut r, !i.array.text.as_str().is_empty(), "[", i.array.rif.as_str(), "]");
    add_opt(&mut r, typed, " = ", i.reg_type.as_str(), "");
    add_opt(&mut r, i.group_name != default_group, " (", i.group_name.as_str(), ")");
    let at = show_addr(&i.addr);
    add_opt(&mut r, !is_default_addr(&i.addr), " ", at.as_str(), "");
    r
}

/// Keyword of an access.
pub fn show_acc(a: HwAcc) -> (r: &'static str)
    ensures
        r@ == acc_keyword(a),
{
    match a {
        HwAcc::RW => "rw",
        HwAcc::RO => "ro",
        HwAcc::WO => "wo",
        HwAcc::NA => "na",
    }
}

/// The line of a register property that an instance overrides.
pub fn show_reg_ovr_line(o: &RegOvr, p: RegOverrideProp) -> (r: Option<String>)
    ensures
        r.deep_view() == reg_ovr_line(o@, p),
{
    match p {
        RegOverrideProp::Description => match &o.description {
            Some(d) => Some(join("description : ", d.short(true).as_str())),
            None => None,
        },
        RegOverrideProp::Hw => match o.hw_acc {
            Some(a) => Some(join("hw ", show_acc(a))),
            None => None,
        },
        RegOverrideProp::Optional => if o.optional.text.as_str().is_empty() {
            None
        } else {
            Some(join("optional : ", o.optional.rif.as_str()))
        },
        RegOverrideProp::OptionalAcc => match o.optional_acc {
            Some(a) => Some(join("optional_acc: ", show_acc(a))),
            None => None,
        },
    }
}

/// Whether the two reset values are the same.
pub fn same_reset(a: &Reset, b: &Reset) -> (r: bool)
    ensures
        r == (a@ == b@),
{
    match (a, b) {
        (Reset::Unsigned(x), Reset::Unsigned(y)) => *x == *y,
        (Reset::Signed(x), Reset::Signed(y)) => *x == *y,
        (Reset::FloatU(x), Reset::FloatU(y)) => *x == *y,
        (Reset::FloatS(x), Reset::FloatS(y)) => *x == *y,
        (Reset::Param(x), Reset::Param(y)) => *x == *y,
        (Reset::Label(x), Reset::Label(y)) => *x == *y,
        _ => false,
    }
}

/// The line of a field property that an instance overrides.
pub fn show_field_ovr_line(o: &FieldOvr, p: FieldOverrideProp, field_reset: &Reset) -> (r: Option<
    String,
>)
    ensures
        r.deep_view() == field_ovr_line(o@, p, field_reset@),
{
    match p {
        FieldOverrideProp::Description => match &o.description {
            Some(d) => {
                let mut s = join(o.field.as_str(), ".description ");
                s.append(d.short(true).as_str());
                Some(s)
            },
            None => None,
        },
        FieldOverrideProp::Reset => {
            let disabled = match o.visibility {
                Some(Vis::Disabled) => true,
                _ => false,
            };
            if disabled {
                match &o.reset {
                    ResetOvr::Keep => Some(join(o.field.as_str(), ".disable")),
                    ResetOvr::Reset(v) => if same_reset(v, field_reset) {
                        Some(join(o.field.as_str(), ".disable"))
                    } else {
                        let mut s = join(o.field.as_str(), ".disable = ");
                        s.append(show_reset(v).as_str());
                        Some(s)
                    },
                    ResetOvr::Disable(_) => None,
                }
            } else {
                match &o.reset {
                    ResetOvr::Reset(v) => {
                        let mut s = join(o.field.as_str(), ".reset = ");
                        s.append(show_reset(v).as_str());
                        Some(s)
                    },
                    _ => None,
                }
            }
        },
    }
}

/// The line of an enum entry.
pub fn show_enum_line(e: &EnumItem) -> (r: String)
    ensures
        r@ == enum_line(e@),
{
    let mut r = join("- ", e.name.as_str());
    r.append(" = ");
    r.append(show_unsigned(e.value as u128).as_str());
    match &e.repr {
        Some(t) => {
            let ghost before = r@;
            r.append(" (");
            r.append(t.as_str());
            r.append(")");
            proof {
                assert(r@ =~= before + (" ("@ + t@ + ")"@));
            }
        },
        None => {
            proof {
                assert(r@ =~= r@ + Seq::<char>::empty());
            }
        },
    }
    r.append(" \"");
    r.append(e.description.short(false).as_str());
    r.append("\"");
    r
}

/// The line of a parameter.
pub fn show_param_line(name: &str, value: &str) -> (r: String)
    ensures
        r@ == param_line(name@, value@),
{
    let mut r = join("- ", name);
    r.append(" = ");
    r.append(value);
    r
}

/// The line of a generic.
pub fn show_generic_line(name: &str, range: &Range) -> (r: String)
    ensures
        r@ == generic_line(name@, range@),
{
    let mut r = join("- ", name);
    r.append(" : ");
    r.append(show_unsigned(range.min as u128).as_str());
    r.append(":");
    r.append(show_unsigned(range.default as u128).as_str());
    r.append(":");
    r.append(show_unsigned(range.max as u128).as_str());
    match &range.desc {
        Some(d) => {
            let ghost before = r@;
            r.append(" \"");
            r.append(d.as_str());
            r.append("\"");
            proof {
                assert(r@ =~= before + (" \""@ + d@ + "\""@));
            }
        },
        None => {
            proof {
                assert(r@ =~= r@ + Seq::<char>::empty());
            }
        },
    }
    r
}

/// The line of a reset.
pub fn show_reset_line(keyword: &str, rst: &ResetLine) -> (r: String)
    ensures
        r@ == reset_line(keyword@, rst@),
{
    let mut r = join(keyword, ": ");
    r.append(rst.name.as_str());
    r.append(
        if rst.active_high {
            " activeHigh"
        } else {
            " activeLow"
        },
    );
    r.append(
        if rst.sync {
            " sync"
        } else {
            " async"
        },
    );
    r
}

/// The declaration line of a RIF.
pub fn show_rif_decl(name: &str) -> (r: String)
    ensures
        r@ == rif_decl(name@),
{
    join("rif: ", name)
}

fn names_of(cs: &Vec<Clocking>, which: u8) -> (r: Vec<String>)
    ensures
        which == 0 ==> r.deep_view() == clock_names(cs.deep_view()),
        which == 1 ==> r.deep_view() == enable_names(cs.deep_view()),
        which == 2 ==> r.deep_view() == clear_names(cs.deep_view()),
{
    let mut r: Vec<String> = Vec::new();
    let mut i: usize = 0;
    while i < cs.len()
        invariant
            i <= cs@.len(),
            r@.len() == i,
            forall|k: int|
                0 <= k < i ==> (#[trigger] r@[k])@ == (if which == 0 {
                    cs@[k].clk@
                } else if which == 1 {
                    cs@[k].en@
                } else {
                    cs@[k].clear@
                }),
        decreases cs@.len() - i,
    {
        r.push(
            if which == 0 {
                cs[i].clk.clone()
            } else if which == 1 {
                cs[i].en.clone()
            } else {
                cs[i].clear.clone()
            },
        );
        i += 1;
    }
    proof {
        if which == 0 {
            assert(r.deep_view() =~= clock_names(cs.deep_view()));
        } else if which == 1 {
            assert(r.deep_view() =~= enable_names(cs.deep_view()));
        } else {
            assert(r.deep_view() =~= clear_names(cs.deep_view()));
        }
    }
    r
}

fn show_names_line(keyword: &str, names: &Vec<String>) -> (r: String)
    ensures
        r@ == names_line(keyword@, names.deep_view()),
{
    let mut r = join(keyword, ": ");
    r.append(join_text(names, " ").as_str());
    r
}

fn show_clock_line(keyword: &str, cs: &Vec<Clocking>) -> (r: Option<String>)
    ensures
        r.deep_view() == clock_line(keyword@, clock_names(cs.deep_view())),
{
    if cs.len() == 0 {
        None
    } else {
        let names = names_of(cs, 0);
        Some(show_names_line(keyword, &names))
    }
}

fn show_signal_line(keyword: &str, names: &Vec<String>) -> (r: Option<String>)
    ensures
        r.deep_view() == signal_line(keyword@, names.deep_view()),
{
    let mut i: usize = 0;
    while i < names.len()
        invariant
            i <= names@.len(),
            forall|k: int| 0 <= k < i ==> (#[trigger] names.deep_view()[k]).len() == 0,
        decreases names@.len() - i,
    {
        if !names[i].as_str().is_empty() {
            proof {
                assert(names.deep_view()[i as int].len() != 0);
            }
            return Some(show_names_line(keyword, names));
        }
        i += 1;
    }
    None
}

fn bits(w: BusWidth) -> (r: u8)
    ensures
        r == bus_bits(w),
{
    match w {
        BusWidth::W8(v) => v,
        BusWidth::W16(v) => v,
        BusWidth::W32(v) => v,
        BusWidth::W64(v) => v,
        BusWidth::W128(v) => v,
    }
}

/// The line of a RIF property.
pub fn show_rif_prop_line(r: &RifDef, p: RifProp) -> (t: Option<String>)
    ensures
        t.deep_view() == rif_prop_line(r@, p),
{
    match p {
        RifProp::AddrWidth => Some(join("addrWidth: ", show_unsigned(r.addr_width as u128).as_str())),
        RifProp::DataWidth => {
            let n: u8 = bits(r.data_width);
            Some(join("dataWidth: ", show_unsigned(n as u128).as_str()))
        },
        RifProp::Interface => match &r.interface {
            Bus::Default => None,
            Bus::Apb => Some("interface: apb".to_owned()),
            Bus::Uaux => Some("interface: uaux".to_owned()),
            Bus::Custom(name, path) => {
                let mut s = join("interface: ", name.as_str());
                s.append("(");
                s.append(path.as_str());
                s.append(")");
                Some(s)
            },
        },
        RifProp::SuffixPkg => if r.suffix_pkg {
            Some("suffixPkg: true".to_owned())
        } else {
            Some("suffixPkg: false".to_owned())
        },
        RifProp::SwClock => show_clock_line("swClock", &r.sw_clocking),
        RifProp::SwClkEn => show_signal_line("swClkEn", &names_of(&r.sw_clocking, 1)),
        RifProp::SwClear => show_signal_line("swClear", &names_of(&r.sw_clocking, 2)),
        RifProp::HwClock => show_clock_line("hwClock", &r.hw_clocking),
        RifProp::HwClkEn => show_signal_line("hwClkEn", &names_of(&r.hw_clocking, 1)),
        RifProp::HwClear => show_signal_line("hwClear", &names_of(&r.hw_clocking, 2)),
    }
}

} // verus!
