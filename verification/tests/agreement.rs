//! The lines that the library prints by itself are those that `yarig` prints.
use yarig::parser::parser_expr::parse_expr;
use yarig::rifgen as y;
use yargui::compiled::{FieldInst, FieldSpan, ResetInt};
use yargui::counter::check_counter;
use yargui::field_editor::FieldEditor;
use yargui::model::page::{FieldOvr, Instance, OvrSrc, RegOvr, ResetOvr};
use yargui::model::props::{FieldOverrideProp, RegOverrideProp, RifProp};
use yargui::model::rif::{Clocking, EnumItem, Range, ResetLine, RifDef, RifSrc};
use yargui::model::values::{Addr, AddrKind, Bus, BusWidth, Desc, Expr, HwAcc, Offset, Reset, SwKind, Vis};
use yargui::stage_field::fresh_field;
use yargui::syntax::{
    show_desc_block, show_enum_line, show_field_ovr_line, show_generic_line, show_inst_decl, show_override_desc_block,
    show_param_line, show_reg_ovr_line, show_reset, show_reset_line, show_rif_prop_line,
};

fn s(t: &str) -> String {
    t.to_owned()
}

fn expr(t: &str) -> (Expr, yarig::parser::parser_expr::ExprTokens) {
    let e = if t.is_empty() { Default::default() } else { parse_expr(t).unwrap() };
    (Expr { text: s(t), rif: e.to_rif() }, e)
}

#[test]
fn reset_values_agree() {
    for v in [0u128, 9, 10, 255, u128::MAX] {
        assert_eq!(show_reset(&Reset::Unsigned(v)), y::ResetValP::Unsigned(v).to_rif());
    }
    for v in [0i128, -1, 127, i128::MIN] {
        assert_eq!(show_reset(&Reset::Signed(v)), y::ResetValP::Signed(v).to_rif());
    }
    assert_eq!(show_reset(&Reset::Param(s("W"))), y::ResetValP::Param(s("W")).to_rif());
    assert_eq!(show_reset(&Reset::Label(s("ON"))), y::ResetValP::Enum(s("ON")).to_rif());
    assert_eq!(show_reset(&Reset::FloatU(s("0.25"))), y::ResetValP::FloatU(0.25).to_rif());
}

fn both_instances(name: &str, reg: &str, group: &str, addr: (AddrKind, u64), array: &str) -> (Instance, y::RegInst) {
    let (kind, at) = addr;
    let (ours, theirs) = expr(array);
    let their_kind = match kind {
        AddrKind::Absolute => y::AddressKind::Absolute,
        AddrKind::Relative => y::AddressKind::Relative,
        AddrKind::RelativeSet => y::AddressKind::RelativeSet,
    };
    (
        Instance {
            inst_name: s(name),
            reg_type: s(reg),
            group_name: s(group),
            addr: Addr { kind, offset: Offset::Value(at) },
            array: ours,
            reg_override: None,
            ovr_src: OvrSrc { prop_lines: [None; 4], desc_block: None, fields: Vec::new() },
            decl_line: None,
        },
        y::RegInst::from((name, theirs, Some(reg), Some(group), Some(y::Address::new(their_kind, y::AddressOffset::Value(at))))),
    )
}

#[test]
fn instance_declarations_agree() {
    let cases = [
        both_instances("a", "a", "", (AddrKind::Absolute, 0), ""),
        both_instances("a", "r", "a", (AddrKind::Absolute, 0x1c), "3"),
        both_instances("a", "r", "g", (AddrKind::Relative, 8), "$N + 1"),
        both_instances("a", "a", "g", (AddrKind::RelativeSet, 0), ""),
        both_instances("a", "r", "", (AddrKind::RelativeSet, 4), ""),
    ];
    for (ours, theirs) in cases {
        assert_eq!(Some(show_inst_decl(&ours)), theirs.fmt_decl(""));
    }
}

#[test]
fn enum_parameter_and_generic_lines_agree() {
    let ours = EnumItem {
        name: s("HALF"),
        value: 7,
        repr: Some(s("0.5")),
        description: Desc { public: s("Half\nmore"), private: String::new() },
        decl_line: None,
    };
    let theirs = y::EnumEntry {
        name: s("HALF"),
        value: 7,
        repr: Some(0.5),
        description: "Half\nmore".into(),
        src: Default::default(),
    };
    assert_eq!(show_enum_line(&ours), theirs.to_rif());
    let (ours, theirs) = expr("($A+1)*2");
    assert_eq!(show_param_line("N", &ours.rif), y::fmt_param_line("N", &theirs, ""));
    for text in [None, Some(s("Width"))] {
        let ours = Range { min: 1, max: 9, default: 3, desc: text.clone() };
        let theirs = y::GenericRange { min: 1, max: 9, default: 3, desc: text };
        assert_eq!(show_generic_line("W", &ours), y::fmt_generic_line("W", &theirs, ""));
    }
    for (sync, active_high) in [(false, false), (true, false), (false, true), (true, true)] {
        let ours = ResetLine { name: s("rst"), sync, active_high, decl_line: None };
        let mut theirs = y::ResetDef::new(s("rst"));
        theirs.sync = sync;
        theirs.active_high = active_high;
        assert_eq!(show_reset_line("swReset", &ours), theirs.fmt_decl("swReset"));
    }
}

#[test]
fn override_lines_agree() {
    let (ours, theirs) = expr("$N > 1");
    let text = "Short\nlong";
    let o = RegOvr {
        addr: None,
        description: Some(Desc { public: s(text), private: String::new() }),
        optional: ours,
        optional_acc: Some(HwAcc::RO),
        visibility: None,
        hw_acc: Some(HwAcc::NA),
        fields: Vec::new(),
    };
    let t = y::RegOverride {
        description: Some(text.into()),
        optional: theirs,
        optional_acc: Some(y::Access::RO),
        hw_acc: Some(y::Access::NA),
        ..Default::default()
    };
    let pairs = [
        (RegOverrideProp::Description, y::RegOverrideProp::Description),
        (RegOverrideProp::Hw, y::RegOverrideProp::Hw),
        (RegOverrideProp::Optional, y::RegOverrideProp::Optional),
        (RegOverrideProp::OptionalAcc, y::RegOverrideProp::OptionalAcc),
    ];
    for (p, q) in pairs {
        assert_eq!(show_reg_ovr_line(&o, p), t.fmt_prop(q, ""));
    }
    assert_eq!(show_override_desc_block(&o.description), t.fmt_desc_block(""));

    for (disabled, reset) in [(false, None), (false, Some(3u128)), (true, None), (true, Some(0)), (true, Some(3))] {
        let o = FieldOvr {
            field: s("en"),
            description: Some(Desc { public: s("Short"), private: String::new() }),
            optional: expr("").0,
            visibility: if disabled { Some(Vis::Disabled) } else { None },
            reset: match reset {
                Some(v) => ResetOvr::Reset(Reset::Unsigned(v)),
                None => ResetOvr::Keep,
            },
            has_more: false,
        };
        let t = y::FieldOverride {
            description: Some("Short".into()),
            visibility: if disabled { Some(y::Visibility::Disabled) } else { None },
            reset: match reset {
                Some(v) => y::ResetValOverride::Reset(y::ResetValP::Unsigned(v)),
                None => y::ResetValOverride::None,
            },
            ..Default::default()
        };
        let own = y::ResetValP::Unsigned(0);
        for (p, q) in [
            (FieldOverrideProp::Description, y::FieldOverrideProp::Description),
            (FieldOverrideProp::Reset, y::FieldOverrideProp::Reset),
        ] {
            assert_eq!(show_field_ovr_line(&o, p, &Reset::Unsigned(0)), t.fmt_prop("en", q, "", &own));
        }
    }
}

#[test]
fn description_blocks_agree() {
    for text in ["", "one", "one\ntwo\n\nthree"] {
        let ours = Desc { public: s(text), private: String::new() };
        let theirs = y::Field { description: text.into(), ..Default::default() };
        assert_eq!(show_desc_block(&ours), theirs.fmt_desc_block(""));
    }
}

fn editor() -> FieldEditor {
    let f = FieldInst {
        name: s("f"),
        lsb: 0,
        width: FieldSpan::Fixed(4),
        reset: ResetInt::Unsigned(0),
        sw_kind: SwKind::ReadWrite,
        description: Desc { public: String::new(), private: String::new() },
        partial: (None, 0),
        array_dim: 0,
    };
    FieldEditor::from_field((s("r"), s("f")), &f, &fresh_field(s("f")), &Vec::new(), "top", "r", None)
}

#[test]
fn a_lock_that_cannot_be_printed_is_refused() {
    let mut e = editor();
    e.buf.lock_on = true;
    e.buf.lock = s("(a & b)");
    assert!(e.build_action().is_none());
    assert_eq!(e.parse_err.as_deref(), Some("Lock expression too complex to persist yet"));
    e.buf.lock = s("(!a)");
    assert!(e.build_action().is_some());
}

/// What a counter with these steps is refused for, if anything.
fn steps(up: &str, down: &str) -> Option<String> {
    let mut e = editor();
    e.buf.counter_on = true;
    e.buf.counter_up = s(up);
    e.buf.counter_down = s(down);
    e.buf.counter_sat = true;
    e.build_action();
    e.parse_err
}

#[test]
fn a_counter_with_a_bad_step_is_refused() {
    for bad in ["fast", "256", "0x100", "-1", "2'b3", "5x", "=5", "3 4", "5 satt", "\u{a0}5 6"] {
        assert_eq!(steps(bad, "").as_deref(), Some("Invalid counter: a step is no number below 256"), "{bad}");
        assert_eq!(steps("1", bad).as_deref(), Some("Invalid counter: a step is no number below 256"), "{bad}");
    }
}

#[test]
fn a_text_with_counter_settings_is_read() {
    for good in ["0", "255", "007", "0xfF", "8'h1f", "'d9", "2'b11", "'o17", "5 sat", "5sat", "6 event clr"] {
        assert_eq!(steps(good, ""), None, "{good}");
        assert_eq!(steps("2", good), None, "{good}");
    }
    assert_eq!(steps("", "3 incrVal=4"), None);
    assert_eq!(steps("3 decrVal", ""), None);
    for text in ["up", " updown incrVal decrVal=3clr", "down decrVal 2 incrVal=5 event", "up incrVal 7", "down\tsat\n"] {
        assert!(check_counter(text), "{text}");
        assert!(yarig::parser::counter_def(text).is_ok(), "{text}");
    }
    for text in ["", "left", "up 3", "updown decrVal=1 incrVal 2", "up sat incrVal=2"] {
        assert!(!check_counter(text), "{text}");
    }
}

fn both_clocks(clk: &str, en: &str, clear: &str) -> (Clocking, y::ClockingInfo) {
    (
        Clocking {
            clk: s(clk),
            rst: ResetLine { name: s("rst_n"), sync: false, active_high: false, decl_line: None },
            en: s(en),
            clear: s(clear),
        },
        y::ClockingInfo { clk: s(clk), en: s(en), clear: s(clear), ..Default::default() },
    )
}

#[test]
fn rif_property_lines_agree() {
    let props = [
        (RifProp::AddrWidth, y::RifProp::AddrWidth),
        (RifProp::DataWidth, y::RifProp::DataWidth),
        (RifProp::Interface, y::RifProp::Interface),
        (RifProp::SuffixPkg, y::RifProp::SuffixPkg),
        (RifProp::SwClock, y::RifProp::SwClock),
        (RifProp::SwClkEn, y::RifProp::SwClkEn),
        (RifProp::SwClear, y::RifProp::SwClear),
        (RifProp::HwClock, y::RifProp::HwClock),
        (RifProp::HwClkEn, y::RifProp::HwClkEn),
        (RifProp::HwClear, y::RifProp::HwClear),
    ];
    let widths = [
        (BusWidth::W8(8), y::DataWidth::W8(8)),
        (BusWidth::W16(12), y::DataWidth::W16(12)),
        (BusWidth::W32(32), y::DataWidth::W32(32)),
        (BusWidth::W64(40), y::DataWidth::W64(40)),
        (BusWidth::W128(128), y::DataWidth::W128(128)),
    ];
    let buses = [
        (Bus::Default, y::Interface::Default),
        (Bus::Apb, y::Interface::Apb),
        (Bus::Uaux, y::Interface::Uaux),
        (Bus::Custom(s("axi"), s("pkg.axi")), y::Interface::Custom(s("axi"), s("pkg.axi"))),
    ];
    let clocks: [&[(&str, &str, &str)]; 4] =
        [&[], &[("clk", "", "")], &[("clk", "en", "")], &[("clk_a", "", "clr"), ("clk_b", "en_b", "")]];
    for (k, (ours, theirs)) in widths.into_iter().enumerate() {
        for (bus, interface) in &buses {
            for group in clocks {
                let (sw_ours, sw_theirs) = group.iter().map(|(a, b, c)| both_clocks(a, b, c)).unzip();
                let (hw_ours, hw_theirs) = group.iter().rev().map(|(a, b, c)| both_clocks(a, b, c)).unzip();
                let r = RifDef {
                    name: s("r"),
                    addr_width: 7 + k as u8,
                    data_width: ours,
                    description: Desc { public: String::new(), private: String::new() },
                    interface: bus.clone(),
                    suffix_pkg: k % 2 == 0,
                    sw_clocking: sw_ours,
                    hw_clocking: hw_ours,
                    pages: Vec::new(),
                    enum_defs: Vec::new(),
                    parameters: Vec::new(),
                    generics: Vec::new(),
                    src: RifSrc {
                        decl_line: None,
                        prop_lines: [None; 10],
                        desc_block: None,
                        params_header_line: None,
                        param_lines: Vec::new(),
                        generics_header_line: None,
                        generic_lines: Vec::new(),
                    },
                };
                let mut t = y::Rif::new("r");
                t.addr_width = r.addr_width;
                t.data_width = theirs;
                t.interface = interface.clone();
                t.suffix_pkg = r.suffix_pkg;
                t.sw_clocking = sw_theirs;
                t.hw_clocking = hw_theirs;
                for (p, q) in props {
                    assert_eq!(show_rif_prop_line(&r, p), t.fmt_prop(q, ""));
                }
            }
        }
    }
}
