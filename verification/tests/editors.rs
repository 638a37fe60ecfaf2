//! The editors: what they load, what they refuse and what they make of their buffers.
use yargui::action::EditAction;
use yargui::compiled::{get_field_rst_str, reset_value, swap_positions, FieldInst, FieldSpan, ResetInt};
use yargui::enum_editor::{parse_u8, EnumEditor, EnumEntryRow};
use yargui::field_editor::{
    parse_reset, EnumMode, EnumTypeSrc, FieldEditor, FieldOverrideEditor, FieldReadings, LimitKind, VisMode,
};
use yargui::intr_desc_editor::{FieldIntrDescEditor, RegIntrDescEditor};
use yargui::model::page::{FieldOvr, Instance, OvrSrc, Page, RegOvr, ResetOvr};
use yargui::model::props::FieldProp;
use yargui::model::register::{DescBlocks, FieldDef, RegItem, RegSrc, RegisterDef};
use yargui::model::rif::{EnumItem, EnumType};
use yargui::model::values::{
    Addr, AddrKind, BitPos, BusWidth, CountDir, Counter, Desc, Dim, EnumRef, Expr, External, HwAcc, HwKind,
    InstMode, IntrClear, IntrDesc, IntrInfo, IntrKind, IntrOvr, Limit, LimitValue, Offset, Password, Pulse, RawVis,
    Reset, SwKind, Trigger, Vis, WriteLock,
};
use yargui::printed::show_field_line;
use yargui::reg_editor::{
    nb_byte, parse_addr, reg_name_taken, unique_reg_name, PendingDeleteReg, PendingRegAddrConflict,
    PendingRegArrayChange, RegAddEditor, RegAddrResolution, RegArrayChangeKind, RegEditor, RegOverrideEditor,
};
use yargui::stage_field::fresh_field;
use yargui::stage_reg::{AddRegKind, Companion};
use yargui::vals::{FieldVals, RegDefVals};
use yargui::viewer::{Editors, RifViewer};

fn s(t: &str) -> String {
    t.to_owned()
}

fn desc(t: &str) -> Desc {
    Desc { public: s(t), private: String::new() }
}

/// A field of eight bits at bit four, and its compiled form.
fn sample() -> (FieldDef, FieldInst) {
    let mut def = fresh_field(s("gain"));
    def.pos = BitPos::MsbLsb(Dim::Value(11), Dim::Value(4));
    def.reset = vec![Reset::Unsigned(18)];
    def.description = desc("Gain\nmore");
    let inst = FieldInst {
        name: s("gain"),
        lsb: 4,
        width: FieldSpan::Fixed(8),
        reset: ResetInt::Unsigned(18),
        sw_kind: SwKind::ReadWrite,
        description: desc("Gain\nmore"),
        partial: (None, 0),
        array_dim: 0,
    };
    (def, inst)
}

fn editor_of(def: &FieldDef, inst: &FieldInst) -> FieldEditor {
    FieldEditor::from_field((s("ctrl"), s("gain")), inst, def, &Vec::new(), "top", "grp", None)
}

fn sample_editor() -> FieldEditor {
    let (def, inst) = sample();
    editor_of(&def, &inst)
}

fn field_vals(a: Option<EditAction>) -> FieldVals {
    match a {
        Some(EditAction::UpdateField { rif_type, reg_type, orig_name, vals }) => {
            assert_eq!((rif_type.as_str(), reg_type.as_str(), orig_name.as_str()), ("top", "ctrl", "gain"));
            *vals
        }
        other => panic!("unexpected edit {other:?}"),
    }
}

fn err_of(mut e: FieldEditor) -> String {
    assert!(e.build_action().is_none());
    e.parse_err.expect("an error is shown")
}

#[test]
fn loading_a_field_changes_nothing() {
    let e = sample_editor();
    assert!(e.is_unchanged());
    assert_eq!(e.buf.name, "gain");
    assert_eq!((e.buf.lsb.as_str(), e.buf.width.as_str()), ("4", "8"));
    assert_eq!(e.buf.array, "");
    assert_eq!(e.buf.reset, "18");
    assert!(!e.buf.signed);
    assert_eq!(e.buf.desc, "Gain\nmore");
    assert!(e.buf.visibility == VisMode::Full);
    assert!(e.enum_type_src == EnumTypeSrc::New);
}

#[test]
fn a_password_field_shows_as_unchanged() {
    let (mut def, mut inst) = sample();
    let p = Password { once: Some(Reset::Unsigned(0x12)), hold: None, protect: true };
    def.sw_kind = SwKind::Password(p);
    inst.sw_kind = def.sw_kind.clone();
    let e = editor_of(&def, &inst);
    assert!(e.buf.password_on && e.buf.password_protect);
    assert_eq!(e.buf.password_once, "0x12");
    assert_eq!(e.buf.password_hold, "");
    assert!(e.is_unchanged());
}

#[test]
fn unchanged_field_writes_no_property() {
    let mut e = sample_editor();
    let vals = field_vals(e.build_action());
    assert!(vals.changed.is_empty());
    assert!(vals.reset.is_none(), "a reset that was not touched is kept");
    assert!(matches!(vals.pos, BitPos::MsbLsb(Dim::Value(11), Dim::Value(4))));
    assert_eq!(vals.desc, "Gain\nmore");
}

#[test]
fn locks_that_cannot_be_read_are_refused() {
    let lock = |t: String| {
        let mut e = sample_editor();
        e.buf.lock_on = true;
        e.buf.lock = t;
        e
    };
    let accepted = |t: String| match field_vals(lock(t).build_action()).lock {
        WriteLock::Expr(t) => t,
        other => panic!("unexpected lock {other:?}"),
    };
    let deepest = "!".repeat(2048);
    assert_eq!(accepted(format!("({deepest}a)")), format!("{deepest}a"));
    assert_eq!(err_of(lock(format!("(!{deepest}a)"))), "Invalid lock: too many operators");
    let long = "a".repeat(100_000);
    assert_eq!(accepted(long.clone()), long);
    assert_eq!(accepted(format!("(!{long}.b)")), format!("!{long}.b"));
    assert_eq!(accepted(format!("(a{})", "[3:1]".repeat(70_000))), "a[1]");
    let colons = ":0".repeat(65_534);
    assert_eq!(err_of(lock(format!("(a[0:0{colons}])"))), "Invalid lock: too many separators");
    assert_ne!(err_of(lock(format!("(a[0{colons}])"))), "Invalid lock: too many separators");
    assert_ne!(err_of(lock(":".repeat(70_000))), "Invalid lock: too many separators");
    assert_ne!(err_of(lock(s("(a)\\"))), "Invalid lock: unexpected backslash");
    assert!(err_of(lock(s("(a\\b)"))).ends_with("unexpected backslash"));
    let answered = err_of(lock(s("a\\b")));
    assert!(!answered.ends_with("unexpected backslash"), "the reader answers: {answered}");
}

#[test]
fn field_editor_names_what_is_wrong() {
    let mut e = sample_editor();
    e.buf.lsb = s("x");
    assert_eq!(err_of(e), "Invalid lsb");
    let mut e = sample_editor();
    e.buf.width = s("0");
    assert_eq!(err_of(e), "Width must be >= 1");
    let mut e = sample_editor();
    e.buf.width = s("300");
    assert_eq!(err_of(e), "Width must be >= 1");
    let mut e = sample_editor();
    e.buf.name = s("  ");
    assert_eq!(err_of(e), "Name is empty");
    let mut e = sample_editor();
    e.buf.array = s("256");
    assert_eq!(err_of(e), "Invalid array size");
    let mut e = sample_editor();
    e.buf.array_pos_incr = s("-1");
    assert_eq!(err_of(e), "Invalid array position increment");
    let mut e = sample_editor();
    e.buf.reset = s("12q");
    assert_eq!(err_of(e), "Invalid unsigned reset '12q'");
    let mut e = sample_editor();
    e.buf.signed = true;
    e.buf.reset = s("ab");
    assert_eq!(err_of(e), "Invalid signed reset 'ab'");
    let mut e = sample_editor();
    e.buf.reset = s(" ");
    assert_eq!(err_of(e), "Reset value is empty");
    let mut e = sample_editor();
    e.buf.nb_frac = s("1.5");
    assert_eq!(err_of(e), "Invalid fractional bits");
    let mut e = sample_editor();
    e.buf.lock_on = true;
    e.buf.lock = s("(a\\b)");
    assert_eq!(err_of(e), "Invalid lock: unexpected backslash");
}

#[test]
fn a_field_that_ends_past_the_last_bit_does_not_fit() {
    let mut e = sample_editor();
    assert!(e.fits());
    e.buf.lsb = s("250");
    e.buf.width = s("6");
    assert!(e.fits());
    let vals = field_vals(e.build_action());
    assert!(matches!(vals.pos, BitPos::MsbLsb(Dim::Value(255), Dim::Value(250))));
    e.buf.width = s("7");
    assert!(!e.fits());
}

#[test]
fn changed_buffers_are_read() {
    let mut e = sample_editor();
    e.buf.name = s(" level ");
    e.buf.lsb = s("8");
    e.buf.width = s("4");
    e.buf.array = s("3");
    e.buf.reset = s("0xff");
    e.buf.nb_frac = s("-2");
    e.buf.hw_acc = HwAcc::NA;
    e.buf.visibility = VisMode::Hidden;
    assert!(!e.is_unchanged());
    let vals = field_vals(e.build_action());
    assert!(e.parse_err.is_none());
    assert_eq!(vals.name, "level");
    assert!(matches!(vals.pos, BitPos::MsbLsb(Dim::Value(11), Dim::Value(8))));
    assert!(matches!(vals.array, Dim::Value(3)));
    assert!(matches!(vals.reset, Some(Reset::Unsigned(255))));
    assert_eq!(vals.nb_frac, -2);
    assert_eq!(vals.hw_acc, HwAcc::NA);
    assert_eq!(vals.visibility, Some(RawVis::Hidden));
    assert!(vals.changed == vec![FieldProp::HwAcc, FieldProp::NbFrac, FieldProp::Visibility]);
}

#[test]
fn a_label_as_reset_survives_other_edits() {
    let (mut def, inst) = sample();
    def.reset = vec![Reset::Label(s("IDLE"))];
    let mut e = editor_of(&def, &inst);
    e.buf.name = s("mode");
    assert!(field_vals(e.build_action()).reset.is_none());
    e.buf.signed = true;
    assert!(matches!(field_vals(e.build_action()).reset, Some(Reset::Signed(18))));
}

#[test]
fn a_limit_is_read() {
    let mut e = sample_editor();
    e.buf.limit_kind = LimitKind::Range;
    e.buf.limit_min = s("2");
    e.buf.limit_max = s("40");
    e.buf.limit_bypass = s("test_mode");
    let vals = field_vals(e.build_action());
    assert!(matches!(vals.limit.value, LimitValue::MinMax(Reset::Unsigned(2), Reset::Unsigned(40))));
    assert_eq!(vals.limit.bypass, "test_mode");
    assert!(vals.changed == vec![FieldProp::Limit]);

    e.buf.limit_min = String::new();
    let vals = field_vals(e.build_action());
    assert!(matches!(vals.limit.value, LimitValue::Max(Reset::Unsigned(40))));

    e.buf.limit_kind = LimitKind::List;
    e.buf.limit_list = s("1, 0x20 ,3");
    let vals = field_vals(e.build_action());
    match vals.limit.value {
        LimitValue::List(vs) => {
            assert!(matches!(vs[..], [Reset::Unsigned(1), Reset::Unsigned(0x20), Reset::Unsigned(3)]));
        }
        other => panic!("unexpected limit {other:?}"),
    }

    e.buf.limit_kind = LimitKind::Enum;
    assert!(matches!(field_vals(e.build_action()).limit.value, LimitValue::Enum));
    e.buf.limit_kind = LimitKind::External;
    assert!(matches!(field_vals(e.build_action()).limit.value, LimitValue::External));

    e.buf.limit_kind = LimitKind::Range;
    e.buf.limit_max = s("?");
    assert!(e.build_action().is_none());
    assert!(e.parse_err.as_deref().is_some_and(|t| t.starts_with("Invalid limit: ")));
}

#[test]
fn real_numbers_stay_in_a_limit_list() {
    for (typed, shown) in [("34.0 ,2", "34,2"), ("0.5 ,$N,ON,-3", "0.5,$N,ON,-3"), ("1.5 ,0.25", "1.5,0.25")] {
        let mut e = sample_editor();
        e.buf.limit_kind = LimitKind::List;
        e.buf.limit_list = s(typed);
        let (mut def, inst) = sample();
        def.limit = field_vals(e.build_action()).limit;
        assert_eq!(show_field_line(&def, FieldProp::Limit), Some(format!("limit {{{shown}}}")));
        let again = editor_of(&def, &inst);
        assert!(again.buf.limit_kind == LimitKind::List);
        assert_eq!(again.buf.limit_list, shown);
    }
}

#[test]
fn a_counter_is_read() {
    let mut e = sample_editor();
    e.buf.counter_on = true;
    assert!(field_vals(e.build_action()).counter.is_none(), "it counts neither way");
    e.buf.counter_up = s("3");
    e.buf.counter_sat = true;
    let up = Counter { kind: CountDir::Up, incr_val: 3, decr_val: 0, sat: true, clr: false, event: false };
    assert_eq!(field_vals(e.build_action()).counter, Some(up));
    e.buf.counter_down = s("1");
    e.buf.counter_sat = false;
    e.buf.counter_event = true;
    e.buf.counter_clr = true;
    let both = Counter { kind: CountDir::UpDown, incr_val: 3, decr_val: 1, sat: false, clr: true, event: true };
    assert_eq!(field_vals(e.build_action()).counter, Some(both));
    e.buf.counter_up = String::new();
    e.buf.counter_down = s("0");
    let down = field_vals(e.build_action()).counter.expect("a step of zero still counts");
    assert_eq!((down.kind, down.decr_val), (CountDir::Down, 0));
}

#[test]
fn counter_settings_load_back() {
    let (mut def, inst) = sample();
    def.hw_kind = vec![HwKind::Counter(Counter {
        kind: CountDir::Down,
        incr_val: 0,
        decr_val: 2,
        sat: false,
        clr: true,
        event: false,
    })];
    let mut e = editor_of(&def, &inst);
    assert!(e.buf.counter_on && e.buf.counter_clr && !e.buf.counter_sat);
    assert_eq!((e.buf.counter_up.as_str(), e.buf.counter_down.as_str()), ("", "2"));
    let vals = field_vals(e.build_action());
    assert!(!vals.changed.contains(&FieldProp::Counter));
    assert!(vals.counter.is_some_and(|c| c.decr_val == 2 && c.kind == CountDir::Down));
}

#[test]
fn a_password_is_read() {
    let mut e = sample_editor();
    e.buf.password_on = true;
    let plain = field_vals(e.build_action()).password.expect("a password without settings");
    assert!(plain.once.is_none() && plain.hold.is_none() && !plain.protect);
    e.buf.password_once = s("0xcafe");
    e.buf.password_hold = s("7");
    e.buf.password_protect = true;
    let full = field_vals(e.build_action()).password.expect("a password");
    assert!(matches!(full.once, Some(Reset::Unsigned(0xcafe))));
    assert!(matches!(full.hold, Some(Reset::Unsigned(7))));
    assert!(full.protect);
    e.buf.password_hold = s("=");
    assert!(e.build_action().is_none());
    assert!(e.parse_err.as_deref().is_some_and(|t| t.starts_with("Invalid password: ")));
}

#[test]
fn a_lock_is_read() {
    let mut e = sample_editor();
    e.buf.lock_on = true;
    e.buf.lock = s("  .locked ");
    match field_vals(e.build_action()).lock {
        WriteLock::Expr(t) => assert_eq!(t, ".locked"),
        other => panic!("unexpected lock {other:?}"),
    }
    e.buf.lock = s("3 +");
    assert!(e.build_action().is_none());
    assert!(e.parse_err.as_deref().is_some_and(|t| t.starts_with("Invalid lock: ")));
    e.buf.lock = String::new();
    assert!(matches!(field_vals(e.build_action()).lock, WriteLock::Open));
}

#[test]
fn what_was_read_decides() {
    let none = || FieldReadings { lock: None, limit: None, counter: None, password: None };
    let mut e = sample_editor();
    assert!(e.build_with(FieldReadings { lock: Some(Ok(None)), ..none() }).is_none());
    assert_eq!(e.parse_err.as_deref(), Some("Lock expression too complex to persist yet"));
    assert!(e.build_with(FieldReadings { lock: Some(Err(s("bad"))), ..none() }).is_none());
    assert_eq!(e.parse_err.as_deref(), Some("Invalid lock: bad"));
    assert!(e.build_with(FieldReadings { limit: Some(Err(s("bad"))), ..none() }).is_none());
    assert_eq!(e.parse_err.as_deref(), Some("Invalid limit: bad"));
    assert!(e.build_with(FieldReadings { counter: Some(Err(s("bad"))), ..none() }).is_none());
    assert_eq!(e.parse_err.as_deref(), Some("Invalid counter: bad"));
    assert!(e.build_with(FieldReadings { password: Some(Err(s("bad"))), ..none() }).is_none());
    assert_eq!(e.parse_err.as_deref(), Some("Invalid password: bad"));
    let limit = Limit { value: LimitValue::Enum, bypass: String::new() };
    let vals = field_vals(e.build_with(FieldReadings { limit: Some(Ok(limit)), ..none() }));
    assert!(matches!(vals.limit.value, LimitValue::Enum));
    assert!(e.parse_err.is_none());
}

#[test]
fn enum_choices_name_their_type() {
    let mut e = sample_editor();
    e.buf.enum_mode = EnumMode::Type;
    assert_eq!(e.enum_candidate(), Some(s("e_grp_gain")));
    match field_vals(e.build_action()).enum_kind {
        EnumRef::Type(n) => assert_eq!(n, "e_grp_gain"),
        other => panic!("unexpected enum {other:?}"),
    }
    e.buf.enum_name = s("e_mode");
    assert_eq!(e.enum_candidate(), Some(s("e_mode")));
    let table = e.open_enum(&Vec::new()).expect("a table");
    assert_eq!((table.name.as_str(), table.width, table.has_frac), ("e_mode", 8, false));
    assert_eq!(table.rows.len(), 1);
    e.buf.enum_mode = EnumMode::Plain;
    assert!(e.open_enum(&Vec::new()).is_none());
}

#[test]
fn interrupt_overrides_need_an_interrupt_register() {
    let (def, inst) = sample();
    let reg = IntrOvr { trigger: Some(Trigger::Edge), clear: Some(IntrClear::Hw) };
    let mut e = FieldEditor::from_field((s("ctrl"), s("gain")), &inst, &def, &Vec::new(), "top", "grp", Some(reg));
    assert!(e.is_unchanged());
    assert!(e.buf.intr_trigger_ovr == Trigger::Edge && e.buf.intr_clear_ovr == IntrClear::Hw);
    e.buf.intr_trigger_ovr_on = true;
    e.buf.intr_trigger_ovr = Trigger::Low;
    let vals = field_vals(e.build_action());
    let ovr = vals.intr_ovr.expect("an override");
    assert!(ovr.trigger == Some(Trigger::Low) && ovr.clear.is_none());
    assert!(vals.changed == vec![FieldProp::Interrupt]);
    assert!(field_vals(sample_editor().build_action()).intr_ovr.is_none());
}

#[test]
fn deleting_from_the_editor_names_the_field() {
    match sample_editor().delete_action() {
        EditAction::DeleteField { rif_type, reg_type, field_name } => {
            assert_eq!((rif_type.as_str(), reg_type.as_str(), field_name.as_str()), ("top", "ctrl", "gain"));
        }
        other => panic!("unexpected edit {other:?}"),
    }
}

#[test]
fn resets_are_read_in_both_radixes() {
    assert!(matches!(parse_reset(" 0x1F ", false), Ok(Reset::Unsigned(31))));
    assert!(matches!(parse_reset("-5", true), Ok(Reset::Signed(-5))));
    assert!(matches!(parse_reset("340282366920938463463374607431768211455", false), Ok(Reset::Unsigned(u128::MAX))));
    assert!(parse_reset("340282366920938463463374607431768211456", false).is_err());
    assert_eq!(parse_reset("-5", false).err().as_deref(), Some("Invalid unsigned reset '-5'"));
}

#[test]
fn labels_of_the_choices() {
    assert_eq!(VisMode::Disabled.label(), "Disabled (expr)");
    assert_eq!(VisMode::from_raw(&RawVis::Reserved).label(), "Reserved");
    assert_eq!(EnumMode::Plain.label(), "None");
    assert_eq!(EnumMode::from_kind(&EnumRef::Doc(s("d"))).label(), "Doc");
    assert_eq!(LimitKind::Any.label(), "None");
    assert_eq!(LimitKind::External.label(), "External");
}

fn compiled(width: u16, reset: ResetInt) -> FieldInst {
    let (_, mut inst) = sample();
    inst.width = FieldSpan::Fixed(width);
    inst.reset = reset;
    inst
}

#[test]
fn compiled_resets_are_shown() {
    assert_eq!(get_field_rst_str(&compiled(8, ResetInt::Unsigned(200))), "200");
    assert_eq!(get_field_rst_str(&compiled(12, ResetInt::Unsigned(4095))), "4095");
    assert_eq!(get_field_rst_str(&compiled(13, ResetInt::Unsigned(255))), "0x0FF");
    assert_eq!(get_field_rst_str(&compiled(16, ResetInt::Unsigned(0xbeef))), "0xBEEF");
    assert_eq!(get_field_rst_str(&compiled(8, ResetInt::Signed(-1))), "255");
    assert_eq!(reset_value(ResetInt::Signed(-2), 4), 14);
    assert_eq!(reset_value(ResetInt::Unsigned(7), 4), 7);
}

#[test]
fn swapped_fields_keep_their_region() {
    let mut low = compiled(4, ResetInt::Unsigned(0));
    low.lsb = 2;
    let mut high = compiled(8, ResetInt::Unsigned(0));
    high.lsb = 10;
    let (new_low, new_high) = swap_positions(&low, &high);
    assert!(matches!(new_high, BitPos::MsbLsb(Dim::Value(9), Dim::Value(2))));
    assert!(matches!(new_low, BitPos::MsbLsb(Dim::Value(17), Dim::Value(14))));
}

fn row(name: &str, value: &str) -> EnumEntryRow {
    EnumEntryRow { src_line: None, name: s(name), value: s(value), repr: String::new(), desc: String::new() }
}

fn table(rows: Vec<EnumEntryRow>) -> EnumEditor {
    let mut e = EnumEditor::open("top", s("e_mode"), &Vec::new(), false, 3);
    e.rows = rows;
    e
}

fn table_err(e: &EnumEditor) -> String {
    let reprs: Vec<Option<String>> = e.rows.iter().map(|_| None).collect();
    e.build_values(&reprs).err().expect("the table is refused")
}

#[test]
fn enum_tables_are_checked() {
    assert_eq!(table_err(&table(vec![row(" ", "0")])), "Entry name cannot be empty");
    assert_eq!(table_err(&table(vec![row("A", "x")])), "A: Invalid value 'x'");
    assert_eq!(table_err(&table(vec![row("A", "8")])), "A: value 8 does not fit the field width (3 bits)");
    assert_eq!(table_err(&table(vec![row("A", "0"), row("A", "1")])), "Duplicate entry name 'A'");
    assert_eq!(table_err(&table(vec![row("A", "1"), row("B", "0x1")])), "Duplicate value 1 ('A' and 'B')");
    let mut e = table(vec![row("A", "1")]);
    e.has_frac = true;
    e.rows[0].repr = s("half");
    assert_eq!(table_err(&e), "A: invalid representation 'half'");
    let values = e.build_values(&vec![Some(s("0.5"))]).unwrap();
    assert_eq!(values[0].repr.as_deref(), Some("0.5"));
    assert_eq!(parse_u8(" 0xFF "), Ok(255));
    assert_eq!(parse_u8("256"), Err(s("Invalid value '256'")));
}

#[test]
fn enum_tables_are_saved_under_a_free_name() {
    let defs = vec![EnumType { name: s("e_used"), values: Vec::new(), decl_line: Some(3) }];
    let mut e = table(vec![row("A", "1"), row("B", "2")]);
    e.name = String::new();
    assert!(e.save(&defs, &vec![None, None]).is_none());
    assert_eq!(e.parse_err.as_deref(), Some("Enum name cannot be empty"));
    e.name = s("e_used");
    assert!(e.save(&defs, &vec![None, None]).is_none());
    assert_eq!(e.parse_err.as_deref(), Some("An enum named 'e_used' already exists"));
    e.name = s(" e_free ");
    match e.save(&defs, &vec![None, None]) {
        Some(EditAction::UpdateEnum { rif_type, name, values }) => {
            assert_eq!((rif_type.as_str(), name.as_str()), ("top", "e_free"));
            assert_eq!(values.iter().map(|v| v.value).collect::<Vec<u8>>(), vec![1, 2]);
        }
        other => panic!("unexpected edit {other:?}"),
    }
    assert!(e.parse_err.is_none());
}

#[test]
fn enums_of_wide_fields_are_accepted() {
    for width in [8, 16, 32, 200, 255] {
        let mut e = EnumEditor::open("r", s("e"), &Vec::new(), false, width);
        e.rows = vec![row("A", "5"), row("B", "255")];
        let values = e.build_values(&vec![None, None]).unwrap();
        assert_eq!((values[0].value, values[1].value), (5, 255));
    }
    for width in 0..8 {
        let mut e = EnumEditor::open("r", s("e"), &Vec::new(), false, width);
        e.rows = vec![row("A", "128")];
        assert_eq!(table_err(&e), format!("A: value 128 does not fit the field width ({width} bits)"));
    }
}

#[test]
fn an_enum_row_reads_back() {
    let item = EnumItem { name: s("RUN"), value: 5, repr: None, description: desc("Running"), decl_line: Some(7) };
    let defs = vec![EnumType { name: s("e_mode"), values: vec![item], decl_line: Some(6) }];
    let e = EnumEditor::open("top", s("e_mode"), &defs, false, 3);
    assert_eq!((e.rows[0].name.as_str(), e.rows[0].value.as_str()), ("RUN", "5"));
    let values = e.build_values(&vec![None]).unwrap();
    assert_eq!((values[0].name.as_str(), values[0].value), ("RUN", 5));
    assert_eq!(values[0].description.public, "Running");
    assert_eq!(values[0].decl_line, Some(7));
}

#[test]
fn enum_rows_come_and_go() {
    let mut e = table(vec![row("A", "4")]);
    e.add_row();
    assert_eq!(e.rows[1].value, "5");
    e.remove_row(0);
    assert_eq!(e.rows.len(), 1);
    assert_eq!(e.rows[0].value, "5");
    assert!(!e.name_locked());
    assert!(EnumEditor::open("top", s("doc:r_f"), &Vec::new(), false, 3).name_locked());
}

fn register() -> RegisterDef {
    let (f, _) = sample();
    RegisterDef {
        name: s("ctrl"),
        group_name: s("ctrl"),
        group_pkg: None,
        description: desc("Control"),
        pulse: vec![Pulse::Write(s("clk"))],
        fields: vec![f],
        interrupt: Vec::new(),
        visibility: Vis::Full,
        clk: None,
        rst: None,
        lock: WriteLock::Open,
        array: Dim::Value(0),
        external: External::Internal,
        src: RegSrc {
            decl_line: Some(5),
            has_inline_desc: true,
            prop_lines: [None; 10],
            desc_blocks: DescBlocks { public: None, intr_enable: None, intr_mask: None, intr_pending: None },
        },
    }
}

fn intr_register() -> RegisterDef {
    let mut d = register();
    d.interrupt.push(IntrInfo {
        name: String::new(),
        trigger: Trigger::Rising,
        clear: IntrClear::Write1,
        enable: Some(Reset::Unsigned(3)),
        mask: None,
        pending: true,
        description: IntrDesc { enable: desc("on"), mask: desc(""), pending: desc("waits") },
    });
    d
}

fn reg_editor(d: &RegisterDef) -> RegEditor {
    RegEditor::from_regdef(s("ctrl_a"), s("ctrl"), d, 0x10, true, "top", "clk", BusWidth::W32(32), None, true)
}

fn reg_vals(a: Option<EditAction>) -> RegDefVals {
    match a {
        Some(EditAction::UpdateRegDef { rif_type, orig_name, inst_name, vals }) => {
            assert_eq!((rif_type.as_str(), orig_name.as_str(), inst_name.as_str()), ("top", "ctrl", "ctrl_a"));
            vals
        }
        other => panic!("unexpected edit {other:?}"),
    }
}

fn reg_err(mut e: RegEditor) -> String {
    assert!(e.build_action().is_none());
    e.parse_err.expect("an error is shown")
}

#[test]
fn loading_a_register_changes_nothing() {
    let mut e = reg_editor(&register());
    assert!(e.is_unchanged());
    assert_eq!(e.buf.addr, "0x10");
    assert!(e.buf.pulse.wr_on && e.buf.pulse.wr_reg && !e.buf.pulse.rd_on);
    let vals = reg_vals(e.build_action());
    assert_eq!(vals.name, "ctrl");
    assert!(vals.group.is_none() && vals.addr.is_none() && vals.array.is_none());
    assert!(vals.intr.is_none() && vals.alt.is_none());
    assert!(matches!(&vals.pulse[..], [Pulse::Write(c)] if c == "clk"));
}

#[test]
fn register_editor_names_what_is_wrong() {
    let mut e = reg_editor(&register());
    e.buf.name = String::new();
    assert_eq!(reg_err(e), "Name is empty");
    let mut e = reg_editor(&register());
    e.buf.group = s(" ");
    assert_eq!(reg_err(e), "Group is empty");
    let mut e = reg_editor(&register());
    e.buf.addr = s("zz");
    assert_eq!(reg_err(e), "Invalid address 'zz'");
    let mut e = reg_editor(&register());
    e.buf.addr = s("0x12");
    assert_eq!(reg_err(e), "Address must be aligned to 4 bytes (the RIF's data width)");
    let mut e = reg_editor(&register());
    e.buf.array = s("many");
    assert_eq!(reg_err(e), "Invalid array size");
    let mut e = reg_editor(&intr_register());
    e.buf.intr.enable_rst = s("q");
    assert_eq!(reg_err(e), "Enable reset: Invalid unsigned reset 'q'");
    let mut e = reg_editor(&intr_register());
    e.buf.intr.mask_on = true;
    e.buf.intr.mask_rst = String::new();
    assert_eq!(reg_err(e), "Mask reset: Reset value is empty");
    let mut e = reg_editor(&intr_register());
    e.buf.alt_name = s("aux");
    e.buf.alt.enable_on = true;
    e.buf.alt.enable_rst = s("q");
    assert_eq!(reg_err(e), "Alt enable reset: Invalid unsigned reset 'q'");
    let mut e = reg_editor(&intr_register());
    e.buf.alt_name = s("aux");
    e.buf.alt.mask_on = true;
    e.buf.alt.mask_rst = s("q");
    assert_eq!(reg_err(e), "Alt mask reset: Invalid unsigned reset 'q'");
}

#[test]
fn register_buffers_are_read() {
    let mut e = reg_editor(&register());
    e.buf.name = s(" regs ");
    e.buf.group = s("shared");
    e.buf.addr = s("20");
    e.buf.array = s("4");
    e.buf.clk = s("fast");
    e.buf.pulse.rd_on = true;
    e.buf.pulse.rd_reg = false;
    let vals = reg_vals(e.build_action());
    assert_eq!(vals.name, "regs");
    assert_eq!(vals.group.as_deref(), Some("shared"));
    assert_eq!(vals.addr, Some(0x20), "addresses are in hexadecimal");
    assert_eq!(vals.array, Some(4));
    assert_eq!(vals.clk.as_deref(), Some("fast"));
    assert!(matches!(&vals.pulse[1], Pulse::Read(c) if c.is_empty()));
    assert_eq!(parse_addr("0xFF"), Ok(255));
    assert_eq!(nb_byte(BusWidth::W128(128)), 16);
    assert_eq!(nb_byte(BusWidth::W8(8)), 1);
}

#[test]
fn register_buffers_go_back() {
    let mut e = reg_editor(&register());
    e.buf.name = s("regs");
    e.buf.addr = s("0x20");
    e.buf.array = s("4");
    let e = e.reset_addr();
    assert_eq!(e.buf.addr, "0x10");
    assert_eq!((e.buf.name.as_str(), e.buf.array.as_str()), ("regs", "4"));
    let e = e.reset_array();
    assert_eq!((e.buf.name.as_str(), e.buf.array.as_str()), ("regs", ""));
}

#[test]
fn interrupts_are_left_alone_removed_or_set() {
    let mut e = reg_editor(&intr_register());
    let kept = reg_vals(e.build_action());
    assert!(matches!(kept.intr, Some(Some(ref i)) if matches!(i.enable, Some(Reset::Unsigned(3))) && i.pending));
    assert!(matches!(kept.alt, Some(None)));
    e.buf.has_intr = false;
    let gone = reg_vals(e.build_action());
    assert!(matches!(gone.intr, Some(None)) && gone.alt.is_none());
}

fn instance(name: &str, reg: &str, at: u64) -> Instance {
    Instance {
        inst_name: s(name),
        reg_type: s(reg),
        group_name: String::new(),
        addr: Addr { kind: AddrKind::Absolute, offset: Offset::Value(at) },
        array: Expr { text: String::new(), rif: String::new() },
        reg_override: None,
        ovr_src: OvrSrc { prop_lines: [None; 4], desc_block: None, fields: Vec::new() },
        decl_line: None,
    }
}

#[test]
fn new_registers_get_a_free_name() {
    let mut page = Page {
        name: s("Main"),
        registers: vec![RegItem::Def(register())],
        instances: vec![instance("new_reg", "ctrl", 0)],
        inst_auto: InstMode::Manual,
        instances_line: None,
    };
    assert!(reg_name_taken(&page, &s("ctrl")));
    assert!(!reg_name_taken(&page, &s("status")));
    assert_eq!(unique_reg_name(&page), "new_reg_1");
    page.instances.push(instance("new_reg_1", "ctrl", 4));
    let e = RegAddEditor::open(s("top"), s("Main"), &page, 8);
    assert_eq!(e.name, "new_reg_2");
    assert_eq!(e.page_types, vec![s("ctrl")]);
    assert!(!e.page_is_auto && matches!(e.kind, AddRegKind::New));
}

#[test]
fn deletions_are_confirmed() {
    let whole = PendingDeleteReg { rif_type: s("top"), page_name: s("Main"), reg_type: s("ctrl"), inst_name: None };
    assert_eq!(whole.question(), "Delete register 'ctrl'? Its definition (and all its fields) will be removed.");
    let last = PendingDeleteReg {
        rif_type: s("top"),
        page_name: s("Main"),
        reg_type: s("ctrl"),
        inst_name: Some(s("ctrl_a")),
    };
    assert_eq!(
        last.question(),
        "Delete instance 'ctrl_a'? It's the last instance of register type 'ctrl', so its definition \
         (and all its fields) will be removed too."
    );
    match last.confirm() {
        EditAction::DeleteRegister { reg_type, inst_name, .. } => {
            assert_eq!((reg_type.as_str(), inst_name.as_deref()), ("ctrl", Some("ctrl_a")));
        }
        other => panic!("unexpected edit {other:?}"),
    }
}

fn conflict() -> PendingRegAddrConflict {
    PendingRegAddrConflict {
        rif_type: s("top"),
        orig_name: s("ctrl"),
        inst_name: s("ctrl_a"),
        new_addr: 0x1c,
        target_name: s("ctrl_b"),
        vals: reg_vals(reg_editor(&register()).build_action()),
        swap: Some(vec![Companion { name: s("ctrl_b"), addr: 0x10 }]),
        shift: None,
        insert: None,
    }
}

#[test]
fn address_conflicts_are_resolved_as_offered() {
    assert_eq!(
        conflict().question(),
        "Moving 'ctrl_a' to 0x1c collides with 'ctrl_b'. How should this be resolved?"
    );
    assert!(conflict().resolve(RegAddrResolution::Shift).is_none());
    assert!(conflict().resolve(RegAddrResolution::Insert).is_none());
    match conflict().resolve(RegAddrResolution::Swap) {
        Some(EditAction::UpdateRegDefWithMoves { inst_name, companions, .. }) => {
            assert_eq!(inst_name, "ctrl_a");
            assert_eq!((companions[0].name.as_str(), companions[0].addr), ("ctrl_b", 0x10));
        }
        other => panic!("unexpected edit {other:?}"),
    }
}

fn array_change(kind: RegArrayChangeKind, companions: Option<Vec<Companion>>) -> PendingRegArrayChange {
    PendingRegArrayChange {
        rif_type: s("top"),
        orig_name: s("ctrl"),
        inst_name: s("ctrl_a"),
        kind,
        fields_to_convert: vec![s("a"), s("b")],
        companions,
    }
}

#[test]
fn array_changes_are_confirmed() {
    let moved = || Some(vec![Companion { name: s("x"), addr: 4 }, Companion { name: s("y"), addr: 8 }]);
    let vals = || reg_vals(reg_editor(&register()).build_action());
    let c = array_change(RegArrayChangeKind::Definition(vals()), moved());
    assert!(c.conversion_text().is_some_and(|t| t.starts_with(
        "These fields aren't arrays yet and will be converted to [1]: a, b. Once converted"
    )));
    assert_eq!(
        c.shift_text().as_deref(),
        Some("These following registers will shift forward to make room: x, y.")
    );
    assert!(matches!(c.confirm(), EditAction::UpdateRegDefWithMoves { companions, .. } if companions.len() == 2));
    let c = array_change(RegArrayChangeKind::Definition(vals()), None);
    assert!(c.shift_text().is_none());
    assert!(matches!(c.confirm(), EditAction::UpdateRegDef { .. }));
    let c = array_change(RegArrayChangeKind::Instance(None), None);
    assert!(matches!(c.confirm(), EditAction::UpdateRegInstArray { array: None, companions, .. } if companions.is_empty()));
}

#[test]
fn instance_overrides_are_read() {
    let mut e = RegOverrideEditor::from_reg_inst("top", "ctrl_a", None);
    assert!(e.is_unchanged());
    e.desc = s("mine");
    e.hw_on = true;
    e.hw = HwAcc::RO;
    e.optional = s(" ($N > 2)*3 ");
    match e.build_action() {
        Some(EditAction::UpdateRegOverride { inst_name, vals, .. }) => {
            assert_eq!((inst_name.as_str(), vals.desc.as_str()), ("ctrl_a", "mine"));
            assert_eq!((vals.hw, vals.optional_acc), (Some(HwAcc::RO), None));
            let x = vals.optional.expect("a condition");
            assert_eq!((x.text.as_str(), x.rif.as_str()), ("($N > 2)*3", "($N > 2) * 3"));
        }
        other => panic!("unexpected edit {other:?}"),
    }
    e.optional = s("$");
    assert!(e.build_action().is_none());
    assert!(e.parse_err.as_deref().is_some_and(|t| t.starts_with("Invalid optional condition: ")));
    assert!(e.build_with(Some(Err(s("bad")))).is_none());
    assert_eq!(e.parse_err.as_deref(), Some("Invalid optional condition: bad"));
    let ovr = RegOvr {
        addr: None,
        description: Some(desc("theirs")),
        optional: Expr { text: s("1"), rif: s("1") },
        optional_acc: Some(HwAcc::WO),
        visibility: None,
        hw_acc: None,
        fields: Vec::new(),
    };
    let e = RegOverrideEditor::from_reg_inst("top", "ctrl_a", Some(&ovr));
    assert_eq!((e.desc.as_str(), e.optional.as_str(), e.hw_on), ("theirs", "1", false));
    assert!(e.optional_acc_on && e.optional_acc == HwAcc::WO);
    assert!(e.is_unchanged());
}

#[test]
fn field_overrides_are_read() {
    let mut e = FieldOverrideEditor::from_field_override("top", "ctrl_a", "gain", None, Reset::Unsigned(0));
    assert!(e.is_unchanged());
    e.disable_on = true;
    e.reset_val = s("0x5");
    match e.build_action() {
        Some(EditAction::UpdateFieldOverride { inst_name, field_name, vals, .. }) => {
            assert_eq!((inst_name.as_str(), field_name.as_str()), ("ctrl_a", "gain"));
            assert!(vals.disabled && matches!(vals.reset, Some(Reset::Unsigned(5))));
        }
        other => panic!("unexpected edit {other:?}"),
    }
    e.reset_val = s("five");
    assert!(e.build_action().is_none());
    assert!(e.parse_err.is_some());
    let ovr = FieldOvr {
        field: s("gain"),
        description: Some(desc("text")),
        optional: Expr { text: String::new(), rif: String::new() },
        visibility: None,
        reset: ResetOvr::Reset(Reset::Unsigned(9)),
        has_more: false,
    };
    let e = FieldOverrideEditor::from_field_override("top", "ctrl_a", "gain", Some(&ovr), Reset::Unsigned(0));
    assert_eq!((e.desc.as_str(), e.reset_val.as_str(), e.disable_on), ("text", "9", false));
}

#[test]
fn derived_descriptions_are_edited() {
    let d = intr_register();
    let mut e = RegIntrDescEditor::from_regdef(s("top"), s("ctrl"), &d, IntrKind::Pending);
    assert_eq!(e.desc, "waits");
    assert!(e.is_unchanged());
    e.desc = s("is set");
    assert!(!e.is_unchanged());
    match e.build_action() {
        EditAction::UpdateRegIntrDesc { reg_type, kind, desc, .. } => {
            assert_eq!((reg_type.as_str(), kind, desc.as_str()), ("ctrl", IntrKind::Pending, "is set"));
        }
        other => panic!("unexpected edit {other:?}"),
    }
    let mut e = FieldIntrDescEditor::from_field(s("top"), s("ctrl"), s("gain"), &d.fields[0], IntrKind::Mask);
    assert_eq!(e.desc, "");
    e.desc = s("hides");
    match e.build_action() {
        EditAction::UpdateFieldIntrDesc { field_name, kind, desc, .. } => {
            assert_eq!((field_name.as_str(), kind, desc.as_str()), ("gain", IntrKind::Mask, "hides"));
        }
        other => panic!("unexpected edit {other:?}"),
    }
}

fn viewer_with(ed: RegEditor) -> RifViewer {
    let mut v = RifViewer::new();
    v.editors.reg_editor = Some(ed);
    v
}

#[test]
fn answers_lead_to_edits() {
    let mut v = RifViewer::new();
    v.dialogs.confirm_delete_reg =
        Some(PendingDeleteReg { rif_type: s("top"), page_name: s("Main"), reg_type: s("ctrl"), inst_name: None });
    v.answer_delete(false);
    assert!(v.pending.is_none() && v.dialogs.confirm_delete_reg.is_none());
    v.dialogs.confirm_delete_reg =
        Some(PendingDeleteReg { rif_type: s("top"), page_name: s("Main"), reg_type: s("ctrl"), inst_name: None });
    v.answer_delete(true);
    assert!(matches!(v.pending, Some(EditAction::DeleteRegister { .. })));

    let mut ed = reg_editor(&register());
    ed.buf.addr = s("0x1c");
    let mut v = viewer_with(ed);
    v.dialogs.confirm_reg_addr_conflict = Some(conflict());
    v.answer_conflict(None);
    assert!(v.pending.is_none() && v.dialogs.confirm_reg_addr_conflict.is_none());
    assert_eq!(v.editors.reg_editor.as_ref().unwrap().buf.addr, "0x10");
    v.dialogs.confirm_reg_addr_conflict = Some(conflict());
    v.answer_conflict(Some(RegAddrResolution::Swap));
    assert!(matches!(v.pending, Some(EditAction::UpdateRegDefWithMoves { .. })));

    let mut ed = reg_editor(&register());
    ed.buf.array = s("3");
    let mut v = viewer_with(ed);
    v.dialogs.confirm_reg_array_change = Some(array_change(RegArrayChangeKind::Instance(None), None));
    v.answer_array(false);
    assert!(v.pending.is_none());
    assert_eq!(v.editors.reg_editor.as_ref().unwrap().buf.array, "");
    v.dialogs.confirm_reg_array_change = Some(array_change(RegArrayChangeKind::Instance(None), None));
    v.answer_array(true);
    assert!(matches!(v.pending, Some(EditAction::UpdateRegInstArray { .. })));
}

#[test]
fn leaving_a_field_keeps_its_edit() {
    let (def, inst) = sample();
    let mut editors = Editors::new();
    let key = |n: &str| (s("ctrl"), s(n));
    assert!(editors.show_field(key("gain"), &inst, &def, &Vec::new(), "top", "ctrl", None).is_none());
    let ed = editors.field_editor.as_mut().unwrap();
    assert!(!ed.is_array());
    ed.buf.array = s("2");
    assert!(ed.is_array());
    assert!(editors.show_field(key("gain"), &inst, &def, &Vec::new(), "top", "ctrl", None).is_none());
    assert_eq!(editors.field_editor.as_ref().unwrap().buf.array, "2", "the same field is not loaded again");
    let left = editors.show_field(key("other"), &inst, &def, &Vec::new(), "top", "ctrl", None);
    assert!(matches!(left, Some(EditAction::UpdateField { orig_name, .. }) if orig_name == "gain"));

    let mut v = RifViewer::new();
    assert!(v.editors.show_field_override("top", &s("ctrl_a"), &inst, None).is_none());
    assert!(!v.flush_field_override_editor());
    v.editors.field_override_editor.as_mut().unwrap().disable_on = true;
    assert_eq!(v.pending_edit_owner().as_deref(), Some("top"));
    assert!(v.flush_field_override_editor());
    assert!(matches!(v.pending, Some(EditAction::UpdateFieldOverride { .. })));
}
