//! The viewer as a whole, and the parts that it is made of.
use std::collections::HashSet;
use yargui::action::EditAction;
use yargui::compiled::{FieldInst, FieldSpan, ResetInt};
use yargui::edits::{LineEdit, PendingEdits, Record};
use yargui::field_editor::FieldEditor;
use yargui::file_io::save_rif_text;
use yargui::labels::{intr_clear_label, intr_kind_label, intr_trigger_label, sw_kind_choices, sw_kind_label};
use yargui::lines::{join_text, split_text};
use yargui::model::page::{Instance, OvrSrc, Page};
use yargui::model::props::FieldProp;
use yargui::model::register::{DescBlocks, FieldDef, RegItem, RegSrc, RegisterDef};
use yargui::model::rif::{
    Clocking, EnumItem, EnumType, Mux, MuxItem, PathEntry, Range, ResetLine, RifDef, RifEntry, RifSrc, Source, Top,
};
use yargui::model::values::{
    Addr, AddrKind, BitPos, Bus, BusWidth, Counter, CountDir, Desc, Dim, EnumRef, Expr, External, HwAcc, HwKind,
    InstMode, IntrClear, IntrKind, IntrOvr, Limit, LimitValue, Offset, Password, RawVis, Reset, SwKind, Trigger,
    Vis, WriteLock,
};
use yargui::number::{
    read_address, read_byte, read_isize, read_prefixed_signed, read_prefixed_unsigned, read_signed, read_unsigned,
    show_hex, show_signed, show_unsigned, show_upper_hex,
};
use yargui::plan::{field_block_last_idx, leading_ws, rebuild, Op};
use yargui::printed::{show_field_line, show_reg_line};
use yargui::model::props::RegProp;
use yargui::rename::{remove_rif, rename_rif};
use yargui::session::{Opened, Reread, SwitchAnswer};
use yargui::source::find_rif;
use yargui::stage_field::{fresh_field, unique_field_name};
use yargui::syntax::{
    show_addr, show_enum_line, show_generic_line, show_inst_decl, show_param_line, show_reset, show_reset_line,
};
use yargui::text::{is_blank, trim};
use yargui::viewer::{field_base, EditTarget, RifViewer, SelectedItem};
use yargui::views::{
    addr_editable, default_clk, group_choices, next_result, pick_panel, previous_result, reset_label,
    show_target_choice, wants_search, Panel, Shown,
};

fn s(t: &str) -> String {
    t.to_owned()
}

fn desc(t: &str) -> Desc {
    Desc { public: s(t), private: String::new() }
}

fn expr(t: &str) -> Expr {
    Expr { text: s(t), rif: s(t) }
}

const TEXT: &str = "rif: top\n  - Main : \"Main page\"\n    registers:\n      - ctrl : \"Control\"\n        - en = 0 0:0 \"Enable\"\n          signed\n        - mode = 3 4:1 \"Mode\"\n    instances: auto\n";

fn field(name: &str, msb: u8, lsb: u8, reset: u128, text: &str, line: usize) -> FieldDef {
    let mut f = fresh_field(s(name));
    f.pos = BitPos::MsbLsb(Dim::Value(msb), Dim::Value(lsb));
    f.reset = vec![Reset::Unsigned(reset)];
    f.description = desc(text);
    f.src.decl_line = Some(line);
    f.src.has_inline_desc = true;
    f
}

fn register(name: &str, fields: Vec<FieldDef>, line: usize) -> RegisterDef {
    RegisterDef {
        name: s(name),
        group_name: s(name),
        group_pkg: None,
        description: desc("Control"),
        pulse: Vec::new(),
        fields,
        interrupt: Vec::new(),
        visibility: Vis::Full,
        clk: None,
        rst: None,
        lock: WriteLock::Open,
        array: Dim::Value(0),
        external: External::Internal,
        src: RegSrc {
            decl_line: Some(line),
            has_inline_desc: true,
            prop_lines: [None; 10],
            desc_blocks: DescBlocks { public: None, intr_enable: None, intr_mask: None, intr_pending: None },
        },
    }
}

/// The RIF that `TEXT` declares.
fn top_rif() -> RifDef {
    let mut en = field("en", 0, 0, 0, "Enable", 5);
    en.signed = true;
    en.src.prop_lines[FieldProp::Signed.rank()] = Some(6);
    let mode = field("mode", 4, 1, 3, "Mode", 7);
    RifDef {
        name: s("top"),
        addr_width: 8,
        data_width: BusWidth::W32(32),
        description: desc(""),
        interface: Bus::Apb,
        suffix_pkg: false,
        sw_clocking: Vec::new(),
        hw_clocking: Vec::new(),
        pages: vec![Page {
            name: s("Main"),
            registers: vec![RegItem::Def(register("ctrl", vec![en, mode], 4))],
            instances: Vec::new(),
            inst_auto: InstMode::Automatic,
            instances_line: Some(8),
        }],
        enum_defs: Vec::new(),
        parameters: Vec::new(),
        generics: Vec::new(),
        src: RifSrc {
            decl_line: Some(1),
            prop_lines: [None; 10],
            desc_block: None,
            params_header_line: None,
            param_lines: Vec::new(),
            generics_header_line: None,
            generic_lines: Vec::new(),
        },
    }
}

fn source() -> Source {
    Source {
        top: Top::Rif(s("top")),
        rifs: vec![RifEntry { key: s("top"), rif: top_rif() }],
        rifmux: Vec::new(),
        paths: Vec::new(),
    }
}

fn viewer() -> RifViewer {
    let mut v = RifViewer::new();
    v.start_open();
    v.finish_open(Opened::Compiled(source(), s("top")));
    v
}

fn delete(name: &str) -> EditAction {
    EditAction::DeleteField { rif_type: s("top"), reg_type: s("ctrl"), field_name: s(name) }
}

fn apply(v: &mut RifViewer, a: EditAction) {
    v.pending = Some(a);
    if let Some(staged) = v.apply_pending() {
        v.finish_pending(staged, Ok(()));
    }
}

fn ctrl(v: &RifViewer) -> RegisterDef {
    match &v.rif_src.as_ref().unwrap().rifs[0].rif.pages[0].registers[0] {
        RegItem::Def(d) => d.clone(),
        RegItem::Incl(n) => panic!("{n} is included"),
    }
}

fn field_editor(v: &RifViewer) -> FieldEditor {
    let d = ctrl(v);
    FieldEditor::from_field((s("ctrl"), s("mode")), &placed("mode", 4, 3), &d.fields[1], &Vec::new(), "top", "ctrl", None)
}

fn placed(name: &str, width: u16, reset: u128) -> FieldInst {
    FieldInst {
        name: s(name),
        lsb: 1,
        width: FieldSpan::Fixed(width),
        reset: ResetInt::Unsigned(reset),
        sw_kind: SwKind::ReadWrite,
        description: desc("Mode"),
        partial: (None, 0),
        array_dim: 0,
    }
}

#[test]
fn numbers_read_back() {
    assert_eq!(show_unsigned(0), "0");
    assert_eq!(show_unsigned(1024), "1024");
    assert_eq!(read_unsigned("1024", 10), Some(1024));
    assert_eq!(show_signed(-17), "-17");
    assert_eq!(read_signed("-17"), Some(-17));
    assert_eq!(read_signed("+17"), Some(17));
    assert_eq!(show_hex(0xcafe), "0xcafe");
    assert_eq!(show_upper_hex(0xcafe), "CAFE");
    assert_eq!(read_prefixed_unsigned("0xcafe"), Some(0xcafe));
    assert_eq!(read_prefixed_unsigned("12"), Some(12));
    assert_eq!(read_prefixed_unsigned("0x"), None);
    assert_eq!(read_prefixed_signed("0x10"), Some(16));
    assert_eq!(read_byte("255"), Some(255));
    assert_eq!(read_byte("256"), None);
    assert_eq!(read_isize("-3"), Some(-3));
    assert_eq!(read_address("ff"), Some(255));
    assert_eq!(read_address("0x1_0"), None);
    assert_eq!(trim(&show_unsigned(55)), "55");
}

#[test]
fn lines_join_back() {
    let parts = split_text("a\n\nb\n", "\n");
    assert_eq!(parts, vec![s("a"), s(""), s("b"), s("")]);
    assert_eq!(join_text(&parts, "\n"), "a\n\nb\n");
    assert_eq!(trim("  x y\t"), "x y");
    assert!(is_blank(" \t") && !is_blank(" x"));
}

#[test]
fn noted_edits_are_pending() {
    let mut e = PendingEdits::new();
    assert!(e.is_empty());
    e.record(Record::FieldLine(5, FieldProp::HwAcc, LineEdit::Write(s("hw na"))));
    assert!(!e.is_empty());
    let lines = e.prop_edits.get(&5).unwrap();
    assert_eq!(lines.len(), 12);
    assert!(matches!(&lines[FieldProp::HwAcc.rank()], LineEdit::Write(t) if t == "hw na"));
    assert!(matches!(lines[FieldProp::Signed.rank()], LineEdit::Keep));
}

#[test]
fn a_failed_write_keeps_the_edits() {
    let mut v = viewer();
    v.pending = Some(delete("en"));
    let staged = v.apply_pending().expect("the field is there");
    v.finish_pending(staged, Ok(()));
    v.fail_save(s("Save failed: disk full"));
    assert_eq!(v.edit_err.as_deref(), Some("Save failed: disk full"));
    assert!(v.has_unsaved());
    assert_eq!(ctrl(&v).fields.len(), 1);
}

#[test]
fn a_failed_compile_leaves_everything_as_it_was() {
    let mut v = viewer();
    v.pending = Some(delete("en"));
    let staged = v.apply_pending().expect("the field is there");
    assert_eq!(ctrl(&v).fields.len(), 1);
    v.finish_pending(staged, Err(s("no clock")));
    assert_eq!(v.edit_err.as_deref(), Some("no clock"));
    assert_eq!(format!("{:?}", v.rif_src.as_ref().unwrap()), format!("{:?}", source()));
    assert!(!v.has_unsaved());
    assert!(v.editing_rif.is_none());
}

#[test]
fn an_edit_that_finds_nothing_does_nothing() {
    let mut v = viewer();
    apply(&mut v, delete("missing"));
    assert!(v.pending.is_none() && !v.has_unsaved());
    assert_eq!(ctrl(&v).fields.len(), 2);
}

#[test]
fn edits_have_one_owner() {
    let mut v = viewer();
    apply(&mut v, delete("en"));
    assert_eq!(v.editing_rif.as_deref(), Some("top"));
    assert_eq!(v.pending_edit_owner().as_deref(), Some("top"));
    apply(&mut v, EditAction::AddField { rif_type: s("top"), reg_type: s("ctrl") });
    assert_eq!(v.editing_rif.as_deref(), Some("top"));
    v.clear_pending_edits();
    assert!(v.editing_rif.is_none() && v.edits.is_empty());
}

#[test]
fn new_fields_get_a_free_name() {
    let mut v = viewer();
    let add = || EditAction::AddField { rif_type: s("top"), reg_type: s("ctrl") };
    apply(&mut v, add());
    apply(&mut v, add());
    let d = ctrl(&v);
    assert_eq!((d.fields[2].name.as_str(), d.fields[3].name.as_str()), ("new_field", "new_field_1"));
    assert_eq!(unique_field_name(&d), "new_field_2");
    assert!(v.has_unsaved());
}

#[test]
fn saving_nothing_changes_nothing() {
    let v = viewer();
    assert_eq!(v.save_rif_file(&s("top"), TEXT), Ok(s(TEXT)));
    assert_eq!(save_rif_text(&top_rif(), &PendingEdits::new(), TEXT), TEXT);
    let crlf = TEXT.replace('\n', "\r\n");
    assert_eq!(save_rif_text(&top_rif(), &PendingEdits::new(), &crlf), crlf);
}

#[test]
fn a_deleted_field_leaves_the_file_with_its_block() {
    let mut v = viewer();
    apply(&mut v, delete("en"));
    let after = v.save_rif_file(&s("top"), TEXT).unwrap();
    assert_eq!(after, TEXT.replace("        - en = 0 0:0 \"Enable\"\n          signed\n", ""));
}

#[test]
fn a_changed_field_is_written_in_place() {
    let mut v = viewer();
    let mut e = field_editor(&v);
    e.buf.name = s("speed");
    e.buf.width = s("3");
    let action = e.build_action().unwrap();
    apply(&mut v, action);
    let after = v.save_rif_file(&s("top"), TEXT).unwrap();
    assert_eq!(after, TEXT.replace("- mode = 3 4:1 \"Mode\"", "- speed = 3 3:1 \"Mode\""));
}

#[test]
fn an_added_field_is_written_below_the_last_one() {
    let mut v = viewer();
    apply(&mut v, EditAction::AddField { rif_type: s("top"), reg_type: s("ctrl") });
    let after = v.save_rif_file(&s("top"), TEXT).unwrap();
    let lines: Vec<&str> = after.lines().collect();
    assert_eq!(lines.len(), 9);
    assert!(lines[7].starts_with("        - new_field = 0 "), "got:\n{after}");
    assert_eq!(lines[8], "    instances: auto");
}

#[test]
fn a_file_that_cannot_be_saved_says_why() {
    let mut v = RifViewer::new();
    assert_eq!(v.save_rif_file(&s("top"), ""), Err(s("No source loaded")));
    assert_eq!(v.save_place(&s("top")).err().as_deref(), Some("No source loaded"));
    let mut src = source();
    src.top = Top::Rifmux(s("mux"));
    v.finish_open(Opened::Compiled(src, s("mux")));
    assert_eq!(v.save_rif_file(&s("other"), ""), Err(s("Unknown RIF 'other'")));
    assert_eq!(v.save_place(&s("other")).err().as_deref(), Some("Unknown RIF 'other'"));
    assert_eq!(
        v.save_place(&s("top")).err().as_deref(),
        Some("Could not locate the source file defining 'top'")
    );
}

#[test]
fn a_save_that_does_not_read_back_is_reported() {
    let mut v = viewer();
    apply(&mut v, delete("en"));
    v.finish_save(Reread::NotCompiled(s("no clock")));
    assert_eq!(v.edit_err.as_deref(), Some("Saved, but recompile failed: no clock"));
    assert!(!v.has_unsaved());
    v.finish_save(Reread::NotParsed(s("line 3")));
    assert_eq!(v.edit_err.as_deref(), Some("Saved, but re-parse failed: line 3"));
}

#[test]
fn nothing_is_saved_while_something_is_wrong() {
    let mut v = viewer();
    assert_eq!(v.save_target(), None);
    apply(&mut v, delete("en"));
    let mut e = FieldEditor::from_field(
        (s("ctrl"), s("mode")),
        &placed("mode", 4, 3),
        &ctrl(&v).fields[0],
        &Vec::new(),
        "top",
        "ctrl",
        None,
    );
    e.buf.lsb = s("?");
    e.build_action();
    v.editors.field_editor = Some(e);
    assert_eq!(v.save_target(), None);
    v.editors.field_editor = None;
    assert_eq!(v.save_target(), Some(s("top")));
}

#[test]
fn files_that_do_not_open_are_reported() {
    let mut v = viewer();
    v.start_open();
    v.finish_open(Opened::NotCompiled(source(), s("no clock")));
    assert_eq!(v.last_err.as_deref(), Some("no clock"));
    assert!(v.rif_src.is_some() && v.selected.path.is_empty());
    v.start_open();
    v.finish_open(Opened::NotParsed(s("line 1")));
    assert_eq!(v.last_err.as_deref(), Some("line 1"));
    assert!(v.rif_src.is_none());
}

#[test]
fn edits_are_not_left_behind() {
    let mut v = viewer();
    assert!(v.request_reload());
    apply(&mut v, delete("en"));
    assert!(!v.request_reload());
    assert!(v.dialogs.confirm_reload);

    v.validated_selection.path = vec![s("mux"), s("a")];
    v.selected.path = vec![s("mux"), s("b")];
    v.guard_switch(&s("other"), &s("top"));
    assert_eq!(v.selected.path, vec![s("mux"), s("a")]);
    let question = v.dialogs.confirm_switch_rif.as_ref().expect("the user is asked");
    assert_eq!(question.from_rif, "top");
    assert_eq!(question.target.path, vec![s("mux"), s("b")]);

    v.answer_switch(SwitchAnswer::Saved);
    assert!(v.dialogs.confirm_switch_rif.is_some(), "the edits were not saved");
    v.answer_switch(SwitchAnswer::Cancel);
    assert!(v.dialogs.confirm_switch_rif.is_none() && v.has_unsaved());
    v.selected.path = vec![s("mux"), s("b")];
    v.guard_switch(&s("other"), &s("top"));
    v.answer_switch(SwitchAnswer::Discard);
    assert_eq!(v.selected.path, vec![s("mux"), s("b")]);
    assert!(v.edits.is_empty() && v.editing_rif.is_none());
}

#[test]
fn a_live_editor_owns_its_rif() {
    let mut v = viewer();
    let mut e = field_editor(&v);
    v.editors.field_editor = Some(field_editor(&v));
    assert_eq!(v.pending_edit_owner(), None);
    e.buf.name = s("speed");
    v.editors.field_editor = Some(e);
    assert_eq!(v.pending_edit_owner().as_deref(), Some("top"));
    assert!(v.flush_field_editor());
    assert!(matches!(v.pending, Some(EditAction::UpdateField { .. })));
}

#[test]
fn selections_follow_their_place() {
    let mut v = viewer();
    v.selected.item = SelectedItem::Field(s("en"));
    v.selected.drop_stale(Shown::Reg);
    assert!(matches!(v.selected.item, SelectedItem::Field(_)));
    v.selected.drop_stale(Shown::Page);
    assert!(matches!(v.selected.item, SelectedItem::Nothing));
    v.selected.path = vec![s("top"), s("Main"), s("ctrl")];
    v.selected.go_up(2);
    assert_eq!(v.selected.path, vec![s("top"), s("Main")]);
    assert_eq!(v.selected.updt, 1);
    v.selected.tick();
    v.selected.tick();
    assert_eq!(v.selected.updt, 0);
    assert_eq!(field_base("coeffs[3]"), "coeffs");
    assert_eq!(field_base("en"), "en");
}

#[test]
fn changes_of_a_file_are_planned_by_line() {
    let orig = vec![s("a"), s("b"), s("c")];
    let ops = vec![Op::Replace(1, s("B")), Op::Insert(2, vec![s("x")]), Op::Delete(0), Op::Insert(3, vec![s("end")])];
    assert_eq!(rebuild(&orig, ops), vec![s("B"), s("x"), s("c"), s("end")]);
    assert_eq!(rebuild(&orig, Vec::new()), orig);
    assert_eq!(leading_ws("  \tx "), "  \t");
    let block = vec![s("- a"), s("  p"), s(""), s("  q"), s("- b")];
    assert_eq!(field_block_last_idx(&block, 0), 3);
    assert_eq!(field_block_last_idx(&block, 4), 4);
}

#[test]
fn a_renamed_rif_is_renamed_everywhere() {
    let mut src = source();
    src.top = Top::Rifmux(s("mux"));
    src.rifmux = vec![Mux { name: s("mux"), items: vec![MuxItem { rif: Some(s("top")) }, MuxItem { rif: None }] }];
    src.paths = vec![PathEntry { key: s("top"), dir: s("here") }];
    rename_rif(&mut src, &s("top"), &s("leaf"));
    assert!(find_rif(&src.rifs, &s("top")).is_none());
    assert!(find_rif(&src.rifs, &s("leaf")).is_some());
    assert_eq!(src.rifmux[0].items[0].rif.as_deref(), Some("leaf"));
    assert_eq!(src.paths.iter().find(|p| p.key == "leaf").map(|p| p.dir.as_str()), Some("here"));
    assert_eq!(remove_rif("rif_core"), "core");
    assert_eq!(remove_rif("core_rifmux"), "core");
    assert_eq!(remove_rif("core"), "core");
}

#[test]
fn lines_of_the_file() {
    assert_eq!(show_reset(&Reset::Unsigned(9)), "9");
    assert_eq!(show_reset(&Reset::Unsigned(10)), "0xa");
    assert_eq!(show_reset(&Reset::Signed(-4)), "-4");
    assert_eq!(show_reset(&Reset::Param(s("W"))), "$W");
    assert_eq!(show_param_line("N", "4"), "- N = 4");
    let range = Range { min: 1, max: 8, default: 2, desc: None };
    assert_eq!(show_generic_line("W", &range), "- W : 1:2:8");
    let rst = ResetLine { name: s("rst_n"), sync: true, active_high: false, decl_line: None };
    assert_eq!(show_reset_line("hwReset", &rst), "hwReset: rst_n activeLow sync");
    let item = EnumItem { name: s("A"), value: 3, repr: Some(s("0.5")), description: desc("x"), decl_line: None };
    assert_eq!(show_enum_line(&item), "- A = 3 (0.5) \"x\"");
    let at = Addr { kind: AddrKind::Relative, offset: Offset::Value(8) };
    assert_eq!(show_addr(&at), "@+ 0x8");
    let i = Instance {
        inst_name: s("a"),
        reg_type: s("r"),
        group_name: s("a"),
        addr: Addr { kind: AddrKind::Absolute, offset: Offset::Value(16) },
        array: expr("2"),
        reg_override: None,
        ovr_src: OvrSrc { prop_lines: [None; 4], desc_block: None, fields: Vec::new() },
        decl_line: None,
    };
    assert_eq!(show_inst_decl(&i), "- a[2] = r @ 0x10");
}

#[test]
fn property_lines_of_a_field() {
    let mut f = field("f", 3, 0, 0, "text", 1);
    f.lock = WriteLock::Expr(s(".locked"));
    f.limit = Limit { value: LimitValue::List(vec![Reset::Unsigned(1), Reset::Unsigned(0x20)]), bypass: s("byp") };
    f.hw_kind = vec![HwKind::Counter(Counter {
        kind: CountDir::Up,
        incr_val: 2,
        decr_val: 0,
        sat: true,
        clr: false,
        event: false,
    })];
    f.hw_acc = HwAcc::NA;
    f.visibility = RawVis::Reserved;
    f.enum_kind = EnumRef::Type(s("e_x"));
    f.array_pos_incr = 4;
    f.intr_ovr = IntrOvr { trigger: Some(Trigger::Edge), clear: Some(IntrClear::Hw) };
    let line = |f: &FieldDef, p: FieldProp| show_field_line(f, p);
    assert_eq!(line(&f, FieldProp::Lock).as_deref(), Some("lock .locked"));
    assert_eq!(line(&f, FieldProp::Limit).as_deref(), Some("limit {1,0x20} byp"));
    assert_eq!(line(&f, FieldProp::Counter).as_deref(), Some("counter up incrVal=2 sat"));
    assert_eq!(line(&f, FieldProp::HwAcc).as_deref(), Some("hw na"));
    assert_eq!(line(&f, FieldProp::Visibility).as_deref(), Some("reserved"));
    assert_eq!(line(&f, FieldProp::EnumKind).as_deref(), Some("enum e_x"));
    assert_eq!(line(&f, FieldProp::ArrayPosIncr).as_deref(), Some("arrayPosIncr 4"));
    assert_eq!(line(&f, FieldProp::Interrupt).as_deref(), Some("interrupt edge hwclr"));
    assert_eq!(line(&f, FieldProp::Password), None);
    f.sw_kind = SwKind::Password(Password { once: Some(Reset::Unsigned(7)), hold: None, protect: true });
    assert_eq!(line(&f, FieldProp::Password).as_deref(), Some("password once=7 protect"));
    f.lock = WriteLock::Complex;
    assert_eq!(line(&f, FieldProp::Lock), None);
    let list = vec![Reset::FloatU(s("34")), Reset::Unsigned(2), Reset::FloatS(s("-0.5"))];
    f.limit = Limit { value: LimitValue::List(list), bypass: String::new() };
    assert_eq!(line(&f, FieldProp::Limit).as_deref(), Some("limit {34,2,-0.5}"));
}

#[test]
fn property_lines_of_a_register() {
    let mut d = register("r", Vec::new(), 1);
    d.lock = WriteLock::Expr(s("busy"));
    d.external = External::Done;
    d.visibility = Vis::Reserved;
    assert_eq!(show_reg_line(&d, RegProp::Lock).as_deref(), Some("lock busy"));
    assert_eq!(show_reg_line(&d, RegProp::External).as_deref(), Some("externalDone"));
    assert_eq!(show_reg_line(&d, RegProp::Visibility).as_deref(), Some("reserved"));
    assert_eq!(show_reg_line(&d, RegProp::Clock), None);
}

#[test]
fn labels_of_the_lists() {
    let choices = sw_kind_choices();
    let names: HashSet<&str> = choices.iter().map(|c| c.1).collect();
    assert_eq!(names.len(), choices.len());
    for (kind, name) in choices.iter() {
        assert_eq!(sw_kind_label(kind), *name);
    }
    assert_eq!(sw_kind_label(&SwKind::W1Pulse(true, false)), "PULSEREG");
    assert_eq!(intr_trigger_label(Trigger::Rising), "Rising");
    assert_eq!(intr_clear_label(IntrClear::Write0), "Write 0 (w0clr)");
    assert_eq!(intr_kind_label(IntrKind::Mask), "mask");
}

#[test]
fn panels_by_what_can_be_edited() {
    assert!(pick_panel(true, true, true, EditTarget::Instance) == Panel::Derived);
    assert!(pick_panel(false, true, true, EditTarget::Instance) == Panel::Override);
    assert!(pick_panel(false, true, true, EditTarget::Definition) == Panel::Definition);
    assert!(pick_panel(false, false, false, EditTarget::Definition) == Panel::ReadOnly);
    assert!(show_target_choice(true, 2, false) && show_target_choice(true, 1, true));
    assert!(!show_target_choice(true, 1, false) && !show_target_choice(false, 2, true));
}

#[test]
fn lists_of_a_page() {
    let mut r = top_rif();
    let mut other = register("status", Vec::new(), 9);
    other.group_name = s("ctrl");
    r.pages[0].registers.push(RegItem::Def(other));
    assert_eq!(group_choices(&r.pages[0]), vec![s("ctrl")]);
    assert!(!addr_editable(&r.pages[0], &s("ctrl")));
    assert_eq!(default_clk(&r.sw_clocking), "clk");
    r.sw_clocking.push(Clocking {
        clk: s("clk_sw"),
        rst: ResetLine { name: s("rst"), sync: false, active_high: false, decl_line: None },
        en: String::new(),
        clear: String::new(),
    });
    assert_eq!(default_clk(&r.sw_clocking), "clk_sw");
}

#[test]
fn resets_show_their_label() {
    let item = EnumItem { name: s("RUN"), value: 3, repr: None, description: desc(""), decl_line: None };
    let def = EnumType { name: s("e_mode"), values: vec![item], decl_line: None };
    assert_eq!(reset_label(&placed("mode", 4, 3), Some(&def)), "RUN");
    assert_eq!(reset_label(&placed("mode", 4, 2), Some(&def)), "2");
    assert_eq!(reset_label(&placed("mode", 4, 3), None), "3");
}

#[test]
fn a_search_needs_a_text_and_a_place() {
    assert!(wants_search("ctrl", true, false));
    assert!(wants_search("ctrl", false, true));
    assert!(!wants_search("ctrl", false, false));
    assert!(!wants_search("", true, true));
}

#[test]
fn search_results_go_round() {
    assert_eq!(next_result(0, 3), 1);
    assert_eq!(next_result(2, 3), 0);
    assert_eq!(previous_result(2, 3), 1);
    assert_eq!(previous_result(0, 3), 2);
    assert_eq!(previous_result(0, 1), 0);
    for k in 0..5 {
        assert_eq!(previous_result(next_result(k, 5), 5), k);
        assert_eq!(next_result(previous_result(k, 5), 5), k);
    }
}
