//! Edits that go through the viewer, on files that are written out here.
use yargui::action::EditAction;
use yargui::compiled::{reordered_pos, FieldInst, FieldSpan, ResetInt};
use yargui::edits::{intr_rank, BlockEdit, LineEdit, RifClockLineKind};
use yargui::enum_editor::{EnumEditor, EnumEntryRow};
use yargui::field_editor::{EnumMode, FieldEditor};
use yargui::model::page::{FieldOvr, FieldOvrSrc, Instance, OvrSrc, Page, RegOvr, ResetOvr};
use yargui::model::props::{FieldOverrideProp, FieldProp, RegOverrideProp, RegProp, RifProp};
use yargui::model::register::{DescBlocks, FieldDef, FieldSrc, RegItem, RegSrc, RegisterDef};
use yargui::model::rif::{
    Clocking, EnumItem, EnumType, Generic, Mux, MuxItem, NamedLine, Param, PathEntry, Range, ResetLine, RifDef,
    RifEntry, RifSrc, Source, Top,
};
use yargui::model::values::{
    Addr, AddrKind, BitPos, Bus, BusWidth, Desc, Dim, EnumRef, Expr, External, HwAcc, HwKind, InstMode,
    IntrClear, IntrDesc, IntrInfo, IntrKind, IntrOvr, Limit, LimitValue, Offset, Pulse, Reset, SwKind, Trigger,
    Vis, WriteLock,
};
use yargui::reg_editor::RegEditor;
use yargui::session::{Opened, Reread, RifFile};
use yargui::source::{find_field, find_regdef, find_rif, get_reg};
use yargui::stage_field::{fresh_field, join_field, FieldMove};
use yargui::stage_reg::{AddRegKind, Companion};
use yargui::vals::{
    FieldOverrideVals, FieldVals, GenericEntry, ParamEntry, RegAltVals, RegDefVals, RegIntrVals,
    RegOverrideVals, RifDefVals,
};
use yargui::viewer::{RifViewer, SelectedItem};
use yargui::views::{array_scope_ok, field_has_array_partial, rif_type_of};

const TEST_RIF: &str = r#"rif: test_rif
  // Main parameters
  addrWidth:   9
  dataWidth:  32
  interface: apb
  swClock    : clk_rif
  swReset    : rst_rif_n activeLow async
  parameters :
    - OPTION_A = True
    - NB_REG = 4
  description:
    Generic description of the RIF
    using multiple lines
  info:
    - status : development
  // Pages
  - Main : "Main Page"
    baseAddress : 0x0
    registers:
      - basic_rw: "Simple register with r/w fields"
        wrPulse
        description:
          More detailled information on current register
        - field0 = 0      7:0  "Field 8b"
          description:
            More detailled information on current field
            Can span multiple lines.
        - field1 = 1     15:8  "Signed Field"
          signed
        - field2 = 0x45  31:16 "Field with hexa init"
      - reg_group0 : (reg_group) "Group multiple registers in one struct (first half)"
        rdPulse
        - field0 = 10     7:0  "Enum with no type"
          enum:
            - VAL0 = 0 "F0 Value 0"
            - VAL1 = 1 "F0 Value 1"
        - field1 = 11    15:8  "Enum with default type"
          enum: type
            - F1_VAL0 = 0 "F1 Value 0"
            - F1_VAL1 = 1 "F1 Value 1"
        - field2 = 0x37  31:16 "Field2 LSB"
          partial 0
      - reg_group1 : (reg_group) "Group multiple registers in one struct (second half)"
        accPulse
        - f_pulse_c       0:0  "Combinatorial Pulse"
          pulse comb
          description:
            Field stays high during write
        - f_pulse_r       1:1  "Registered Pulse"
          pulse reg
          description:
            Field stays high one cycle after write
        // - f_pulse_c_named  2:2  "Combinatorial pulse named pulse_comb"
        //   pulse pulse_comb
        // - f_pulse_r_named  3:3  "Registered pulse named pulse_reg"
        //   pulse reg pulse_reg
        - field4 = 14    15:8  "Field4"
        - field2 = 0x13  31:16 "Field2 MSB"
          partial 16
      - version: "Read-only fields"
        info:
          - ana "1V2"
          - isolation high
        - rif    = 8   7:0  ro  "RIF Version"
          hw na
        - design      15:8      "Design Version"
      - interrupt : "Interrupt status"
        interrupt rising w1clr enable=0x1337 mask=0xCAFE pending
        pending.description : Pending interrupt (AND between status and mask)
        enable.description  : Enable interrupt. When set to 0 all events for this interrupt are ignored.
        mask.description    : Mask interrupt from the global IRQ output and Pending register (0 means the interrupt is masked).
        - event_0 = 0   0:0 "Event 0"
        - event_1 = 0   1:1 "Event 1 using non-default setting"
          interrupt high
      - reg_fields_a0 : (reg_fields_a)
        - coeffs[4] = {0,1,2,3} 7:0 "Coefficient 0 to 3"
      - reg_fields_a1 : (reg_fields_a)
        - coeffs[4] = {4,5,6,7} 7:0 "Coefficient 4 to 7"
          arrayPartial 4
      - reg_fields_pos :
        - coeffs[8] = 0 2:0 "Coefficient 0 to 3"
          arrayPosIncr 4
    instances: auto
  - Memory : "External memory"
    baseAddress : 0x100
    external 8
"#;

const MINI_MANUAL: &str = r#"rif: mini_rif
  addrWidth: 8
  dataWidth: 32
  interface: apb
  - Main : "Main page"
    baseAddress: 0x0
    registers:
      - ctrl: "Control register"
        - en = 0 0:0 "Enable"
      - status: "Status register"
        - busy = 0 0:0 ro "Busy"
    instances:
      - ctrl_a = ctrl @ 0x0
      - ctrl_b = ctrl @ 0x4
      - status @ 0x8
"#;

const REORDER_GAP: &str = r#"rif: mini_rif
  addrWidth: 8
  dataWidth: 32
  interface: apb
  - Main : "Main page"
    baseAddress: 0x0
    registers:
      - ctrl: "Control register"
        - en = 0 0:0 "Enable"
      - status: "Status register"
        - busy = 0 0:0 ro "Busy"
    instances:
      - ctrl_a = ctrl @ 0x0
      - ctrl_b = ctrl @ 0x4
      - ctrl_c = ctrl @ 0x8
      - status @ 0x28
"#;

const ARRAYS: &str = r#"rif: arr_rif
  addrWidth: 8
  dataWidth: 32
  interface: apb
  - Main : "Main page"
    baseAddress: 0x0
    registers:
      - a: "Register A"
        - val = 0 7:0 "Value"
      - b: "Register B"
        - val = 0 7:0 "Value"
      - c: "Register C"
        - val = 0 7:0 "Value"
      - d: "Register D"
        - val = 0 7:0 "Value"
      - e: "Register E"
        - val[2] = 0 7:0 "Value"
    instances:
      - a @ 0x0
      - b @ 0x4
      - c @ 0x8
      - d @ 0xc
      - e @ 0x10
"#;

const INST_ARRAY: &str = r#"rif: arr_rif2
  addrWidth: 8
  dataWidth: 32
  interface: apb
  - Main : "Main page"
    baseAddress: 0x0
    registers:
      - a: "Register A"
        - val = 0 7:0 "Value"
      - b: "Register B"
        - val = 0 7:0 "Value"
    instances:
      - a[3] @ 0x0
      - b @ 0xc
"#;

const LEAF: &str = r#"rif: leaf
  addrWidth: 8
  dataWidth: 32
  interface: apb
  - Main : "Main Page"
    baseAddress: 0x0
    registers:
      - basic_rw: "Simple register"
        - field0 = 0  7:0  "Field A"
"#;

const LEAF_A: &str = r#"rif: leaf_a
  addrWidth: 8
  dataWidth: 32
  interface: apb
  - Main : "Main Page"
    baseAddress: 0x0
    registers:
      - basic_rw: "Simple register"
        - field0 = 0  7:0  "Field A"
"#;

const LEAF_B: &str = r#"rif: leaf_b
  addrWidth: 8
  dataWidth: 32
  interface: apb
  description:
    Leaf B's own description
  - Main : "Main Page"
    baseAddress: 0x0
    registers:
      - basic_rw: "Simple register"
        - field0 = 0  7:0  "Field B"
"#;

const MINI_REG_ARRAY: &str = r#"rif: mini_arr
  addrWidth: 8
  dataWidth: 32
  interface: apb
  - Main : "Main page"
    baseAddress: 0x0
    registers:
      - reg_arr[4] : "Array register"
        - coeffs[2] = 0 3:0 "Coeffs"
    instances: auto
"#;

fn desc(text: &str) -> Desc {
    Desc { public: text.to_owned(), private: String::new() }
}

fn number(t: &str) -> u128 {
    match t.strip_prefix("0x") {
        Some(h) => u128::from_str_radix(h, 16).unwrap(),
        None => t.parse().unwrap(),
    }
}

/// The text between the quotes, and what stands in front of them.
fn quoted(t: &str) -> (&str, Option<&str>) {
    match (t.find('"'), t.rfind('"')) {
        (Some(a), Some(b)) if a < b => (t[..a].trim(), Some(&t[a + 1..b])),
        _ => (t.trim(), None),
    }
}

/// A name and the size in brackets behind it.
fn sized(t: &str) -> (String, u8) {
    match t.find('[') {
        Some(k) => (t[..k].to_owned(), t[k + 1..t.len() - 1].parse().unwrap()),
        None => (t.to_owned(), 0),
    }
}

fn position(t: &str) -> BitPos {
    if let Some(n) = t.strip_suffix('b') {
        return BitPos::Size(Dim::Value(n.parse().unwrap()));
    }
    let (m, l) = t.split_once(':').unwrap();
    BitPos::MsbLsb(Dim::Value(m.parse().unwrap()), Dim::Value(l.parse().unwrap()))
}

fn sw_kind(t: &str) -> SwKind {
    match t {
        "ro" => SwKind::ReadOnly,
        "wo" => SwKind::WriteOnly,
        "rclr" => SwKind::ReadClr,
        "w1clr" => SwKind::W1Clr,
        "w0clr" => SwKind::W0Clr,
        "w1set" => SwKind::W1Set,
        "toggle" => SwKind::W1Tgl,
        "pulse" => SwKind::W1Pulse(false, false),
        "pulsereg" => SwKind::W1Pulse(true, false),
        other => panic!("unknown access {other}"),
    }
}

fn trigger(t: &str) -> Option<Trigger> {
    Some(match t {
        "high" => Trigger::High,
        "low" => Trigger::Low,
        "rising" => Trigger::Rising,
        "falling" => Trigger::Falling,
        "edge" => Trigger::Edge,
        _ => return None,
    })
}

fn clear(t: &str) -> Option<IntrClear> {
    Some(match t {
        "rclr" => IntrClear::Read,
        "w0clr" => IntrClear::Write0,
        "w1clr" => IntrClear::Write1,
        "hwclr" => IntrClear::Hw,
        _ => return None,
    })
}

fn interrupt(name: &str, words: &[&str]) -> IntrInfo {
    let mut r = IntrInfo {
        name: name.to_owned(),
        trigger: Trigger::High,
        clear: IntrClear::Read,
        enable: None,
        mask: None,
        pending: false,
        description: IntrDesc { enable: desc(""), mask: desc(""), pending: desc("") },
    };
    for w in words {
        if let Some(t) = trigger(w) {
            r.trigger = t;
        } else if let Some(c) = clear(w) {
            r.clear = c;
        } else if *w == "pending" {
            r.pending = true;
        } else if let Some((k, v)) = w.split_once('=') {
            let value = Some(Reset::Unsigned(number(&v.to_lowercase())));
            if k == "mask" {
                r.mask = value;
            } else {
                r.enable = value;
            }
        }
    }
    r
}

fn no_blocks() -> DescBlocks {
    DescBlocks { public: None, intr_enable: None, intr_mask: None, intr_pending: None }
}

fn new_register(decl: &str, line: usize) -> RegisterDef {
    let (head, text) = quoted(decl);
    let (name_part, group_part) = match head.split_once(':') {
        Some((a, b)) => (a.trim(), b.trim()),
        None => (head, ""),
    };
    let (name, array) = sized(name_part);
    let group = group_part.trim_start_matches('(').trim_end_matches(')');
    RegisterDef {
        group_name: if group.is_empty() { name.clone() } else { group.to_owned() },
        name,
        group_pkg: None,
        description: desc(text.unwrap_or("")),
        pulse: Vec::new(),
        fields: Vec::new(),
        interrupt: Vec::new(),
        visibility: Vis::Full,
        clk: None,
        rst: None,
        lock: WriteLock::Open,
        array: Dim::Value(array),
        external: External::Internal,
        src: RegSrc {
            decl_line: Some(line),
            has_inline_desc: text.is_some(),
            prop_lines: [None; 10],
            desc_blocks: no_blocks(),
        },
    }
}

fn new_field(decl: &str, line: usize) -> FieldDef {
    let (head, text) = quoted(decl);
    let words: Vec<&str> = head.split_whitespace().collect();
    let (name, array) = sized(words[0]);
    let mut f = fresh_field(name);
    f.array = Dim::Value(array);
    f.description = desc(text.unwrap_or(""));
    let rest = if words[1] == "=" {
        let list = words[2].trim_start_matches('{').trim_end_matches('}');
        f.reset = list.split(',').map(|v| Reset::Unsigned(number(v))).collect();
        &words[3..]
    } else {
        &words[1..]
    };
    f.pos = position(rest[0]);
    if let Some(w) = rest.get(1) {
        f.sw_kind = sw_kind(w);
    }
    f.src = FieldSrc {
        decl_line: Some(line),
        has_inline_desc: text.is_some(),
        prop_lines: [None; 12],
        desc_blocks: no_blocks(),
    };
    f
}

fn address(t: &str) -> Addr {
    let (kind, digits) = match t.strip_prefix('+') {
        Some(d) => (AddrKind::Relative, d),
        None => (AddrKind::Absolute, t),
    };
    Addr { kind, offset: Offset::Value(number(digits.trim()) as u64) }
}

fn expr(text: &str, rif: &str) -> Expr {
    Expr { text: text.to_owned(), rif: rif.to_owned() }
}

fn new_instance(decl: &str, line: usize) -> Instance {
    let (head, at) = decl.split_once('@').unwrap();
    let (left, typed) = match head.split_once('=') {
        Some((a, b)) => (a.trim(), Some(b.trim())),
        None => (head.trim(), None),
    };
    let (name, array) = match left.find('[') {
        Some(k) => (left[..k].to_owned(), left[k + 1..left.len() - 1].to_owned()),
        None => (left.to_owned(), String::new()),
    };
    Instance {
        reg_type: typed.unwrap_or(&name).to_owned(),
        group_name: if typed.is_some() { name.clone() } else { String::new() },
        inst_name: name,
        addr: address(at.trim()),
        array: expr(&array, &array),
        reg_override: None,
        ovr_src: no_override_lines(),
        decl_line: Some(line),
    }
}

fn no_override_lines() -> OvrSrc {
    OvrSrc { prop_lines: [None; 4], desc_block: None, fields: Vec::new() }
}

/// Reads a line below an instance.
fn read_override(i: &mut Instance, t: &str, line: usize) {
    let o = i.reg_override.get_or_insert(RegOvr {
        addr: None,
        description: None,
        optional: expr("", ""),
        optional_acc: None,
        visibility: None,
        hw_acc: None,
        fields: Vec::new(),
    });
    if let Some(rest) = t.strip_prefix("description :") {
        o.description = Some(desc(rest.trim()));
        i.ovr_src.prop_lines[RegOverrideProp::Description.rank()] = Some(line);
    } else if t == "hw rw" {
        o.hw_acc = Some(HwAcc::RW);
        i.ovr_src.prop_lines[RegOverrideProp::Hw.rank()] = Some(line);
    } else if let Some(field) = t.strip_suffix(".disable") {
        let mut prop_lines = [None; 2];
        prop_lines[FieldOverrideProp::Reset.rank()] = Some(line);
        o.fields.push(FieldOvr {
            field: field.to_owned(),
            description: None,
            optional: expr("", ""),
            visibility: Some(Vis::Disabled),
            reset: ResetOvr::Keep,
            has_more: false,
        });
        i.ovr_src.fields.push(FieldOvrSrc { field: field.to_owned(), prop_lines });
    } else {
        panic!("unknown override {t}");
    }
}

fn add_text(d: &mut Desc, more: &str) {
    if !d.public.is_empty() {
        d.public.push('\n');
    }
    d.public.push_str(more);
}

/// The block behind the header at line `n`: its last line and its text.
fn block(lines: &[&str], n: usize, indent: usize) -> (usize, String) {
    let mut texts: Vec<String> = Vec::new();
    let mut last = n;
    for (k, l) in lines.iter().enumerate().skip(n) {
        let ind = l.len() - l.trim_start().len();
        if l.trim().is_empty() || ind <= indent {
            break;
        }
        texts.push(l.trim().to_owned());
        last = k + 1;
    }
    (last, texts.join("\n"))
}

/// Reads the subset of the file format that the files above use.
fn load_rif(text: &str) -> RifDef {
    let lines: Vec<&str> = text.split('\n').collect();
    let mut rif = RifDef {
        name: String::new(),
        addr_width: 0,
        data_width: BusWidth::W32(32),
        description: desc(""),
        interface: Bus::Default,
        suffix_pkg: false,
        sw_clocking: Vec::new(),
        hw_clocking: Vec::new(),
        pages: Vec::new(),
        enum_defs: Vec::new(),
        parameters: Vec::new(),
        generics: Vec::new(),
        src: RifSrc {
            decl_line: None,
            prop_lines: [None; 10],
            desc_block: None,
            params_header_line: None,
            param_lines: Vec::new(),
            generics_header_line: None,
            generic_lines: Vec::new(),
        },
    };
    let mut section = "";
    let mut part = "";
    let mut resets: usize = 0;
    let mut reg: Option<RegisterDef> = None;
    let mut field: Option<FieldDef> = None;
    let mut n: usize = 0;
    while n < lines.len() {
        let raw = lines[n];
        let t = raw.trim();
        let ind = raw.len() - raw.trim_start().len();
        n += 1;
        if t.is_empty() || t.starts_with("//") {
            continue;
        }
        if ind <= 8 && (ind < 8 || t.starts_with("- ")) {
            end_field(&mut reg, &mut field);
        }
        if ind <= 6 {
            end_register(&mut rif, &mut reg);
        }
        match ind {
            0 => {
                rif.name = t.strip_prefix("rif:").unwrap().trim().to_owned();
                rif.src.decl_line = Some(n);
            }
            2 if t.starts_with("- ") => {
                section = "page";
                rif.pages.push(Page {
                    name: quoted(&t[2..]).0.trim_end_matches(':').trim().to_owned(),
                    registers: Vec::new(),
                    instances: Vec::new(),
                    inst_auto: InstMode::Automatic,
                    instances_line: None,
                });
            }
            2 => {
                let (key, value) = t.split_once(':').unwrap();
                let value = value.trim();
                section = "";
                match key.trim() {
                    "addrWidth" => {
                        rif.addr_width = value.parse().unwrap();
                        rif.src.prop_lines[RifProp::AddrWidth.rank()] = Some(n);
                    }
                    "dataWidth" => {
                        rif.data_width = if value == "16" { BusWidth::W16(16) } else { BusWidth::W32(32) };
                        rif.src.prop_lines[RifProp::DataWidth.rank()] = Some(n);
                    }
                    "interface" => {
                        rif.interface = Bus::Apb;
                        rif.src.prop_lines[RifProp::Interface.rank()] = Some(n);
                    }
                    "swClock" => {
                        rif.sw_clocking = value.split_whitespace().map(|c| clocking(c, "rst")).collect();
                        rif.src.prop_lines[RifProp::SwClock.rank()] = Some(n);
                    }
                    "swReset" => {
                        let words: Vec<&str> = value.split_whitespace().collect();
                        rif.sw_clocking[resets].rst = ResetLine {
                            name: words[0].to_owned(),
                            sync: words[2] == "sync",
                            active_high: words[1] == "activeHigh",
                            decl_line: Some(n),
                        };
                        resets += 1;
                    }
                    "parameters" => {
                        section = "parameters";
                        rif.src.params_header_line = Some(n);
                    }
                    "generics" => {
                        section = "generics";
                        rif.src.generics_header_line = Some(n);
                    }
                    "description" => {
                        let (last, text) = block(&lines, n, ind);
                        rif.description = desc(&text);
                        rif.src.desc_block = Some((n, last));
                        n = last;
                    }
                    "info" => {
                        n = block(&lines, n, ind).0;
                    }
                    other => panic!("unknown key {other}"),
                }
            }
            4 if section == "parameters" => {
                let (name, value) = t[2..].split_once('=').unwrap();
                let (name, value) = (name.trim(), value.trim());
                let canonical = if value == "True" { "1" } else { value };
                rif.parameters.push(Param { name: name.to_owned(), value: expr(value, canonical) });
                rif.src.param_lines.push(NamedLine { name: name.to_owned(), line: n });
            }
            4 if section == "generics" => {
                let (head, text) = quoted(&t[2..]);
                let (name, range) = head.split_once(':').unwrap();
                let bounds: Vec<u16> = range.split(':').map(|v| v.trim().parse().unwrap()).collect();
                rif.generics.push(Generic {
                    name: name.trim().to_owned(),
                    range: Range {
                        min: bounds[0],
                        default: bounds[1],
                        max: bounds[2],
                        desc: text.map(|s| s.to_owned()),
                    },
                });
                rif.src.generic_lines.push(NamedLine { name: name.trim().to_owned(), line: n });
            }
            4 => {
                let page = rif.pages.last_mut().unwrap();
                if t == "registers:" {
                    part = "registers";
                } else if let Some(rest) = t.strip_prefix("instances:") {
                    part = "instances";
                    page.instances_line = Some(n);
                    if rest.trim().is_empty() {
                        page.inst_auto = InstMode::Manual;
                    }
                }
            }
            6 if part == "registers" => reg = Some(new_register(&t[2..], n)),
            6 => {
                let i = new_instance(&t[2..], n);
                rif.pages.last_mut().unwrap().instances.push(i);
            }
            8 if part == "instances" => {
                let i = rif.pages.last_mut().unwrap().instances.last_mut().unwrap();
                read_override(i, t, n);
            }
            8 if t.starts_with("- ") => field = Some(new_field(&t[2..], n)),
            8 => {
                let d = reg.as_mut().unwrap();
                let words: Vec<&str> = t.split_whitespace().collect();
                match words[0] {
                    "wrPulse" | "rdPulse" | "accPulse" => {
                        let clk = if words.len() > 1 { String::new() } else { "clk_rif".to_owned() };
                        let (p, k) = match words[0] {
                            "wrPulse" => (RegProp::WrPulse, Pulse::Write(clk)),
                            "rdPulse" => (RegProp::RdPulse, Pulse::Read(clk)),
                            _ => (RegProp::AccPulse, Pulse::Access(clk)),
                        };
                        d.pulse.push(k);
                        d.src.prop_lines[p.rank()] = Some(n);
                    }
                    "interrupt" => {
                        d.interrupt.push(interrupt("", &words[1..]));
                        d.src.prop_lines[RegProp::Interrupt.rank()] = Some(n);
                    }
                    "alt" => {
                        d.interrupt.push(interrupt(words[1], &words[2..]));
                        d.src.prop_lines[RegProp::InterruptAlt.rank()] = Some(n);
                    }
                    "hidden" => {
                        d.visibility = Vis::Hidden;
                        d.src.prop_lines[RegProp::Visibility.rank()] = Some(n);
                    }
                    "clock" => {
                        d.clk = Some(words[1].to_owned());
                        d.src.prop_lines[RegProp::Clock.rank()] = Some(n);
                    }
                    "hwReset" => {
                        d.rst = Some(words[1].to_owned());
                        d.src.prop_lines[RegProp::Reset.rank()] = Some(n);
                    }
                    "external" => {
                        d.external = External::ReadWrite;
                        d.src.prop_lines[RegProp::External.rank()] = Some(n);
                    }
                    "info:" => n = block(&lines, n, ind).0,
                    "description:" => {
                        let (last, text) = block(&lines, n, ind);
                        add_text(&mut d.description, &text);
                        d.src.desc_blocks.public = Some((n, last));
                        n = last;
                    }
                    _ => {
                        let (key, value) = t.split_once(':').unwrap();
                        let (last, text) = if value.trim().is_empty() {
                            block(&lines, n, ind)
                        } else {
                            (n, value.trim().to_owned())
                        };
                        let range = Some((n, last));
                        let descs = &mut d.interrupt[0].description;
                        match key.trim() {
                            "pending.description" => {
                                descs.pending = desc(&text);
                                d.src.desc_blocks.intr_pending = range;
                            }
                            "enable.description" => {
                                descs.enable = desc(&text);
                                d.src.desc_blocks.intr_enable = range;
                            }
                            "mask.description" => {
                                descs.mask = desc(&text);
                                d.src.desc_blocks.intr_mask = range;
                            }
                            other => panic!("unknown property {other}"),
                        }
                        n = last;
                    }
                }
            }
            10 => {
                let group = reg.as_ref().unwrap().group_name.clone();
                let f = field.as_mut().unwrap();
                let words: Vec<&str> = t.split_whitespace().collect();
                let mut prop: Option<FieldProp> = None;
                match words[0] {
                    "signed" => {
                        f.signed = true;
                        prop = Some(FieldProp::Signed);
                    }
                    "hw" => {
                        f.hw_acc = match words[1] {
                            "na" => HwAcc::NA,
                            "rw" => HwAcc::RW,
                            "wo" => HwAcc::WO,
                            _ => HwAcc::RO,
                        };
                        prop = Some(FieldProp::HwAcc);
                    }
                    "nbfrac" => {
                        f.nb_frac = words[1].parse().unwrap();
                        prop = Some(FieldProp::NbFrac);
                    }
                    "pulse" => {
                        f.sw_kind = SwKind::W1Pulse(words[1] == "reg", false);
                        prop = Some(FieldProp::Pulse);
                    }
                    "partial" => f.partial.0 = Some(words[1].parse().unwrap()),
                    "arrayPartial" => f.partial.1 = words[1].parse().unwrap(),
                    "arrayPosIncr" => {
                        f.array_pos_incr = words[1].parse().unwrap();
                        prop = Some(FieldProp::ArrayPosIncr);
                    }
                    "interrupt" => {
                        f.intr_ovr = IntrOvr { trigger: trigger(words[1]), clear: None };
                        prop = Some(FieldProp::Interrupt);
                    }
                    "description:" => {
                        let (last, text) = block(&lines, n, ind);
                        add_text(&mut f.description, &text);
                        f.src.desc_blocks.public = Some((n, last));
                        n = last;
                    }
                    "enum:" | "enum" => {
                        f.enum_kind = match words.get(1) {
                            None => EnumRef::Doc(format!("doc:{group}_{}", f.name)),
                            Some(&"type") => EnumRef::Type(format!("e_{group}_{}", f.name)),
                            Some(name) => EnumRef::Type((*name).to_owned()),
                        };
                        let name = match &f.enum_kind {
                            EnumRef::Doc(s) | EnumRef::Type(s) => s.clone(),
                            EnumRef::Plain => unreachable!(),
                        };
                        rif.enum_defs.push(EnumType { name, values: Vec::new(), decl_line: Some(n) });
                        prop = Some(FieldProp::EnumKind);
                    }
                    other => panic!("unknown property {other}"),
                }
                if let Some(p) = prop {
                    f.src.prop_lines[p.rank()] = Some(n);
                }
            }
            12 => {
                let (head, text) = quoted(&t[2..]);
                let (name, value) = head.split_once('=').unwrap();
                rif.enum_defs.last_mut().unwrap().values.push(EnumItem {
                    name: name.trim().to_owned(),
                    value: value.trim().parse().unwrap(),
                    repr: None,
                    description: desc(text.unwrap_or("")),
                    decl_line: Some(n),
                });
            }
            other => panic!("unexpected indentation {other}: {t}"),
        }
    }
    end_field(&mut reg, &mut field);
    end_register(&mut rif, &mut reg);
    rif
}

/// Gives a field that was read to its register.
fn end_field(reg: &mut Option<RegisterDef>, field: &mut Option<FieldDef>) {
    if let Some(f) = field.take() {
        let d = reg.as_mut().unwrap();
        let own = f.intr_ovr;
        join_field(d, f);
        if let Some(tr) = own.trigger {
            d.fields.last_mut().unwrap().hw_kind = vec![HwKind::Interrupt(tr)];
        }
    }
}

/// Gives a register that was read to its page.
fn end_register(rif: &mut RifDef, reg: &mut Option<RegisterDef>) {
    if let Some(d) = reg.take() {
        rif.pages.last_mut().unwrap().registers.push(RegItem::Def(d));
    }
}

fn clocking(clk: &str, rst: &str) -> Clocking {
    Clocking {
        clk: clk.to_owned(),
        rst: ResetLine { name: rst.to_owned(), sync: false, active_high: false, decl_line: None },
        en: String::new(),
        clear: String::new(),
    }
}

fn source_of(rif: RifDef) -> Source {
    let name = rif.name.clone();
    Source {
        top: Top::Rif(name.clone()),
        rifs: vec![RifEntry { key: name, rif }],
        rifmux: Vec::new(),
        paths: Vec::new(),
    }
}

fn open(text: &str) -> RifViewer {
    let mut v = RifViewer::new();
    let src = source_of(load_rif(text));
    let name = src.rifs[0].key.clone();
    v.start_open();
    v.finish_open(Opened::Compiled(src, name));
    assert!(v.last_err.is_none());
    v
}

/// The test file with `basic_rw` selected, the way the tree does it.
fn load_with_basic_rw_selected() -> RifViewer {
    let mut v = open(TEST_RIF);
    v.selected.path.push("Main".to_owned());
    v.selected.path.push("basic_rw".to_owned());
    v.selected.item = SelectedItem::Field("field1".to_owned());
    v
}

fn rif<'a>(v: &'a RifViewer, name: &str) -> &'a RifDef {
    let src = v.rif_src.as_ref().unwrap();
    let k = find_rif(&src.rifs, &name.to_owned()).expect("RIF exists");
    &src.rifs[k].rif
}

fn regdef_in(v: &RifViewer, name: &str, reg: &str) -> RegisterDef {
    let r = rif(v, name);
    let at = find_regdef(r, &reg.to_owned()).expect("register exists");
    get_reg(r, at).clone()
}

fn regdef(v: &RifViewer, reg: &str) -> RegisterDef {
    regdef_in(v, "test_rif", reg)
}

fn def_field(v: &RifViewer, reg: &str, name: &str) -> FieldDef {
    field_in(v, "test_rif", reg, name)
}

fn field_in(v: &RifViewer, rif_name: &str, reg: &str, name: &str) -> FieldDef {
    let d = regdef_in(v, rif_name, reg);
    let k = find_field(&d.fields, &name.to_owned()).expect("field exists");
    d.fields[k].clone()
}

fn instance(v: &RifViewer, rif_name: &str, name: &str) -> Instance {
    rif(v, rif_name).pages.iter().flat_map(|p| p.instances.iter()).find(|i| i.inst_name == name).expect("instance exists").clone()
}

fn addr_of(i: &Instance) -> (AddrKind, u64) {
    match &i.addr.offset {
        Offset::Value(a) => (i.addr.kind, *a),
        Offset::Param(p) => panic!("address {p} is no number"),
    }
}

/// Applies an edit to a source that compiles.
fn apply(v: &mut RifViewer, action: EditAction) {
    v.pending = Some(action);
    if let Some(staged) = v.apply_pending() {
        v.finish_pending(staged, Ok(()));
    }
}

/// Saves the edits of a RIF into a text and reads the text again.
fn save(v: &mut RifViewer, text: &str) -> String {
    let name = v.save_target().expect("there is something to save");
    let after = v.save_rif_file(&name, text).expect("the RIF is known");
    v.finish_save(Reread::Compiled(source_of(load_rif(&after))));
    assert!(v.edit_err.is_none());
    after
}

fn no_ovr() -> IntrOvr {
    IntrOvr { trigger: None, clear: None }
}

/// The values that a field has.
fn vals_of(f: &FieldDef) -> FieldVals {
    FieldVals {
        name: f.name.clone(),
        pos: f.pos.clone(),
        array: f.array.clone(),
        array_pos_incr: f.array_pos_incr,
        reset: None,
        signed: f.signed,
        sw_kind: f.sw_kind.clone(),
        desc: f.description.public.clone(),
        hw_acc: f.hw_acc,
        visibility: None,
        nb_frac: f.nb_frac,
        lock: f.lock.clone(),
        limit: f.limit.clone(),
        counter: None,
        password: None,
        enum_kind: f.enum_kind.clone(),
        intr_ovr: None,
        reg_intr_default: no_ovr(),
        changed: Vec::new(),
    }
}

fn update_field(reg: &str, orig: &str, vals: FieldVals) -> EditAction {
    update_field_in("test_rif", reg, orig, vals)
}

fn update_field_in(rif_type: &str, reg: &str, orig: &str, vals: FieldVals) -> EditAction {
    EditAction::UpdateField {
        rif_type: rif_type.to_owned(),
        reg_type: reg.to_owned(),
        orig_name: orig.to_owned(),
        vals: Box::new(vals),
    }
}

/// The values that a register has.
fn reg_vals(d: &RegisterDef) -> RegDefVals {
    RegDefVals {
        name: d.name.clone(),
        group: None,
        desc: d.description.public.clone(),
        pulse: d.pulse.clone(),
        addr: None,
        intr: None,
        alt: None,
        array: None,
        visibility: Vis::Full,
        clk: None,
        rst: None,
        external: External::Internal,
    }
}

fn update_reg(rif_type: &str, orig: &str, inst: &str, vals: RegDefVals) -> EditAction {
    EditAction::UpdateRegDef {
        rif_type: rif_type.to_owned(),
        orig_name: orig.to_owned(),
        inst_name: inst.to_owned(),
        vals,
    }
}

fn alt_vals(name: &str, trigger: Trigger, clear: IntrClear, enable: Option<u128>, mask: Option<u128>, pending: bool) -> RegAltVals {
    RegAltVals {
        name: name.to_owned(),
        trigger,
        clear,
        enable: enable.map(Reset::Unsigned),
        mask: mask.map(Reset::Unsigned),
        pending,
    }
}

/// What an edit writes; `None` where it removes the line.
fn written(e: &LineEdit) -> Option<&str> {
    match e {
        LineEdit::Write(t) => Some(t.as_str()),
        LineEdit::Remove => None,
        LineEdit::Keep => panic!("the line was to be touched"),
    }
}

fn kept(e: &LineEdit) -> bool {
    matches!(e, LineEdit::Keep)
}

fn unsigned(r: &Reset) -> u128 {
    match r {
        Reset::Unsigned(v) => *v,
        other => panic!("unexpected reset {other:?}"),
    }
}

fn lsb_of(f: &FieldDef) -> u8 {
    match &f.pos {
        BitPos::MsbLsb(_, Dim::Value(l)) => *l,
        other => panic!("unexpected position {other:?}"),
    }
}

fn first_trigger(f: &FieldDef) -> Option<Trigger> {
    match f.hw_kind.first() {
        Some(HwKind::Interrupt(t)) => Some(*t),
        _ => None,
    }
}

fn has_line(text: &str, line: &str) -> bool {
    text.lines().any(|l| l.trim() == line)
}

fn companions(list: &[(&str, u64)]) -> Vec<Companion> {
    list.iter().map(|(n, a)| Companion { name: (*n).to_owned(), addr: *a }).collect()
}

/// The name of the RIF on top, from the types along the selected path.
fn selected_rif_type(v: &RifViewer) -> String {
    let src = v.rif_src.as_ref().unwrap();
    let types: Vec<Option<String>> = v
        .selected
        .path
        .iter()
        .map(|step| if src.rifs.iter().any(|e| e.rif.name == *step) { Some(step.clone()) } else { None })
        .collect();
    rif_type_of(&types)
}

#[test]
fn selected_rif_type_resolves_top_level_rif() {
    let v = load_with_basic_rw_selected();
    assert_eq!(selected_rif_type(&v), "test_rif");
}

/// The values that take `signed` away from `field1` and give it `hw` and `nbfrac`.
fn advanced_vals(v: &RifViewer) -> FieldVals {
    let f = def_field(v, "basic_rw", "field1");
    let mut vals = vals_of(&f);
    vals.signed = false;
    vals.sw_kind = SwKind::ReadWrite;
    vals.hw_acc = HwAcc::RW;
    vals.nb_frac = 2;
    vals.lock = WriteLock::Open;
    vals.limit = Limit { value: LimitValue::Any, bypass: String::new() };
    vals.enum_kind = EnumRef::Plain;
    vals.changed = vec![FieldProp::Signed, FieldProp::HwAcc, FieldProp::NbFrac];
    vals
}

#[test]
fn apply_update_field_applies_advanced_props_and_records_prop_edits() {
    let mut v = load_with_basic_rw_selected();
    let f = def_field(&v, "basic_rw", "field1");
    assert!(f.signed, "field1 starts signed");
    let decl_line = f.src.decl_line.unwrap();
    let vals = advanced_vals(&v);
    apply(&mut v, update_field("basic_rw", "field1", vals));
    assert!(v.edit_err.is_none());
    let f2 = def_field(&v, "basic_rw", "field1");
    assert!(!f2.signed);
    assert_eq!(f2.hw_acc, HwAcc::RW);
    assert_eq!(f2.nb_frac, 2);
    let edits = v.edits.prop_edits.get(&decl_line).expect("prop_edits recorded");
    assert_eq!(written(&edits[FieldProp::Signed.rank()]), None, "signed line removed");
    assert_eq!(written(&edits[FieldProp::HwAcc.rank()]), Some("hw rw"));
    assert_eq!(written(&edits[FieldProp::NbFrac.rank()]), Some("nbfrac 2"));
    assert!(kept(&edits[FieldProp::Limit.rank()]));
    assert!(v.has_unsaved());
}

#[test]
fn apply_update_field_description_block_edit_is_tracked() {
    let mut v = load_with_basic_rw_selected();
    let f = def_field(&v, "basic_rw", "field0");
    assert_eq!(
        f.description.public,
        "Field 8b\nMore detailled information on current field\nCan span multiple lines."
    );
    let decl_line = f.src.decl_line.unwrap();
    let mut vals = vals_of(&f);
    vals.desc = "Field 8b\nMore detailled information on current field.\nNow with a third line.".to_owned();
    apply(&mut v, update_field("basic_rw", "field0", vals));
    assert!(v.edit_err.is_none());

    let f2 = def_field(&v, "basic_rw", "field0");
    assert_eq!(
        f2.description.public,
        "Field 8b\nMore detailled information on current field.\nNow with a third line."
    );
    assert!(!v.edits.dirty.contains(&decl_line), "first line unchanged: declaration line not dirty");
    match v.edits.desc_block_edits.get(&decl_line).expect("desc_block_edits recorded") {
        BlockEdit::Write(body) => assert_eq!(
            *body,
            vec![
                "description:".to_owned(),
                "  More detailled information on current field.".to_owned(),
                "  Now with a third line.".to_owned(),
            ]
        ),
        BlockEdit::Remove => panic!("block was not deleted"),
    }
    assert!(v.has_unsaved());
}

#[test]
fn save_file_persists_advanced_props_to_disk() {
    let mut v = load_with_basic_rw_selected();
    let vals = advanced_vals(&v);
    apply(&mut v, update_field("basic_rw", "field1", vals));
    assert!(v.edit_err.is_none());
    let after = save(&mut v, TEST_RIF);

    assert!(has_line(&after, "hw rw"), "hw line missing:\n{after}");
    assert!(has_line(&after, "nbfrac 2"), "nbfrac line missing:\n{after}");
    assert!(!has_line(&after, "signed"), "signed line not removed:\n{after}");
    assert!(after.contains("// Main parameters"));
    assert!(after.contains("- field2 = 0x45  31:16 \"Field with hexa init\""));
    let f2 = def_field(&v, "basic_rw", "field1");
    assert_eq!(f2.hw_acc, HwAcc::RW);
    assert_eq!(f2.nb_frac, 2);
    assert!(!f2.signed);
}

#[test]
fn save_file_persists_array_pos_incr_edit_to_disk() {
    let mut v = open(TEST_RIF);
    let f = def_field(&v, "reg_fields_pos", "coeffs");
    assert_eq!(f.array_pos_incr, 4);
    let mut vals = vals_of(&f);
    vals.array_pos_incr = 2;
    vals.changed = vec![FieldProp::ArrayPosIncr];
    apply(&mut v, update_field("reg_fields_pos", "coeffs", vals));
    assert!(v.edit_err.is_none());
    let after = save(&mut v, TEST_RIF);

    assert!(has_line(&after, "arrayPosIncr 2"), "arrayPosIncr line not updated:\n{after}");
    assert!(!after.contains("arrayPosIncr 4"), "old arrayPosIncr value should be gone:\n{after}");
    assert!(after.contains("- coeffs[4] = {0,1,2,3} 7:0 \"Coefficient 0 to 3\""));
    assert!(after.contains("- coeffs[4] = {4,5,6,7} 7:0 \"Coefficient 4 to 7\""));
    assert_eq!(def_field(&v, "reg_fields_pos", "coeffs").array_pos_incr, 2);
}

#[test]
fn save_file_pulse_field_round_trips_without_duplicating_property_line() {
    let mut v = open(TEST_RIF);
    let f = def_field(&v, "reg_group1", "f_pulse_c");
    assert!(matches!(f.sw_kind, SwKind::W1Pulse(false, _)), "f_pulse_c starts as a combinatorial pulse");
    let mut vals = vals_of(&f);
    vals.desc = "Combinatorial Pulse (edited)".to_owned();
    vals.changed = vec![FieldProp::Pulse];
    apply(&mut v, update_field("reg_group1", "f_pulse_c", vals));
    assert!(v.edit_err.is_none());
    let after = save(&mut v, TEST_RIF);

    let pulse_lines: Vec<&str> =
        after.lines().filter(|l| l.trim() == "pulse comb" || l.trim().starts_with("pulse")).collect();
    assert_eq!(pulse_lines.len(), 1, "expected exactly one pulse spec, got: {pulse_lines:?}\n{after}");
    let f2 = def_field(&v, "reg_group1", "f_pulse_c");
    assert!(matches!(f2.sw_kind, SwKind::W1Pulse(false, _)), "still a combinatorial pulse");
}

#[test]
fn save_file_switching_off_pulse_removes_property_line() {
    let mut v = open(TEST_RIF);
    let f = def_field(&v, "reg_group1", "f_pulse_r");
    assert!(matches!(f.sw_kind, SwKind::W1Pulse(_, _)), "f_pulse_r starts as a pulse");
    let mut vals = vals_of(&f);
    vals.sw_kind = SwKind::ReadWrite;
    vals.changed = vec![FieldProp::Pulse];
    apply(&mut v, update_field("reg_group1", "f_pulse_r", vals));
    assert!(v.edit_err.is_none());
    let after = save(&mut v, TEST_RIF);

    let block: Vec<&str> = after
        .lines()
        .skip_while(|l| !l.contains("f_pulse_r"))
        .skip(1)
        .take_while(|l| !l.trim_start().starts_with("- "))
        .collect();
    assert!(!block.iter().any(|l| l.trim().starts_with("pulse")), "stale pulse line left behind:\n{block:?}");
    let f2 = def_field(&v, "reg_group1", "f_pulse_r");
    assert!(!matches!(f2.sw_kind, SwKind::W1Pulse(_, _)), "no longer a pulse");
    assert!(after.contains("Field stays high one cycle after write"), "description block dropped:\n{after}");
    assert_eq!(f2.description.public, "Registered Pulse\nField stays high one cycle after write");
}

fn no_reprs(ed: &EnumEditor) -> Vec<Option<String>> {
    ed.rows.iter().map(|_| None).collect()
}

#[test]
fn enum_editor_add_entry_prefills_a_valid_incrementing_value() {
    let mut ed = EnumEditor::open("test_rif", "doc:basic_rw_field0".to_owned(), &Vec::new(), false, 8);
    assert_eq!(ed.rows.len(), 1);
    assert_eq!(ed.rows[0].value, "0", "first entry defaults to 0");
    ed.rows[0].name = "IDLE".to_owned();

    ed.rows.push(EnumEntryRow::next_default(&ed.rows));
    assert_eq!(ed.rows[1].value, "1", "second entry defaults to previous + 1");
    ed.rows[1].name = "RUN".to_owned();

    let values = ed.build_values(&no_reprs(&ed)).expect("rows with auto-filled values should parse");
    assert_eq!(values.len(), 2);
    assert_eq!(values[0].name, "IDLE");
    assert_eq!(values[0].value, 0);
    assert_eq!(values[1].name, "RUN");
    assert_eq!(values[1].value, 1);
}

/// A field as the compiled register has it.
fn placed(f: &FieldDef, lsb: u8, width: u16) -> FieldInst {
    FieldInst {
        name: f.name.clone(),
        lsb,
        width: FieldSpan::Fixed(width),
        reset: ResetInt::Unsigned(0),
        sw_kind: f.sw_kind.clone(),
        description: f.description.clone(),
        partial: f.partial,
        array_dim: match f.array {
            Dim::Value(n) => n as u16,
            Dim::Param(_) => 0,
        },
    }
}

#[test]
fn grouped_register_group_type_differs_from_reg_type_and_drives_enum_naming() {
    let v = open(TEST_RIF);
    let reg1 = regdef(&v, "reg_group1");
    assert_eq!(reg1.name, "reg_group1");
    assert_eq!(reg1.group_name, "reg_group", "the group type is the shared name, not its own type name");

    let def = def_field(&v, "reg_group1", "field4");
    let f = placed(&def, 8, 8);
    let mut ed = FieldEditor::from_field(
        ("reg_group1".to_owned(), "field4".to_owned()),
        &f,
        &def,
        &rif(&v, "test_rif").enum_defs,
        "test_rif",
        &reg1.group_name,
        None,
    );
    assert_eq!(ed.enum_candidate(), None);
    ed.buf.enum_mode = EnumMode::Doc;
    assert_eq!(ed.enum_candidate(), Some("doc:reg_group_field4".to_owned()));
}

#[test]
fn doc_enum_button_flips_to_edit_entries_after_creating_it() {
    let mut v = load_with_basic_rw_selected();
    assert!(matches!(def_field(&v, "basic_rw", "field1").enum_kind, EnumRef::Plain));
    let rif_type = selected_rif_type(&v);
    let doc_name = "doc:basic_rw_field1".to_owned();
    let def_exists = |v: &RifViewer| rif(v, "test_rif").enum_defs.iter().any(|d| d.name == doc_name);
    assert!(!def_exists(&v), "doc enum shouldn't exist yet");

    let mut ed = EnumEditor::open(&rif_type, doc_name.clone(), &Vec::new(), false, 8);
    assert_eq!(ed.rows.len(), 1, "brand new enum starts with one prefilled entry");
    ed.rows[0].name = "IDLE".to_owned();
    let values = ed.build_values(&no_reprs(&ed)).expect("auto-filled value should parse");
    apply(&mut v, EditAction::UpdateEnum { rif_type, name: doc_name.clone(), values });
    assert!(v.edit_err.is_none());
    assert!(def_exists(&v), "definition should exist after Save");
}

fn entry(name: &str, value: u8, text: &str) -> EnumItem {
    EnumItem { name: name.to_owned(), value, repr: None, description: desc(text), decl_line: None }
}

#[test]
fn save_file_persists_new_enum_with_entries_to_disk() {
    let mut v = open(TEST_RIF);
    let f = def_field(&v, "basic_rw", "field0");
    assert!(matches!(f.enum_kind, EnumRef::Plain), "field0 starts with no enum");
    let mut vals = vals_of(&f);
    vals.enum_kind = EnumRef::Type("e_basic_rw_field0".to_owned());
    vals.changed = vec![FieldProp::EnumKind];
    apply(&mut v, update_field("basic_rw", "field0", vals));
    assert!(v.edit_err.is_none());
    let named = |v: &RifViewer| match def_field(v, "basic_rw", "field0").enum_kind {
        EnumRef::Type(n) => n,
        other => panic!("unexpected enum {other:?}"),
    };
    assert_eq!(named(&v), "e_basic_rw_field0");

    apply(
        &mut v,
        EditAction::UpdateEnum {
            rif_type: "test_rif".to_owned(),
            name: "e_basic_rw_field0".to_owned(),
            values: vec![entry("IDLE", 0, "Idle"), entry("RUN", 1, "Running")],
        },
    );
    assert!(v.edit_err.is_none());
    let after = save(&mut v, TEST_RIF);

    assert!(has_line(&after, "enum e_basic_rw_field0"), "enum header missing:\n{after}");
    assert!(has_line(&after, "- IDLE = 0 \"Idle\""), "IDLE entry missing:\n{after}");
    assert!(has_line(&after, "- RUN = 1 \"Running\""), "RUN entry missing:\n{after}");
    assert!(after.contains("- field2 = 0x45  31:16 \"Field with hexa init\""));
    assert!(has_line(&after, "signed"));

    assert_eq!(named(&v), "e_basic_rw_field0");
    let def = rif(&v, "test_rif").enum_defs.iter().find(|d| d.name == "e_basic_rw_field0").expect("def persisted");
    assert!(def.decl_line.is_some());
    assert_eq!(def.values.len(), 2);
    assert!(def.values.iter().all(|e| e.decl_line.is_some()));
}

#[test]
fn save_file_persists_new_entry_on_existing_enum_to_disk() {
    let mut v = open(TEST_RIF);
    let name = match def_field(&v, "reg_group0", "field1").enum_kind {
        EnumRef::Type(n) => n,
        other => panic!("field1 has a named enum, not {other:?}"),
    };
    let def = rif(&v, "test_rif").enum_defs.iter().find(|d| d.name == name).expect("enum already declared");
    assert!(def.decl_line.is_some(), "enum header already exists in the file");
    assert_eq!(def.values.len(), 2, "starts with its 2 declared entries");
    let mut values = def.values.clone();
    values.push(entry("F1_VAL2", 2, "F1 Value 2"));

    apply(&mut v, EditAction::UpdateEnum { rif_type: "test_rif".to_owned(), name: name.clone(), values });
    assert!(v.edit_err.is_none());
    assert!(v.edits.enum_dirty.is_empty(), "existing entries were untouched");
    assert!(v.edits.enum_deleted.is_empty(), "nothing was removed");
    let after = save(&mut v, TEST_RIF);

    assert!(has_line(&after, "- F1_VAL2 = 2 \"F1 Value 2\""), "new entry missing:\n{after}");
    assert!(has_line(&after, "- F1_VAL0 = 0 \"F1 Value 0\""), "original entry 0 missing:\n{after}");
    assert!(has_line(&after, "- F1_VAL1 = 1 \"F1 Value 1\""), "original entry 1 missing:\n{after}");
    assert!(after.contains("partial 0"));

    let def = rif(&v, "test_rif").enum_defs.iter().find(|d| d.name == name).expect("def still there");
    assert_eq!(def.values.len(), 3);
    assert!(def.values.iter().all(|e| e.decl_line.is_some()), "all entries got real source lines");
}

fn mux_of(top: &str, leaves: &[(&str, &str)]) -> Source {
    Source {
        top: Top::Rifmux(top.to_owned()),
        rifs: leaves.iter().map(|(name, text)| RifEntry { key: (*name).to_owned(), rif: load_rif(text) }).collect(),
        rifmux: vec![Mux {
            name: top.to_owned(),
            items: leaves.iter().map(|(name, _)| MuxItem { rif: Some((*name).to_owned()) }).collect(),
        }],
        paths: leaves
            .iter()
            .map(|(name, _)| PathEntry { key: (*name).to_owned(), dir: "designs".to_owned() })
            .collect(),
    }
}

#[test]
fn save_file_persists_edit_to_rifmux_sub_rif_in_its_own_file() {
    let mut v = RifViewer::new();
    v.start_open();
    v.finish_open(Opened::Compiled(mux_of("top_mux", &[("leaf", LEAF)]), "top_mux".to_owned()));
    assert!(v.last_err.is_none());
    v.selected.path.push("leaf_inst".to_owned());
    v.selected.path.push("basic_rw".to_owned());
    v.selected.item = SelectedItem::Field("field0".to_owned());
    let rif_type = rif_type_of(&vec![None, Some("leaf".to_owned()), None]);
    assert_eq!(rif_type, "leaf", "selection should resolve to the sub-RIF, not the Rifmux");

    let mut vals = vals_of(&field_in(&v, "leaf", "basic_rw", "field0"));
    vals.desc = "Field A (edited)".to_owned();
    apply(&mut v, update_field_in("leaf", "basic_rw", "field0", vals));
    assert!(v.edit_err.is_none());
    assert_eq!(v.editing_rif.as_deref(), Some("leaf"), "the edit belongs to the sub-RIF");

    assert_eq!(v.save_target(), Some("leaf".to_owned()));
    match v.save_place(&"leaf".to_owned()) {
        Ok(RifFile::In(dir)) => assert_eq!(dir, "designs"),
        other => panic!("the sub-RIF has its own file, not {other:?}"),
    }
    assert!(matches!(v.resolve_rif_file(&"top_mux".to_owned()), Some(RifFile::Opened)));
    let after = v.save_rif_file(&"leaf".to_owned(), LEAF).unwrap();
    assert!(after.contains("Field A (edited)"), "edit missing from leaf.rif:\n{after}");
    v.finish_save(Reread::Compiled(mux_of("top_mux", &[("leaf", &after)])));
    assert!(v.edit_err.is_none());

    let f2 = field_in(&v, "leaf", "basic_rw", "field0");
    assert_eq!(f2.description.short(false), "Field A (edited)");
}

#[test]
fn apply_update_field_to_existing_enum_type_marks_unsaved() {
    let mut v = load_with_basic_rw_selected();
    let existing = match def_field(&v, "reg_group0", "field1").enum_kind {
        EnumRef::Type(n) => n,
        other => panic!("field1 has a type enum, not {other:?}"),
    };
    let f = def_field(&v, "basic_rw", "field0");
    assert!(matches!(f.enum_kind, EnumRef::Plain));
    let mut vals = vals_of(&f);
    vals.enum_kind = EnumRef::Type(existing.clone());
    vals.changed = vec![FieldProp::EnumKind];
    apply(&mut v, update_field("basic_rw", "field0", vals));
    assert!(v.edit_err.is_none());
    match def_field(&v, "basic_rw", "field0").enum_kind {
        EnumRef::Type(n) => assert_eq!(n, existing),
        other => panic!("unexpected enum {other:?}"),
    }
    assert!(v.has_unsaved(), "picking an existing enum type is a prop edit like any other");
}

fn to(name: &str, msb: u8, lsb: u8) -> FieldMove {
    FieldMove { name: name.to_owned(), pos: BitPos::MsbLsb(Dim::Value(msb), Dim::Value(lsb)) }
}

#[test]
fn apply_move_field_swaps_positions() {
    let mut v = load_with_basic_rw_selected();
    assert_eq!(lsb_of(&def_field(&v, "basic_rw", "field0")), 0);
    assert_eq!(lsb_of(&def_field(&v, "basic_rw", "field1")), 8);
    let rif_type = selected_rif_type(&v);
    apply(
        &mut v,
        EditAction::MoveField {
            rif_type,
            reg_type: "basic_rw".to_owned(),
            moves: vec![to("field0", 15, 8), to("field1", 7, 0)],
        },
    );
    assert!(v.edit_err.is_none());
    assert_eq!(lsb_of(&def_field(&v, "basic_rw", "field0")), 8, "field0 should have moved up to 15:8");
    assert_eq!(lsb_of(&def_field(&v, "basic_rw", "field1")), 0, "field1 should have moved down to 7:0");
}

#[test]
fn apply_move_field_preserves_partial_offset() {
    let mut v = open(TEST_RIF);
    let before = def_field(&v, "reg_group0", "field2");
    assert_eq!(before.partial.0, Some(0), "field2 starts as partial 0");
    apply(
        &mut v,
        EditAction::MoveField {
            rif_type: "test_rif".to_owned(),
            reg_type: "reg_group0".to_owned(),
            moves: vec![to("field1", 31, 24), to("field2", 23, 8)],
        },
    );
    assert!(v.edit_err.is_none());
    let after = def_field(&v, "reg_group0", "field2");
    assert_eq!(after.partial.0, Some(0), "partial offset is untouched by the position swap");
    assert!(matches!(after.pos, BitPos::MsbLsb(Dim::Value(23), Dim::Value(8))));
}

#[test]
fn is_field_reorderable_allows_pulse_and_partial_blocks_array() {
    let v = open(TEST_RIF);
    let f_pulse_c = placed(&def_field(&v, "reg_group1", "f_pulse_c"), 0, 1);
    let f_pulse_r = placed(&def_field(&v, "reg_group1", "f_pulse_r"), 1, 1);
    let field4 = placed(&def_field(&v, "reg_group1", "field4"), 8, 8);
    let field2 = placed(&def_field(&v, "reg_group1", "field2"), 16, 16);
    assert!(RifViewer::is_field_reorderable(&f_pulse_c), "pulse fields are reorderable");
    assert!(RifViewer::is_field_reorderable(&f_pulse_r), "pulse fields are reorderable");
    assert!(RifViewer::is_field_reorderable(&field4), "field4 itself has a concrete position");
    assert!(RifViewer::is_field_reorderable(&field2), "partial fields are reorderable too");
    let coeffs = placed(&def_field(&v, "reg_fields_a0", "coeffs"), 0, 8);
    assert!(!RifViewer::is_field_reorderable(&coeffs), "array elements stay blocked");
}

#[test]
fn is_field_editable_allows_array_unless_register_is_array() {
    let v = open(TEST_RIF);
    let def_pos = def_field(&v, "reg_fields_pos", "coeffs");
    assert!(
        RifViewer::is_field_editable(false, &placed(&def_pos, 0, 3), &def_pos),
        "a plain array field (fits in one register) is editable"
    );
    let v_arr = open(MINI_REG_ARRAY);
    let reg_arr = regdef_in(&v_arr, "mini_arr", "reg_arr");
    assert!(matches!(reg_arr.array, Dim::Value(4)), "reg_arr is itself a register-array");
    let def_arr = field_in(&v_arr, "mini_arr", "reg_arr", "coeffs");
    assert!(
        !RifViewer::is_field_editable(true, &placed(&def_arr, 0, 4), &def_arr),
        "a field array inside a register-array stays blocked"
    );
}

#[test]
fn can_delete_counts_field_definitions_not_array_elements() {
    let v = load_with_basic_rw_selected();
    let d = regdef(&v, "reg_fields_pos");
    assert_eq!(d.fields.len(), 1, "reg_fields_pos has exactly one field definition");
    assert!(!RifViewer::field_can_delete(&d), "sole array field must not be deletable");
    assert!(matches!(d.fields[0].array, Dim::Value(8)), "8 rows, one per array element");
    assert!(RifViewer::field_can_delete(&regdef(&v, "basic_rw")));
}

#[test]
fn field_has_array_partial_flags_both_halves_of_the_split() {
    let v = load_with_basic_rw_selected();
    let r = rif(&v, "test_rif");
    assert!(
        field_has_array_partial(r, &"reg_fields_a".to_owned(), &"coeffs".to_owned()),
        "the base half (reg_fields_a0) must be locked too, even though its own partial.1 is 0"
    );
    assert!(
        !field_has_array_partial(r, &"reg_fields_pos".to_owned(), &"coeffs".to_owned()),
        "a plain (non-arrayPartial) array field must not be locked"
    );
}

fn resets(f: &FieldDef) -> Vec<u128> {
    f.reset.iter().map(unsigned).collect()
}

#[test]
fn update_field_preserves_array_reset_list_on_unrelated_edit() {
    let mut v = load_with_basic_rw_selected();
    let f = def_field(&v, "reg_fields_a1", "coeffs");
    assert_eq!(resets(&f), vec![4, 5, 6, 7]);
    let mut vals = vals_of(&f);
    vals.name = "coeffs_renamed".to_owned();
    apply(&mut v, update_field("reg_fields_a1", "coeffs", vals));
    assert!(v.edit_err.is_none());
    let f2 = def_field(&v, "reg_fields_a1", "coeffs_renamed");
    assert_eq!(resets(&f2), vec![4, 5, 6, 7], "reset list must survive an unrelated rename");
}

#[test]
fn update_field_shrinking_array_collapses_stale_reset() {
    let mut v = load_with_basic_rw_selected();
    let f = def_field(&v, "reg_fields_a1", "coeffs");
    assert!(matches!(f.array, Dim::Value(4)));
    let mut vals = vals_of(&f);
    vals.array = Dim::Value(2);
    apply(&mut v, update_field("reg_fields_a1", "coeffs", vals));
    assert!(v.edit_err.is_none());
    let f2 = def_field(&v, "reg_fields_a1", "coeffs");
    assert!(matches!(f2.array, Dim::Value(2)));
    assert_eq!(f2.reset.len(), 1, "stale 4-element reset list must collapse on resize");
    assert_eq!(unsigned(&f2.reset[0]), 4, "collapses to the first element's value");
}

#[test]
fn reordered_pos_preserves_generic_width_param() {
    let generic = FieldSpan::Generic("MY_GEN".to_owned(), 4);
    match reordered_pos(&generic, 4) {
        BitPos::LsbSize(Dim::Value(lsb), Dim::Param(name)) => {
            assert_eq!(lsb, 4);
            assert_eq!(name, "MY_GEN");
        }
        other => panic!("expected LsbSize(Value, Param) for a generic-width field, got {other:?}"),
    }
    let concrete = FieldSpan::Fixed(8);
    match reordered_pos(&concrete, 4) {
        BitPos::MsbLsb(Dim::Value(msb), Dim::Value(lsb)) => {
            assert_eq!(lsb, 4);
            assert_eq!(msb, 11);
        }
        other => panic!("expected MsbLsb(Value, Value) for a concrete-width field, got {other:?}"),
    }
}

/// The test file with a register selected, and none of its fields.
fn load_with_register_selected() -> RifViewer {
    let mut v = load_with_basic_rw_selected();
    v.selected.item = SelectedItem::Nothing;
    v
}

#[test]
fn apply_update_regdef_renames_and_toggles_pulse() {
    let mut v = load_with_register_selected();
    let d = regdef(&v, "basic_rw");
    assert!(d.pulse.iter().any(|p| matches!(p, Pulse::Write(_))), "basic_rw starts with wrPulse");
    assert!(!d.pulse.iter().any(|p| matches!(p, Pulse::Read(_))), "basic_rw starts without rdPulse");
    let decl_line = d.src.decl_line.unwrap();
    let mut vals = reg_vals(&d);
    vals.name = "basic_rw2".to_owned();
    vals.pulse = vec![Pulse::Write("clk_rif".to_owned()), Pulse::Read(String::new())];
    apply(&mut v, update_reg("test_rif", "basic_rw", "basic_rw", vals));
    assert!(v.edit_err.is_none());

    let d2 = regdef(&v, "basic_rw2");
    assert_eq!(d2.name, "basic_rw2");
    assert_eq!(d2.group_name, "basic_rw2", "implicit group must be renamed in lockstep");
    assert!(d2.pulse.iter().any(|p| matches!(p, Pulse::Read(c) if c.is_empty())), "rdPulse comb added");

    assert!(v.edits.reg_dirty.contains(&decl_line));
    let edits = v.edits.reg_prop_edits.get(&decl_line).expect("prop edit recorded");
    assert_eq!(written(&edits[RegProp::RdPulse.rank()]), Some("rdPulse comb"));
    assert!(kept(&edits[RegProp::WrPulse.rank()]), "unchanged wrPulse must not be recorded");
    assert!(v.has_unsaved());
    assert_eq!(v.selected.path.last(), Some(&"basic_rw2".to_owned()));
}

#[test]
fn apply_update_regdef_edits_visibility_clock_reset_external() {
    let mut v = load_with_register_selected();
    let d = regdef(&v, "basic_rw");
    assert_eq!(d.visibility, Vis::Full);
    assert_eq!(d.clk, None);
    assert_eq!(d.rst, None);
    assert_eq!(d.external, External::Internal);
    let decl_line = d.src.decl_line.unwrap();
    let mut vals = reg_vals(&d);
    vals.visibility = Vis::Hidden;
    vals.clk = Some("myclk".to_owned());
    vals.rst = Some("myrst".to_owned());
    vals.external = External::ReadWrite;
    apply(&mut v, update_reg("test_rif", "basic_rw", "basic_rw", vals));
    assert!(v.edit_err.is_none());

    let d2 = regdef(&v, "basic_rw");
    assert_eq!(d2.visibility, Vis::Hidden);
    assert_eq!(d2.clk, Some("myclk".to_owned()));
    assert_eq!(d2.rst, Some("myrst".to_owned()));
    assert_eq!(d2.external, External::ReadWrite);

    assert!(!v.edits.reg_dirty.contains(&decl_line), "decl line unchanged: name wasn't touched");
    let edits = v.edits.reg_prop_edits.get(&decl_line).expect("prop edits recorded");
    assert_eq!(written(&edits[RegProp::Visibility.rank()]), Some("hidden"));
    assert_eq!(written(&edits[RegProp::Clock.rank()]), Some("clock myclk"));
    assert_eq!(written(&edits[RegProp::Reset.rank()]), Some("hwReset myrst"));
    assert_eq!(written(&edits[RegProp::External.rank()]), Some("external"));
}

#[test]
fn apply_update_regdef_edits_interrupt_settings() {
    let mut v = load_with_register_selected();
    let d = regdef(&v, "interrupt");
    assert_eq!(d.interrupt[0].trigger, Trigger::Rising);
    let decl_line = d.src.decl_line.unwrap();
    let mut vals = reg_vals(&d);
    vals.intr = Some(Some(RegIntrVals {
        trigger: Trigger::Falling,
        clear: IntrClear::Read,
        enable: Some(Reset::Unsigned(5)),
        mask: None,
        pending: false,
    }));
    apply(&mut v, update_reg("test_rif", "interrupt", "interrupt", vals));
    assert!(v.edit_err.is_none());

    let d2 = regdef(&v, "interrupt");
    let intr2 = &d2.interrupt[0];
    assert_eq!(intr2.trigger, Trigger::Falling);
    assert_eq!(intr2.clear, IntrClear::Read);
    assert!(matches!(intr2.enable, Some(Reset::Unsigned(5))));
    assert!(intr2.mask.is_none());
    assert!(!intr2.pending);

    assert_eq!(first_trigger(&def_field(&v, "interrupt", "event_0")), Some(Trigger::Falling));
    assert_eq!(first_trigger(&def_field(&v, "interrupt", "event_1")), Some(Trigger::High));

    let edits = v.edits.reg_prop_edits.get(&decl_line).expect("prop edit recorded");
    assert_eq!(written(&edits[RegProp::Interrupt.rank()]), Some("interrupt falling rclr en=5"));
    assert!(v.has_unsaved());
}

#[test]
fn apply_update_regdef_edits_converts_plain_register_to_interrupt() {
    let mut v = load_with_register_selected();
    let d = regdef(&v, "basic_rw");
    assert!(d.interrupt.is_empty(), "basic_rw starts as a plain register");
    let decl_line = d.src.decl_line.unwrap();
    let mut vals = reg_vals(&d);
    vals.intr = Some(Some(RegIntrVals {
        trigger: Trigger::Edge,
        clear: IntrClear::Write1,
        enable: Some(Reset::Unsigned(0)),
        mask: None,
        pending: true,
    }));
    apply(&mut v, update_reg("test_rif", "basic_rw", "basic_rw", vals));
    assert!(v.edit_err.is_none());

    let d2 = regdef(&v, "basic_rw");
    let intr2 = d2.interrupt.first().expect("interrupt just created");
    assert_eq!(intr2.trigger, Trigger::Edge);
    assert_eq!(intr2.clear, IntrClear::Write1);
    assert!(matches!(intr2.enable, Some(Reset::Unsigned(0))));
    assert!(intr2.pending);

    for name in ["field0", "field1", "field2"] {
        let f = def_field(&v, "basic_rw", name);
        assert_eq!(first_trigger(&f), Some(Trigger::Edge), "{name}");
        assert!(matches!(f.sw_kind, SwKind::W1Clr), "{name}");
    }

    let edits = v.edits.reg_prop_edits.get(&decl_line).expect("prop edit recorded");
    assert_eq!(written(&edits[RegProp::Interrupt.rank()]), Some("interrupt edge w1clr en=0 pending"));
    assert!(v.has_unsaved());
}

#[test]
fn apply_update_regdef_edits_removes_interrupt() {
    let mut v = load_with_register_selected();
    apply(
        &mut v,
        EditAction::UpdateFieldIntrDesc {
            rif_type: "test_rif".to_owned(),
            reg_type: "interrupt".to_owned(),
            field_name: "event_1".to_owned(),
            kind: IntrKind::Pending,
            desc: "event_1's own pending description".to_owned(),
        },
    );
    assert!(v.edit_err.is_none());

    let d = regdef(&v, "interrupt");
    assert!(!d.interrupt.is_empty(), "interrupt register starts with a primary interrupt");
    let decl_line = d.src.decl_line.unwrap();
    let event_0_line = def_field(&v, "interrupt", "event_0").src.decl_line.unwrap();
    let event_1_line = def_field(&v, "interrupt", "event_1").src.decl_line.unwrap();

    let mut vals = reg_vals(&d);
    vals.intr = Some(None);
    apply(&mut v, update_reg("test_rif", "interrupt", "interrupt", vals));
    assert!(v.edit_err.is_none());

    let d2 = regdef(&v, "interrupt");
    assert!(d2.interrupt.is_empty(), "interrupt removed");
    for name in ["event_0", "event_1"] {
        let f = def_field(&v, "interrupt", name);
        assert!(f.hw_kind.is_empty(), "{name} reverted to a plain field");
        assert!(matches!(f.sw_kind, SwKind::ReadWrite), "{name}");
        assert!(f.intr_ovr.trigger.is_none() && f.intr_ovr.clear.is_none(), "{name}");
        assert!(f.intr_desc.is_none(), "{name}");
    }

    let reg_edits = v.edits.reg_prop_edits.get(&decl_line).expect("prop edit recorded");
    assert_eq!(written(&reg_edits[RegProp::Interrupt.rank()]), None, "interrupt line deleted");

    let blocks = v.edits.reg_intr_desc_block_edits.get(&decl_line).expect("description removals recorded");
    for kind in [IntrKind::Enable, IntrKind::Mask, IntrKind::Pending] {
        let k = intr_rank(kind).unwrap();
        assert!(matches!(blocks[k], Some(BlockEdit::Remove)), "{kind:?} description block deleted");
    }

    let field_edits = v.edits.prop_edits.get(&event_1_line).expect("field prop edit recorded");
    assert_eq!(written(&field_edits[FieldProp::Interrupt.rank()]), None, "event_1's own override line deleted");
    assert!(!v.edits.prop_edits.contains_key(&event_0_line), "event_0 never had its own override line");

    let field_blocks = v.edits.field_intr_desc_block_edits.get(&event_1_line).expect("block removal recorded");
    assert!(matches!(field_blocks[intr_rank(IntrKind::Pending).unwrap()], Some(BlockEdit::Remove)));
    assert!(v.has_unsaved());
}

/// Gives the `interrupt` register an alternative block, or takes it away.
fn set_alt(v: &mut RifViewer, alt: Option<RegAltVals>) {
    let mut vals = reg_vals(&regdef(v, "interrupt"));
    vals.alt = Some(alt);
    apply(v, update_reg("test_rif", "interrupt", "interrupt", vals));
    assert!(v.edit_err.is_none());
}

#[test]
fn apply_update_regdef_edits_creates_alt_interrupt() {
    let mut v = load_with_register_selected();
    let d = regdef(&v, "interrupt");
    assert_eq!(d.interrupt.len(), 1, "interrupt register starts with a primary interrupt and no alt");
    let decl_line = d.src.decl_line.unwrap();
    set_alt(&mut v, Some(alt_vals("aux", Trigger::Falling, IntrClear::Read, Some(5), None, false)));

    let d2 = regdef(&v, "interrupt");
    assert_eq!(d2.interrupt.len(), 2, "alt block created");
    let alt = &d2.interrupt[1];
    assert_eq!(alt.name, "aux");
    assert_eq!(alt.trigger, Trigger::Falling);
    assert_eq!(alt.clear, IntrClear::Read);
    assert!(matches!(alt.enable, Some(Reset::Unsigned(5))));
    assert!(alt.mask.is_none());
    assert!(!alt.pending);
    assert_eq!(d2.interrupt[0].trigger, Trigger::Rising);
    assert_eq!(first_trigger(&def_field(&v, "interrupt", "event_0")), Some(Trigger::Rising));

    let edits = v.edits.reg_prop_edits.get(&decl_line).expect("prop edit recorded");
    assert_eq!(written(&edits[RegProp::InterruptAlt.rank()]), Some("alt aux falling rclr en=5"));
    assert!(v.has_unsaved());
}

#[test]
fn apply_update_regdef_edits_updates_alt_interrupt_settings() {
    let mut v = load_with_register_selected();
    let decl_line = regdef(&v, "interrupt").src.decl_line.unwrap();
    set_alt(&mut v, Some(alt_vals("aux", Trigger::High, IntrClear::Hw, None, None, false)));
    set_alt(&mut v, Some(alt_vals("aux", Trigger::High, IntrClear::Hw, None, Some(0xF), true)));

    let d3 = regdef(&v, "interrupt");
    assert_eq!(d3.interrupt.len(), 2, "still exactly one alt block");
    assert!(matches!(d3.interrupt[1].mask, Some(Reset::Unsigned(0xF))));
    assert!(d3.interrupt[1].pending);

    let edits = v.edits.reg_prop_edits.get(&decl_line).expect("prop edit recorded");
    assert_eq!(written(&edits[RegProp::InterruptAlt.rank()]), Some("alt aux high hwclr mask=0xf pending"));
    assert!(v.has_unsaved());
}

#[test]
fn apply_update_regdef_edits_removes_alt_interrupt() {
    let mut v = load_with_register_selected();
    let decl_line = regdef(&v, "interrupt").src.decl_line.unwrap();
    set_alt(&mut v, Some(alt_vals("aux", Trigger::High, IntrClear::Hw, Some(1), None, false)));
    assert_eq!(regdef(&v, "interrupt").interrupt.len(), 2);
    set_alt(&mut v, None);

    let d2 = regdef(&v, "interrupt");
    assert_eq!(d2.interrupt.len(), 1, "alt removed, primary untouched");
    assert_eq!(d2.interrupt[0].trigger, Trigger::Rising, "primary interrupt unaffected");

    let edits = v.edits.reg_prop_edits.get(&decl_line).expect("prop edit recorded");
    assert_eq!(written(&edits[RegProp::InterruptAlt.rank()]), None, "alt line deleted");
    assert!(v.has_unsaved());
}

#[test]
fn apply_update_regdef_edits_removes_interrupt_also_clears_alt() {
    let mut v = load_with_register_selected();
    let d = regdef(&v, "interrupt");
    let decl_line = d.src.decl_line.unwrap();
    set_alt(&mut v, Some(alt_vals("aux", Trigger::High, IntrClear::Hw, None, None, false)));
    assert_eq!(regdef(&v, "interrupt").interrupt.len(), 2);

    let mut vals = reg_vals(&d);
    vals.intr = Some(None);
    apply(&mut v, update_reg("test_rif", "interrupt", "interrupt", vals));
    assert!(v.edit_err.is_none());

    assert!(regdef(&v, "interrupt").interrupt.is_empty(), "both primary and alt removed together");
    let edits = v.edits.reg_prop_edits.get(&decl_line).expect("prop edit recorded");
    assert_eq!(written(&edits[RegProp::Interrupt.rank()]), None, "interrupt line deleted");
    assert_eq!(written(&edits[RegProp::InterruptAlt.rank()]), None, "alt line deleted too");
}

#[test]
fn apply_update_reg_intr_desc_edits_enable_description() {
    let mut v = load_with_register_selected();
    let decl_line = regdef(&v, "interrupt").src.decl_line.unwrap();
    apply(
        &mut v,
        EditAction::UpdateRegIntrDesc {
            rif_type: "test_rif".to_owned(),
            reg_type: "interrupt".to_owned(),
            kind: IntrKind::Enable,
            desc: "New enable description\nWith a second line.".to_owned(),
        },
    );
    assert!(v.edit_err.is_none());
    let d2 = regdef(&v, "interrupt");
    assert_eq!(d2.interrupt[0].description.enable.public, "New enable description\nWith a second line.");
    let blocks = v.edits.reg_intr_desc_block_edits.get(&decl_line).unwrap();
    assert!(blocks[intr_rank(IntrKind::Enable).unwrap()].is_some());
    assert!(v.has_unsaved());
}

#[test]
fn apply_update_field_sets_and_clears_intr_override() {
    let mut v = load_with_basic_rw_selected();
    let f = def_field(&v, "interrupt", "event_0");
    assert!(f.intr_ovr.trigger.is_none() && f.intr_ovr.clear.is_none(), "event_0 starts without an override");
    let decl_line = f.src.decl_line.unwrap();
    let base_vals = |ovr: IntrOvr| {
        let mut vals = vals_of(&f);
        vals.intr_ovr = Some(ovr);
        vals.reg_intr_default = IntrOvr { trigger: Some(Trigger::Rising), clear: Some(IntrClear::Write1) };
        vals.changed = vec![FieldProp::Interrupt];
        vals
    };

    let low = IntrOvr { trigger: Some(Trigger::Low), clear: None };
    apply(&mut v, update_field("interrupt", "event_0", base_vals(low)));
    assert!(v.edit_err.is_none());
    let f2 = def_field(&v, "interrupt", "event_0");
    assert!(f2.intr_ovr.trigger == Some(Trigger::Low) && f2.intr_ovr.clear.is_none());
    assert_eq!(first_trigger(&f2), Some(Trigger::Low));
    let edits = v.edits.prop_edits.get(&decl_line).expect("prop edit recorded");
    assert_eq!(written(&edits[FieldProp::Interrupt.rank()]), Some("interrupt low"));

    apply(&mut v, update_field("interrupt", "event_0", base_vals(no_ovr())));
    assert!(v.edit_err.is_none());
    let f3 = def_field(&v, "interrupt", "event_0");
    assert!(f3.intr_ovr.trigger.is_none() && f3.intr_ovr.clear.is_none());
    assert_eq!(first_trigger(&f3), Some(Trigger::Rising));
    let edits2 = v.edits.prop_edits.get(&decl_line).expect("prop edit recorded");
    assert_eq!(written(&edits2[FieldProp::Interrupt.rank()]), None, "cleared override deletes the line");
}

#[test]
fn apply_update_regdef_rename_cascades_into_manual_instances() {
    let mut v = open(MINI_MANUAL);
    let mut vals = reg_vals(&regdef_in(&v, "mini_rif", "ctrl"));
    vals.name = "ctrl2".to_owned();
    apply(&mut v, update_reg("mini_rif", "ctrl", "ctrl_a", vals));
    assert!(v.edit_err.is_none());
    assert_eq!(instance(&v, "mini_rif", "ctrl_a").reg_type, "ctrl2");
    assert_eq!(instance(&v, "mini_rif", "ctrl_b").reg_type, "ctrl2");
    assert_eq!(instance(&v, "mini_rif", "status").reg_type, "status");

    let mut vals = reg_vals(&regdef_in(&v, "mini_rif", "status"));
    vals.name = "status2".to_owned();
    apply(&mut v, update_reg("mini_rif", "status", "status", vals));
    assert!(v.edit_err.is_none());
    let page = &rif(&v, "mini_rif").pages[0];
    let status = page.instances.iter().find(|i| i.reg_type == "status2").expect("cascaded");
    assert_eq!(status.inst_name, "status2", "bare instance's display name must follow the rename too");
}

#[test]
fn a_new_register_name_reaches_every_instance_of_the_file() {
    let mut v = open(MINI_MANUAL);
    let mut vals = reg_vals(&regdef_in(&v, "mini_rif", "ctrl"));
    vals.name = "ctrl2".to_owned();
    apply(&mut v, update_reg("mini_rif", "ctrl", "ctrl_a", vals));
    let mut vals = reg_vals(&regdef_in(&v, "mini_rif", "status"));
    vals.name = "status2".to_owned();
    apply(&mut v, update_reg("mini_rif", "status", "status", vals));
    assert!(v.edit_err.is_none());
    let after = save(&mut v, MINI_MANUAL);
    assert!(has_line(&after, "- ctrl2 : \"Control register\""), "got:\n{after}");
    assert!(has_line(&after, "- ctrl_a = ctrl2 @ 0x0"), "got:\n{after}");
    assert!(has_line(&after, "- ctrl_b = ctrl2 @ 0x4"), "got:\n{after}");
    assert!(has_line(&after, "- status2 @ 0x8"), "got:\n{after}");
}

#[test]
fn a_register_edit_that_does_not_compile_is_taken_back() {
    let mut v = open(MINI_MANUAL);
    let mut vals = reg_vals(&regdef_in(&v, "mini_rif", "ctrl"));
    vals.name = "ctrl2".to_owned();
    vals.addr = Some(0x10);
    v.pending = Some(update_reg("mini_rif", "ctrl", "ctrl_a", vals));
    let staged = v.apply_pending().expect("the edit is staged");
    assert_eq!(regdef_in(&v, "mini_rif", "ctrl2").fields[0].name, "en");
    assert_eq!(instance(&v, "mini_rif", "ctrl_b").reg_type, "ctrl2");
    assert!(matches!(instance(&v, "mini_rif", "ctrl_a").addr.offset, Offset::Value(0x10)));
    v.finish_pending(staged, Err("no".to_owned()));
    assert_eq!(v.edit_err.as_deref(), Some("no"));
    assert_eq!(regdef_in(&v, "mini_rif", "ctrl").fields[0].name, "en");
    assert_eq!(instance(&v, "mini_rif", "ctrl_b").reg_type, "ctrl");
    assert!(matches!(instance(&v, "mini_rif", "ctrl_a").addr.offset, Offset::Value(0)));
    assert!(!v.has_unsaved());
}

#[test]
fn save_file_persists_regdef_edits_to_disk() {
    let mut v = open(TEST_RIF);
    let mut vals = reg_vals(&regdef(&v, "basic_rw"));
    vals.name = "basic_rw_renamed".to_owned();
    vals.pulse = vec![Pulse::Write("clk_rif".to_owned()), Pulse::Access(String::new())];
    apply(&mut v, update_reg("test_rif", "basic_rw", "basic_rw", vals));
    assert!(v.edit_err.is_none());
    assert!(v.has_unsaved());
    let after = save(&mut v, TEST_RIF);

    assert!(after.contains("- basic_rw_renamed : \"Simple register with r/w fields\""), "got:\n{after}");
    assert!(after.contains("accPulse comb"), "got:\n{after}");
    assert!(after.contains("- reg_group0 : (reg_group) \"Group multiple registers in one struct (first half)\""));
    assert!(after.contains("- field0 = 0      7:0  \"Field 8b\""));
    assert!(after.contains("// Main parameters"));
    assert!(!v.has_unsaved(), "nothing is pending after a successful save");
}

#[test]
fn save_file_persists_regdef_advanced_props_to_disk() {
    let mut v = open(TEST_RIF);
    let mut vals = reg_vals(&regdef(&v, "basic_rw"));
    vals.visibility = Vis::Hidden;
    vals.clk = Some("myclk".to_owned());
    vals.rst = Some("myrst".to_owned());
    vals.external = External::ReadWrite;
    apply(&mut v, update_reg("test_rif", "basic_rw", "basic_rw", vals));
    assert!(v.edit_err.is_none());
    assert!(v.has_unsaved());
    let after = save(&mut v, TEST_RIF);

    assert!(has_line(&after, "hidden"), "got:\n{after}");
    assert!(has_line(&after, "clock myclk"), "got:\n{after}");
    assert!(has_line(&after, "hwReset myrst"), "got:\n{after}");
    assert!(has_line(&after, "external"), "got:\n{after}");
    assert!(after.contains("- reg_group0 : (reg_group) \"Group multiple registers in one struct (first half)\""));
    assert!(after.contains("- field0 = 0      7:0  \"Field 8b\""));
    assert!(after.contains("// Main parameters"));
    assert!(!v.has_unsaved(), "nothing is pending after a successful save");

    let v2 = open(&after);
    let d2 = regdef(&v2, "basic_rw");
    assert_eq!(d2.visibility, Vis::Hidden);
    assert_eq!(d2.clk, Some("myclk".to_owned()));
    assert_eq!(d2.rst, Some("myrst".to_owned()));
    assert_eq!(d2.external, External::ReadWrite);
}

#[test]
fn save_file_persists_interrupt_edits_to_disk() {
    let mut v = open(TEST_RIF);
    let mut vals = reg_vals(&regdef(&v, "interrupt"));
    vals.intr = Some(Some(RegIntrVals {
        trigger: Trigger::Falling,
        clear: IntrClear::Read,
        enable: Some(Reset::Unsigned(0x1337)),
        mask: Some(Reset::Unsigned(0xCAFE)),
        pending: true,
    }));
    apply(&mut v, update_reg("test_rif", "interrupt", "interrupt", vals));
    assert!(v.edit_err.is_none());
    apply(
        &mut v,
        EditAction::UpdateRegIntrDesc {
            rif_type: "test_rif".to_owned(),
            reg_type: "interrupt".to_owned(),
            kind: IntrKind::Enable,
            desc: "Updated enable description\nWith a second line.".to_owned(),
        },
    );
    assert!(v.edit_err.is_none());
    let mut vals = vals_of(&def_field(&v, "interrupt", "event_0"));
    vals.intr_ovr = Some(IntrOvr { trigger: Some(Trigger::Low), clear: None });
    vals.reg_intr_default = IntrOvr { trigger: Some(Trigger::Falling), clear: Some(IntrClear::Read) };
    vals.changed = vec![FieldProp::Interrupt];
    apply(&mut v, update_field("interrupt", "event_0", vals));
    assert!(v.edit_err.is_none());
    assert!(v.has_unsaved());
    let after = save(&mut v, TEST_RIF);

    assert!(after.contains("interrupt falling rclr en=0x1337 mask=0xcafe pending"), "got:\n{after}");
    assert!(after.contains("Updated enable description"), "got:\n{after}");
    assert!(after.contains("With a second line."), "got:\n{after}");
    assert!(!after.contains("Enable interrupt. When set to 0"), "old enable description lingering:\n{after}");
    assert!(after.contains("interrupt low"), "event_0's trigger override not persisted:\n{after}");
    assert!(after.contains("pending.description : Pending interrupt (AND between status and mask)"));
    assert!(after.contains("mask.description    : Mask interrupt from the global IRQ output"));
    assert!(after.contains("interrupt high"));
    assert!(after.contains("- reg_fields_a0 : (reg_fields_a)"));
    assert!(!v.has_unsaved(), "every pending map must be cleared after a successful save");

    let d2 = regdef(&v, "interrupt");
    assert_eq!(d2.interrupt[0].trigger, Trigger::Falling);
    assert_eq!(d2.interrupt[0].description.enable.public, "Updated enable description\nWith a second line.");
    let event_0 = def_field(&v, "interrupt", "event_0");
    assert!(event_0.intr_ovr.trigger == Some(Trigger::Low) && event_0.intr_ovr.clear.is_none());
}

#[test]
fn save_file_persists_interrupt_removal_to_disk() {
    let mut v = open(TEST_RIF);
    let mut vals = reg_vals(&regdef(&v, "interrupt"));
    vals.intr = Some(None);
    apply(&mut v, update_reg("test_rif", "interrupt", "interrupt", vals));
    assert!(v.edit_err.is_none());
    assert!(v.has_unsaved());
    let after = save(&mut v, TEST_RIF);

    assert!(!after.contains("interrupt rising w1clr"), "interrupt line lingering:\n{after}");
    assert!(!after.contains("pending.description"), "pending description lingering:\n{after}");
    assert!(!after.contains("enable.description"), "enable description lingering:\n{after}");
    assert!(!after.contains("mask.description"), "mask description lingering:\n{after}");
    assert!(!after.contains("interrupt high"), "event_1's own override lingering:\n{after}");
    assert!(after.contains("- event_0 = 0   0:0 \"Event 0\""));
    assert!(after.contains("- event_1 = 0   1:1 \"Event 1 using non-default setting\""));
    assert!(after.contains("- reg_fields_a0 : (reg_fields_a)"));
    assert!(!v.has_unsaved(), "every pending map must be cleared after a successful save");

    let v = open(&after);
    assert!(regdef(&v, "interrupt").interrupt.is_empty(), "reparsed register is plain");
    for name in ["event_0", "event_1"] {
        assert!(def_field(&v, "interrupt", name).hw_kind.is_empty(), "{name} reparsed as a plain field");
    }
}

#[test]
fn save_file_persists_alt_interrupt_to_disk() {
    let mut v = open(TEST_RIF);
    assert_eq!(regdef(&v, "interrupt").interrupt.len(), 1, "a primary interrupt and no alt");
    set_alt(&mut v, Some(alt_vals("aux", Trigger::Falling, IntrClear::Write0, Some(1), None, false)));
    assert!(v.has_unsaved());
    let after = save(&mut v, TEST_RIF);

    assert!(after.contains("alt aux falling w0clr en=1"), "got:\n{after}");
    assert!(after.contains("interrupt rising w1clr enable=0x1337 mask=0xCAFE pending"));
    assert!(after.contains("pending.description : Pending interrupt (AND between status and mask)"));
    assert!(after.contains("- event_0 = 0   0:0 \"Event 0\""));
    assert!(after.contains("- event_1 = 0   1:1 \"Event 1 using non-default setting\""));
    assert!(after.contains("- reg_fields_a0 : (reg_fields_a)"));
    assert!(!v.has_unsaved(), "every pending map must be cleared after a successful save");

    let v = open(&after);
    let d2 = regdef(&v, "interrupt");
    assert_eq!(d2.interrupt.len(), 2, "alt block reparsed");
    assert_eq!(d2.interrupt[1].name, "aux");
}

#[test]
fn save_file_persists_explicit_group_edit_to_disk() {
    let mut v = open(TEST_RIF);
    let d = regdef(&v, "reg_group0");
    assert_eq!(d.group_name, "reg_group", "reg_group0 starts in the shared 'reg_group' group");
    let mut vals = reg_vals(&d);
    vals.group = Some("reg_group_new".to_owned());
    apply(&mut v, update_reg("test_rif", "reg_group0", "reg_group0", vals));
    assert!(v.edit_err.is_none());
    assert!(v.has_unsaved());
    assert_eq!(regdef(&v, "reg_group0").group_name, "reg_group_new");
    let after = save(&mut v, TEST_RIF);

    assert!(
        after.contains("- reg_group0 : (reg_group_new) \"Group multiple registers in one struct (first half)\""),
        "got:\n{after}"
    );
    assert!(after.contains("- reg_group1 : (reg_group) \"Group multiple registers in one struct (second half)\""));
    assert!(!v.has_unsaved(), "nothing is pending after a successful save");
}

#[test]
fn save_file_persists_description_block_edits_to_disk() {
    let mut v = open(TEST_RIF);
    let mut vals = reg_vals(&regdef(&v, "basic_rw"));
    vals.desc = "Simple register with r/w fields".to_owned();
    apply(&mut v, update_reg("test_rif", "basic_rw", "basic_rw", vals));
    assert!(v.edit_err.is_none());

    let mut vals = vals_of(&def_field(&v, "basic_rw", "field0"));
    vals.desc = "Field 8b\nMore detailled information on current field.\nNow with a third line.".to_owned();
    apply(&mut v, update_field("basic_rw", "field0", vals));
    assert!(v.edit_err.is_none());

    let f1 = def_field(&v, "basic_rw", "field1");
    assert!(f1.src.desc_blocks.public.is_none(), "field1 starts with no description block");
    let mut vals = vals_of(&f1);
    vals.desc = "Signed Field\nBrand new block for a field that had none.".to_owned();
    apply(&mut v, update_field("basic_rw", "field1", vals));
    assert!(v.edit_err.is_none());
    assert!(v.has_unsaved());
    let after = save(&mut v, TEST_RIF);

    assert!(!after.contains("More detailled information on current register"), "block not cleared:\n{after}");
    assert!(after.contains("Now with a third line."), "field0 block not grown:\n{after}");
    assert!(after.contains("Brand new block for a field that had none."), "field1 block missing:\n{after}");
    assert!(after.contains("- basic_rw: \"Simple register with r/w fields\""));
    assert!(after.contains("- field0 = 0      7:0  \"Field 8b\""));
    assert!(after.contains("- field1 = 1     15:8  \"Signed Field\""));
    assert!(after.contains("- reg_group0 : (reg_group) \"Group multiple registers in one struct (first half)\""));
    assert!(after.contains("// Main parameters"));
    assert!(!v.has_unsaved(), "nothing is pending after a successful save");

    assert_eq!(regdef(&v, "basic_rw").description.public, "Simple register with r/w fields");
    assert_eq!(
        def_field(&v, "basic_rw", "field0").description.public,
        "Field 8b\nMore detailled information on current field.\nNow with a third line."
    );
    assert_eq!(
        def_field(&v, "basic_rw", "field1").description.public,
        "Signed Field\nBrand new block for a field that had none."
    );
}

/// The registers of the automatic page of the test file, each at the address that it has there.
fn main_page() -> Vec<Instance> {
    let names = [
        "basic_rw",
        "reg_group0",
        "reg_group1",
        "version",
        "interrupt",
        "interrupt_en",
        "interrupt_mask",
        "interrupt_pending",
        "reg_fields_a0",
        "reg_fields_a1",
        "reg_fields_pos",
    ];
    let mut r: Vec<Instance> = Vec::new();
    for name in names {
        let addr = 4 * r.len() as u64;
        r.push(Instance {
            inst_name: name.to_owned(),
            reg_type: name.to_owned(),
            group_name: String::new(),
            addr: Addr { kind: AddrKind::Absolute, offset: Offset::Value(addr) },
            array: expr("", ""),
            reg_override: None,
            ovr_src: no_override_lines(),
            decl_line: None,
        });
    }
    r
}

fn convert_main(converted: Result<Vec<Instance>, String>) -> EditAction {
    EditAction::ConvertPageToManual { rif_type: "test_rif".to_owned(), page_name: "Main".to_owned(), converted }
}

#[test]
fn apply_convert_page_to_manual_preserves_addresses() {
    let mut v = open(TEST_RIF);
    let before = main_page();
    assert!(before.len() >= 11);
    apply(&mut v, convert_main(Ok(main_page())));
    assert!(v.edit_err.is_none());
    let page = &rif(&v, "test_rif").pages[0];
    assert!(page.inst_auto == InstMode::Manual);
    assert_eq!(page.instances.len(), before.len());
    for (b, a) in before.iter().zip(page.instances.iter()) {
        assert_eq!(b.inst_name, a.inst_name);
        assert_eq!(addr_of(b), addr_of(a), "address changed for {}", b.inst_name);
    }
    assert!(v.has_unsaved(), "the new (unsaved) instance declarations should count as unsaved");
}

#[test]
fn apply_convert_page_to_manual_surfaces_refusal_as_edit_err() {
    let mut v = open(TEST_RIF);
    apply(&mut v, convert_main(Ok(main_page())));
    assert!(v.edit_err.is_none());
    apply(&mut v, convert_main(Err("Page 'Main' is already using manual instancing".to_owned())));
    assert!(v.edit_err.as_ref().is_some_and(|e| e.contains("already using manual")), "got: {:?}", v.edit_err);
    assert_eq!(rif(&v, "test_rif").pages[0].instances.len(), 11);
}

#[test]
fn save_file_persists_converted_page_to_disk() {
    let mut v = open(TEST_RIF);
    apply(&mut v, convert_main(Ok(main_page())));
    assert!(v.edit_err.is_none());
    assert!(v.has_unsaved());
    let after = save(&mut v, TEST_RIF);
    assert!(!v.has_unsaved(), "the converted instances must no longer count as new");

    assert!(!after.contains("instances: auto"), "got:\n{after}");
    assert!(after.contains("- basic_rw @ 0x0"), "got:\n{after}");
    assert!(after.contains("- reg_group0 : (reg_group) \"Group multiple registers in one struct (first half)\""));
    assert!(after.contains("- field0 = 0      7:0  \"Field 8b\""));
    let page2 = &rif(&v, "test_rif").pages[0];
    assert!(page2.inst_auto == InstMode::Manual);
    assert_eq!(page2.instances.len(), main_page().len());
}

#[test]
fn apply_update_regdef_edits_address_right_after_conversion() {
    let mut v = open(TEST_RIF);
    apply(&mut v, convert_main(Ok(main_page())));
    assert!(v.edit_err.is_none());
    let mut vals = reg_vals(&regdef(&v, "basic_rw"));
    vals.addr = Some(0x100);
    apply(&mut v, update_reg("test_rif", "basic_rw", "basic_rw", vals));
    assert!(v.edit_err.is_none());
    let inst = instance(&v, "test_rif", "basic_rw");
    assert_eq!(addr_of(&inst), (AddrKind::Absolute, 0x100));
    assert!(inst.decl_line.is_none(), "not saved yet");
    assert!(v.edits.reg_inst_dirty.is_empty(), "nothing to track for an instance with no source line yet");
}

/// The values of a register of the small files, with another address for one instance.
fn moved(v: &RifViewer, rif_type: &str, reg: &str, addr: u64) -> RegDefVals {
    let mut vals = reg_vals(&regdef_in(v, rif_type, reg));
    vals.addr = Some(addr);
    vals
}

#[test]
fn apply_update_regdef_edits_address_on_already_manual_page() {
    let mut v = open(MINI_MANUAL);
    let ctrl_a_line = instance(&v, "mini_rif", "ctrl_a").decl_line.unwrap();
    let vals = moved(&v, "mini_rif", "ctrl", 0x20);
    apply(&mut v, update_reg("mini_rif", "ctrl", "ctrl_a", vals));
    assert!(v.edit_err.is_none());
    assert_eq!(addr_of(&instance(&v, "mini_rif", "ctrl_a")), (AddrKind::Absolute, 0x20));
    assert_eq!(addr_of(&instance(&v, "mini_rif", "ctrl_b")), (AddrKind::Absolute, 0x4));
    assert!(v.edits.reg_inst_dirty.contains(&ctrl_a_line));
    assert!(v.has_unsaved());
}

#[test]
fn save_file_persists_address_edit_to_disk() {
    let mut v = open(MINI_MANUAL);
    let vals = moved(&v, "mini_rif", "ctrl", 0x20);
    apply(&mut v, update_reg("mini_rif", "ctrl", "ctrl_a", vals));
    assert!(v.edit_err.is_none());
    assert!(v.has_unsaved());
    let after = save(&mut v, MINI_MANUAL);
    assert!(!v.has_unsaved());
    assert!(after.contains("- ctrl_a = ctrl @ 0x20"), "got:\n{after}");
    assert!(after.contains("- ctrl_b = ctrl @ 0x4"));
    assert!(after.contains("- status @ 0x8"));
    assert!(after.contains("- ctrl: \"Control register\""));
    assert!(after.contains("- en = 0 0:0 \"Enable\""));
    assert_eq!(addr_of(&instance(&v, "mini_rif", "ctrl_a")), (AddrKind::Absolute, 0x20));
}

fn swap_ctrl() -> EditAction {
    EditAction::SwapRegAddr {
        rif_type: "mini_rif".to_owned(),
        a_inst_name: "ctrl_a".to_owned(),
        b_inst_name: "ctrl_b".to_owned(),
    }
}

#[test]
fn is_reg_reorderable_requires_manual_page_and_absolute_address() {
    let v = open(MINI_MANUAL);
    let page = &rif(&v, "mini_rif").pages[0];
    let ctrl_a = "ctrl_a".to_owned();
    assert!(RifViewer::is_reg_reorderable(true, 0, &ctrl_a, Some(page)), "manual + absolute is reorderable");
    assert!(!RifViewer::is_reg_reorderable(true, 0, &ctrl_a, None), "no source page at all");
    assert!(!RifViewer::is_reg_reorderable(false, 0, &ctrl_a, Some(page)));
    assert!(!RifViewer::is_reg_reorderable(true, 4, &ctrl_a, Some(page)));
    let mut relative = page.clone();
    relative.instances[0].addr.kind = AddrKind::Relative;
    assert!(!RifViewer::is_reg_reorderable(true, 0, &ctrl_a, Some(&relative)));

    let va = open(TEST_RIF);
    let auto_page = &rif(&va, "test_rif").pages[0];
    assert!(
        !RifViewer::is_reg_reorderable(true, 0, &"basic_rw".to_owned(), Some(auto_page)),
        "automatic page should not be reorderable"
    );
}

#[test]
fn is_reg_override_editable_excludes_intr_derived() {
    assert!(RifViewer::is_reg_override_editable(IntrKind::Plain), "a plain register's override is editable");
    assert!(RifViewer::is_reg_override_editable(IntrKind::Base), "the base interrupt register is too");
    for derived in [IntrKind::Enable, IntrKind::Mask, IntrKind::Pending] {
        assert!(!RifViewer::is_reg_override_editable(derived), "a derived register has no override of its own");
    }
}

#[test]
fn is_field_override_editable_excludes_array_elements() {
    let v = load_with_basic_rw_selected();
    let coeffs = placed(&def_field(&v, "reg_fields_a1", "coeffs"), 0, 8);
    assert!(!RifViewer::is_field_override_editable(&coeffs), "an array element has no independent override slot");
    let field1 = placed(&def_field(&v, "basic_rw", "field1"), 8, 8);
    assert!(RifViewer::is_field_override_editable(&field1), "a plain field is override-editable");
}

#[test]
fn apply_swap_reg_addr_exchanges_addresses() {
    let mut v = open(MINI_MANUAL);
    apply(&mut v, swap_ctrl());
    assert!(v.edit_err.is_none());
    assert_eq!(addr_of(&instance(&v, "mini_rif", "ctrl_a")), (AddrKind::Absolute, 0x4));
    assert_eq!(addr_of(&instance(&v, "mini_rif", "ctrl_b")), (AddrKind::Absolute, 0x0));
    assert_eq!(addr_of(&instance(&v, "mini_rif", "status")), (AddrKind::Absolute, 0x8));
    assert_eq!(v.edits.reg_inst_dirty.len(), 2, "both sides already had a source line");
    assert!(v.has_unsaved());
}

#[test]
fn save_file_persists_swapped_addresses_to_disk() {
    let mut v = open(MINI_MANUAL);
    apply(&mut v, swap_ctrl());
    assert!(v.edit_err.is_none());
    assert!(v.has_unsaved());
    let after = save(&mut v, MINI_MANUAL);
    assert!(!v.has_unsaved());
    assert!(after.contains("- ctrl_a = ctrl @ 0x4"), "got:\n{after}");
    assert!(after.contains("- ctrl_b = ctrl @ 0x0"), "got:\n{after}");
    assert!(after.contains("- status @ 0x8"));
    assert!(after.contains("- ctrl: \"Control register\""));
    assert!(after.contains("- en = 0 0:0 \"Enable\""));
    assert_eq!(addr_of(&instance(&v, "mini_rif", "ctrl_a")), (AddrKind::Absolute, 0x4));
    assert_eq!(addr_of(&instance(&v, "mini_rif", "ctrl_b")), (AddrKind::Absolute, 0x0));
}

#[test]
fn regeditor_build_action_rejects_misaligned_address() {
    let v = open(MINI_MANUAL);
    let def = regdef_in(&v, "mini_rif", "ctrl");
    let mut ed = RegEditor::from_regdef(
        "ctrl_a".to_owned(),
        "ctrl".to_owned(),
        &def,
        0x0,
        true,
        "mini_rif",
        "clk",
        BusWidth::W32(32),
        None,
        true,
    );
    ed.buf.addr = "0x21".to_owned();
    assert!(ed.build_action().is_none(), "misaligned address must be rejected");
    assert!(ed.parse_err.as_deref().is_some_and(|e| e.contains("aligned")), "got: {:?}", ed.parse_err);
}

#[test]
fn apply_update_regdef_with_moves_swap_bundles_unrelated_field_edit() {
    let mut v = open(MINI_MANUAL);
    let mut vals = moved(&v, "mini_rif", "ctrl", 0x4);
    vals.desc = "Updated description".to_owned();
    apply(
        &mut v,
        EditAction::UpdateRegDefWithMoves {
            rif_type: "mini_rif".to_owned(),
            orig_name: "ctrl".to_owned(),
            inst_name: "ctrl_a".to_owned(),
            vals,
            companions: companions(&[("ctrl_b", 0x0)]),
        },
    );
    assert!(v.edit_err.is_none());
    assert_eq!(regdef_in(&v, "mini_rif", "ctrl").description.public, "Updated description");
    assert_eq!(addr_of(&instance(&v, "mini_rif", "ctrl_a")), (AddrKind::Absolute, 0x4));
    assert_eq!(addr_of(&instance(&v, "mini_rif", "ctrl_b")), (AddrKind::Absolute, 0x0));
    assert_eq!(addr_of(&instance(&v, "mini_rif", "status")), (AddrKind::Absolute, 0x8));
    assert_eq!(v.edits.reg_inst_dirty.len(), 2, "both moved instances already had a source line");
    assert!(v.has_unsaved());
}

#[test]
fn apply_update_regdef_with_moves_shift_leaves_hole_at_old_address() {
    let mut v = open(REORDER_GAP);
    let vals = moved(&v, "mini_rif", "ctrl", 0x8);
    apply(
        &mut v,
        EditAction::UpdateRegDefWithMoves {
            rif_type: "mini_rif".to_owned(),
            orig_name: "ctrl".to_owned(),
            inst_name: "ctrl_b".to_owned(),
            vals,
            companions: companions(&[("ctrl_c", 0xc)]),
        },
    );
    assert!(v.edit_err.is_none());
    assert_eq!(addr_of(&instance(&v, "mini_rif", "ctrl_a")).1, 0x0);
    assert_eq!(addr_of(&instance(&v, "mini_rif", "ctrl_b")).1, 0x8);
    assert_eq!(addr_of(&instance(&v, "mini_rif", "ctrl_c")).1, 0xc);
    assert_eq!(addr_of(&instance(&v, "mini_rif", "status")).1, 0x28);
    let page = &rif(&v, "mini_rif").pages[0];
    assert!(page.instances.iter().all(|i| addr_of(i).1 != 0x4), "ctrl_b's old address must be left empty");
}

fn add_register(rif_type: &str, kind: AddRegKind, name: &str, addr: u64) -> EditAction {
    EditAction::AddRegister {
        rif_type: rif_type.to_owned(),
        page_name: "Main".to_owned(),
        kind,
        name: name.to_owned(),
        addr,
    }
}

fn delete_register(rif_type: &str, reg: &str, inst: Option<&str>) -> EditAction {
    EditAction::DeleteRegister {
        rif_type: rif_type.to_owned(),
        page_name: "Main".to_owned(),
        reg_type: reg.to_owned(),
        inst_name: inst.map(|s| s.to_owned()),
    }
}

fn has_register(v: &RifViewer, rif_type: &str, reg: &str) -> bool {
    find_regdef(rif(v, rif_type), &reg.to_owned()).is_some()
}

#[test]
fn apply_add_register_new_on_automatic_page() {
    let mut v = open(TEST_RIF);
    apply(&mut v, add_register("test_rif", AddRegKind::New, "brand_new", 0));
    assert!(v.edit_err.is_none());
    assert_eq!(regdef(&v, "brand_new").fields.len(), 1, "starter field");
    let page = &rif(&v, "test_rif").pages[0];
    assert!(page.instances.iter().all(|i| i.inst_name != "brand_new"), "automatic page needs no instance");
    assert!(v.has_unsaved());
}

#[test]
fn apply_add_register_new_on_manual_page() {
    let mut v = open(MINI_MANUAL);
    apply(&mut v, add_register("mini_rif", AddRegKind::New, "extra", 0x100));
    assert!(v.edit_err.is_none());
    assert!(has_register(&v, "mini_rif", "extra"));
    let inst = instance(&v, "mini_rif", "extra");
    assert_eq!(inst.reg_type, "extra");
    assert_eq!(addr_of(&inst), (AddrKind::Absolute, 0x100));
    assert!(inst.decl_line.is_none(), "not saved yet");
}

#[test]
fn apply_add_register_instance_of_existing_type() {
    let mut v = open(MINI_MANUAL);
    let kind = AddRegKind::Instance { reg_type: "ctrl".to_owned() };
    apply(&mut v, add_register("mini_rif", kind, "ctrl_c", 0xC));
    assert!(v.edit_err.is_none());
    let page = &rif(&v, "mini_rif").pages[0];
    assert_eq!(page.instances.iter().filter(|i| i.reg_type == "ctrl").count(), 3);
    assert_eq!(addr_of(&instance(&v, "mini_rif", "ctrl_c")), (AddrKind::Absolute, 0xC));
    let defs = page.registers.iter().filter(|r| matches!(r, RegItem::Def(d) if d.name == "ctrl")).count();
    assert_eq!(defs, 1);
}

#[test]
fn apply_delete_register_removes_definition_on_automatic_page() {
    let mut v = open(TEST_RIF);
    let decl_line = regdef(&v, "basic_rw").src.decl_line.unwrap();
    apply(&mut v, delete_register("test_rif", "basic_rw", None));
    assert!(v.edit_err.is_none());
    assert!(!has_register(&v, "test_rif", "basic_rw"));
    assert!(v.edits.reg_deleted.contains(&decl_line));
    assert!(v.has_unsaved());
}

#[test]
fn apply_delete_register_removes_only_instance_when_others_remain() {
    let mut v = open(MINI_MANUAL);
    let inst_line = instance(&v, "mini_rif", "ctrl_a").decl_line.unwrap();
    apply(&mut v, delete_register("mini_rif", "ctrl", Some("ctrl_a")));
    assert!(v.edit_err.is_none());
    let page = &rif(&v, "mini_rif").pages[0];
    assert!(page.instances.iter().all(|i| i.inst_name != "ctrl_a"));
    assert!(page.instances.iter().any(|i| i.inst_name == "ctrl_b"), "sibling untouched");
    assert!(has_register(&v, "mini_rif", "ctrl"), "definition stays: ctrl_b still references it");
    assert!(v.edits.reg_inst_deleted.contains(&inst_line));
    assert!(v.edits.reg_deleted.is_empty(), "no definition was removed");
}

#[test]
fn apply_delete_register_removes_definition_when_last_instance() {
    let mut v = open(MINI_MANUAL);
    apply(&mut v, delete_register("mini_rif", "status", Some("status")));
    assert!(v.edit_err.is_none());
    let page = &rif(&v, "mini_rif").pages[0];
    assert!(page.instances.iter().all(|i| i.inst_name != "status"));
    assert!(!has_register(&v, "mini_rif", "status"), "last instance gone: definition removed too");
    assert!(!v.edits.reg_deleted.is_empty());
    assert!(!v.edits.reg_inst_deleted.is_empty());
}

#[test]
fn save_file_persists_added_register_to_disk() {
    let mut v = open(TEST_RIF);
    apply(&mut v, add_register("test_rif", AddRegKind::New, "brand_new", 0));
    assert!(v.edit_err.is_none());
    assert!(v.has_unsaved());
    let after = save(&mut v, TEST_RIF);
    assert!(!v.has_unsaved());
    assert!(after.contains("- brand_new :"), "got:\n{after}");
    let starter = after.lines().skip_while(|l| !l.contains("- brand_new :")).nth(1);
    assert!(starter.is_some_and(|l| l.contains("- field0 = 0")), "starter field, got:\n{after}");
    assert!(after.contains("- reg_fields_pos :"));
    assert!(after.contains("instances: auto"));
    assert!(has_register(&v, "test_rif", "brand_new"));
}

#[test]
fn save_file_persists_deleted_registers_to_disk() {
    let mut v = open(MINI_MANUAL);
    apply(&mut v, delete_register("mini_rif", "ctrl", Some("ctrl_a")));
    assert!(v.edit_err.is_none());
    apply(&mut v, delete_register("mini_rif", "status", Some("status")));
    assert!(v.edit_err.is_none());
    assert!(v.has_unsaved());
    let after = save(&mut v, MINI_MANUAL);
    assert!(!v.has_unsaved());
    assert!(!after.contains("ctrl_a"), "got:\n{after}");
    assert!(!after.contains("status"), "both the instance and the definition, got:\n{after}");
    assert!(after.contains("- ctrl_b = ctrl @ 0x4"), "got:\n{after}");
    assert!(after.contains("- ctrl: \"Control register\""));
    assert!(!has_register(&v, "mini_rif", "status"));
    assert_eq!(rif(&v, "mini_rif").pages[0].instances.len(), 1, "only ctrl_b remains");
}

#[test]
fn apply_update_regdef_description_without_inline_desc_gets_tracked() {
    let mut v = load_with_basic_rw_selected();
    let d = regdef(&v, "reg_fields_pos");
    assert!(!d.src.has_inline_desc, "reg_fields_pos starts with no inline description");
    let decl_line = d.src.decl_line.unwrap();
    let mut vals = reg_vals(&d);
    vals.desc = "brand new description".to_owned();
    apply(&mut v, update_reg("test_rif", "reg_fields_pos", "reg_fields_pos", vals));
    assert!(v.edit_err.is_none());
    let d2 = regdef(&v, "reg_fields_pos");
    assert!(d2.src.has_inline_desc, "typing a description promotes it to inline");
    assert_eq!(d2.description.short(false), "brand new description");
    assert!(v.edits.reg_dirty.contains(&decl_line), "the declaration line must be marked dirty");
    assert!(v.has_unsaved());
}

#[test]
fn apply_update_regdef_description_change_on_existing_inline_desc_still_tracked() {
    let mut v = load_with_basic_rw_selected();
    let d = regdef(&v, "basic_rw");
    assert!(d.src.has_inline_desc);
    let decl_line = d.src.decl_line.unwrap();
    let mut vals = reg_vals(&d);
    vals.desc = "a different description".to_owned();
    apply(&mut v, update_reg("test_rif", "basic_rw", "basic_rw", vals));
    assert!(v.edit_err.is_none());
    assert!(v.edits.reg_dirty.contains(&decl_line));
}

#[test]
fn apply_update_regdef_untouched_description_does_not_gain_inline_flag() {
    let mut v = load_with_basic_rw_selected();
    let d = regdef(&v, "reg_fields_pos");
    assert!(!d.src.has_inline_desc);
    let mut vals = reg_vals(&d);
    vals.pulse = vec![Pulse::Write("clk_rif".to_owned())];
    apply(&mut v, update_reg("test_rif", "reg_fields_pos", "reg_fields_pos", vals));
    assert!(v.edit_err.is_none());
    assert!(!regdef(&v, "reg_fields_pos").src.has_inline_desc, "untouched description gains no inline flag");
}

#[test]
fn apply_update_regdef_description_block_clear_is_tracked() {
    let mut v = load_with_basic_rw_selected();
    let d = regdef(&v, "basic_rw");
    assert_eq!(
        d.description.public,
        "Simple register with r/w fields\nMore detailled information on current register"
    );
    let decl_line = d.src.decl_line.unwrap();
    let mut vals = reg_vals(&d);
    vals.desc = "Simple register with r/w fields".to_owned();
    apply(&mut v, update_reg("test_rif", "basic_rw", "basic_rw", vals));
    assert!(v.edit_err.is_none());
    assert_eq!(regdef(&v, "basic_rw").description.public, "Simple register with r/w fields");
    assert!(matches!(v.edits.reg_desc_block_edits.get(&decl_line), Some(BlockEdit::Remove)));
    assert!(v.has_unsaved());
}

fn reg_override(desc: &str, hw: Option<HwAcc>, optional: Option<Expr>, optional_acc: Option<HwAcc>) -> EditAction {
    EditAction::UpdateRegOverride {
        rif_type: "mini_rif".to_owned(),
        inst_name: "ctrl_a".to_owned(),
        vals: RegOverrideVals { desc: desc.to_owned(), hw, optional, optional_acc },
    }
}

fn field_override(desc: &str, disabled: bool, reset: Option<u128>) -> EditAction {
    EditAction::UpdateFieldOverride {
        rif_type: "mini_rif".to_owned(),
        inst_name: "ctrl_a".to_owned(),
        field_name: "en".to_owned(),
        vals: FieldOverrideVals {
            desc: desc.to_owned(),
            disabled,
            reset: reset.map(Reset::Unsigned),
            field_reset: Reset::Unsigned(0),
        },
    }
}

#[test]
fn apply_update_reg_override_sets_and_clears_properties() {
    let mut v = open(MINI_MANUAL);
    let line = instance(&v, "mini_rif", "ctrl_a").decl_line.unwrap();
    apply(&mut v, reg_override("Override desc", Some(HwAcc::RW), Some(expr("1", "1")), Some(HwAcc::RO)));
    assert!(v.edit_err.is_none());

    let ovr = instance(&v, "mini_rif", "ctrl_a").reg_override.expect("override was created");
    assert_eq!(ovr.description.as_ref().map(|d| d.short(true)), Some("Override desc".to_owned()));
    assert_eq!(ovr.hw_acc, Some(HwAcc::RW));
    assert_eq!(ovr.optional_acc, Some(HwAcc::RO));
    assert!(!ovr.optional.text.is_empty());
    assert!(instance(&v, "mini_rif", "ctrl_b").reg_override.is_none(), "sibling instance must be untouched");
    let edits = v.edits.reg_override_edits.get(&line).expect("prop edits recorded");
    assert_eq!(written(&edits[RegOverrideProp::Description.rank()]), Some("description : Override desc"));
    assert_eq!(written(&edits[RegOverrideProp::Hw.rank()]), Some("hw rw"));
    assert_eq!(written(&edits[RegOverrideProp::Optional.rank()]), Some("optional : 1"));
    assert_eq!(written(&edits[RegOverrideProp::OptionalAcc.rank()]), Some("optional_acc: ro"));
    assert!(v.has_unsaved());

    apply(&mut v, reg_override("", None, None, None));
    assert!(v.edit_err.is_none());
    assert!(instance(&v, "mini_rif", "ctrl_a").reg_override.is_none(), "a default override should be dropped");
}

#[test]
fn apply_update_field_override_reset_and_disable() {
    let mut v = open(MINI_MANUAL);
    let line = instance(&v, "mini_rif", "ctrl_a").decl_line.unwrap();
    apply(&mut v, field_override("Enable override", false, Some(1)));
    assert!(v.edit_err.is_none());

    let ovr = instance(&v, "mini_rif", "ctrl_a").reg_override.expect("override created");
    let en = ovr.fields.iter().find(|f| f.field == "en").expect("field override created");
    assert!(matches!(en.reset, ResetOvr::Reset(Reset::Unsigned(1))));
    assert!(en.visibility.is_none());
    let edits = v.edits.field_override_edits.get(&line).expect("field edits recorded");
    let en_edits = edits.iter().find(|e| e.field == "en").unwrap();
    assert_eq!(written(&en_edits.desc), Some("en.description Enable override"));
    assert_eq!(written(&en_edits.reset), Some("en.reset = 1"));

    apply(&mut v, field_override("Enable override", true, Some(0)));
    assert!(v.edit_err.is_none());
    let edits = v.edits.field_override_edits.get(&line).expect("field edits recorded");
    let en_edits = edits.iter().find(|e| e.field == "en").unwrap();
    assert_eq!(written(&en_edits.reset), Some("en.disable"));
}

#[test]
fn save_file_persists_reg_and_field_override_edits_to_disk() {
    let mut v = open(MINI_MANUAL);
    apply(&mut v, reg_override("Override desc", Some(HwAcc::RW), None, None));
    assert!(v.edit_err.is_none());
    apply(&mut v, field_override("", true, None));
    assert!(v.edit_err.is_none());
    assert!(v.has_unsaved());
    let after = save(&mut v, MINI_MANUAL);
    assert!(!v.has_unsaved());

    assert!(after.contains("description : Override desc"), "got:\n{after}");
    assert!(after.contains("hw rw"), "got:\n{after}");
    assert!(after.contains("en.disable"), "got:\n{after}");
    assert!(after.contains("- ctrl_b = ctrl @ 0x4"));
    assert!(after.contains("- status @ 0x8"));
    assert!(after.contains("- ctrl: \"Control register\""));
    assert!(after.contains("- en = 0 0:0 \"Enable\""));

    let ovr2 = instance(&v, "mini_rif", "ctrl_a").reg_override.expect("override survives");
    assert_eq!(ovr2.description.as_ref().map(|d| d.short(true)), Some("Override desc".to_owned()));
    assert_eq!(ovr2.hw_acc, Some(HwAcc::RW));
    let en2 = ovr2.fields.iter().find(|f| f.field == "en").expect("field override survives");
    assert_eq!(en2.visibility, Some(Vis::Disabled));
}

#[test]
fn cleared_overrides_leave_the_file() {
    let mut v = open(MINI_MANUAL);
    apply(&mut v, reg_override("Override desc", Some(HwAcc::RW), None, None));
    let once = save(&mut v, MINI_MANUAL);
    assert!(has_line(&once, "description : Override desc") && has_line(&once, "hw rw"), "got:\n{once}");
    apply(&mut v, reg_override("", None, None, None));
    assert!(v.edit_err.is_none());
    assert!(instance(&v, "mini_rif", "ctrl_a").reg_override.is_none());
    assert_eq!(save(&mut v, &once), MINI_MANUAL);

    let mut v = open(MINI_MANUAL);
    apply(&mut v, field_override("", true, None));
    let once = save(&mut v, MINI_MANUAL);
    assert!(has_line(&once, "en.disable"), "got:\n{once}");
    apply(&mut v, field_override("", false, None));
    assert!(v.edit_err.is_none());
    assert!(instance(&v, "mini_rif", "ctrl_a").reg_override.is_none());
    assert_eq!(save(&mut v, &once), MINI_MANUAL);

    let mut v = open(MINI_MANUAL);
    apply(&mut v, reg_override("", Some(HwAcc::RW), None, None));
    apply(&mut v, field_override("", true, None));
    let once = save(&mut v, MINI_MANUAL);
    apply(&mut v, field_override("", false, None));
    let after = save(&mut v, &once);
    assert!(has_line(&after, "hw rw") && !has_line(&after, "en.disable"), "got:\n{after}");
}

#[test]
fn swapping_twice_restores_the_addresses() {
    let mut v = open(MINI_MANUAL);
    let before = format!("{:?}", v.rif_src.as_ref().unwrap());
    apply(&mut v, swap_ctrl());
    assert_ne!(format!("{:?}", v.rif_src.as_ref().unwrap()), before);
    apply(&mut v, swap_ctrl());
    assert_eq!(format!("{:?}", v.rif_src.as_ref().unwrap()), before);
}

#[test]
fn lines_without_edits_are_kept() {
    let mut v = open(TEST_RIF);
    let mut vals = vals_of(&def_field(&v, "basic_rw", "field2"));
    vals.name = "level".to_owned();
    apply(&mut v, update_field("basic_rw", "field2", vals));
    let after = v.save_rif_file(&"test_rif".to_owned(), TEST_RIF).unwrap();
    let changed: Vec<(&str, &str)> = TEST_RIF.lines().zip(after.lines()).filter(|(a, b)| a != b).collect();
    assert_eq!(TEST_RIF.lines().count(), after.lines().count());
    assert_eq!(
        changed,
        vec![(
            "        - field2 = 0x45  31:16 \"Field with hexa init\"",
            "        - level = 0x45 31:16 \"Field with hexa init\""
        )]
    );
}

#[test]
fn apply_update_regdef_with_moves_array_converts_fields_and_shifts_companions() {
    let mut v = open(ARRAYS);
    let d = regdef_in(&v, "arr_rif", "a");
    let mut vals = reg_vals(&d);
    vals.array = Some(3);
    let shifted: [(&str, u64); 4] = [("b", 0xc), ("c", 0x10), ("d", 0x14), ("e", 0x18)];
    apply(
        &mut v,
        EditAction::UpdateRegDefWithMoves {
            rif_type: "arr_rif".to_owned(),
            orig_name: "a".to_owned(),
            inst_name: "a".to_owned(),
            vals,
            companions: companions(&shifted),
        },
    );
    assert!(v.edit_err.is_none());
    assert!(matches!(regdef_in(&v, "arr_rif", "a").array, Dim::Value(3)));
    let val2 = field_in(&v, "arr_rif", "a", "val");
    assert!(matches!(val2.array, Dim::Value(1)), "the plain field must be converted to a dim-1 array");
    for (name, addr) in shifted {
        assert_eq!(addr_of(&instance(&v, "arr_rif", name)), (AddrKind::Absolute, addr), "{name} should have shifted");
    }
    assert!(v.edits.reg_dirty.contains(&d.src.decl_line.unwrap()), "register's own decl line must be dirtied");
    let val_line = d.fields[0].src.decl_line.unwrap();
    assert!(v.edits.dirty.contains(&val_line), "the converted field's decl line must be dirtied");
    assert_eq!(v.edits.reg_inst_dirty.len(), 4, "all four shifted companions must be dirtied");
}

#[test]
fn apply_update_reg_inst_array_sets_array_and_shifts_companions() {
    let mut v = open(ARRAYS);
    let shifted: [(&str, u64); 4] = [("b", 0xc), ("c", 0x10), ("d", 0x14), ("e", 0x18)];
    apply(
        &mut v,
        EditAction::UpdateRegInstArray {
            rif_type: "arr_rif".to_owned(),
            inst_name: "a".to_owned(),
            array: Some(expr("3", "3")),
            companions: companions(&shifted),
        },
    );
    assert!(v.edit_err.is_none());
    assert!(matches!(regdef_in(&v, "arr_rif", "a").array, Dim::Value(0)), "the definition must stay untouched");
    assert!(matches!(field_in(&v, "arr_rif", "a", "val").array, Dim::Value(0)), "fields must stay untouched");
    assert_eq!(instance(&v, "arr_rif", "a").array.rif, "3");
    for (name, addr) in shifted {
        assert_eq!(addr_of(&instance(&v, "arr_rif", name)), (AddrKind::Absolute, addr), "{name} should have shifted");
    }
    let after = save(&mut v, ARRAYS);
    assert!(after.contains("- a[3] @ 0x0"), "got:\n{after}");
}

#[test]
fn regeditor_from_regdef_disables_def_array_when_instance_already_has_inst_array() {
    let v = open(INST_ARRAY);
    let def = regdef_in(&v, "arr_rif2", "a");
    let src_inst = instance(&v, "arr_rif2", "a");
    let ed = RegEditor::from_regdef(
        "a".to_owned(),
        "a".to_owned(),
        &def,
        0x0,
        true,
        "arr_rif2",
        "clk",
        BusWidth::W32(32),
        Some(&src_inst),
        true,
    );
    assert!(!ed.array_editable, "definition-level array must be disabled");
    assert_eq!(ed.buf.inst_array, "3");
    assert!(ed.inst_array_editable, "the instance's own array control must stay editable");
}

#[test]
fn regeditor_from_regdef_disables_both_array_controls_outside_scope() {
    let v = open(MINI_MANUAL);
    let page = &rif(&v, "mini_rif").pages[0];
    assert!(!array_scope_ok(page, &"ctrl".to_owned()), "ctrl has two manual instances");
    let def = regdef_in(&v, "mini_rif", "ctrl");
    let ed = RegEditor::from_regdef(
        "ctrl_a".to_owned(),
        "ctrl".to_owned(),
        &def,
        0x0,
        true,
        "mini_rif",
        "clk",
        BusWidth::W32(32),
        None,
        false,
    );
    assert!(!ed.array_editable);
    assert!(!ed.inst_array_editable);
}

#[test]
fn apply_update_rif_def_edits_widths_and_desc_without_renaming() {
    let mut v = load_with_basic_rw_selected();
    apply(
        &mut v,
        EditAction::UpdateRifDef {
            rif_type: "test_rif".to_owned(),
            vals: RifDefVals {
                name: "test_rif".to_owned(),
                addr_width: 12,
                data_width: BusWidth::W16(16),
                interface: Bus::Apb,
                desc: "Edited top description".to_owned(),
            },
        },
    );
    assert!(v.edit_err.is_none());
    let r = rif(&v, "test_rif");
    assert_eq!(r.addr_width, 12);
    assert_eq!(r.data_width, BusWidth::W16(16));
    assert_eq!(r.description.public, "Edited top description");
    assert!(v.edits.rif_dirty.is_empty(), "decl line unchanged: name wasn't touched");
    assert!(!kept(&v.edits.rif_prop_edits[RifProp::AddrWidth.rank()]));
    assert!(!kept(&v.edits.rif_prop_edits[RifProp::DataWidth.rank()]));
    assert!(kept(&v.edits.rif_prop_edits[RifProp::Interface.rank()]));
    assert!(v.edits.rif_desc_block_edits.is_some(), "description block change recorded");
}

/// The values that a RIF has, under another name.
fn renamed(v: &RifViewer, rif_type: &str, name: &str) -> EditAction {
    let r = rif(v, rif_type);
    EditAction::UpdateRifDef {
        rif_type: rif_type.to_owned(),
        vals: RifDefVals {
            name: name.to_owned(),
            addr_width: r.addr_width,
            data_width: r.data_width,
            interface: r.interface.clone(),
            desc: r.description.public.clone(),
        },
    }
}

fn has_rif(v: &RifViewer, name: &str) -> bool {
    find_rif(&v.rif_src.as_ref().unwrap().rifs, &name.to_owned()).is_some()
}

#[test]
fn apply_update_rif_def_renames_top_level_rif() {
    let mut v = load_with_basic_rw_selected();
    let action = renamed(&v, "test_rif", "test_rif_renamed");
    apply(&mut v, action);
    assert!(v.edit_err.is_none());
    assert!(!has_rif(&v, "test_rif"), "old name should no longer resolve");
    assert_eq!(rif(&v, "test_rif_renamed").name, "test_rif_renamed");
    assert!(!v.edits.rif_dirty.is_empty(), "decl line marked dirty");
    assert_eq!(v.editing_rif.as_deref(), Some("test_rif_renamed"), "edits belong to the new name");
}

#[test]
fn apply_update_rif_def_rename_onto_existing_name_is_rejected() {
    let mut v = RifViewer::new();
    v.start_open();
    let src = mux_of("top_mux", &[("leaf_a", LEAF_A), ("leaf_b", LEAF_B)]);
    v.finish_open(Opened::Compiled(src, "top_mux".to_owned()));
    let action = renamed(&v, "leaf_a", "leaf_b");
    apply(&mut v, action);

    assert!(v.edit_err.is_some(), "renaming onto an existing RIF name must be rejected");
    assert!(has_rif(&v, "leaf_a"), "leaf_a must still exist under its own name");
    assert_eq!(rif(&v, "leaf_b").description.public, "Leaf B's own description", "leaf_b must be unclobbered");
    let mux = &v.rif_src.as_ref().unwrap().rifmux[0];
    assert!(mux.items.iter().any(|i| i.rif.as_deref() == Some("leaf_a")), "leaf_a's map entry untouched");
    assert!(mux.items.iter().any(|i| i.rif.as_deref() == Some("leaf_b")), "leaf_b's map entry untouched");
    assert!(!v.has_unsaved());
}

#[test]
fn save_file_persists_rif_def_edits_to_disk() {
    let mut v = open(TEST_RIF);
    apply(
        &mut v,
        EditAction::UpdateRifDef {
            rif_type: "test_rif".to_owned(),
            vals: RifDefVals {
                name: "test_rif_renamed".to_owned(),
                addr_width: 10,
                data_width: BusWidth::W16(16),
                interface: Bus::Apb,
                desc: "New top description".to_owned(),
            },
        },
    );
    assert!(v.edit_err.is_none());
    assert!(v.has_unsaved());
    let after = save(&mut v, TEST_RIF);

    assert!(after.contains("rif: test_rif_renamed"), "got:\n{after}");
    assert!(after.contains("addrWidth: 10"), "got:\n{after}");
    assert!(after.contains("dataWidth: 16"), "got:\n{after}");
    assert!(after.contains("  description:"), "got:\n{after}");
    assert!(after.contains("    New top description"), "got:\n{after}");
    assert!(after.contains("// Main parameters"));
    assert!(after.contains("swClock    : clk_rif"));
    assert!(after.contains("- OPTION_A = True"));
    assert!(after.contains("- basic_rw: \"Simple register with r/w fields\""));
    assert!(!v.has_unsaved(), "nothing is pending after a successful save");
    assert!(has_rif(&v, "test_rif_renamed"));
}

fn set_clocking(v: &mut RifViewer, sw: Vec<Clocking>) {
    let hw = rif(v, "test_rif").hw_clocking.clone();
    apply(v, EditAction::UpdateRifClocking { rif_type: "test_rif".to_owned(), sw, hw });
    assert!(v.edit_err.is_none());
}

#[test]
fn apply_update_rif_clocking_edits_existing_reset_and_marks_line_dirty() {
    let mut v = load_with_basic_rw_selected();
    let mut sw = rif(&v, "test_rif").sw_clocking.clone();
    assert_eq!(sw.len(), 1, "test_rif declares exactly one software clock");
    let orig_reset_line = sw[0].rst.decl_line.expect("swReset has a tracked line");
    sw[0].rst.active_high = true;
    set_clocking(&mut v, sw);

    assert!(rif(&v, "test_rif").sw_clocking[0].rst.active_high);
    assert!(v.edits.rif_reset_deleted.contains(&orig_reset_line));
    let new_lines = v.edits.rif_reset_sw.as_ref().expect("sw group");
    assert_eq!(new_lines.len(), 1);
    assert!(new_lines[0].contains("activeHigh"), "got: {new_lines:?}");
    assert!(v.edits.rif_clock_line_edits.iter().all(kept), "clock/en/clear lines are unrelated to this edit");
}

/// The software clocks of the test file and one more.
fn two_clocks(v: &RifViewer) -> Vec<Clocking> {
    let mut sw = rif(v, "test_rif").sw_clocking.clone();
    sw.push(clocking("clk2", "rst2_n"));
    sw
}

#[test]
fn apply_update_rif_clocking_adds_new_clock_records_line_and_insert() {
    let mut v = load_with_basic_rw_selected();
    let orig_reset_line = rif(&v, "test_rif").sw_clocking[0].rst.decl_line.expect("swReset has a tracked line");
    let sw = two_clocks(&v);
    set_clocking(&mut v, sw);

    let body = written(&v.edits.rif_clock_line_edits[RifClockLineKind::SwClock.rank()]).expect("a replace");
    assert!(body.contains("clk_rif") && body.contains("clk2"), "got: {body}");
    assert!(v.edits.rif_reset_deleted.contains(&orig_reset_line), "original reset line deleted too");
    let new_lines = v.edits.rif_reset_sw.as_ref().expect("sw group");
    assert_eq!(new_lines.len(), 2, "whole group rewritten, not just the new clock");
    assert!(new_lines.iter().any(|l| l.contains("rst_rif_n")));
    assert!(new_lines.iter().any(|l| l.contains("rst2_n")));
}

#[test]
fn save_file_persists_rif_clocking_edits_to_disk() {
    let mut v = open(TEST_RIF);
    let sw = two_clocks(&v);
    set_clocking(&mut v, sw);
    assert!(v.has_unsaved());
    let after = save(&mut v, TEST_RIF);

    assert!(after.contains("swClock: clk_rif clk2"), "got:\n{after}");
    assert!(!after.contains("swReset    : rst_rif_n activeLow async"), "original line must be gone, got:\n{after}");
    assert!(after.contains("swReset: rst_rif_n activeLow async"), "original reset rewritten, got:\n{after}");
    assert!(after.contains("swReset: rst2_n activeLow async"), "new clock's reset inserted, got:\n{after}");
    let clock_pos = after.find("swClock: clk_rif clk2").unwrap();
    let rst1_pos = after.find("swReset: rst_rif_n").unwrap();
    let rst2_pos = after.find("swReset: rst2_n").unwrap();
    assert!(clock_pos < rst1_pos && rst1_pos < rst2_pos, "got:\n{after}");
    assert!(!v.has_unsaved(), "clocking edits must be cleared after a successful save");
    let r = rif(&v, "test_rif");
    assert_eq!(r.sw_clocking.len(), 2);
    assert!(r.sw_clocking[1].rst.decl_line.is_some(), "new reset line got a real line number");
}

fn params_of(v: &RifViewer) -> Vec<ParamEntry> {
    rif(v, "test_rif")
        .parameters
        .iter()
        .map(|p| ParamEntry { orig_name: Some(p.name.clone()), name: p.name.clone(), value: p.value.clone() })
        .collect()
}

fn param_line(v: &RifViewer, name: &str) -> usize {
    rif(v, "test_rif").src.param_lines.iter().find(|p| p.name == name).unwrap().line
}

#[test]
fn apply_update_rif_params_renames_param_and_reuses_its_line() {
    let mut v = load_with_basic_rw_selected();
    assert_eq!(rif(&v, "test_rif").parameters.len(), 2);
    let option_a_line = param_line(&v, "OPTION_A");
    let nb_reg_line = param_line(&v, "NB_REG");
    let mut params = params_of(&v);
    params[0].name = "OPTION_A_RENAMED".to_owned();
    apply(
        &mut v,
        EditAction::UpdateRifParamsAndGenerics { rif_type: "test_rif".to_owned(), params, generics: Vec::new() },
    );
    assert!(v.edit_err.is_none());

    let r = rif(&v, "test_rif");
    assert!(r.parameters.iter().all(|p| p.name != "OPTION_A"));
    assert!(r.parameters.iter().any(|p| p.name == "OPTION_A_RENAMED"));
    let edit = v.edits.rif_param_edits.get(&option_a_line).expect("the line is edited");
    assert!(written(edit).is_some_and(|t| t.contains("OPTION_A_RENAMED")), "got: {edit:?}");
    assert!(!v.edits.rif_param_edits.contains_key(&nb_reg_line), "the sibling's line must be left alone");
}

#[test]
fn save_file_persists_rif_params_and_generics_edits_to_disk() {
    let mut v = open(TEST_RIF);
    assert!(rif(&v, "test_rif").generics.is_empty(), "there is no generics: section");
    let mut params = params_of(&v);
    params[0].name = "OPTION_A_RENAMED".to_owned();
    params.push(ParamEntry { orig_name: None, name: "NEW_PARAM".to_owned(), value: expr("7", "7") });
    let range = Range { min: 1, default: 4, max: 8, desc: Some("Bit width".to_owned()) };
    let generics = vec![GenericEntry { orig_name: None, name: "WIDTH".to_owned(), range }];
    apply(
        &mut v,
        EditAction::UpdateRifParamsAndGenerics { rif_type: "test_rif".to_owned(), params, generics },
    );
    assert!(v.edit_err.is_none());
    assert!(v.has_unsaved());
    let after = save(&mut v, TEST_RIF);

    assert!(after.contains("- OPTION_A_RENAMED = 1"), "got:\n{after}");
    assert!(after.contains("- NB_REG = 4"), "sibling parameter untouched, got:\n{after}");
    assert!(after.contains("- NEW_PARAM = 7"), "new parameter appended, got:\n{after}");
    assert!(after.contains("generics :"), "new generics: section header emitted, got:\n{after}");
    assert!(after.contains("- WIDTH : 1:4:8 \"Bit width\""), "got:\n{after}");
    assert!(!v.has_unsaved(), "param/generic edits must be cleared after a successful save");
    let r = rif(&v, "test_rif");
    assert_eq!(r.parameters.len(), 3);
    assert_eq!(r.generics.len(), 1);
    assert!(r.src.param_lines.iter().any(|p| p.name == "NEW_PARAM"));
    assert!(r.src.generic_lines.iter().any(|p| p.name == "WIDTH"));
}
