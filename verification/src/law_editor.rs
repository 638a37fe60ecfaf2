//! What the editors show, and the edits that they make.
use vstd::arithmetic::power2::pow2;
use vstd::prelude::*;
use crate::action::EditActionView;
use crate::bridge::{counter_read, limit_read, password_read, signal_read};
use crate::compiled::{FieldInstView, ResetInt};
use crate::condition::condition_problem;
use crate::counter::is_counter;
use crate::enum_editor::{
    clash, clash_from, clash_with, entries_of, entry_of, enum_saved, largest, new_row, next_value, opened_rows,
    u8_parsed, EnumEditorView, EnumEntryRowView,
};
use crate::field_editor::{
    changed_props, counter_text, counts, field_built, field_override_built, field_vals, loaded,
    loaded_field_override, password_parts, password_text, prop_if, reads, EnumMode, FieldBuffersView,
    FieldEditorView, FieldOverrideEditorView, FieldReadingsView, LimitKind, VisMode,
};
use crate::law_rif::lemma_both;
use crate::lines::joined;
use crate::model::page::FieldOvrView;
use crate::model::props::FieldProp;
use crate::model::register::FieldDefView;
use crate::model::rif::{EnumItemView, EnumTypeView};
use crate::model::values::{
    BitPosView, CountDir, Counter, DimView, EnumRefView, HwAcc, HwKind, IntrClear, IntrOvr, LimitValueView,
    PasswordView, RawVis, ResetView, SwKindView, Trigger, Vis, WriteLockView,
};
use crate::number::{
    byte_value, decimal_is_trimmed, decimal_reads_back, isize_value, prefixed_signed, prefixed_unsigned,
    signed_value,
};
use crate::search::{first, lemma_first, lemma_is_first, lemma_no_first};
use crate::source::enum_named;
use crate::syntax::{reset_text, short_desc};
use crate::text::trimmed;

verus! {

/// Whether a buffer shows a number: nothing for zero, and otherwise its digits.
pub open spec fn shows_number(t: Seq<char>, n: int) -> bool {
    &&& n == 0 ==> t.len() == 0
    &&& n != 0 ==> signed_value(t, 10) == Some(n) && trimmed(t) == t
}

proof fn lemma_nonzero(n: int)
    ensures
        shows_number(crate::field_editor::nonzero_text(n), n),
{
    decimal_reads_back(n);
    decimal_is_trimmed(n);
}

/// Whether the first counter of a field is at a place.
pub open spec fn is_first_counter(kinds: Seq<HwKind>, k: int, c: Counter) -> bool {
    &&& 0 <= k < kinds.len()
    &&& kinds[k] == HwKind::Counter(c)
    &&& forall|j: int| 0 <= j < k ==> !((#[trigger] kinds[j]) is Counter)
}

/// The editor of a field shows the field: its name, place, size, reset value, description and access,
/// and every property that it can edit. Numbers are shown so that they read back.
pub proof fn editor_shows_the_field(
    e: FieldEditorView,
    key: (Seq<char>, Seq<char>),
    f: FieldInstView,
    def: FieldDefView,
    enum_defs: Seq<EnumTypeView>,
    rif_type: Seq<char>,
    group_type: Seq<char>,
    reg: Option<IntrOvr>,
)
    requires
        loaded(e, key, f, def, enum_defs, rif_type, group_type, reg),
    ensures
        ({
            let b = e.buf;
            &&& e.key == key && e.rif_type == rif_type && e.group_type == group_type
            &&& e.orig == b && e.reg_intr_default == reg && e.parse_err is None
            &&& b.name == f.name
            &&& signed_value(b.lsb, 10) == Some(f.lsb as int) && trimmed(b.lsb) == b.lsb
            &&& signed_value(b.width, 10) == Some(f.width.bits() as int) && trimmed(b.width) == b.width
            &&& def.array matches DimView::Value(n) ==> shows_number(b.array, n as int)
            &&& def.array is Param ==> b.array.len() == 0
            &&& shows_number(b.array_pos_incr, def.array_pos_incr as int)
            &&& shows_number(b.nb_frac, def.nb_frac as int)
            &&& f.reset matches ResetInt::Unsigned(v) ==> signed_value(b.reset, 10) == Some(v as int) && !b.signed
            &&& f.reset matches ResetInt::Signed(v) ==> signed_value(b.reset, 10) == Some(v as int) && b.signed
            &&& b.desc == f.description.public
            &&& def.sw_kind is Password ==> b.sw_kind == SwKindView::ReadWrite
            &&& !(def.sw_kind is Password) ==> b.sw_kind == f.sw_kind
            &&& b.hw_acc == def.hw_acc
            &&& def.visibility == RawVis::Full <==> b.visibility == VisMode::Full
            &&& def.visibility == RawVis::Hidden <==> b.visibility == VisMode::Hidden
            &&& def.visibility == RawVis::Reserved <==> b.visibility == VisMode::Reserved
            &&& def.visibility == RawVis::Disabled <==> b.visibility == VisMode::Disabled
            &&& b.lock_on <==> def.lock != WriteLockView::Open
            &&& def.lock matches WriteLockView::Expr(t) ==> b.lock == t
            &&& !(def.lock is Expr) ==> b.lock.len() == 0
            &&& b.limit_bypass == def.limit.bypass
            &&& def.limit.value is Any <==> b.limit_kind == LimitKind::Any
            &&& def.limit.value is List <==> b.limit_kind == LimitKind::List
            &&& def.limit.value is Enum <==> b.limit_kind == LimitKind::Enum
            &&& def.limit.value is External <==> b.limit_kind == LimitKind::External
            &&& def.limit.value matches LimitValueView::Min(x) ==> b.limit_min == reset_text(x) && b.limit_max.len() == 0
            &&& def.limit.value matches LimitValueView::Max(x) ==> b.limit_max == reset_text(x) && b.limit_min.len() == 0
            &&& def.limit.value matches LimitValueView::MinMax(x, y) ==> b.limit_min == reset_text(x) && b.limit_max
                == reset_text(y)
            &&& def.limit.value matches LimitValueView::List(vs) ==> b.limit_list == joined(
                Seq::new(vs.len(), |i: int| reset_text(vs[i])),
                ","@,
            )
            &&& (forall|j: int| 0 <= j < def.hw_kind.len() ==> !((#[trigger] def.hw_kind[j]) is Counter)) ==> !b.counter_on
            &&& forall|k: int, c: Counter| #[trigger]
                is_first_counter(def.hw_kind, k, c) ==> {
                    &&& b.counter_on
                    &&& b.counter_sat == c.sat && b.counter_event == c.event && b.counter_clr == c.clr
                    &&& c.kind != CountDir::Down ==> signed_value(b.counter_up, 10) == Some(c.incr_val as int)
                    &&& c.kind == CountDir::Down ==> b.counter_up.len() == 0
                    &&& c.kind != CountDir::Up ==> signed_value(b.counter_down, 10) == Some(c.decr_val as int)
                    &&& c.kind == CountDir::Up ==> b.counter_down.len() == 0
                }
            &&& b.password_on <==> def.sw_kind is Password
            &&& def.sw_kind matches SwKindView::Password(p) ==> {
                &&& b.password_protect == p.protect
                &&& p.once matches Some(x) ==> b.password_once == reset_text(x)
                &&& p.once is None ==> b.password_once.len() == 0
                &&& p.hold matches Some(x) ==> b.password_hold == reset_text(x)
                &&& p.hold is None ==> b.password_hold.len() == 0
            }
            &&& def.enum_kind is Plain <==> b.enum_mode == EnumMode::Plain
            &&& def.enum_kind is Doc <==> b.enum_mode == EnumMode::Doc
            &&& def.enum_kind matches EnumRefView::Type(n) ==> b.enum_name == n
            &&& b.intr_trigger_ovr_on <==> def.intr_ovr.trigger is Some
            &&& def.intr_ovr.trigger matches Some(t) ==> b.intr_trigger_ovr == t
            &&& def.intr_ovr.trigger is None ==> (reg matches Some(d) ==> (d.trigger matches Some(t)
                ==> b.intr_trigger_ovr == t))
            &&& def.intr_ovr.trigger is None && (reg is None || reg->0.trigger is None) ==> b.intr_trigger_ovr
                == Trigger::High
            &&& def.intr_ovr.clear is None ==> (reg matches Some(d) ==> (d.clear matches Some(c) ==> b.intr_clear_ovr
                == c))
            &&& def.intr_ovr.clear is None && (reg is None || reg->0.clear is None) ==> b.intr_clear_ovr
                == IntrClear::Read
            &&& b.intr_clear_ovr_on <==> def.intr_ovr.clear is Some
            &&& def.intr_ovr.clear matches Some(c) ==> b.intr_clear_ovr == c
        }),
{
    decimal_reads_back(f.lsb as int);
    decimal_is_trimmed(f.lsb as int);
    decimal_reads_back(f.width.bits() as int);
    decimal_is_trimmed(f.width.bits() as int);
    lemma_nonzero(def.array_pos_incr as int);
    lemma_nonzero(def.nb_frac as int);
    if let DimView::Value(n) = def.array {
        lemma_nonzero(n as int);
    }
    match f.reset {
        ResetInt::Unsigned(v) => {
            decimal_reads_back(v as int);
        },
        ResetInt::Signed(v) => {
            decimal_reads_back(v as int);
        },
    }
    if let LimitValueView::List(vs) = def.limit.value {
        assert(crate::field_editor::reset_texts(vs) =~= Seq::new(vs.len(), |i: int| reset_text(vs[i])));
    }
    lemma_first(def.hw_kind, counts());
    let b = e.buf;
    assert forall|k: int, c: Counter| #[trigger] is_first_counter(def.hw_kind, k, c) implies {
        &&& b.counter_on
        &&& b.counter_sat == c.sat && b.counter_event == c.event && b.counter_clr == c.clr
        &&& c.kind != CountDir::Down ==> signed_value(b.counter_up, 10) == Some(c.incr_val as int)
        &&& c.kind == CountDir::Down ==> b.counter_up.len() == 0
        &&& c.kind != CountDir::Up ==> signed_value(b.counter_down, 10) == Some(c.decr_val as int)
        &&& c.kind == CountDir::Up ==> b.counter_down.len() == 0
    } by {
        lemma_is_first(def.hw_kind, counts(), k);
        decimal_reads_back(c.incr_val as int);
        decimal_reads_back(c.decr_val as int);
    }
    if forall|j: int| 0 <= j < def.hw_kind.len() ==> !((#[trigger] def.hw_kind[j]) is Counter) {
        lemma_no_first(def.hw_kind, counts());
    }
}

/// The lock that was typed is read as it was typed, and the limit as a range, a list or a word, with the
/// bypass behind it. What was left blank is not read.
pub proof fn lock_and_limit_are_read_as_typed(e: FieldEditorView, r: FieldReadingsView)
    requires
        reads(e, r),
    ensures
        ({
            let b = e.buf;
            let bypass = trimmed(b.limit_bypass);
            let behind: Seq<char> = if bypass.len() == 0 {
                seq![]
            } else {
                " "@ + bypass
            };
            &&& !b.lock_on || trimmed(b.lock).len() == 0 ==> r.lock is None
            &&& b.lock_on && trimmed(b.lock).len() > 0 && condition_problem(trimmed(b.lock)) is None ==> {
                &&& signal_read(trimmed(b.lock)) matches Some(x) ==> r.lock == Some(
                    Ok::<Option<Seq<char>>, Seq<char>>(x),
                )
                &&& signal_read(trimmed(b.lock)) is None ==> r.lock matches Some(Err(_))
            }
            &&& b.lock_on && trimmed(b.lock).len() > 0 ==> (condition_problem(trimmed(b.lock)) matches Some(p)
                ==> r.lock == Some(Err::<Option<Seq<char>>, Seq<char>>(p)))
            &&& b.limit_kind == LimitKind::Any ==> r.limit is None
            &&& b.limit_kind == LimitKind::Range ==> r.limit == Some(
                limit_read("["@ + trimmed(b.limit_min) + ":"@ + trimmed(b.limit_max) + "]"@ + behind),
            )
            &&& b.limit_kind == LimitKind::List ==> r.limit == Some(
                limit_read("{"@ + trimmed(b.limit_list) + "}"@ + behind),
            )
            &&& b.limit_kind == LimitKind::Enum ==> r.limit == Some(limit_read("enum"@ + behind))
            &&& b.limit_kind == LimitKind::External ==> r.limit == Some(limit_read("external"@ + behind))
        }),
{
    let b = e.buf;
    reveal_strlit("[");
    reveal_strlit("{");
    reveal_strlit("enum");
    reveal_strlit("external");
    let bypass = trimmed(b.limit_bypass);
    let behind: Seq<char> = if bypass.len() == 0 {
        seq![]
    } else {
        " "@ + bypass
    };
    let range = "["@ + trimmed(b.limit_min) + ":"@ + trimmed(b.limit_max) + "]"@;
    let list = "{"@ + trimmed(b.limit_list) + "}"@;
    if bypass.len() == 0 {
        assert(range + behind =~= range);
        assert(list + behind =~= list);
        assert("enum"@ + behind =~= "enum"@);
        assert("external"@ + behind =~= "external"@);
    } else {
        assert(range + behind =~= range + " "@ + bypass);
        assert(list + behind =~= list + " "@ + bypass);
        assert("enum"@ + behind =~= "enum"@ + " "@ + bypass);
        assert("external"@ + behind =~= "external"@ + " "@ + bypass);
    }
    assert(range[0] == '[');
    assert(list[0] == '{');
}

/// A step of a counter: nothing for one that was left blank or is zero.
pub open spec fn step_typed(key: Seq<char>, value: Seq<char>) -> Seq<char> {
    if trimmed(value).len() > 0 && trimmed(value) != "0"@ {
        key + trimmed(value)
    } else {
        seq![]
    }
}

/// The counter that was typed: its direction, by the steps that were typed, then the steps and the words.
pub open spec fn counter_typed(b: FieldBuffersView) -> Seq<char> {
    let (up, down) = (trimmed(b.counter_up).len() > 0, trimmed(b.counter_down).len() > 0);
    let dir = if up && down {
        "updown"@
    } else if up {
        "up"@
    } else {
        "down"@
    };
    let none = Seq::<char>::empty();
    dir + step_typed(" incrVal="@, b.counter_up) + step_typed(" decrVal="@, b.counter_down) + (if b.counter_sat {
        " sat"@
    } else {
        none
    }) + (if b.counter_event {
        " event"@
    } else {
        none
    }) + (if b.counter_clr {
        " clr"@
    } else {
        none
    })
}

/// The counter is read as it was typed; without a step there is none.
pub proof fn counter_is_read_as_typed(e: FieldEditorView, r: FieldReadingsView)
    requires
        reads(e, r),
    ensures
        ({
            let b = e.buf;
            let some = trimmed(b.counter_up).len() > 0 || trimmed(b.counter_down).len() > 0;
            &&& !b.counter_on || !some ==> r.counter is None
            &&& b.counter_on && some && is_counter(counter_typed(b)) ==> r.counter == Some(
                counter_read(counter_typed(b)),
            )
            &&& b.counter_on && some && !is_counter(counter_typed(b)) ==> r.counter matches Some(Err(_))
        }),
{
    reveal_strlit("up");
    reveal_strlit("down");
    reveal_strlit("updown");
    let b = e.buf;
    if trimmed(b.counter_up).len() > 0 || trimmed(b.counter_down).len() > 0 {
        assert(counter_text(e) =~= counter_typed(b));
        assert(counter_typed(b).len() > 0);
    }
}

/// The password is read as it was typed, part by part; without any part there is nothing to read.
pub proof fn password_is_read_as_typed(e: FieldEditorView, r: FieldReadingsView)
    requires
        reads(e, r),
    ensures
        ({
            let b = e.buf;
            let (once, hold) = (trimmed(b.password_once), trimmed(b.password_hold));
            let t = (if once.len() > 0 {
                "once="@ + once
            } else {
                seq![]
            }) + (if once.len() > 0 && hold.len() > 0 {
                " "@
            } else {
                seq![]
            }) + (if hold.len() > 0 {
                "hold="@ + hold
            } else {
                seq![]
            }) + (if (once.len() > 0 || hold.len() > 0) && b.password_protect {
                " "@
            } else {
                seq![]
            }) + (if b.password_protect {
                "protect"@
            } else {
                seq![]
            });
            &&& !b.password_on || t.len() == 0 ==> r.password is None
            &&& b.password_on && t.len() > 0 ==> r.password == Some(password_read(t))
        }),
{
    let b = e.buf;
    let (once, hold) = (trimmed(b.password_once), trimmed(b.password_hold));
    let parts = password_parts(e);
    let sep = " "@;
    let rest = parts.skip(1);
    let end = rest.skip(1);
    let t = (if once.len() > 0 {
        "once="@ + once
    } else {
        seq![]
    }) + (if once.len() > 0 && hold.len() > 0 {
        sep
    } else {
        seq![]
    }) + (if hold.len() > 0 {
        "hold="@ + hold
    } else {
        seq![]
    }) + (if (once.len() > 0 || hold.len() > 0) && b.password_protect {
        sep
    } else {
        seq![]
    }) + (if b.password_protect {
        "protect"@
    } else {
        seq![]
    });
    if parts.len() == 0 {
        assert(password_text(e) =~= t);
    } else if parts.len() == 1 {
        assert(password_text(e) == parts[0]);
        assert(password_text(e) =~= t);
    } else if parts.len() == 2 {
        assert(rest.len() == 1 && rest[0] == parts[1]);
        assert(joined(rest, sep) == parts[1]);
        assert(password_text(e) == parts[0] + sep + parts[1]);
        assert(password_text(e) =~= t);
    } else {
        assert(parts.len() == 3);
        assert(rest.len() == 2 && rest[0] == parts[1] && end.len() == 1 && end[0] == parts[2]);
        assert(joined(end, sep) == parts[2]);
        assert(joined(rest, sep) == parts[1] + sep + parts[2]);
        assert(password_text(e) == parts[0] + sep + (parts[1] + sep + parts[2]));
        assert(password_text(e) =~= t);
    }
}

/// The edit that the editor of a field makes is of the field that was loaded, and has what was typed:
/// texts without the blanks around them, numbers as they read. A reset value is among it only where it
/// was touched.
pub proof fn edit_has_what_was_typed(
    e: FieldEditorView,
    r: FieldReadingsView,
    after: FieldEditorView,
    action: EditActionView,
)
    requires
        field_built(e, r, after, Some(action)),
    ensures
        after == (FieldEditorView { parse_err: None, ..e }),
        action matches EditActionView::UpdateField { rif_type, reg_type, orig_name, vals } && {
            let b = e.buf;
            &&& rif_type == e.rif_type && reg_type == e.key.0 && orig_name == e.key.1
            &&& vals.name == trimmed(b.name) && vals.name.len() > 0
            &&& vals.pos matches BitPosView::MsbLsb(DimView::Value(m), DimView::Value(l)) && byte_value(trimmed(b.lsb))
                == Some(l) && (byte_value(trimmed(b.width)) matches Some(w) && w > 0 && (l + w - 1 <= 255 ==> m == l + w
                - 1))
            &&& trimmed(b.array).len() == 0 ==> vals.array == DimView::Value(0)
            &&& trimmed(b.array).len() > 0 ==> (vals.array matches DimView::Value(n) && byte_value(trimmed(b.array))
                == Some(n))
            &&& trimmed(b.array_pos_incr).len() == 0 ==> vals.array_pos_incr == 0
            &&& trimmed(b.array_pos_incr).len() > 0 ==> byte_value(trimmed(b.array_pos_incr)) == Some(
                vals.array_pos_incr,
            )
            &&& trimmed(b.nb_frac).len() == 0 ==> vals.nb_frac == 0
            &&& trimmed(b.nb_frac).len() > 0 ==> isize_value(trimmed(b.nb_frac)) == Some(vals.nb_frac)
            &&& b.reset == e.orig.reset && b.signed == e.orig.signed ==> vals.reset is None
            &&& !(b.reset == e.orig.reset && b.signed == e.orig.signed) ==> {
                &&& b.signed ==> (vals.reset matches Some(ResetView::Signed(x)) && prefixed_signed(trimmed(b.reset))
                    == Some(x as int))
                &&& !b.signed ==> (vals.reset matches Some(ResetView::Unsigned(x)) && prefixed_unsigned(
                    trimmed(b.reset),
                ) == Some(x as nat))
            }
            &&& vals.signed == b.signed
            &&& vals.sw_kind == b.sw_kind
            &&& vals.desc == b.desc
            &&& vals.hw_acc == b.hw_acc
            &&& b.visibility == VisMode::Full ==> vals.visibility == Some(RawVis::Full)
            &&& b.visibility == VisMode::Hidden ==> vals.visibility == Some(RawVis::Hidden)
            &&& b.visibility == VisMode::Reserved ==> vals.visibility == Some(RawVis::Reserved)
            &&& b.visibility == VisMode::Disabled ==> vals.visibility is None
            &&& r.lock is None ==> vals.lock == WriteLockView::Open
            &&& r.lock matches Some(x) ==> (x matches Ok(Some(t)) && vals.lock == WriteLockView::Expr(t))
            &&& r.limit is None ==> vals.limit.value is Any && vals.limit.bypass.len() == 0
            &&& r.limit matches Some(x) ==> x == Ok::<_, Seq<char>>(vals.limit)
            &&& r.counter is None ==> vals.counter is None
            &&& r.counter matches Some(x) ==> (vals.counter matches Some(c) && x == Ok::<Counter, Seq<char>>(c))
            &&& r.password matches Some(x) ==> (vals.password matches Some(p) && x == Ok::<PasswordView, Seq<char>>(p))
            &&& r.password is None && !b.password_on ==> vals.password is None
            &&& r.password is None && b.password_on ==> vals.password == Some(
                PasswordView { once: None, hold: None, protect: false },
            )
            &&& b.enum_mode == EnumMode::Plain ==> vals.enum_kind == EnumRefView::Plain
            &&& b.enum_mode == EnumMode::Doc ==> vals.enum_kind == EnumRefView::Doc(
                "doc:"@ + e.group_type + "_"@ + trimmed(b.name),
            )
            &&& b.enum_mode == EnumMode::Type && trimmed(b.enum_name).len() == 0 ==> vals.enum_kind
                == EnumRefView::Type("e_"@ + e.group_type + "_"@ + trimmed(b.name))
            &&& b.enum_mode == EnumMode::Type && trimmed(b.enum_name).len() > 0 && trimmed(b.enum_name) != "type"@
                ==> vals.enum_kind == EnumRefView::Type(trimmed(b.enum_name))
            &&& e.reg_intr_default is None ==> vals.intr_ovr is None
            &&& e.reg_intr_default matches Some(d) ==> vals.reg_intr_default == d && (vals.intr_ovr matches Some(o) && {
                &&& b.intr_trigger_ovr_on ==> o.trigger == Some(b.intr_trigger_ovr)
                &&& !b.intr_trigger_ovr_on ==> o.trigger is None
                &&& b.intr_clear_ovr_on ==> o.clear == Some(b.intr_clear_ovr)
                &&& !b.intr_clear_ovr_on ==> o.clear is None
            })
        },
{
    reveal_strlit("type");
}

proof fn lemma_prop_if(cond: bool, p: FieldProp, q: FieldProp)
    ensures
        prop_if(cond, p).contains(q) <==> cond && p == q,
{
    if cond {
        assert(prop_if(cond, p)[0] == p);
    }
}

/// The properties whose lines are to be written are those whose buffers hold something else than they
/// were loaded with; the line of a pulse is written wherever there is or was one.
pub proof fn changed_properties_are_those_touched(e: FieldEditorView, r: FieldReadingsView)
    ensures
        ({
            let (b, o) = (e.buf, e.orig);
            let c = field_vals(e, r).changed;
            &&& c.contains(FieldProp::Signed) <==> b.signed != o.signed
            &&& c.contains(FieldProp::HwAcc) <==> b.hw_acc != o.hw_acc
            &&& c.contains(FieldProp::NbFrac) <==> trimmed(b.nb_frac) != o.nb_frac
            &&& c.contains(FieldProp::ArrayPosIncr) <==> trimmed(b.array_pos_incr) != o.array_pos_incr
            &&& c.contains(FieldProp::Visibility) <==> b.visibility != o.visibility
            &&& c.contains(FieldProp::EnumKind) <==> b.enum_mode != o.enum_mode || trimmed(b.enum_name) != o.enum_name
            &&& c.contains(FieldProp::Lock) <==> b.lock_on != o.lock_on || trimmed(b.lock) != o.lock
            &&& c.contains(FieldProp::Pulse) <==> b.sw_kind is W1Pulse || o.sw_kind is W1Pulse
            &&& c.contains(FieldProp::Limit) <==> b.limit_kind != o.limit_kind || trimmed(b.limit_min) != o.limit_min
                || trimmed(b.limit_max) != o.limit_max || trimmed(b.limit_list) != o.limit_list || trimmed(
                b.limit_bypass,
            ) != o.limit_bypass
            &&& c.contains(FieldProp::Counter) <==> b.counter_on != o.counter_on || trimmed(b.counter_up)
                != o.counter_up || trimmed(b.counter_down) != o.counter_down || b.counter_sat != o.counter_sat
                || b.counter_event != o.counter_event || b.counter_clr != o.counter_clr
            &&& c.contains(FieldProp::Password) <==> b.password_on != o.password_on || trimmed(b.password_once)
                != o.password_once || trimmed(b.password_hold) != o.password_hold || b.password_protect
                != o.password_protect
            &&& c.contains(FieldProp::Interrupt) <==> e.reg_intr_default is Some && (b.intr_trigger_ovr_on
                != o.intr_trigger_ovr_on || b.intr_trigger_ovr != o.intr_trigger_ovr || b.intr_clear_ovr_on
                != o.intr_clear_ovr_on || b.intr_clear_ovr != o.intr_clear_ovr)
        }),
{
    lemma_changed(e, FieldProp::Signed);
    lemma_changed(e, FieldProp::HwAcc);
    lemma_changed(e, FieldProp::NbFrac);
    lemma_changed(e, FieldProp::ArrayPosIncr);
    lemma_changed(e, FieldProp::Visibility);
    lemma_changed(e, FieldProp::EnumKind);
    lemma_changed(e, FieldProp::Lock);
    lemma_changed(e, FieldProp::Pulse);
    lemma_changed(e, FieldProp::Limit);
    lemma_changed(e, FieldProp::Counter);
    lemma_changed(e, FieldProp::Password);
    lemma_changed(e, FieldProp::Interrupt);
}

/// Whether a property was touched.
spec fn touched(e: FieldEditorView, q: FieldProp) -> bool {
    match q {
        FieldProp::Signed => e.buf.signed != e.orig.signed,
        FieldProp::HwAcc => e.buf.hw_acc != e.orig.hw_acc,
        FieldProp::NbFrac => trimmed(e.buf.nb_frac) != e.orig.nb_frac,
        FieldProp::ArrayPosIncr => trimmed(e.buf.array_pos_incr) != e.orig.array_pos_incr,
        FieldProp::Visibility => e.buf.visibility != e.orig.visibility,
        FieldProp::EnumKind => crate::field_editor::enum_changed(e),
        FieldProp::Limit => crate::field_editor::limit_changed(e),
        FieldProp::Lock => crate::field_editor::lock_changed(e),
        FieldProp::Counter => crate::field_editor::counter_changed(e),
        FieldProp::Password => crate::field_editor::password_changed(e),
        FieldProp::Pulse => e.buf.sw_kind is W1Pulse || e.orig.sw_kind is W1Pulse,
        FieldProp::Interrupt => crate::field_editor::interrupt_changed(e),
    }
}

/// The properties that are on, in the order in which they are looked at.
spec fn those(on: spec_fn(FieldProp) -> bool, n: int) -> Seq<FieldProp>
    decreases n,
{
    if n <= 0 {
        seq![]
    } else {
        those(on, n - 1) + prop_if(on(nth(n - 1)), nth(n - 1))
    }
}

spec fn nth(n: int) -> FieldProp {
    if n == 0 {
        FieldProp::Signed
    } else if n == 1 {
        FieldProp::HwAcc
    } else if n == 2 {
        FieldProp::NbFrac
    } else if n == 3 {
        FieldProp::ArrayPosIncr
    } else if n == 4 {
        FieldProp::Visibility
    } else if n == 5 {
        FieldProp::EnumKind
    } else if n == 6 {
        FieldProp::Lock
    } else if n == 7 {
        FieldProp::Pulse
    } else if n == 8 {
        FieldProp::Limit
    } else if n == 9 {
        FieldProp::Counter
    } else if n == 10 {
        FieldProp::Password
    } else {
        FieldProp::Interrupt
    }
}

spec fn place_of(q: FieldProp) -> int {
    match q {
        FieldProp::Signed => 0,
        FieldProp::HwAcc => 1,
        FieldProp::NbFrac => 2,
        FieldProp::ArrayPosIncr => 3,
        FieldProp::Visibility => 4,
        FieldProp::EnumKind => 5,
        FieldProp::Lock => 6,
        FieldProp::Pulse => 7,
        FieldProp::Limit => 8,
        FieldProp::Counter => 9,
        FieldProp::Password => 10,
        FieldProp::Interrupt => 11,
    }
}

proof fn lemma_those(on: spec_fn(FieldProp) -> bool, n: int, q: FieldProp)
    requires
        0 <= n <= 12,
    ensures
        those(on, n).contains(q) <==> place_of(q) < n && on(q),
    decreases n,
{
    if n > 0 {
        lemma_those(on, n - 1, q);
        let p = nth(n - 1);
        lemma_prop_if(on(p), p, q);
        lemma_both(those(on, n - 1), prop_if(on(p), p), q);
        assert(place_of(p) == n - 1);
        if place_of(q) == n - 1 {
            assert(q == p);
        }
    }
}

proof fn lemma_unfold(on: spec_fn(FieldProp) -> bool)
    ensures
        those(on, 12) == prop_if(on(FieldProp::Signed), FieldProp::Signed) + prop_if(on(FieldProp::HwAcc), FieldProp::HwAcc) + prop_if(on(FieldProp::NbFrac), FieldProp::NbFrac) + prop_if(on(FieldProp::ArrayPosIncr), FieldProp::ArrayPosIncr) + prop_if(on(FieldProp::Visibility), FieldProp::Visibility) + prop_if(on(FieldProp::EnumKind), FieldProp::EnumKind) + prop_if(on(FieldProp::Lock), FieldProp::Lock) + prop_if(on(FieldProp::Pulse), FieldProp::Pulse) + prop_if(on(FieldProp::Limit), FieldProp::Limit) + prop_if(on(FieldProp::Counter), FieldProp::Counter) + prop_if(on(FieldProp::Password), FieldProp::Password) + prop_if(on(FieldProp::Interrupt), FieldProp::Interrupt),
{
    assert(those(on, 0) =~= seq![]);
    let s1 = prop_if(on(FieldProp::Signed), FieldProp::Signed);
    assert(those(on, 1) =~= s1);
    let s2 = s1 + prop_if(on(FieldProp::HwAcc), FieldProp::HwAcc);
    assert(those(on, 2) == s2);
    let s3 = s2 + prop_if(on(FieldProp::NbFrac), FieldProp::NbFrac);
    assert(those(on, 3) == s3);
    let s4 = s3 + prop_if(on(FieldProp::ArrayPosIncr), FieldProp::ArrayPosIncr);
    assert(those(on, 4) == s4);
    let s5 = s4 + prop_if(on(FieldProp::Visibility), FieldProp::Visibility);
    assert(those(on, 5) == s5);
    let s6 = s5 + prop_if(on(FieldProp::EnumKind), FieldProp::EnumKind);
    assert(those(on, 6) == s6);
    let s7 = s6 + prop_if(on(FieldProp::Lock), FieldProp::Lock);
    assert(those(on, 7) == s7);
    let s8 = s7 + prop_if(on(FieldProp::Pulse), FieldProp::Pulse);
    assert(those(on, 8) == s8);
    let s9 = s8 + prop_if(on(FieldProp::Limit), FieldProp::Limit);
    assert(those(on, 9) == s9);
    let s10 = s9 + prop_if(on(FieldProp::Counter), FieldProp::Counter);
    assert(those(on, 10) == s10);
    let s11 = s10 + prop_if(on(FieldProp::Password), FieldProp::Password);
    assert(those(on, 11) == s11);
    let s12 = s11 + prop_if(on(FieldProp::Interrupt), FieldProp::Interrupt);
    assert(those(on, 12) == s12);
}

proof fn lemma_changed(e: FieldEditorView, q: FieldProp)
    ensures
        changed_props(e).contains(q) <==> touched(e, q),
{
    let on = |p: FieldProp| touched(e, p);
    lemma_unfold(on);
    lemma_those(on, 12, q);
    assert(changed_props(e) == those(on, 12));
}

/// The editor of a field makes no edit where something cannot be read, and says what; otherwise it makes
/// one. What is typed is looked at in this order: the place, the width, the name, the sizes of the array,
/// the reset value, the fractional bits, the lock, the limit, the counter and the password.
pub proof fn editor_says_what_cannot_be_read(
    e: FieldEditorView,
    r: FieldReadingsView,
    after: FieldEditorView,
    action: Option<EditActionView>,
)
    requires
        field_built(e, r, after, action),
    ensures
        ({
            let b = e.buf;
            let place = byte_value(trimmed(b.lsb)) is Some;
            let width = byte_value(trimmed(b.width)) matches Some(w) && w > 0;
            let name = trimmed(b.name).len() > 0;
            let sizes = (trimmed(b.array).len() == 0 || byte_value(trimmed(b.array)) is Some) && (trimmed(
                b.array_pos_incr,
            ).len() == 0 || byte_value(trimmed(b.array_pos_incr)) is Some);
            let reset = (b.reset == e.orig.reset && b.signed == e.orig.signed) || (b.signed && (prefixed_signed(
                trimmed(b.reset),
            ) matches Some(x) && trimmed(b.reset).len() > 0 && i128::MIN <= x <= i128::MAX)) || (!b.signed && (
            prefixed_unsigned(trimmed(b.reset)) matches Some(x) && trimmed(b.reset).len() > 0 && x <= u128::MAX));
            let frac = trimmed(b.nb_frac).len() == 0 || isize_value(trimmed(b.nb_frac)) is Some;
            let plain = place && width && name && sizes && reset && frac;
            let lock = r.lock matches Some(x) ==> x matches Ok(Some(_));
            let limit = r.limit matches Some(x) ==> x is Ok;
            let counter = r.counter matches Some(x) ==> x is Ok;
            let password = r.password matches Some(x) ==> x is Ok;
            &&& action is Some <==> plain && lock && limit && counter && password
            &&& action is None ==> after.parse_err is Some && after == (FieldEditorView {
                parse_err: after.parse_err,
                ..e
            })
            &&& !place ==> after.parse_err == Some("Invalid lsb"@)
            &&& place && !width ==> after.parse_err == Some("Width must be >= 1"@)
            &&& place && width && !name ==> after.parse_err == Some("Name is empty"@)
            &&& plain ==> {
                &&& r.lock matches Some(Err(t)) ==> after.parse_err == Some("Invalid lock: "@ + t)
                &&& r.lock matches Some(Ok(None)) ==> after.parse_err == Some(
                    "Lock expression too complex to persist yet"@,
                )
                &&& lock ==> (r.limit matches Some(Err(t)) ==> after.parse_err == Some("Invalid limit: "@ + t))
                &&& lock && limit ==> (r.counter matches Some(Err(t)) ==> after.parse_err == Some(
                    "Invalid counter: "@ + t,
                ))
                &&& lock && limit && counter ==> (r.password matches Some(Err(t)) ==> after.parse_err == Some(
                    "Invalid password: "@ + t,
                ))
            }
        }),
{
}

/// The editor of what an instance overrides for a field shows it, and makes the edit that was typed.
pub proof fn override_editor_shows_and_edits(
    rif_type: Seq<char>,
    inst_name: Seq<char>,
    field_name: Seq<char>,
    ovr: Option<FieldOvrView>,
    own: ResetView,
    e: FieldOverrideEditorView,
    after: FieldOverrideEditorView,
    action: Option<EditActionView>,
)
    requires
        field_override_built(e, after, action),
    ensures
        ({
            let l = loaded_field_override(rif_type, inst_name, field_name, ovr, own);
            &&& l.rif_type == rif_type && l.inst_name == inst_name && l.field_name == field_name && l.field_reset == own
            &&& l.desc == l.desc_orig && l.disable_on == l.disable_on_orig && l.reset_val == l.reset_val_orig
            &&& l.disable_on <==> (ovr matches Some(o) && o.visibility == Some(Vis::Disabled))
            &&& (ovr matches Some(o) && o.description is Some) ==> l.desc == short_desc(ovr->0.description->0, true)
            &&& !(ovr matches Some(o) && o.description is Some) ==> l.desc.len() == 0
            &&& l.desc_locked <==> (ovr matches Some(o) && (o.description matches Some(d)
                && crate::syntax::override_desc_block(Some(d)) is Some))
            &&& (ovr matches Some(o) && o.reset is Reset) ==> l.reset_val == reset_text(ovr->0.reset->Reset_0)
            &&& !(ovr matches Some(o) && o.reset is Reset) ==> l.reset_val.len() == 0
        }),
        action matches Some(a) ==> (a matches EditActionView::UpdateFieldOverride {
            rif_type: rt,
            inst_name: inn,
            field_name: fnn,
            vals,
        } && {
            &&& rt == e.rif_type && inn == e.inst_name && fnn == e.field_name
            &&& vals.desc == e.desc
            &&& vals.disabled == e.disable_on
            &&& vals.field_reset == e.field_reset
            &&& trimmed(e.reset_val).len() == 0 ==> vals.reset is None
            &&& trimmed(e.reset_val).len() > 0 && e.field_reset is Signed ==> (vals.reset matches Some(
                ResetView::Signed(x),
            ) && prefixed_signed(trimmed(e.reset_val)) == Some(x as int))
            &&& trimmed(e.reset_val).len() > 0 && !(e.field_reset is Signed) ==> (vals.reset matches Some(
                ResetView::Unsigned(x),
            ) && prefixed_unsigned(trimmed(e.reset_val)) == Some(x as nat))
        }),
        action is None <==> after.parse_err is Some,
        trimmed(e.reset_val).len() == 0 ==> action is Some,
        after == (FieldOverrideEditorView { parse_err: after.parse_err, ..e }),
{
}

/// Whether the rows of an enum table show its entries.
pub open spec fn shows_entry(row: EnumEntryRowView, e: EnumItemView) -> bool {
    &&& row.src_line == e.decl_line
    &&& row.name == e.name
    &&& prefixed_unsigned(row.value) == Some(e.value as nat)
    &&& e.repr matches Some(t) ==> row.repr == t
    &&& e.repr is None ==> row.repr.len() == 0
    &&& row.desc == short_desc(e.description, false)
}

/// The table of an enum has a row for each of its entries, in their order, with the line of the file that
/// it stands on; the table of a new enum has one row, for zero.
pub proof fn table_shows_the_entries(defs: Seq<EnumTypeView>, name: Seq<char>, k: int)
    ensures
        (0 <= k < defs.len() && defs[k].name == name && forall|j: int| 0 <= j < k ==> (#[trigger] defs[j]).name != name)
            ==> opened_rows(defs, name).len() == defs[k].values.len() && forall|i: int|
            0 <= i < defs[k].values.len() ==> shows_entry(#[trigger] opened_rows(defs, name)[i], defs[k].values[i]),
        (forall|j: int| 0 <= j < defs.len() ==> (#[trigger] defs[j]).name != name) ==> opened_rows(defs, name).len() == 1
            && opened_rows(defs, name)[0].src_line is None && prefixed_unsigned(opened_rows(defs, name)[0].value)
            == Some(0nat),
{
    if 0 <= k < defs.len() && defs[k].name == name && forall|j: int| 0 <= j < k ==> (#[trigger] defs[j]).name != name {
        lemma_is_first(defs, enum_named(name), k);
        assert forall|i: int| 0 <= i < defs[k].values.len() implies shows_entry(
            #[trigger] opened_rows(defs, name)[i],
            defs[k].values[i],
        ) by {
            decimal_reads_back(defs[k].values[i].value as int);
        }
    }
    if forall|j: int| 0 <= j < defs.len() ==> (#[trigger] defs[j]).name != name {
        lemma_no_first(defs, enum_named(name));
        decimal_reads_back(0);
        assert(largest(seq![], 0) is None);
    }
}

proof fn lemma_largest(rows: Seq<EnumEntryRowView>, n: int)
    requires
        0 <= n <= rows.len(),
    ensures
        forall|i: int|
            0 <= i < n ==> (u8_parsed((#[trigger] rows[i]).value) matches Ok(v) ==> (largest(rows, n) matches Some(m) && v
                <= m)),
        largest(rows, n) matches Some(m) ==> exists|i: int|
            0 <= i < n && u8_parsed((#[trigger] rows[i]).value) == Ok::<u8, Seq<char>>(m),
    decreases n,
{
    if n > 0 {
        lemma_largest(rows, n - 1);
        if let Some(m) = largest(rows, n) {
            if u8_parsed(rows[n - 1].value) == Ok::<u8, Seq<char>>(m) {
                assert(u8_parsed(rows[n - 1].value) == Ok::<u8, Seq<char>>(m));
            } else {
                assert(largest(rows, n - 1) == Some(m));
                let i = choose|i: int|
                    0 <= i < n - 1 && u8_parsed((#[trigger] rows[i]).value) == Ok::<u8, Seq<char>>(m);
                assert(u8_parsed(rows[i].value) == Ok::<u8, Seq<char>>(m));
            }
        }
    }
}

/// A new row of an enum table has a value above all others, as long as there is one, and stands on no
/// line of the file.
pub proof fn new_row_has_a_new_value(rows: Seq<EnumEntryRowView>, i: int, v: u8)
    requires
        0 <= i < rows.len(),
        u8_parsed(rows[i].value) == Ok::<u8, Seq<char>>(v),
    ensures
        new_row(rows).src_line is None,
        new_row(rows).name.len() == 0,
        prefixed_unsigned(new_row(rows).value) matches Some(n) && n <= 255 && n >= v && (n > v || n == 255 || exists|
            j: int,
        |
            0 <= j < rows.len() && u8_parsed((#[trigger] rows[j]).value) == Ok::<u8, Seq<char>>((n - 1) as u8)),
        (forall|j: int|
            0 <= j < rows.len() ==> (u8_parsed((#[trigger] rows[j]).value) matches Ok(w) ==> w < 255))
            ==> prefixed_unsigned(new_row(rows).value)->0 > v,
{
    lemma_largest(rows, rows.len() as int);
    decimal_reads_back(next_value(rows) as int);
    let m = largest(rows, rows.len() as int)->0;
    assert(v <= m);
    let j = choose|j: int| 0 <= j < rows.len() && u8_parsed((#[trigger] rows[j]).value) == Ok::<u8, Seq<char>>(m);
    assert(u8_parsed(rows[j].value) == Ok::<u8, Seq<char>>(m));
}

proof fn lemma_entries(rows: Seq<EnumEntryRowView>, reprs: Seq<Option<Seq<char>>>, width: u8, n: int)
    requires
        0 <= n <= rows.len(),
    ensures
        entries_of(rows, reprs, width, n) matches Ok(s) ==> s.len() == n && forall|i: int|
            0 <= i < n ==> entry_of(#[trigger] rows[i], reprs[i], width) == Ok::<EnumItemView, Seq<char>>(s[i]),
        entries_of(rows, reprs, width, n) is Err ==> exists|i: int|
            0 <= i < n && entry_of(#[trigger] rows[i], reprs[i], width) is Err,
    decreases n,
{
    if n > 0 {
        lemma_entries(rows, reprs, width, n - 1);
        if let Err(t) = entries_of(rows, reprs, width, n) {
            if entries_of(rows, reprs, width, n - 1) is Ok {
                assert(entry_of(rows[n - 1], reprs[n - 1], width) is Err);
            } else {
                let i = choose|i: int| 0 <= i < n - 1 && entry_of(#[trigger] rows[i], reprs[i], width) is Err;
                assert(entry_of(rows[i], reprs[i], width) is Err);
            }
        }
    }
}

proof fn lemma_clash_with(s: Seq<EnumItemView>, i: int, j: int)
    requires
        0 <= i < j <= s.len(),
    ensures
        clash_with(s, i, j) is None <==> forall|k: int|
            j <= k < s.len() ==> s[i].name != (#[trigger] s[k]).name && s[i].value != s[k].value,
    decreases s.len() - j,
{
    if j < s.len() {
        lemma_clash_with(s, i, j + 1);
        if clash(s[i], s[j]) is None {
            assert forall|k: int| j <= k < s.len() && clash_with(s, i, j + 1) is None implies s[i].name != (
            #[trigger] s[k]).name && s[i].value != s[k].value by {}
        }
    }
}

proof fn lemma_clash_from(s: Seq<EnumItemView>, i: int)
    requires
        0 <= i <= s.len(),
    ensures
        clash_from(s, i) is None <==> forall|j: int, k: int|
            i <= j < k < s.len() ==> (#[trigger] s[j]).name != (#[trigger] s[k]).name && s[j].value != s[k].value,
    decreases s.len() - i,
{
    if i < s.len() {
        lemma_clash_from(s, i + 1);
        lemma_clash_with(s, i, i + 1);
        if clash_with(s, i, i + 1) is Some {
            let k = choose|k: int|
                i + 1 <= k < s.len() && !(s[i].name != (#[trigger] s[k]).name && s[i].value != s[k].value);
            assert(!(s[i].name != s[k].name && s[i].value != s[k].value));
        } else if clash_from(s, i + 1) is Some {
            let (j, k) = choose|j: int, k: int|
                i + 1 <= j < k < s.len() && !((#[trigger] s[j]).name != (#[trigger] s[k]).name && s[j].value
                    != s[k].value);
            assert(!(s[j].name != s[k].name && s[j].value != s[k].value));
        }
    }
}

/// Whether a row of an enum table can be an entry: it has a name, and a value that fits the field, and
/// its representation, where it has one, was read.
pub open spec fn good_row(row: EnumEntryRowView, repr: Option<Seq<char>>, width: u8) -> bool {
    &&& trimmed(row.name).len() > 0
    &&& prefixed_unsigned(trimmed(row.value)) matches Some(v) && v <= 255 && v < pow2(width as nat)
    &&& trimmed(row.repr).len() > 0 ==> repr is Some
}

/// Whether an entry is that of a row.
pub open spec fn from_row(x: EnumItemView, row: EnumEntryRowView, repr: Option<Seq<char>>) -> bool {
    &&& x.name == trimmed(row.name)
    &&& prefixed_unsigned(trimmed(row.value)) == Some(x.value as nat)
    &&& trimmed(row.repr).len() > 0 ==> x.repr == repr
    &&& trimmed(row.repr).len() == 0 ==> x.repr is None
    &&& x.description.public == trimmed(row.desc) && x.description.private.len() == 0
    &&& x.decl_line == row.src_line
}

/// The table of an enum makes an edit with an entry for each row, in their order, where every row can be
/// an entry and no two have the same name or value, and the enum has a name that no other has. Otherwise
/// it makes none, and says why.
pub proof fn table_edits_the_enum(
    e: EnumEditorView,
    defs: Seq<EnumTypeView>,
    reprs: Seq<Option<Seq<char>>>,
    after: EnumEditorView,
    action: Option<EditActionView>,
)
    requires
        enum_saved(e, defs, reprs, after, action),
        reprs.len() == e.rows.len(),
    ensures
        action matches Some(a) ==> (a matches EditActionView::UpdateEnum { rif_type, name, values } && {
            &&& rif_type == e.rif_type
            &&& name == trimmed(e.name) && name.len() > 0
            &&& values.len() == e.rows.len()
            &&& forall|i: int| 0 <= i < values.len() ==> from_row(#[trigger] values[i], e.rows[i], reprs[i])
        }),
        action is Some <==> {
            &&& trimmed(e.name).len() > 0
            &&& trimmed(e.name) == e.orig_name || forall|j: int|
                0 <= j < defs.len() ==> (#[trigger] defs[j]).name != trimmed(e.name)
            &&& forall|i: int| 0 <= i < e.rows.len() ==> good_row(#[trigger] e.rows[i], reprs[i], e.width)
            &&& forall|i: int, j: int|
                0 <= i < j < e.rows.len() ==> trimmed((#[trigger] e.rows[i]).name) != trimmed((#[trigger] e.rows[j]).name)
                    && prefixed_unsigned(trimmed(e.rows[i].value)) != prefixed_unsigned(trimmed(e.rows[j].value))
        },
        action is None <==> after.parse_err is Some,
        after == (EnumEditorView { parse_err: after.parse_err, ..e }),
{
    let n = e.rows.len() as int;
    lemma_entries(e.rows, reprs, e.width, n);
    lemma_first(defs, enum_named(trimmed(e.name)));
    assert forall|i: int| 0 <= i < n implies (entry_of(#[trigger] e.rows[i], reprs[i], e.width) is Ok <==> good_row(
        e.rows[i],
        reprs[i],
        e.width,
    )) by {}
    if first(defs, enum_named(trimmed(e.name))) is None {
        assert forall|j: int| 0 <= j < defs.len() implies (#[trigger] defs[j]).name != trimmed(e.name) by {
            assert(!enum_named(trimmed(e.name))(defs[j]));
        }
    }
    match entries_of(e.rows, reprs, e.width, n) {
        Ok(s) => {
            assert forall|i: int| 0 <= i < n implies from_row(#[trigger] s[i], e.rows[i], reprs[i]) by {
                assert(entry_of(e.rows[i], reprs[i], e.width) == Ok::<EnumItemView, Seq<char>>(s[i]));
            }
            lemma_clash_from(s, 0);
            assert forall|i: int| 0 <= i < n implies good_row(#[trigger] e.rows[i], reprs[i], e.width) by {
                assert(entry_of(e.rows[i], reprs[i], e.width) is Ok);
            }
            if clash_from(s, 0) is None {
                assert forall|i: int, j: int| 0 <= i < j < e.rows.len() implies trimmed((#[trigger] e.rows[i]).name)
                    != trimmed((#[trigger] e.rows[j]).name) && prefixed_unsigned(trimmed(e.rows[i].value))
                    != prefixed_unsigned(trimmed(e.rows[j].value)) by {
                    assert(from_row(s[i], e.rows[i], reprs[i]) && from_row(s[j], e.rows[j], reprs[j]));
                    assert(s[i].name != s[j].name && s[i].value != s[j].value);
                }
            } else {
                let (i, j) = choose|i: int, j: int|
                    0 <= i < j < s.len() && !((#[trigger] s[i]).name != (#[trigger] s[j]).name && s[i].value
                        != s[j].value);
                assert(from_row(s[i], e.rows[i], reprs[i]) && from_row(s[j], e.rows[j], reprs[j]));
                assert(!(trimmed(e.rows[i].name) != trimmed(e.rows[j].name) && prefixed_unsigned(
                    trimmed(e.rows[i].value),
                ) != prefixed_unsigned(trimmed(e.rows[j].value))));
            }
        },
        Err(t) => {
            let i = choose|i: int| 0 <= i < n && entry_of(#[trigger] e.rows[i], reprs[i], e.width) is Err;
            assert(!good_row(e.rows[i], reprs[i], e.width));
        },
    }
}

} // verus!
