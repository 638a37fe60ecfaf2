//! What can be edited and saved, and which texts are taken.
use vstd::prelude::*;
use crate::compiled::{editable, FieldInstView};
use crate::condition::{
    condition_problem, expression_end, operators, separators_fit, MOST_COLONS, MOST_OPERATORS, OpenBracket,
};
use crate::counter::{after_gap, is_gap};
use crate::field_editor::{
    field_override_unchanged, loaded, EnumTypeSrc, FieldEditorView, FieldOverrideEditorView,
};
use crate::intr_desc_editor::{derived_text, primary_descs};
use crate::labels::{sw_kind_text, sw_kinds};
use crate::law_place::the_def;
use crate::lines::joined;
use crate::model::page::PageView;
use crate::model::register::{FieldDefView, RegisterDefView};
use crate::model::rif::{EnumTypeView, RifDefView};
use crate::model::values::{AddrKind, InstMode, IntrDescView, IntrKind, IntrOvr, SwKindView};
use crate::reg_editor::{
    conversion_note, reg_override_unchanged, reg_unchanged, reg_vals, shift_note, PendingRegArrayChangeView,
    RegEditorView, RegOverrideEditorView,
};
use crate::search::{first, lemma_first, lemma_is_first};
use crate::session::{addr_reset, array_reset, save_blocked};
use crate::source::{enum_named, inst_named};
use crate::viewer::RifViewerView;
use crate::views::{array_partial, continues, page_continues, placed_by_hand};

verus! {

/// Saving waits while an address conflict is open, or while an editor shows an error: of a field, of a
/// register, or of what an instance overrides. Nothing else holds it up.
pub proof fn saving_waits_for_what_is_wrong(v: RifViewerView)
    ensures
        v.dialogs.confirm_reg_addr_conflict is Some ==> save_blocked(v),
        (v.editors.field_editor matches Some(e) && e.parse_err is Some) ==> save_blocked(v),
        (v.editors.reg_editor matches Some(e) && e.parse_err is Some) ==> save_blocked(v),
        (v.editors.reg_override_editor matches Some(e) && e.parse_err is Some) ==> save_blocked(v),
        (v.editors.field_override_editor matches Some(e) && e.parse_err is Some) ==> save_blocked(v),
        v.dialogs.confirm_reg_addr_conflict is None && (v.editors.field_editor matches Some(e) ==> e.parse_err is None) && (
        v.editors.reg_editor matches Some(e) ==> e.parse_err is None) && (v.editors.reg_override_editor matches Some(e)
            ==> e.parse_err is None) && (v.editors.field_override_editor matches Some(e) ==> e.parse_err is None)
            ==> !save_blocked(v),
{
}

/// The editor of a register that counts as unchanged makes the very edit that it would make with what was
/// loaded: nothing that was typed is passed over.
pub proof fn unchanged_register_editor_holds_nothing_new(e: RegEditorView)
    requires
        reg_unchanged(e),
    ensures
        reg_vals(e) == reg_vals(RegEditorView { buf: e.orig, ..e }),
{
}

/// The editor of what an instance overrides counts as unchanged just where it holds what was loaded, as far
/// as it goes into an edit.
pub proof fn unchanged_override_editor_holds_nothing_new(e: RegOverrideEditorView)
    ensures
        reg_override_unchanged(e) <==> e == (RegOverrideEditorView {
            desc: e.desc_orig,
            hw_on: e.hw_on_orig,
            hw: e.hw_orig,
            optional: e.optional_orig,
            optional_acc_on: e.optional_acc_on_orig,
            optional_acc: e.optional_acc_orig,
            ..e
        }),
{
}

/// The editor of what an instance overrides for a field counts as unchanged just where it holds what was
/// loaded.
pub proof fn unchanged_field_override_editor_holds_nothing_new(e: FieldOverrideEditorView)
    ensures
        field_override_unchanged(e) <==> e == (FieldOverrideEditorView {
            desc: e.desc_orig,
            disable_on: e.disable_on_orig,
            reset_val: e.reset_val_orig,
            ..e
        }),
{
}

/// An address or a size that is given up is the one that was loaded; what else was typed stays.
pub proof fn given_up_values_are_those_loaded(e: RegEditorView)
    ensures
        addr_reset(e).buf.addr == e.orig.addr,
        addr_reset(e).buf.name == e.buf.name,
        addr_reset(e).buf.array == e.buf.array,
        addr_reset(e).orig == e.orig,
        array_reset(e).buf.array == e.orig.array,
        array_reset(e).buf.inst_array == e.orig.inst_array,
        array_reset(e).buf.addr == e.buf.addr,
        array_reset(e).buf.name == e.buf.name,
        array_reset(e).orig == e.orig,
{
}

/// A field can be edited where its width and its array size are numbers, it is no part of a larger field, and
/// it is no array within an array.
pub proof fn editable_fields_are_whole(in_reg_array: bool, f: FieldInstView, def: FieldDefView)
    ensures
        f.width is Generic ==> !editable(in_reg_array, f, def),
        f.partial.0 is Some ==> !editable(in_reg_array, f, def),
        def.array is Param ==> !editable(in_reg_array, f, def),
        in_reg_array && f.array_dim != 0 ==> !editable(in_reg_array, f, def),
        f.width is Fixed && f.partial.0 is None && def.array is Value && (!in_reg_array || f.array_dim == 0) ==> editable(
            in_reg_array,
            f,
            def,
        ),
{
}

/// Whether a field stands at a place and is a later part of a larger field.
pub open spec fn is_later_part(rif: RifDefView, p: int, r: int, k: int, group: Seq<char>, field: Seq<char>) -> bool {
    &&& crate::file_io::has_field(rif, p, r, k)
    &&& the_def(rif, p, r).group_name == group
    &&& the_def(rif, p, r).fields[k].name == field
    &&& the_def(rif, p, r).fields[k].partial.1 > 0
}

/// A field is part of a larger one where a register of its group has a later part of it.
pub proof fn larger_fields_have_later_parts(rif: RifDefView, group: Seq<char>, field: Seq<char>)
    ensures
        array_partial(rif, group, field) <==> exists|p: int, r: int, k: int| #[trigger]
            is_later_part(rif, p, r, k, group, field),
{
    if array_partial(rif, group, field) {
        let p = choose|p: int| 0 <= p < rif.pages.len() && page_continues(#[trigger] rif.pages[p], group, field);
        let r = choose|r: int|
            0 <= r < rif.pages[p].registers.len() && continues(#[trigger] rif.pages[p].registers[r], group, field);
        let d = the_def(rif, p, r);
        let k = choose|k: int|
            0 <= k < d.fields.len() && (#[trigger] d.fields[k]).name == field && d.fields[k].partial.1 > 0;
        assert(is_later_part(rif, p, r, k, group, field));
    }
    if exists|p: int, r: int, k: int| #[trigger] is_later_part(rif, p, r, k, group, field) {
        let (p, r, k) = choose|p: int, r: int, k: int| #[trigger] is_later_part(rif, p, r, k, group, field);
        assert(the_def(rif, p, r).fields[k].name == field);
        assert(continues(rif.pages[p].registers[r], group, field));
        assert(page_continues(rif.pages[p], group, field));
    }
}

/// A register can be moved by hand where the page has explicit addresses and the instance has a fixed one.
pub proof fn instances_at_fixed_places_can_be_moved(p: PageView, inst: Seq<char>, k: int)
    requires
        0 <= k < p.instances.len(),
        p.instances[k].inst_name == inst,
        forall|j: int| 0 <= j < k ==> (#[trigger] p.instances[j]).inst_name != inst,
    ensures
        placed_by_hand(p, inst) <==> p.inst_auto == InstMode::Manual && p.instances[k].addr.kind
            == AddrKind::Absolute,
{
    lemma_is_first(p.instances, inst_named(inst), k);
}

/// The enum of a field is one to choose where the RIF has it under a name without a scope.
pub proof fn known_enums_can_be_chosen(
    e: FieldEditorView,
    key: (Seq<char>, Seq<char>),
    f: FieldInstView,
    def: FieldDefView,
    defs: Seq<EnumTypeView>,
    rif_type: Seq<char>,
    group_type: Seq<char>,
    reg: Option<IntrOvr>,
)
    requires
        loaded(e, key, f, def, defs, rif_type, group_type, reg),
    ensures
        e.enum_type_src == EnumTypeSrc::Existing <==> !e.buf.enum_name.contains(':') && exists|k: int|
            0 <= k < defs.len() && (#[trigger] defs[k]).name == e.buf.enum_name,
{
    let q = enum_named(e.buf.enum_name);
    lemma_first(defs, q);
    if first(defs, q) is Some {
        let k = first(defs, q)->0;
        assert(q(defs[k]));
        assert(defs[k].name == e.buf.enum_name);
    }
    if exists|k: int| 0 <= k < defs.len() && (#[trigger] defs[k]).name == e.buf.enum_name {
        let k = choose|k: int| 0 <= k < defs.len() && (#[trigger] defs[k]).name == e.buf.enum_name;
        assert(q(defs[k]));
    }
}

/// The description that an editor of a derived register shows is the one of that register.
pub proof fn derived_descriptions_are_shown(d: RegisterDefView, t: IntrDescView)
    ensures
        derived_text(Some(t), IntrKind::Enable) == t.enable.public,
        derived_text(Some(t), IntrKind::Mask) == t.mask.public,
        derived_text(Some(t), IntrKind::Pending) == t.pending.public,
        derived_text(None, IntrKind::Enable).len() == 0,
        derived_text(None, IntrKind::Mask).len() == 0,
        derived_text(None, IntrKind::Pending).len() == 0,
        d.interrupt.len() > 0 ==> primary_descs(d) == Some(d.interrupt[0].description),
        d.interrupt.len() == 0 ==> primary_descs(d) is None,
{
}

/// Every kind of software access is offered, but for the password, which is entered by itself, and each has
/// a label of its own.
pub proof fn offered_accesses_have_their_labels(a: SwKindView, b: SwKindView)
    ensures
        !(a is Password) && !(a is W1Pulse) ==> sw_kinds().contains(a),
        sw_kinds().contains(SwKindView::W1Pulse(true, false)),
        sw_kinds().contains(SwKindView::W1Pulse(false, false)),
        !(a is Password) || !sw_kinds().contains(a),
        sw_kind_text(a) == sw_kind_text(b) ==> (a is Password && b is Password) || a == b || (a matches SwKindView::W1Pulse(
            x,
            _,
        ) && b matches SwKindView::W1Pulse(y, _) && x == y),
{
    reveal_strlit("RW");
    reveal_strlit("RO");
    reveal_strlit("WO");
    reveal_strlit("RCLR");
    reveal_strlit("W1CLR");
    reveal_strlit("W0CLR");
    reveal_strlit("W1SET");
    reveal_strlit("W1TGL");
    reveal_strlit("PULSEREG");
    reveal_strlit("PULSE");
    reveal_strlit("Password");
    let s = sw_kinds();
    assert(s[0] is ReadWrite && s[1] is ReadOnly && s[2] is WriteOnly && s[3] is ReadClr && s[4] is W1Clr && s[5] is W0Clr
        && s[6] is W1Set && s[7] is W1Tgl);
    assert(s[8] == SwKindView::W1Pulse(false, false));
    assert(s[9] == SwKindView::W1Pulse(true, false));
    let (x, y) = (sw_kind_text(a), sw_kind_text(b));
    if x == y {
        assert(x.len() == y.len());
        assert(x[0] == y[0] && x[1] == y[1]);
        if x.len() == 5 {
            assert(x[2] == y[2] && x[3] == y[3]);
        }
    }
}

/// A change of an array size is said to convert fields just where there are some, and to shift registers
/// just where there are some; each of them is named.
pub proof fn array_changes_are_announced(c: PendingRegArrayChangeView)
    ensures
        conversion_note(c) is None <==> c.fields_to_convert.len() == 0,
        shift_note(c) is None <==> c.companions is None || c.companions->0.len() == 0,
        shift_note(c) matches Some(t) ==> t == "These following registers will shift forward to make room: "@ + joined(
            Seq::new(c.companions->0.len(), |i: int| c.companions->0[i].name),
            ", "@,
        ) + "."@,
{
}

proof fn lemma_separators(s: Seq<char>, i: int, open: Seq<OpenBracket>)
    requires
        0 <= i <= s.len(),
        s.len() <= MOST_COLONS,
        forall|k: int| 0 <= k < open.len() ==> (#[trigger] open[k]).separators <= i,
    ensures
        separators_fit(s, i, open),
    decreases s.len() - i,
{
    if i < s.len() {
        if s[i] == '(' || s[i] == '[' || s[i] == '{' {
            lemma_separators(s, i + 1, open.push(OpenBracket { bracket: s[i], separators: 0 }));
        } else if s[i] == ')' || s[i] == ']' || s[i] == '}' {
            if open.len() > 0 {
                lemma_separators(s, i + 1, open.drop_last());
            }
        } else if s[i] == ':' || s[i] == ',' {
            if open.len() > 0 {
                let last = open[open.len() - 1];
                assert(last.separators <= i);
                let home = if s[i] == ':' {
                    '['
                } else {
                    '{'
                };
                lemma_separators(
                    s,
                    i + 1,
                    open.drop_last().push(
                        OpenBracket { bracket: home, separators: (last.separators + 1) as usize },
                    ),
                );
            }
        } else {
            lemma_separators(s, i + 1, open);
        }
    }
}

proof fn lemma_gap_end(s: Seq<char>)
    ensures
        after_gap(s).len() <= s.len(),
        after_gap(s) == s.skip(s.len() - after_gap(s).len()),
    decreases s.len(),
{
    if s.len() > 0 && is_gap(s[0]) {
        lemma_gap_end(s.skip(1));
        let n = after_gap(s.skip(1)).len();
        assert(s.skip(1).skip(s.skip(1).len() - n) =~= s.skip(s.len() - n));
    } else {
        assert(s.skip(0) =~= s);
    }
}

proof fn lemma_operators(s: Seq<char>)
    ensures
        operators(s) <= s.len(),
    decreases s.len(),
{
    if s.len() > 0 {
        lemma_operators(s.drop_last());
    }
}

proof fn lemma_end_is_bracket(s: Seq<char>, i: int, depth: nat)
    requires
        0 <= i <= s.len(),
        !s.contains('\\'),
    ensures
        expression_end(s, i, depth) < s.len() ==> s[expression_end(s, i, depth)] == ')',
        i <= expression_end(s, i, depth) <= s.len(),
    decreases s.len() - i,
{
    if i < s.len() {
        assert(s[i] != '\\') by {
            if s[i] == '\\' {
                assert(s.contains('\\'));
            }
        }
        if s[i] == '(' {
            lemma_end_is_bracket(s, i + 1, depth + 1);
        } else if s[i] == ')' {
            if depth > 0 {
                lemma_end_is_bracket(s, i + 1, (depth - 1) as nat);
            }
        } else {
            lemma_end_is_bracket(s, i + 1, depth);
        }
    }
}

/// Every lock of ordinary size goes to its reader: a name of any length, and any short expression without a
/// backslash.
pub proof fn ordinary_conditions_are_read(text: Seq<char>)
    ensures
        (text.len() > 0 && text[0] != '(' && !is_gap(text[0])) ==> condition_problem(text) is None,
        text.len() <= MOST_OPERATORS && !text.contains('\\') ==> condition_problem(text) is None,
        MOST_OPERATORS >= 2048,
        condition_problem(text) matches Some(t) ==> t == "expression too long"@ || t == "unexpected backslash"@ || t
            == "too many separators"@ || t == "too many operators"@,
{
    lemma_gap_end(text);
    let t = after_gap(text);
    if text.len() <= MOST_OPERATORS && !text.contains('\\') {
        assert(!t.contains('\\')) by {
            if t.contains('\\') {
                let k = choose|k: int| 0 <= k < t.len() && t[k] == '\\';
                assert(text[text.len() - t.len() + k] == '\\');
            }
        }
        if t.len() > 0 {
            lemma_end_is_bracket(t, 1, 0);
        }
        lemma_operators(t);
        lemma_separators(t, 0, seq![]);
    }
}

} // verus!
