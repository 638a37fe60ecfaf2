//! What the editors of registers show, and the edits that they make.
use vstd::prelude::*;
use crate::action::EditActionView;
use crate::bridge::expr_read;
use crate::law_editor::shows_number;
use crate::model::page::{PageView, RegOvrView};
use crate::model::register::RegItemView;
use crate::model::values::{BusWidth, DimView, IntrInfoView, PulseView, ResetView};
use crate::number::{
    address_value, byte_value, decimal_is_trimmed, decimal_reads_back, hexadecimal_reads_back,
    prefixed_unsigned,
};
use crate::reg_editor::{
    array_change_action, bus_bytes, def_names, loaded_from, loaded_reg_override, moves_under, names_on,
    on_access, on_read, on_write, pulse_buffers, reads_condition, reg_built, reg_override_built, reg_unchanged,
    types_on, BlockBuffersView, PendingRegAddrConflictView, PendingRegArrayChangeView, RegAddrResolution,
    RegArrayChangeKindView, RegEditorView, RegOverrideEditorView, RegSource,
};
use crate::search::{lemma_is_first, lemma_no_first};
use crate::syntax::reset_text;
use crate::text::trimmed;
use crate::vals::{RegAltValsView, RegIntrValsView};

verus! {

/// Whether the buffers of an interrupt block show the block.
pub open spec fn shows_block(b: BlockBuffersView, i: IntrInfoView) -> bool {
    &&& b.trigger == i.trigger
    &&& b.clear == i.clear
    &&& b.enable_on <==> i.enable is Some
    &&& i.enable matches Some(x) ==> b.enable_rst == reset_text(x)
    &&& b.mask_on <==> i.mask is Some
    &&& i.mask matches Some(x) ==> b.mask_rst == reset_text(x)
    &&& b.pending_on == i.pending
}

/// The first pulse of a register of a kind: the clock that it is on, empty for none.
pub open spec fn first_pulse(s: Seq<PulseView>, kind: spec_fn(PulseView) -> bool, k: int) -> bool {
    &&& 0 <= k < s.len()
    &&& kind(s[k])
    &&& forall|j: int| 0 <= j < k ==> !kind(#[trigger] s[j])
}

/// Whether a pulse is on a clock.
pub open spec fn clocked(p: PulseView) -> bool {
    match p {
        PulseView::Write(c) => c.len() > 0,
        PulseView::Read(c) => c.len() > 0,
        PulseView::Access(c) => c.len() > 0,
    }
}

proof fn lemma_pulse(s: Seq<PulseView>, kind: spec_fn(PulseView) -> bool)
    ensures
        forall|k: int| #[trigger] first_pulse(s, kind, k) ==> pulse_buffers(s, kind) == (true, clocked(s[k])),
        (forall|k: int| 0 <= k < s.len() ==> !kind(#[trigger] s[k])) ==> !pulse_buffers(s, kind).0,
{
    assert forall|k: int| #[trigger] first_pulse(s, kind, k) implies pulse_buffers(s, kind) == (true, clocked(s[k])) by {
        lemma_is_first(s, kind, k);
    }
    if forall|k: int| 0 <= k < s.len() ==> !kind(#[trigger] s[k]) {
        lemma_no_first(s, kind);
    }
}

/// The editor of a register shows the register: its name, group and description, its pulses, its address
/// so that it reads back, its sizes, its interrupts, clock, reset and access. Nothing counts as changed.
pub proof fn editor_shows_the_register(e: RegEditorView, s: RegSource)
    requires
        loaded_from(e, s),
    ensures
        ({
            let b = e.buf;
            let d = s.def;
            &&& e.rif_type == s.rif_type && e.reg_type == s.reg_type && e.inst_name == s.inst_name
            &&& e.default_clk == s.default_clk && e.addr_editable == s.addr_editable && e.data_width == s.data_width
            &&& e.orig == b && reg_unchanged(e) && e.parse_err is None
            &&& b.name == d.name
            &&& b.group == d.group_name
            &&& b.desc == d.description.public
            &&& forall|k: int| #[trigger] first_pulse(d.pulse, on_write(), k) ==> b.pulse.wr_on && b.pulse.wr_reg == clocked(
                d.pulse[k],
            )
            &&& forall|k: int| #[trigger] first_pulse(d.pulse, on_read(), k) ==> b.pulse.rd_on && b.pulse.rd_reg == clocked(
                d.pulse[k],
            )
            &&& forall|k: int| #[trigger] first_pulse(d.pulse, on_access(), k) ==> b.pulse.acc_on && b.pulse.acc_reg
                == clocked(d.pulse[k])
            &&& d.pulse.len() == 0 ==> !b.pulse.wr_on && !b.pulse.rd_on && !b.pulse.acc_on
            &&& address_value(b.addr) == Some(s.addr)
            &&& d.array matches DimView::Value(n) ==> shows_number(b.array, n as int)
            &&& d.array is Param ==> b.array.len() == 0
            &&& s.src_inst matches Some(i) ==> b.inst_array == i.array.rif
            &&& s.src_inst is None ==> b.inst_array.len() == 0
            &&& b.has_intr <==> d.interrupt.len() > 0
            &&& d.interrupt.len() > 0 ==> shows_block(b.intr, d.interrupt[0])
            &&& d.interrupt.len() > 1 ==> b.alt_name == d.interrupt[1].name && shows_block(b.alt, d.interrupt[1])
            &&& d.interrupt.len() <= 1 ==> b.alt_name.len() == 0 && b.alt.trigger == b.intr.trigger && b.alt.clear
                == b.intr.clear
            &&& b.visibility == d.visibility
            &&& d.clk matches Some(c) ==> b.clk == c
            &&& d.clk is None ==> b.clk.len() == 0
            &&& d.rst matches Some(c) ==> b.rst == c
            &&& d.rst is None ==> b.rst.len() == 0
            &&& b.external == d.external
            &&& e.array_editable ==> s.array_scope_ok && d.array is Value
            &&& e.inst_array_editable ==> s.array_scope_ok && s.addr_editable && d.array == DimView::Value(0)
        }),
{
    hexadecimal_reads_back(s.addr as nat);
    lemma_pulse(s.def.pulse, on_write());
    lemma_pulse(s.def.pulse, on_read());
    lemma_pulse(s.def.pulse, on_access());
    if let DimView::Value(n) = s.def.array {
        decimal_reads_back(n as int);
        decimal_is_trimmed(n as int);
    }
}

/// Whether an optional reset value is what was typed: none where it is off.
pub open spec fn reset_typed(on: bool, text: Seq<char>, r: Option<ResetView>) -> bool {
    &&& !on ==> r is None
    &&& on ==> (r matches Some(ResetView::Unsigned(x)) && prefixed_unsigned(trimmed(text)) == Some(x as nat))
}

/// Whether a pulse is among those of an edit, on the default clock where it is registered.
pub open spec fn pulse_typed(s: Seq<PulseView>, clk: Seq<char>, kind: int, on: bool, registered: bool) -> bool {
    let c = if registered {
        clk
    } else {
        seq![]
    };
    let p = if kind == 0 {
        PulseView::Write(c)
    } else if kind == 1 {
        PulseView::Read(c)
    } else {
        PulseView::Access(c)
    };
    on <==> s.contains(p)
}

/// The edit that the editor of a register makes is of the register and the instance that were loaded, and
/// has what was typed. An address or an array size is among it only where it was touched and may be
/// changed; an interrupt only where there is or was one.
pub proof fn register_edit_has_what_was_typed(e: RegEditorView, after: RegEditorView, action: EditActionView)
    requires
        reg_built(e, after, Some(action)),
    ensures
        after == (RegEditorView { parse_err: None, ..e }),
        action matches EditActionView::UpdateRegDef { rif_type, orig_name, inst_name, vals } && {
            let b = e.buf;
            &&& rif_type == e.rif_type && orig_name == e.reg_type && inst_name == e.inst_name
            &&& vals.name == trimmed(b.name) && vals.name.len() > 0
            &&& trimmed(b.group) == e.orig.group ==> vals.group is None
            &&& trimmed(b.group) != e.orig.group ==> vals.group == Some(trimmed(b.group))
            &&& vals.desc == b.desc
            &&& !e.addr_editable || b.addr == e.orig.addr ==> vals.addr is None
            &&& e.addr_editable && b.addr != e.orig.addr ==> (vals.addr matches Some(a) && address_value(trimmed(b.addr))
                == Some(a) && a % (bus_bytes(e.data_width) as u64) == 0)
            &&& !e.array_editable || b.array == e.orig.array ==> vals.array is None
            &&& e.array_editable && b.array != e.orig.array && trimmed(b.array).len() == 0 ==> vals.array == Some(0u8)
            &&& e.array_editable && b.array != e.orig.array && trimmed(b.array).len() > 0 ==> (vals.array matches Some(n)
                && byte_value(trimmed(b.array)) == Some(n))
            &&& b.has_intr ==> (vals.intr matches Some(Some(i)) && {
                &&& i.trigger == b.intr.trigger && i.clear == b.intr.clear && i.pending == b.intr.pending_on
                &&& reset_typed(b.intr.enable_on, b.intr.enable_rst, i.enable)
                &&& reset_typed(b.intr.mask_on, b.intr.mask_rst, i.mask)
            })
            &&& !b.has_intr && e.orig.has_intr ==> vals.intr == Some(None::<RegIntrValsView>)
            &&& !b.has_intr && !e.orig.has_intr ==> vals.intr is None
            &&& b.has_intr && trimmed(b.alt_name).len() > 0 ==> (vals.alt matches Some(Some(i)) && {
                &&& i.name == trimmed(b.alt_name)
                &&& i.trigger == b.alt.trigger && i.clear == b.alt.clear && i.pending == b.alt.pending_on
                &&& reset_typed(b.alt.enable_on, b.alt.enable_rst, i.enable)
                &&& reset_typed(b.alt.mask_on, b.alt.mask_rst, i.mask)
            })
            &&& b.has_intr && trimmed(b.alt_name).len() == 0 ==> vals.alt == Some(None::<RegAltValsView>)
            &&& !b.has_intr ==> vals.alt is None
            &&& vals.visibility == b.visibility
            &&& trimmed(b.clk).len() == 0 ==> vals.clk is None
            &&& trimmed(b.clk).len() > 0 ==> vals.clk == Some(trimmed(b.clk))
            &&& trimmed(b.rst).len() == 0 ==> vals.rst is None
            &&& trimmed(b.rst).len() > 0 ==> vals.rst == Some(trimmed(b.rst))
            &&& vals.external == b.external
        },
{
}

/// The pulses of the edit are those that are on, each of them on the default clock where it is registered,
/// and on none otherwise.
pub proof fn register_edit_has_the_pulses(e: RegEditorView, after: RegEditorView, action: EditActionView)
    requires
        reg_built(e, after, Some(action)),
    ensures
        action matches EditActionView::UpdateRegDef { vals, .. } && {
            let b = e.buf.pulse;
            &&& pulse_typed(vals.pulse, e.default_clk, 0, b.wr_on, b.wr_reg)
            &&& pulse_typed(vals.pulse, e.default_clk, 1, b.rd_on, b.rd_reg)
            &&& pulse_typed(vals.pulse, e.default_clk, 2, b.acc_on, b.acc_reg)
            &&& vals.pulse.len() == (if b.wr_on {
                1int
            } else {
                0
            }) + (if b.rd_on {
                1int
            } else {
                0
            }) + (if b.acc_on {
                1int
            } else {
                0
            })
        },
{
    let b = e.buf;
    let s = crate::reg_editor::pulses_of(e);
    let on = |r: bool| crate::reg_editor::pulse_on(e, r);
    let x: Seq<PulseView> = if b.pulse.wr_on {
        seq![PulseView::Write(on(b.pulse.wr_reg))]
    } else {
        seq![]
    };
    let y: Seq<PulseView> = if b.pulse.rd_on {
        seq![PulseView::Read(on(b.pulse.rd_reg))]
    } else {
        seq![]
    };
    let z: Seq<PulseView> = if b.pulse.acc_on {
        seq![PulseView::Access(on(b.pulse.acc_reg))]
    } else {
        seq![]
    };
    assert(s == x + y + z);
    assert forall|p: PulseView| #[trigger] s.contains(p) <==> x.contains(p) || y.contains(p) || z.contains(p) by {
        crate::law_rif::lemma_both(x, y, p);
        crate::law_rif::lemma_both(x + y, z, p);
    }
    if b.pulse.wr_on {
        assert(x[0] == PulseView::Write(on(b.pulse.wr_reg)));
    }
    if b.pulse.rd_on {
        assert(y[0] == PulseView::Read(on(b.pulse.rd_reg)));
    }
    if b.pulse.acc_on {
        assert(z[0] == PulseView::Access(on(b.pulse.acc_reg)));
    }
}

/// Whether a reset value that is on can be read.
pub open spec fn reset_fine(on: bool, text: Seq<char>) -> bool {
    on ==> (trimmed(text).len() > 0 && (prefixed_unsigned(trimmed(text)) matches Some(v) && v <= u128::MAX))
}

/// The editor of a register makes no edit where something cannot be read, and says what; otherwise it
/// makes one. An address must be aligned to the width of the bus.
pub proof fn register_editor_says_what_cannot_be_read(
    e: RegEditorView,
    after: RegEditorView,
    action: Option<EditActionView>,
)
    requires
        reg_built(e, after, action),
    ensures
        ({
            let b = e.buf;
            let name = trimmed(b.name).len() > 0;
            let group = trimmed(b.group).len() > 0;
            let addr = !e.addr_editable || b.addr == e.orig.addr || (address_value(trimmed(b.addr)) matches Some(a) && a
                % (bus_bytes(e.data_width) as u64) == 0);
            let array = !e.array_editable || b.array == e.orig.array || trimmed(b.array).len() == 0 || byte_value(
                trimmed(b.array),
            ) is Some;
            let intr = b.has_intr ==> reset_fine(b.intr.enable_on, b.intr.enable_rst) && reset_fine(
                b.intr.mask_on,
                b.intr.mask_rst,
            );
            let alt = b.has_intr && trimmed(b.alt_name).len() > 0 ==> reset_fine(b.alt.enable_on, b.alt.enable_rst)
                && reset_fine(b.alt.mask_on, b.alt.mask_rst);
            &&& action is Some <==> name && group && addr && array && intr && alt
            &&& action is None <==> after.parse_err is Some
            &&& after == (RegEditorView { parse_err: after.parse_err, ..e })
            &&& !name ==> after.parse_err == Some("Name is empty"@)
            &&& name && !group ==> after.parse_err == Some("Group is empty"@)
            &&& name && group && addr && !array ==> after.parse_err == Some("Invalid array size"@)
        }),
{
}

/// A bus of a width moves that many bytes at once.
pub proof fn bus_moves_its_width(n: u8)
    ensures
        bus_bytes(BusWidth::W8(n)) * 8 == 8,
        bus_bytes(BusWidth::W16(n)) * 8 == 16,
        bus_bytes(BusWidth::W32(n)) * 8 == 32,
        bus_bytes(BusWidth::W64(n)) * 8 == 64,
        bus_bytes(BusWidth::W128(n)) * 8 == 128,
{
}

/// The editor of what an instance overrides shows it, and makes the edit that was typed; a condition that
/// cannot be read makes none.
pub proof fn override_editor_shows_and_edits_the_register(
    rif_type: Seq<char>,
    inst_name: Seq<char>,
    ovr: Option<RegOvrView>,
    e: RegOverrideEditorView,
    r: Option<Result<Seq<char>, Seq<char>>>,
    after: RegOverrideEditorView,
    action: Option<EditActionView>,
)
    requires
        reads_condition(e, r),
        reg_override_built(e, r, after, action),
    ensures
        ({
            let l = loaded_reg_override(rif_type, inst_name, ovr);
            &&& l.rif_type == rif_type && l.inst_name == inst_name && l.parse_err is None
            &&& l.desc == l.desc_orig && l.hw_on == l.hw_on_orig && l.hw == l.hw_orig && l.optional == l.optional_orig
            &&& l.optional_acc_on == l.optional_acc_on_orig && l.optional_acc == l.optional_acc_orig
            &&& ovr matches Some(o) ==> {
                &&& o.description matches Some(d) ==> l.desc == d.public
                &&& l.hw_on <==> o.hw_acc is Some
                &&& o.hw_acc matches Some(a) ==> l.hw == a
                &&& l.optional == o.optional.rif
                &&& l.optional_acc_on <==> o.optional_acc is Some
                &&& o.optional_acc matches Some(a) ==> l.optional_acc == a
            }
            &&& ovr is None ==> l.desc.len() == 0 && !l.hw_on && l.optional.len() == 0 && !l.optional_acc_on
        }),
        trimmed(e.optional).len() == 0 ==> action is Some,
        trimmed(e.optional).len() > 0 ==> (action is Some <==> expr_read(trimmed(e.optional)) is Some),
        action is None <==> after.parse_err is Some,
        after == (RegOverrideEditorView { parse_err: after.parse_err, ..e }),
        action matches Some(a) ==> (a matches EditActionView::UpdateRegOverride { rif_type: rt, inst_name: inn, vals } && {
            &&& rt == e.rif_type && inn == e.inst_name
            &&& vals.desc == e.desc
            &&& e.hw_on ==> vals.hw == Some(e.hw)
            &&& !e.hw_on ==> vals.hw is None
            &&& e.optional_acc_on ==> vals.optional_acc == Some(e.optional_acc)
            &&& !e.optional_acc_on ==> vals.optional_acc is None
            &&& trimmed(e.optional).len() == 0 ==> vals.optional is None
            &&& trimmed(e.optional).len() > 0 ==> (vals.optional matches Some(x) && x.text == trimmed(e.optional)
                && expr_read(trimmed(e.optional)) == Some(x.rif))
        }),
{
}

/// An address conflict is resolved by the moves of the answer that was given.
pub proof fn conflict_is_resolved_as_answered(c: PendingRegAddrConflictView)
    ensures
        moves_under(c, RegAddrResolution::Swap) == c.swap,
        moves_under(c, RegAddrResolution::Shift) == c.shift,
        moves_under(c, RegAddrResolution::Insert) == c.insert,
{
}

/// A change of an array size that was confirmed is the edit that was asked for, with the moves that make
/// room for it, where there are any.
pub proof fn array_change_is_the_one_asked_for(c: PendingRegArrayChangeView)
    ensures
        ({
            let cs = match c.companions {
                Some(s) => s,
                None => seq![],
            };
            match c.kind {
                RegArrayChangeKindView::Definition(v) => {
                    &&& cs.len() == 0 ==> array_change_action(c) == (EditActionView::UpdateRegDef {
                        rif_type: c.rif_type,
                        orig_name: c.orig_name,
                        inst_name: c.inst_name,
                        vals: v,
                    })
                    &&& cs.len() > 0 ==> array_change_action(c) == (EditActionView::UpdateRegDefWithMoves {
                        rif_type: c.rif_type,
                        orig_name: c.orig_name,
                        inst_name: c.inst_name,
                        vals: v,
                        companions: cs,
                    })
                },
                RegArrayChangeKindView::Instance(array) => array_change_action(c) == (
                EditActionView::UpdateRegInstArray {
                    rif_type: c.rif_type,
                    inst_name: c.inst_name,
                    array,
                    companions: cs,
                }),
            }
        }),
{
}

proof fn lemma_def_names(items: Seq<RegItemView>, n: int, x: Seq<char>)
    requires
        0 <= n <= items.len(),
    ensures
        def_names(items, n).contains(x) <==> exists|k: int|
            0 <= k < n && ((#[trigger] items[k]) matches RegItemView::Def(d) && d.name == x),
    decreases n,
{
    if n > 0 {
        lemma_def_names(items, n - 1, x);
        let (a, b) = (def_names(items, n - 1), def_names(items, n));
        if let RegItemView::Def(d) = items[n - 1] {
            crate::law_rif::lemma_both(a, seq![d.name], x);
            assert(b =~= a + seq![d.name]);
            assert(seq![d.name].contains(x) <==> d.name == x) by {
                assert(seq![d.name][0] == d.name);
            }
        }
    }
}

/// The names that are taken on a page are those of its definitions, of its instances and of the registers
/// of its instances.
pub proof fn taken_names_are_those_in_use(p: PageView, x: Seq<char>)
    ensures
        names_on(p).contains(x) <==> {
            ||| exists|k: int|
                0 <= k < p.registers.len() && ((#[trigger] p.registers[k]) matches RegItemView::Def(d) && d.name == x)
            ||| exists|k: int|
                0 <= k < p.instances.len() && ((#[trigger] p.instances[k]).inst_name == x || p.instances[k].reg_type == x)
        },
        types_on(p).contains(x) <==> exists|k: int|
            0 <= k < p.registers.len() && ((#[trigger] p.registers[k]) matches RegItemView::Def(d) && d.name == x),
{
    lemma_def_names(p.registers, p.registers.len() as int, x);
    let a = types_on(p);
    let b = Seq::new(p.instances.len(), |i: int| p.instances[i].inst_name);
    let c = Seq::new(p.instances.len(), |i: int| p.instances[i].reg_type);
    crate::law_rif::lemma_both(a, b, x);
    crate::law_rif::lemma_both(a + b, c, x);
    assert forall|k: int| 0 <= k < p.instances.len() && (#[trigger] p.instances[k]).inst_name == x implies b.contains(
        x,
    ) by {
        assert(b[k] == x);
    }
    assert forall|k: int| 0 <= k < p.instances.len() && (#[trigger] p.instances[k]).reg_type == x implies c.contains(
        x,
    ) by {
        assert(c[k] == x);
    }
    if b.contains(x) {
        let k = choose|k: int| 0 <= k < b.len() && b[k] == x;
        assert(p.instances[k].inst_name == x);
    }
    if c.contains(x) {
        let k = choose|k: int| 0 <= k < c.len() && c[k] == x;
        assert(p.instances[k].reg_type == x);
    }
}

} // verus!
