//! What edits of a RIF as a whole do: its values, enums, clocks, parameters and generics.
use vstd::prelude::*;
use crate::action::EditActionView;
use crate::apply::{rif_applied, FollowView, RifApplied};
use crate::edits::{LineEditView, RecordView, RifClockLineKind};
use crate::law_field::{block_now, line_now};
use crate::lines::joined;
use crate::model::props::RifProp;
use crate::model::rif::{
    ClockingView, EnumItemView, EnumTypeView, GenericView, NamedLineView, ParamView, RifDefView,
};
use crate::model::values::{BusView, BusWidth};
use crate::number::decimal;
use crate::reg_update::only_if;
use crate::search::{first, lemma_first, lemma_is_first, lemma_no_first};
use crate::source::enum_named;
use crate::stage_rif::{
    clock_record, clock_records, clocking_outcome, entry_records, enum_records, generic_named,
    generic_row_records, generic_rows_records, generics_gone, generics_of, line_named, line_of, param_named,
    param_row_records, param_rows_records, params_gone, params_of, params_outcome, reset_lines, reset_records,
    resets_gone, rif_after, rif_lines, rif_records, update_enum_outcome,
};
use crate::syntax::rif_desc_block;
use crate::vals::{GenericEntryView, ParamEntryView, RifDefValsView};

verus! {

/// What is in one of two runs of notes is in both together.
pub proof fn lemma_both<T>(a: Seq<T>, b: Seq<T>, x: T)
    ensures
        (a + b).contains(x) <==> a.contains(x) || b.contains(x),
{
    let s = a + b;
    if a.contains(x) {
        let k = choose|k: int| 0 <= k < a.len() && a[k] == x;
        assert(s[k] == x);
    }
    if b.contains(x) {
        let k = choose|k: int| 0 <= k < b.len() && b[k] == x;
        assert(s[a.len() + k] == x);
    }
    if s.contains(x) {
        let k = choose|k: int| 0 <= k < s.len() && s[k] == x;
        if k < a.len() {
            assert(a[k] == x);
        } else {
            assert(b[k - a.len()] == x);
        }
    }
}

/// A single note.
pub proof fn lemma_only(cond: bool, r: RecordView, x: RecordView)
    ensures
        only_if(cond, r).contains(x) <==> cond && x == r,
{
    if cond {
        assert(only_if(cond, r)[0] == r);
    }
}

/// Whether an enum stands at a place, and no other of that name in front of it.
pub open spec fn is_enum(rif: RifDefView, name: Seq<char>, k: int) -> bool {
    &&& 0 <= k < rif.enum_defs.len()
    &&& rif.enum_defs[k].name == name
    &&& forall|j: int| 0 <= j < k ==> (#[trigger] rif.enum_defs[j]).name != name
}

/// The edit of an enum.
pub open spec fn enum_edit(rif: RifDefView, name: Seq<char>, values: Seq<EnumItemView>) -> RifApplied {
    rif_applied(rif, EditActionView::UpdateEnum { rif_type: rif.name, name, values })
}

/// Whether the entries of an enum say something else at a line of the file than they did.
pub open spec fn entry_differs(a: EnumItemView, b: EnumItemView) -> bool {
    a.name != b.name || a.value != b.value || a.repr != b.repr || a.description != b.description
}

/// The notes that an edit of the entries of an enum makes: a line is deleted where an entry stood on
/// it and none stands on it now, and it is changed where the entry on it says something else.
pub open spec fn enum_note(was: Seq<EnumItemView>, now: Seq<EnumItemView>, x: RecordView) -> bool {
    match x {
        RecordView::EnumDeleted(l) => {
            &&& exists|i: int| 0 <= i < was.len() && (#[trigger] was[i]).decl_line == Some(l)
            &&& forall|j: int| 0 <= j < now.len() ==> (#[trigger] now[j]).decl_line != Some(l)
        },
        RecordView::EnumDirty(l) => exists|i: int, j: int|
            0 <= i < was.len() && 0 <= j < now.len() && (#[trigger] was[i]).decl_line == Some(l) && (
            #[trigger] now[j]).decl_line == Some(l) && entry_differs(was[i], now[j]),
        _ => false,
    }
}

proof fn lemma_entry_notes(was: EnumItemView, now: Seq<EnumItemView>, x: RecordView)
    ensures
        entry_records(now, was).contains(x) <==> match x {
            RecordView::EnumDeleted(l) => was.decl_line == Some(l) && forall|j: int|
                0 <= j < now.len() ==> (#[trigger] now[j]).decl_line != Some(l),
            RecordView::EnumDirty(l) => was.decl_line == Some(l) && exists|j: int|
                0 <= j < now.len() && (#[trigger] now[j]).decl_line == Some(l) && entry_differs(was, now[j]),
            _ => false,
        },
{
    let rs = entry_records(now, was);
    if let Some(line) = was.decl_line {
        if !crate::stage_rif::stands_on(now, line) {
            assert(rs[0] == RecordView::EnumDeleted(line));
        } else {
            lemma_only(crate::stage_rif::reworded(now, was), RecordView::EnumDirty(line), x);
        }
    }
}

proof fn lemma_enum_notes(was: Seq<EnumItemView>, now: Seq<EnumItemView>, n: int, x: RecordView)
    requires
        0 <= n <= was.len(),
    ensures
        enum_records(was, now, n).contains(x) <==> enum_note(was.take(n), now, x),
    decreases n,
{
    if n > 0 {
        lemma_enum_notes(was, now, n - 1, x);
        lemma_entry_notes(was[n - 1], now, x);
        lemma_both(enum_records(was, now, n - 1), entry_records(now, was[n - 1]), x);
        let (a, b) = (was.take(n - 1), was.take(n));
        assert forall|i: int| 0 <= i < n - 1 implies a[i] == b[i] by {}
        assert(b[n - 1] == was[n - 1]);
        if enum_note(b, now, x) {
            match x {
                RecordView::EnumDeleted(l) => {
                    let i = choose|i: int| 0 <= i < b.len() && (#[trigger] b[i]).decl_line == Some(l);
                    if i < n - 1 {
                        assert(a[i].decl_line == Some(l));
                    }
                },
                RecordView::EnumDirty(l) => {
                    let (i, j) = choose|i: int, j: int|
                        0 <= i < b.len() && 0 <= j < now.len() && (#[trigger] b[i]).decl_line == Some(l) && (
                        #[trigger] now[j]).decl_line == Some(l) && entry_differs(b[i], now[j]);
                    if i < n - 1 {
                        assert(a[i].decl_line == Some(l) && now[j].decl_line == Some(l));
                    }
                },
                _ => {},
            }
        }
        if enum_note(a, now, x) {
            match x {
                RecordView::EnumDeleted(l) => {
                    let i = choose|i: int| 0 <= i < a.len() && (#[trigger] a[i]).decl_line == Some(l);
                    assert(b[i].decl_line == Some(l));
                },
                RecordView::EnumDirty(l) => {
                    let (i, j) = choose|i: int, j: int|
                        0 <= i < a.len() && 0 <= j < now.len() && (#[trigger] a[i]).decl_line == Some(l) && (
                        #[trigger] now[j]).decl_line == Some(l) && entry_differs(a[i], now[j]);
                    assert(b[i].decl_line == Some(l) && now[j].decl_line == Some(l));
                },
                _ => {},
            }
        }
    }
}

/// An enum that is edited has the entries that were given, and nothing else changes. The lines of the
/// file whose entries went, or say something else, are noted, and nothing else.
pub proof fn edited_enum_has_the_entries(rif: RifDefView, name: Seq<char>, values: Seq<EnumItemView>, k: int)
    requires
        is_enum(rif, name, k),
    ensures
        enum_edit(rif, name, values) matches RifApplied::Staged(o, follow) && {
            &&& o.rif == (RifDefView {
                enum_defs: rif.enum_defs.update(k, EnumTypeView { values, ..rif.enum_defs[k] }),
                ..rif
            })
            &&& follow == (FollowView::EnumUpdated { name })
            &&& forall|x: RecordView| #[trigger]
                o.records.contains(x) <==> enum_note(rif.enum_defs[k].values, values, x)
        },
{
    reveal(update_enum_outcome);
    lemma_is_first(rif.enum_defs, enum_named(name), k);
    let was = rif.enum_defs[k].values;
    let o = update_enum_outcome(rif, name, values);
    assert forall|x: RecordView| #[trigger] o.records.contains(x) <==> enum_note(was, values, x) by {
        lemma_enum_notes(was, values, was.len() as int, x);
        assert(was.take(was.len() as int) =~= was);
    }
}

/// An enum that is not there yet is made, behind the others, with the entries that were given. It is
/// not in the file yet, so nothing is noted.
pub proof fn new_enum_has_the_entries(rif: RifDefView, name: Seq<char>, values: Seq<EnumItemView>)
    requires
        forall|j: int| 0 <= j < rif.enum_defs.len() ==> (#[trigger] rif.enum_defs[j]).name != name,
    ensures
        enum_edit(rif, name, values) matches RifApplied::Staged(o, follow) && {
            &&& o.rif == (RifDefView {
                enum_defs: rif.enum_defs.push(EnumTypeView { name, values, decl_line: None }),
                ..rif
            })
            &&& follow == (FollowView::EnumUpdated { name })
            &&& o.records.len() == 0
        },
{
    reveal(update_enum_outcome);
    lemma_no_first(rif.enum_defs, enum_named(name));
}

/// The edit of the clocks of a RIF.
pub open spec fn clock_edit(rif: RifDefView, sw: Seq<ClockingView>, hw: Seq<ClockingView>) -> RifApplied {
    rif_applied(rif, EditActionView::UpdateRifClocking { rif_type: rif.name, sw, hw })
}

/// A line that lists names behind a keyword.
pub open spec fn listing(keyword: Seq<char>, names: Seq<Seq<char>>) -> Seq<char> {
    keyword + ": "@ + joined(names, " "@)
}

/// The line of the clocks of a group; none where there are none.
pub open spec fn clocks_text(keyword: Seq<char>, cs: Seq<ClockingView>) -> Option<Seq<char>> {
    if cs.len() == 0 {
        None
    } else {
        Some(listing(keyword, Seq::new(cs.len(), |i: int| cs[i].clk)))
    }
}

/// The line of the clock enables of a group; none where no clock has one.
pub open spec fn enables_text(keyword: Seq<char>, cs: Seq<ClockingView>) -> Option<Seq<char>> {
    if exists|i: int| 0 <= i < cs.len() && (#[trigger] cs[i]).en.len() > 0 {
        Some(listing(keyword, Seq::new(cs.len(), |i: int| cs[i].en)))
    } else {
        None
    }
}

/// The line of the clears of a group; none where no clock has one.
pub open spec fn clears_text(keyword: Seq<char>, cs: Seq<ClockingView>) -> Option<Seq<char>> {
    if exists|i: int| 0 <= i < cs.len() && (#[trigger] cs[i]).clear.len() > 0 {
        Some(listing(keyword, Seq::new(cs.len(), |i: int| cs[i].clear)))
    } else {
        None
    }
}

/// The line of a kind, for software clocks and hardware clocks.
pub open spec fn clock_text(k: RifClockLineKind, sw: Seq<ClockingView>, hw: Seq<ClockingView>) -> Option<Seq<char>> {
    match k {
        RifClockLineKind::SwClock => clocks_text("swClock"@, sw),
        RifClockLineKind::HwClock => clocks_text("hwClock"@, hw),
        RifClockLineKind::SwClkEn => enables_text("swClkEn"@, sw),
        RifClockLineKind::HwClkEn => enables_text("hwClkEn"@, hw),
        RifClockLineKind::SwClear => clears_text("swClear"@, sw),
        RifClockLineKind::HwClear => clears_text("hwClear"@, hw),
    }
}

/// Whether the resets of a group differ, wherever they stand in the file.
pub open spec fn resets_differ(a: Seq<ClockingView>, b: Seq<ClockingView>) -> bool {
    a.len() != b.len() || exists|i: int|
        0 <= i < a.len() && ((#[trigger] a[i]).rst.name != b[i].rst.name || a[i].rst.sync != b[i].rst.sync
            || a[i].rst.active_high != b[i].rst.active_high)
}

/// The line of a reset.
pub open spec fn reset_written(keyword: Seq<char>, c: ClockingView) -> Seq<char> {
    keyword + ": "@ + c.rst.name + (if c.rst.active_high {
        " activeHigh"@
    } else {
        " activeLow"@
    }) + (if c.rst.sync {
        " sync"@
    } else {
        " async"@
    })
}

/// Whether a reset of a group stands on a line of the file.
pub open spec fn reset_on(cs: Seq<ClockingView>, l: usize) -> bool {
    exists|i: int| 0 <= i < cs.len() && (#[trigger] cs[i]).rst.decl_line == Some(l)
}

/// The notes that an edit of the clocks makes: the line of each kind that prints otherwise, and for
/// a group whose resets differ the lines that go and all the lines that come.
pub open spec fn clock_note(
    rif: RifDefView,
    sw: Seq<ClockingView>,
    hw: Seq<ClockingView>,
    x: RecordView,
) -> bool {
    match x {
        RecordView::ClockLine(k, e) => {
            &&& clock_text(k, sw, hw) != clock_text(k, rif.sw_clocking, rif.hw_clocking)
            &&& e == line_now(clock_text(k, sw, hw))
        },
        RecordView::ResetDeleted(l) => {
            ||| resets_differ(rif.sw_clocking, sw) && reset_on(rif.sw_clocking, l)
            ||| resets_differ(rif.hw_clocking, hw) && reset_on(rif.hw_clocking, l)
        },
        RecordView::ResetLines(of_hw, ls) => if of_hw {
            resets_differ(rif.hw_clocking, hw) && ls == Seq::new(
                hw.len(),
                |i: int| reset_written("hwReset"@, hw[i]),
            )
        } else {
            resets_differ(rif.sw_clocking, sw) && ls == Seq::new(
                sw.len(),
                |i: int| reset_written("swReset"@, sw[i]),
            )
        },
        _ => false,
    }
}

proof fn lemma_resets_gone(cs: Seq<ClockingView>, n: int, x: RecordView)
    requires
        0 <= n <= cs.len(),
    ensures
        resets_gone(cs, n).contains(x) <==> (x matches RecordView::ResetDeleted(l) && reset_on(cs.take(n), l)),
    decreases n,
{
    if n > 0 {
        lemma_resets_gone(cs, n - 1, x);
        let last = match cs[n - 1].rst.decl_line {
            Some(line) => seq![RecordView::ResetDeleted(line)],
            None => seq![],
        };
        lemma_both(resets_gone(cs, n - 1), last, x);
        if let Some(line) = cs[n - 1].rst.decl_line {
            assert(last[0] == RecordView::ResetDeleted(line));
        }
        let (a, b) = (cs.take(n - 1), cs.take(n));
        assert(b[n - 1] == cs[n - 1]);
        assert forall|i: int| 0 <= i < n - 1 implies a[i] == b[i] by {}
        if let RecordView::ResetDeleted(l) = x {
            if reset_on(a, l) {
                let i = choose|i: int| 0 <= i < a.len() && (#[trigger] a[i]).rst.decl_line == Some(l);
                assert(b[i].rst.decl_line == Some(l));
            }
            if reset_on(b, l) {
                let i = choose|i: int| 0 <= i < b.len() && (#[trigger] b[i]).rst.decl_line == Some(l);
                if i < n - 1 {
                    assert(a[i].rst.decl_line == Some(l));
                }
            }
        }
    }
}

proof fn lemma_reset_notes(was: Seq<ClockingView>, now: Seq<ClockingView>, hw: bool, x: RecordView)
    ensures
        reset_records(was, now, hw).contains(x) <==> resets_differ(was, now) && match x {
            RecordView::ResetDeleted(l) => reset_on(was, l),
            RecordView::ResetLines(g, ls) => g == hw && ls == Seq::new(
                now.len(),
                |i: int|
                    reset_written(
                        if hw {
                            "hwReset"@
                        } else {
                            "swReset"@
                        },
                        now[i],
                    ),
            ),
            _ => false,
        },
{
    let keyword = if hw {
        "hwReset"@
    } else {
        "swReset"@
    };
    let lines = Seq::new(now.len(), |i: int| reset_written(keyword, now[i]));
    assert(reset_lines(keyword, now) =~= lines);
    assert(crate::stage_rif::same_resets(was, now) == !resets_differ(was, now));
    lemma_resets_gone(was, was.len() as int, x);
    assert(was.take(was.len() as int) =~= was);
    let last = seq![RecordView::ResetLines(hw, reset_lines(keyword, now))];
    lemma_both(resets_gone(was, was.len() as int), last, x);
    assert(last[0] == RecordView::ResetLines(hw, lines));
    if last.contains(x) {
        assert(x == last[0]);
    }
}

proof fn lemma_clock_text(r: RifDefView, k: RifClockLineKind)
    ensures
        crate::syntax::rif_prop_line(r, crate::written::clock_prop(k)) == clock_text(
            k,
            r.sw_clocking,
            r.hw_clocking,
        ),
{
    let (sw, hw) = (r.sw_clocking, r.hw_clocking);
    assert(crate::syntax::clock_names(sw) =~= Seq::new(sw.len(), |i: int| sw[i].clk));
    assert(crate::syntax::clock_names(hw) =~= Seq::new(hw.len(), |i: int| hw[i].clk));
    let (a, b) = (crate::syntax::enable_names(sw), crate::syntax::enable_names(hw));
    let (c, d) = (crate::syntax::clear_names(sw), crate::syntax::clear_names(hw));
    assert(a =~= Seq::new(sw.len(), |i: int| sw[i].en));
    assert(b =~= Seq::new(hw.len(), |i: int| hw[i].en));
    assert(c =~= Seq::new(sw.len(), |i: int| sw[i].clear));
    assert(d =~= Seq::new(hw.len(), |i: int| hw[i].clear));
    assert forall|i: int| 0 <= i < sw.len() implies #[trigger] sw[i].en == a[i] && sw[i].clear == c[i] by {}
    assert forall|i: int| 0 <= i < hw.len() implies #[trigger] hw[i].en == b[i] && hw[i].clear == d[i] by {}
    assert forall|i: int| 0 <= i < a.len() implies #[trigger] a[i] == sw[i].en by {}
    assert forall|i: int| 0 <= i < b.len() implies #[trigger] b[i] == hw[i].en by {}
    assert forall|i: int| 0 <= i < c.len() implies #[trigger] c[i] == sw[i].clear by {}
    assert forall|i: int| 0 <= i < d.len() implies #[trigger] d[i] == hw[i].clear by {}
}

proof fn lemma_clock_note(before: RifDefView, after: RifDefView, k: RifClockLineKind, x: RecordView)
    ensures
        clock_record(before, after, k, crate::written::clock_prop(k)).contains(x) <==> (x matches RecordView::ClockLine(
            j,
            e,
        ) && j == k && clock_text(k, after.sw_clocking, after.hw_clocking) != clock_text(
            k,
            before.sw_clocking,
            before.hw_clocking,
        ) && e == line_now(clock_text(k, after.sw_clocking, after.hw_clocking))),
{
    lemma_clock_text(before, k);
    lemma_clock_text(after, k);
    let p = crate::written::clock_prop(k);
    let now = crate::syntax::rif_prop_line(after, p);
    lemma_only(
        crate::syntax::rif_prop_line(before, p) != now,
        RecordView::ClockLine(k, crate::field_update::line_edit(now)),
        x,
    );
}

/// A RIF whose clocks are edited has the software clocks and the hardware clocks that were given, and
/// nothing else changes. The lines of the file that this changes are noted, and nothing else.
pub proof fn edited_clocks_are_those_given(
    rif: RifDefView,
    sw: Seq<ClockingView>,
    hw: Seq<ClockingView>,
)
    ensures
        clock_edit(rif, sw, hw) matches RifApplied::Staged(o, follow) && {
            &&& o.rif.sw_clocking == sw
            &&& o.rif.hw_clocking == hw
            &&& o.rif == (RifDefView { sw_clocking: sw, hw_clocking: hw, ..rif })
            &&& follow == FollowView::RifEdited
            &&& forall|x: RecordView| #[trigger] o.records.contains(x) <==> clock_note(rif, sw, hw, x)
        },
{
    reveal(clocking_outcome);
    let o = clocking_outcome(rif, sw, hw);
    assert forall|x: RecordView| #[trigger] o.records.contains(x) <==> clock_note(rif, sw, hw, x) by {
        lemma_reset_notes(rif.sw_clocking, sw, false, x);
        lemma_reset_notes(rif.hw_clocking, hw, true, x);
        let a = clock_record(rif, o.rif, RifClockLineKind::SwClock, RifProp::SwClock);
        let b = clock_record(rif, o.rif, RifClockLineKind::HwClock, RifProp::HwClock);
        let c = clock_record(rif, o.rif, RifClockLineKind::SwClkEn, RifProp::SwClkEn);
        let d = clock_record(rif, o.rif, RifClockLineKind::HwClkEn, RifProp::HwClkEn);
        let e = clock_record(rif, o.rif, RifClockLineKind::SwClear, RifProp::SwClear);
        let f = clock_record(rif, o.rif, RifClockLineKind::HwClear, RifProp::HwClear);
        lemma_clock_note(rif, o.rif, RifClockLineKind::SwClock, x);
        lemma_clock_note(rif, o.rif, RifClockLineKind::HwClock, x);
        lemma_clock_note(rif, o.rif, RifClockLineKind::SwClkEn, x);
        lemma_clock_note(rif, o.rif, RifClockLineKind::HwClkEn, x);
        lemma_clock_note(rif, o.rif, RifClockLineKind::SwClear, x);
        lemma_clock_note(rif, o.rif, RifClockLineKind::HwClear, x);
        lemma_both(a, b, x);
        lemma_both(a + b, c, x);
        lemma_both(a + b + c, d, x);
        lemma_both(a + b + c + d, e, x);
        lemma_both(a + b + c + d + e, f, x);
        let clocks = clock_records(rif, o.rif);
        let s = reset_records(rif.sw_clocking, sw, false);
        let h = reset_records(rif.hw_clocking, hw, true);
        lemma_both(clocks, s, x);
        lemma_both(clocks + s, h, x);
    }
}

/// Whether a name has a line in the file: the first that is listed for it.
pub open spec fn has_line(lines: Seq<NamedLineView>, name: Seq<char>, l: usize) -> bool {
    exists|k: int|
        0 <= k < lines.len() && (#[trigger] lines[k]).name == name && lines[k].line == l && forall|j: int|
            0 <= j < k ==> (#[trigger] lines[j]).name != name
}

proof fn lemma_line_of(lines: Seq<NamedLineView>, name: Seq<char>)
    ensures
        forall|l: usize| #[trigger] has_line(lines, name, l) <==> line_of(lines, name) == Some(l),
{
    let q = line_named(name);
    lemma_first(lines, q);
    assert forall|l: usize| #[trigger] has_line(lines, name, l) <==> line_of(lines, name) == Some(l) by {
        if has_line(lines, name, l) {
            let k = choose|k: int|
                0 <= k < lines.len() && (#[trigger] lines[k]).name == name && lines[k].line == l && forall|j: int|
                    0 <= j < k ==> (#[trigger] lines[j]).name != name;
            lemma_is_first(lines, q, k);
        }
        if line_of(lines, name) == Some(l) {
            let k = first(lines, q)->0;
            assert forall|j: int| 0 <= j < k implies (#[trigger] lines[j]).name != name by {
                assert(!q(lines[j]));
            }
            assert(lines[k].name == name);
        }
    }
}

/// The edit of the parameters and generics of a RIF.
pub open spec fn table_edit(
    rif: RifDefView,
    params: Seq<ParamEntryView>,
    generics: Seq<GenericEntryView>,
) -> RifApplied {
    rif_applied(
        rif,
        EditActionView::UpdateRifParamsAndGenerics { rif_type: rif.name, params, generics },
    )
}

/// Whether a parameter has a value under a name, and no other of that name stands in front of it.
pub open spec fn has_param(s: Seq<ParamView>, name: Seq<char>, k: int) -> bool {
    &&& 0 <= k < s.len()
    &&& s[k].name == name
    &&& forall|j: int| 0 <= j < k ==> (#[trigger] s[j]).name != name
}

/// Whether a row of the parameter table says what the RIF says already under that name.
pub open spec fn param_same(rif: RifDefView, old_name: Seq<char>, row: ParamEntryView) -> bool {
    old_name == row.name && exists|k: int| #[trigger]
        has_param(rif.parameters, old_name, k) && rif.parameters[k].value.rif == row.value.rif
}

/// The line of a row of the parameter table.
pub open spec fn param_written(row: ParamEntryView) -> Seq<char> {
    "- "@ + row.name + " = "@ + row.value.rif
}

/// Whether a row of the parameter table, which comes from a line of the file, is written on it.
pub open spec fn param_rewrites(rif: RifDefView, row: ParamEntryView, l: usize, e: LineEditView) -> bool {
    row.orig_name matches Some(old_name) && has_line(rif.src.param_lines, old_name, l) && !param_same(rif, old_name, row)
        && e == LineEditView::Write(param_written(row))
}

/// Whether a parameter of the RIF has no row any more, and stands on a line of the file.
pub open spec fn param_left_out(rif: RifDefView, rows: Seq<ParamEntryView>, g: ParamView, l: usize) -> bool {
    has_line(rif.src.param_lines, g.name, l) && forall|j: int|
        0 <= j < rows.len() ==> (#[trigger] rows[j]).orig_name != Some(g.name)
}

/// The notes that an edit of the parameter table makes: a new row is put, a row that says something
/// else is written on its line, and the line of a parameter without a row goes.
pub open spec fn param_note(rif: RifDefView, rows: Seq<ParamEntryView>, x: RecordView) -> bool {
    match x {
        RecordView::ParamInsert(t) => exists|j: int|
            0 <= j < rows.len() && (#[trigger] rows[j]).orig_name is None && t == param_written(rows[j]),
        RecordView::ParamLine(l, e) => {
            ||| exists|j: int| 0 <= j < rows.len() && param_rewrites(rif, #[trigger] rows[j], l, e)
            ||| e is Remove && exists|k: int|
                0 <= k < rif.parameters.len() && param_left_out(rif, rows, #[trigger] rif.parameters[k], l)
        },
        _ => false,
    }
}

proof fn lemma_param_row(rif: RifDefView, row: ParamEntryView, x: RecordView)
    ensures
        param_row_records(rif, row).contains(x) <==> match x {
            RecordView::ParamInsert(t) => row.orig_name is None && t == param_written(row),
            RecordView::ParamLine(l, e) => param_rewrites(rif, row, l, e),
            _ => false,
        },
{
    let rs = param_row_records(rif, row);
    match row.orig_name {
        None => {
            assert(rs[0] == RecordView::ParamInsert(param_written(row)));
        },
        Some(old_name) => {
            lemma_line_of(rif.src.param_lines, old_name);
            let found = first(rif.parameters, param_named(old_name));
            lemma_first(rif.parameters, param_named(old_name));
            assert(crate::stage_rif::param_changed(rif.parameters, old_name, row) == !param_same(rif, old_name, row)) by {
                if let Some(k) = found {
                    assert(has_param(rif.parameters, old_name, k));
                }
                if param_same(rif, old_name, row) {
                    let k = choose|k: int| #[trigger]
                        has_param(rif.parameters, old_name, k) && rif.parameters[k].value.rif == row.value.rif;
                    lemma_is_first(rif.parameters, param_named(old_name), k);
                }
            }
            if let Some(line) = line_of(rif.src.param_lines, old_name) {
                lemma_only(
                    crate::stage_rif::param_changed(rif.parameters, old_name, row),
                    RecordView::ParamLine(line, LineEditView::Write(param_written(row))),
                    x,
                );
            }
        },
    }
}

proof fn lemma_param_rows(rif: RifDefView, rows: Seq<ParamEntryView>, n: int, x: RecordView)
    requires
        0 <= n <= rows.len(),
    ensures
        param_rows_records(rif, rows, n).contains(x) <==> match x {
            RecordView::ParamInsert(t) => exists|j: int|
                0 <= j < n && (#[trigger] rows[j]).orig_name is None && t == param_written(rows[j]),
            RecordView::ParamLine(l, e) => exists|j: int|
                0 <= j < n && param_rewrites(rif, #[trigger] rows[j], l, e),
            _ => false,
        },
    decreases n,
{
    if n > 0 {
        lemma_param_rows(rif, rows, n - 1, x);
        lemma_param_row(rif, rows[n - 1], x);
        lemma_both(param_rows_records(rif, rows, n - 1), param_row_records(rif, rows[n - 1]), x);
    }
}

proof fn lemma_parameters_gone(rif: RifDefView, rows: Seq<ParamEntryView>, n: int, x: RecordView)
    requires
        0 <= n <= rif.parameters.len(),
    ensures
        params_gone(rif, rows, n).contains(x) <==> (x matches RecordView::ParamLine(l, e) && e is Remove && exists|k: int|
            0 <= k < n && param_left_out(rif, rows, #[trigger] rif.parameters[k], l)),
    decreases n,
{
    if n > 0 {
        lemma_parameters_gone(rif, rows, n - 1, x);
        let g = rif.parameters[n - 1];
        lemma_line_of(rif.src.param_lines, g.name);
        let last = match line_of(rif.src.param_lines, g.name) {
            Some(line) => only_if(
                !crate::stage_rif::param_seen(rows, g.name),
                RecordView::ParamLine(line, LineEditView::Remove),
            ),
            None => seq![],
        };
        if let Some(line) = line_of(rif.src.param_lines, g.name) {
            lemma_only(
                !crate::stage_rif::param_seen(rows, g.name),
                RecordView::ParamLine(line, LineEditView::Remove),
                x,
            );
        }
        lemma_both(params_gone(rif, rows, n - 1), last, x);
        assert(last.contains(x) <==> (x matches RecordView::ParamLine(l, e) && e is Remove && param_left_out(
            rif,
            rows,
            g,
            l,
        )));
    }
}

/// Whether the parameters of a RIF are those of the rows: each name once, with the value of the last row
/// of that name, and in the order of the rows where no name comes twice.
pub open spec fn parameters_from(s: Seq<ParamView>, rows: Seq<ParamEntryView>) -> bool {
    &&& forall|i: int, j: int| 0 <= i < j < s.len() ==> (#[trigger] s[i]).name != (#[trigger] s[j]).name
    &&& forall|i: int|
        0 <= i < s.len() ==> exists|j: int|
            0 <= j < rows.len() && (#[trigger] rows[j]).name == (#[trigger] s[i]).name && rows[j].value == s[i].value
    &&& forall|j: int|
        0 <= j < rows.len() && (forall|i: int| j < i < rows.len() ==> (#[trigger] rows[i]).name != rows[j].name)
            ==> exists|i: int|
            0 <= i < s.len() && (#[trigger] s[i]).name == (#[trigger] rows[j]).name && s[i].value == rows[j].value
    &&& (forall|i: int, j: int| 0 <= i < j < rows.len() ==> (#[trigger] rows[i]).name != (#[trigger] rows[j]).name)
        ==> s.len() == rows.len() && forall|j: int|
        0 <= j < rows.len() ==> (#[trigger] s[j]).name == rows[j].name && s[j].value == rows[j].value
}

proof fn lemma_parameters_from(rows: Seq<ParamEntryView>, n: int)
    requires
        0 <= n <= rows.len(),
    ensures
        parameters_from(params_of(rows, n), rows.take(n)),
    decreases n,
{
    if n > 0 {
        lemma_parameters_from(rows, n - 1);
        let (s, t) = (params_of(rows, n - 1), params_of(rows, n));
        let (a, b) = (rows.take(n - 1), rows.take(n));
        let row = rows[n - 1];
        let q = param_named(row.name);
        lemma_first(s, q);
        assert(b[n - 1] == row);
        assert forall|i: int| 0 <= i < n - 1 implies a[i] == b[i] by {}
        let at: int = match first(s, q) {
            Some(k) => k,
            None => s.len() as int,
        };
        assert(t.len() == if at < s.len() { s.len() } else { (s.len() + 1) as nat });
        assert(t[at].name == row.name && t[at].value == row.value);
        assert forall|i: int| 0 <= i < s.len() && i != at implies #[trigger] t[i] == s[i] by {}
        assert forall|i: int| 0 <= i < s.len() && i != at implies (#[trigger] s[i]).name != row.name by {
            if first(s, q) is None {
                assert(!q(s[i]));
            } else {
                assert(q(s[at]));
                if i < at {
                    assert(s[i].name != s[at].name);
                } else {
                    assert(s[at].name != s[i].name);
                }
            }
        }
        assert forall|i: int| 0 <= i < t.len() implies exists|j: int|
            0 <= j < b.len() && (#[trigger] b[j]).name == (#[trigger] t[i]).name && b[j].value == t[i].value by {
            if i == at {
                assert(b[n - 1].name == t[i].name);
            } else {
                assert(t[i] == s[i]);
                let j = choose|j: int|
                    0 <= j < a.len() && (#[trigger] a[j]).name == s[i].name && a[j].value == s[i].value;
                assert(b[j].name == t[i].name);
            }
        }
        assert forall|j: int|
            0 <= j < b.len() && (forall|i: int| j < i < b.len() ==> (#[trigger] b[i]).name != b[j].name) implies exists|
            i: int,
        |
            0 <= i < t.len() && (#[trigger] t[i]).name == (#[trigger] b[j]).name && t[i].value == b[j].value by {
            if j == n - 1 {
                assert(t[at].name == b[j].name);
            } else {
                assert(b[n - 1].name != b[j].name);
                assert(a[j] == b[j]);
                assert forall|i: int| j < i < a.len() implies (#[trigger] a[i]).name != a[j].name by {
                    assert(b[i].name != b[j].name);
                }
                let i = choose|i: int|
                    0 <= i < s.len() && (#[trigger] s[i]).name == a[j].name && s[i].value == a[j].value;
                assert(i != at);
                assert(t[i].name == b[j].name);
            }
        }
        if forall|i: int, j: int| 0 <= i < j < b.len() ==> (#[trigger] b[i]).name != (#[trigger] b[j]).name {
            assert forall|i: int, j: int| 0 <= i < j < a.len() implies (#[trigger] a[i]).name != (
            #[trigger] a[j]).name by {
                assert(b[i].name != b[j].name);
            }
            assert(s.len() == a.len());
            if at < s.len() {
                assert(s[at].name == a[at].name);
                assert(b[at].name != b[n - 1].name);
            }
            assert forall|j: int| 0 <= j < b.len() implies (#[trigger] t[j]).name == b[j].name && t[j].value
                == b[j].value by {
                if j < n - 1 {
                    assert(t[j] == s[j]);
                    assert(s[j].name == a[j].name);
                }
            }
        }
    }
}

/// Whether a generic has a value under a name, and no other of that name stands in front of it.
pub open spec fn has_generic(s: Seq<GenericView>, name: Seq<char>, k: int) -> bool {
    &&& 0 <= k < s.len()
    &&& s[k].name == name
    &&& forall|j: int| 0 <= j < k ==> (#[trigger] s[j]).name != name
}

/// Whether a row of the generic table says what the RIF says already under that name.
pub open spec fn generic_same(rif: RifDefView, old_name: Seq<char>, row: GenericEntryView) -> bool {
    old_name == row.name && exists|k: int| #[trigger]
        has_generic(rif.generics, old_name, k) && rif.generics[k].range == row.range
}

/// The line of a row of the generic table.
pub open spec fn generic_written(row: GenericEntryView) -> Seq<char> {
    "- "@ + row.name + " : "@ + decimal(row.range.min as int) + ":"@ + decimal(row.range.default as int) + ":"@
        + decimal(row.range.max as int) + (match row.range.desc {
        Some(d) => " \""@ + d + "\""@,
        None => seq![],
    })
}

/// Whether a row of the generic table, which comes from a line of the file, is written on it.
pub open spec fn generic_rewrites(rif: RifDefView, row: GenericEntryView, l: usize, e: LineEditView) -> bool {
    row.orig_name matches Some(old_name) && has_line(rif.src.generic_lines, old_name, l) && !generic_same(rif, old_name, row)
        && e == LineEditView::Write(generic_written(row))
}

/// Whether a generic of the RIF has no row any more, and stands on a line of the file.
pub open spec fn generic_left_out(rif: RifDefView, rows: Seq<GenericEntryView>, g: GenericView, l: usize) -> bool {
    has_line(rif.src.generic_lines, g.name, l) && forall|j: int|
        0 <= j < rows.len() ==> (#[trigger] rows[j]).orig_name != Some(g.name)
}

/// The notes that an edit of the generic table makes: a new row is put, a row that says something
/// else is written on its line, and the line of a generic without a row goes.
pub open spec fn generic_note(rif: RifDefView, rows: Seq<GenericEntryView>, x: RecordView) -> bool {
    match x {
        RecordView::GenericInsert(t) => exists|j: int|
            0 <= j < rows.len() && (#[trigger] rows[j]).orig_name is None && t == generic_written(rows[j]),
        RecordView::GenericLine(l, e) => {
            ||| exists|j: int| 0 <= j < rows.len() && generic_rewrites(rif, #[trigger] rows[j], l, e)
            ||| e is Remove && exists|k: int|
                0 <= k < rif.generics.len() && generic_left_out(rif, rows, #[trigger] rif.generics[k], l)
        },
        _ => false,
    }
}

proof fn lemma_generic_row(rif: RifDefView, row: GenericEntryView, x: RecordView)
    ensures
        generic_row_records(rif, row).contains(x) <==> match x {
            RecordView::GenericInsert(t) => row.orig_name is None && t == generic_written(row),
            RecordView::GenericLine(l, e) => generic_rewrites(rif, row, l, e),
            _ => false,
        },
{
    let rs = generic_row_records(rif, row);
    match row.orig_name {
        None => {
            assert(rs[0] == RecordView::GenericInsert(generic_written(row)));
        },
        Some(old_name) => {
            lemma_line_of(rif.src.generic_lines, old_name);
            let found = first(rif.generics, generic_named(old_name));
            lemma_first(rif.generics, generic_named(old_name));
            assert(crate::stage_rif::generic_changed(rif.generics, old_name, row) == !generic_same(rif, old_name, row)) by {
                if let Some(k) = found {
                    assert(has_generic(rif.generics, old_name, k));
                }
                if generic_same(rif, old_name, row) {
                    let k = choose|k: int| #[trigger]
                        has_generic(rif.generics, old_name, k) && rif.generics[k].range == row.range;
                    lemma_is_first(rif.generics, generic_named(old_name), k);
                }
            }
            if let Some(line) = line_of(rif.src.generic_lines, old_name) {
                lemma_only(
                    crate::stage_rif::generic_changed(rif.generics, old_name, row),
                    RecordView::GenericLine(line, LineEditView::Write(generic_written(row))),
                    x,
                );
            }
        },
    }
}

proof fn lemma_generic_rows(rif: RifDefView, rows: Seq<GenericEntryView>, n: int, x: RecordView)
    requires
        0 <= n <= rows.len(),
    ensures
        generic_rows_records(rif, rows, n).contains(x) <==> match x {
            RecordView::GenericInsert(t) => exists|j: int|
                0 <= j < n && (#[trigger] rows[j]).orig_name is None && t == generic_written(rows[j]),
            RecordView::GenericLine(l, e) => exists|j: int|
                0 <= j < n && generic_rewrites(rif, #[trigger] rows[j], l, e),
            _ => false,
        },
    decreases n,
{
    if n > 0 {
        lemma_generic_rows(rif, rows, n - 1, x);
        lemma_generic_row(rif, rows[n - 1], x);
        lemma_both(generic_rows_records(rif, rows, n - 1), generic_row_records(rif, rows[n - 1]), x);
    }
}

proof fn lemma_generics_gone(rif: RifDefView, rows: Seq<GenericEntryView>, n: int, x: RecordView)
    requires
        0 <= n <= rif.generics.len(),
    ensures
        generics_gone(rif, rows, n).contains(x) <==> (x matches RecordView::GenericLine(l, e) && e is Remove && exists|k: int|
            0 <= k < n && generic_left_out(rif, rows, #[trigger] rif.generics[k], l)),
    decreases n,
{
    if n > 0 {
        lemma_generics_gone(rif, rows, n - 1, x);
        let g = rif.generics[n - 1];
        lemma_line_of(rif.src.generic_lines, g.name);
        let last = match line_of(rif.src.generic_lines, g.name) {
            Some(line) => only_if(
                !crate::stage_rif::generic_seen(rows, g.name),
                RecordView::GenericLine(line, LineEditView::Remove),
            ),
            None => seq![],
        };
        if let Some(line) = line_of(rif.src.generic_lines, g.name) {
            lemma_only(
                !crate::stage_rif::generic_seen(rows, g.name),
                RecordView::GenericLine(line, LineEditView::Remove),
                x,
            );
        }
        lemma_both(generics_gone(rif, rows, n - 1), last, x);
        assert(last.contains(x) <==> (x matches RecordView::GenericLine(l, e) && e is Remove && generic_left_out(
            rif,
            rows,
            g,
            l,
        )));
    }
}

/// Whether the generics of a RIF are those of the rows: each name once, with the value of the last row
/// of that name, and in the order of the rows where no name comes twice.
pub open spec fn generics_from(s: Seq<GenericView>, rows: Seq<GenericEntryView>) -> bool {
    &&& forall|i: int, j: int| 0 <= i < j < s.len() ==> (#[trigger] s[i]).name != (#[trigger] s[j]).name
    &&& forall|i: int|
        0 <= i < s.len() ==> exists|j: int|
            0 <= j < rows.len() && (#[trigger] rows[j]).name == (#[trigger] s[i]).name && rows[j].range == s[i].range
    &&& forall|j: int|
        0 <= j < rows.len() && (forall|i: int| j < i < rows.len() ==> (#[trigger] rows[i]).name != rows[j].name)
            ==> exists|i: int|
            0 <= i < s.len() && (#[trigger] s[i]).name == (#[trigger] rows[j]).name && s[i].range == rows[j].range
    &&& (forall|i: int, j: int| 0 <= i < j < rows.len() ==> (#[trigger] rows[i]).name != (#[trigger] rows[j]).name)
        ==> s.len() == rows.len() && forall|j: int|
        0 <= j < rows.len() ==> (#[trigger] s[j]).name == rows[j].name && s[j].range == rows[j].range
}

proof fn lemma_generics_from(rows: Seq<GenericEntryView>, n: int)
    requires
        0 <= n <= rows.len(),
    ensures
        generics_from(generics_of(rows, n), rows.take(n)),
    decreases n,
{
    if n > 0 {
        lemma_generics_from(rows, n - 1);
        let (s, t) = (generics_of(rows, n - 1), generics_of(rows, n));
        let (a, b) = (rows.take(n - 1), rows.take(n));
        let row = rows[n - 1];
        let q = generic_named(row.name);
        lemma_first(s, q);
        assert(b[n - 1] == row);
        assert forall|i: int| 0 <= i < n - 1 implies a[i] == b[i] by {}
        let at: int = match first(s, q) {
            Some(k) => k,
            None => s.len() as int,
        };
        assert(t.len() == if at < s.len() { s.len() } else { (s.len() + 1) as nat });
        assert(t[at].name == row.name && t[at].range == row.range);
        assert forall|i: int| 0 <= i < s.len() && i != at implies #[trigger] t[i] == s[i] by {}
        assert forall|i: int| 0 <= i < s.len() && i != at implies (#[trigger] s[i]).name != row.name by {
            if first(s, q) is None {
                assert(!q(s[i]));
            } else {
                assert(q(s[at]));
                if i < at {
                    assert(s[i].name != s[at].name);
                } else {
                    assert(s[at].name != s[i].name);
                }
            }
        }
        assert forall|i: int| 0 <= i < t.len() implies exists|j: int|
            0 <= j < b.len() && (#[trigger] b[j]).name == (#[trigger] t[i]).name && b[j].range == t[i].range by {
            if i == at {
                assert(b[n - 1].name == t[i].name);
            } else {
                assert(t[i] == s[i]);
                let j = choose|j: int|
                    0 <= j < a.len() && (#[trigger] a[j]).name == s[i].name && a[j].range == s[i].range;
                assert(b[j].name == t[i].name);
            }
        }
        assert forall|j: int|
            0 <= j < b.len() && (forall|i: int| j < i < b.len() ==> (#[trigger] b[i]).name != b[j].name) implies exists|
            i: int,
        |
            0 <= i < t.len() && (#[trigger] t[i]).name == (#[trigger] b[j]).name && t[i].range == b[j].range by {
            if j == n - 1 {
                assert(t[at].name == b[j].name);
            } else {
                assert(b[n - 1].name != b[j].name);
                assert(a[j] == b[j]);
                assert forall|i: int| j < i < a.len() implies (#[trigger] a[i]).name != a[j].name by {
                    assert(b[i].name != b[j].name);
                }
                let i = choose|i: int|
                    0 <= i < s.len() && (#[trigger] s[i]).name == a[j].name && s[i].range == a[j].range;
                assert(i != at);
                assert(t[i].name == b[j].name);
            }
        }
        if forall|i: int, j: int| 0 <= i < j < b.len() ==> (#[trigger] b[i]).name != (#[trigger] b[j]).name {
            assert forall|i: int, j: int| 0 <= i < j < a.len() implies (#[trigger] a[i]).name != (
            #[trigger] a[j]).name by {
                assert(b[i].name != b[j].name);
            }
            assert(s.len() == a.len());
            if at < s.len() {
                assert(s[at].name == a[at].name);
                assert(b[at].name != b[n - 1].name);
            }
            assert forall|j: int| 0 <= j < b.len() implies (#[trigger] t[j]).name == b[j].name && t[j].range
                == b[j].range by {
                if j < n - 1 {
                    assert(t[j] == s[j]);
                    assert(s[j].name == a[j].name);
                }
            }
        }
    }
}

proof fn lemma_table_note(
    rif: RifDefView,
    params: Seq<ParamEntryView>,
    generics: Seq<GenericEntryView>,
    x: RecordView,
)
    ensures
        params_outcome(rif, params, generics).records.contains(x) <==> param_note(rif, params, x) || generic_note(
            rif,
            generics,
            x,
        ),
{
    let (n, m) = (params.len() as int, generics.len() as int);
    let a = param_rows_records(rif, params, n);
    let b = params_gone(rif, params, rif.parameters.len() as int);
    let c = generic_rows_records(rif, generics, m);
    let d = generics_gone(rif, generics, rif.generics.len() as int);
    assert(params_outcome(rif, params, generics).records == a + b + c + d) by {
        reveal(params_outcome);
    }
    lemma_param_rows(rif, params, n, x);
    lemma_parameters_gone(rif, params, rif.parameters.len() as int, x);
    lemma_generic_rows(rif, generics, m, x);
    lemma_generics_gone(rif, generics, rif.generics.len() as int, x);
    assert(a.contains(x) || b.contains(x) <==> param_note(rif, params, x));
    assert(c.contains(x) || d.contains(x) <==> generic_note(rif, generics, x));
    lemma_both(a, b, x);
    lemma_both(a + b, c, x);
    lemma_both(a + b + c, d, x);
}

/// A RIF whose parameters and generics are edited has those of the rows, and nothing else changes. The
/// lines of the file that this changes are noted, and nothing else.
pub proof fn edited_tables_are_those_given(
    rif: RifDefView,
    params: Seq<ParamEntryView>,
    generics: Seq<GenericEntryView>,
)
    ensures
        table_edit(rif, params, generics) matches RifApplied::Staged(o, follow) && {
            &&& parameters_from(o.rif.parameters, params)
            &&& generics_from(o.rif.generics, generics)
            &&& o.rif == (RifDefView { parameters: o.rif.parameters, generics: o.rif.generics, ..rif })
            &&& follow == FollowView::RifEdited
            &&& forall|x: RecordView| #[trigger]
                o.records.contains(x) <==> param_note(rif, params, x) || generic_note(rif, generics, x)
        },
{
    let o = params_outcome(rif, params, generics);
    assert(parameters_from(o.rif.parameters, params)) by {
        reveal(params_outcome);
        lemma_parameters_from(params, params.len() as int);
        assert(params.take(params.len() as int) =~= params);
    }
    assert(generics_from(o.rif.generics, generics)) by {
        reveal(params_outcome);
        lemma_generics_from(generics, generics.len() as int);
        assert(generics.take(generics.len() as int) =~= generics);
    }
    assert(o.rif == (RifDefView { parameters: o.rif.parameters, generics: o.rif.generics, ..rif })) by {
        reveal(params_outcome);
    }
    assert forall|x: RecordView| #[trigger] o.records.contains(x) <==> param_note(rif, params, x) || generic_note(
        rif,
        generics,
        x,
    ) by {
        lemma_table_note(rif, params, generics, x);
    }
}

/// The edit of the values of a RIF.
pub open spec fn rif_edit(rif: RifDefView, v: RifDefValsView) -> RifApplied {
    rif_applied(rif, EditActionView::UpdateRifDef { rif_type: rif.name, vals: v })
}

/// The width in bits that a bus width stands for.
pub open spec fn width_bits(w: BusWidth) -> u8 {
    match w {
        BusWidth::W8(n) => n,
        BusWidth::W16(n) => n,
        BusWidth::W32(n) => n,
        BusWidth::W64(n) => n,
        BusWidth::W128(n) => n,
    }
}

/// The line of the interface; none for the default one.
pub open spec fn bus_text(b: BusView) -> Option<Seq<char>> {
    match b {
        BusView::Default => None,
        BusView::Apb => Some("interface: apb"@),
        BusView::Uaux => Some("interface: uaux"@),
        BusView::Custom(name, path) => Some("interface: "@ + name + "("@ + path + ")"@),
    }
}

/// The notes that an edit of the values of a RIF makes: the declaration, a width, the interface or the
/// description, where it prints otherwise.
pub open spec fn rif_note(rif: RifDefView, v: RifDefValsView, line: usize, x: RecordView) -> bool {
    match x {
        RecordView::RifDirty(l) => l == line && v.name != rif.name,
        RecordView::RifLine(RifProp::AddrWidth, e) => v.addr_width != rif.addr_width && e == LineEditView::Write(
            "addrWidth: "@ + decimal(v.addr_width as int),
        ),
        RecordView::RifLine(RifProp::DataWidth, e) => width_bits(v.data_width) != width_bits(rif.data_width) && e
            == LineEditView::Write("dataWidth: "@ + decimal(width_bits(v.data_width) as int)),
        RecordView::RifLine(RifProp::Interface, e) => bus_text(v.interface) != bus_text(rif.interface) && e == line_now(
            bus_text(v.interface),
        ),
        RecordView::RifDesc(b) => {
            let now = crate::model::values::DescView { public: v.desc, ..rif.description };
            rif_desc_block(now) != rif_desc_block(rif.description) && b == block_now(rif_desc_block(now))
        },
        _ => false,
    }
}

proof fn lemma_numbers_print_apart(a: int, b: int, word: Seq<char>)
    requires
        a != b,
    ensures
        word + decimal(a) != word + decimal(b),
{
    crate::number::decimal_reads_back(a);
    crate::number::decimal_reads_back(b);
    let n = word.len() as int;
    assert((word + decimal(a)).skip(n) =~= decimal(a));
    assert((word + decimal(b)).skip(n) =~= decimal(b));
}

proof fn lemma_rif_lines(before: RifDefView, after: RifDefView, n: int, x: RecordView)
    requires
        0 <= n <= 10,
    ensures
        rif_lines(before, after, n).contains(x) <==> (x matches RecordView::RifLine(p, e) && p.index() < n
            && crate::syntax::rif_prop_line(before, p) != crate::syntax::rif_prop_line(after, p) && e
            == crate::field_update::line_edit(crate::syntax::rif_prop_line(after, p))),
    decreases n,
{
    if n > 0 {
        lemma_rif_lines(before, after, n - 1, x);
        let p = RifProp::at_index(n - 1);
        let now = crate::syntax::rif_prop_line(after, p);
        lemma_only(
            crate::syntax::rif_prop_line(before, p) != now,
            RecordView::RifLine(p, crate::field_update::line_edit(now)),
            x,
        );
        lemma_both(
            rif_lines(before, after, n - 1),
            only_if(
                crate::syntax::rif_prop_line(before, p) != now,
                RecordView::RifLine(p, crate::field_update::line_edit(now)),
            ),
            x,
        );
        assert(p.index() == n - 1);
        if let RecordView::RifLine(q, _) = x {
            if q.index() == n - 1 {
                assert(q == p);
            }
        }
    }
}

/// A RIF that is edited has the name, the widths, the interface and the description that were given,
/// and nothing else changes. What prints otherwise in the file is noted, and nothing else.
pub proof fn edited_rif_has_the_values(rif: RifDefView, v: RifDefValsView)
    ensures
        rif_edit(rif, v) matches RifApplied::Staged(o, follow) && {
            &&& o.rif.name == v.name
            &&& o.rif.addr_width == v.addr_width
            &&& o.rif.data_width == v.data_width
            &&& o.rif.interface == v.interface
            &&& o.rif.description.public == v.desc
            &&& o.rif.description.private == rif.description.private
            &&& o.rif == (RifDefView {
                name: o.rif.name,
                addr_width: o.rif.addr_width,
                data_width: o.rif.data_width,
                interface: o.rif.interface,
                description: o.rif.description,
                ..rif
            })
            &&& rif.src.decl_line matches Some(line) ==> forall|x: RecordView| #[trigger]
                o.records.contains(x) <==> rif_note(rif, v, line, x)
            &&& rif.src.decl_line is None ==> o.records.len() == 0
        },
{
    let after = rif_after(rif, v);
    let rs = rif_records(rif, after);
    if let Some(line) = rif.src.decl_line {
        assert forall|x: RecordView| #[trigger] rs.contains(x) <==> rif_note(rif, v, line, x) by {
            let a = only_if(
                crate::syntax::rif_decl(after.name) != crate::syntax::rif_decl(rif.name),
                RecordView::RifDirty(line),
            );
            let b = rif_lines(rif, after, 10);
            let block = crate::field_update::block_edit(rif_desc_block(after.description));
            let changed = rif_desc_block(after.description) != rif_desc_block(rif.description);
            let c = only_if(changed, RecordView::RifDesc(block));
            lemma_only(
                crate::syntax::rif_decl(after.name) != crate::syntax::rif_decl(rif.name),
                RecordView::RifDirty(line),
                x,
            );
            lemma_only(changed, RecordView::RifDesc(block), x);
            lemma_rif_lines(rif, after, 10, x);
            lemma_both(a, b, x);
            lemma_both(a + b, c, x);
            if v.name != rif.name {
                let w = "rif: "@;
                assert((w + v.name).skip(w.len() as int) =~= v.name);
                assert((w + rif.name).skip(w.len() as int) =~= rif.name);
            }
            if v.addr_width != rif.addr_width {
                lemma_numbers_print_apart(rif.addr_width as int, v.addr_width as int, "addrWidth: "@);
            }
            if width_bits(v.data_width) != width_bits(rif.data_width) {
                lemma_numbers_print_apart(
                    width_bits(rif.data_width) as int,
                    width_bits(v.data_width) as int,
                    "dataWidth: "@,
                );
            }
            assert(crate::syntax::clock_names(after.sw_clocking) == crate::syntax::clock_names(rif.sw_clocking));
        }
    }
}

} // verus!
