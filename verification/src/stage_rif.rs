//! Edits of a RIF as a whole: enums, properties, clocks, parameters and generics.
use vstd::prelude::*;
use crate::edits::{LineEdit, LineEditView, Record, RecordView, RifClockLineKind};
use crate::field_update::{block_edit, line_edit, same_block, to_block_edit, to_line_edit};
use crate::model::props::RifProp;
use crate::model::rif::{
    Clocking, ClockingView, EnumItem, EnumItemView, EnumType, EnumTypeView, Generic, GenericView, NamedLine,
    NamedLineView, Param, ParamView, Range, ResetLine, ResetLineView, RifDef, RifDefView,
};
use crate::model::values::DescView;
use crate::reg_update::{extend_records, no_records, only_if, push_when, same_line};
use crate::search::{first, lemma_is_first, lemma_no_first};
use crate::source::{enum_named, find_enum};
use crate::stage_field::Outcome;
use crate::syntax::{
    generic_line, param_line, reset_line, rif_decl, rif_desc_block, rif_prop_line, show_generic_line,
    show_param_line, show_reset_line, show_rif_decl, show_rif_desc_block, show_rif_prop_line,
};
use crate::vals::{GenericEntry, GenericEntryView, ParamEntry, ParamEntryView, RifDefVals, RifDefValsView};

verus! {

/// Whether two enum entries say the same, wherever they stand.
pub open spec fn same_entry(a: EnumItemView, b: EnumItemView) -> bool {
    a.name == b.name && a.value == b.value && a.repr == b.repr && a.description == b.description
}

/// Whether one of the entries stands on a line.
pub open spec fn stands_on(entries: Seq<EnumItemView>, line: usize) -> bool {
    exists|j: int| 0 <= j < entries.len() && (#[trigger] entries[j]).decl_line == Some(line)
}

/// Whether an entry that stands on the line of `e` says something else.
pub open spec fn reworded(entries: Seq<EnumItemView>, e: EnumItemView) -> bool {
    exists|j: int|
        0 <= j < entries.len() && (#[trigger] entries[j]).decl_line == e.decl_line && !same_entry(
            entries[j],
            e,
        )
}

/// What is to be saved of an enum entry that was there before.
pub open spec fn entry_records(now: Seq<EnumItemView>, e: EnumItemView) -> Seq<RecordView> {
    match e.decl_line {
        Some(line) => if !stands_on(now, line) {
            seq![RecordView::EnumDeleted(line)]
        } else {
            only_if(reworded(now, e), RecordView::EnumDirty(line))
        },
        None => seq![],
    }
}

/// What is to be saved of the first `n` enum entries that were there before.
pub open spec fn enum_records(was: Seq<EnumItemView>, now: Seq<EnumItemView>, n: int) -> Seq<RecordView>
    decreases n,
{
    if n <= 0 {
        seq![]
    } else {
        enum_records(was, now, n - 1) + entry_records(now, was[n - 1])
    }
}

/// Other entries for an enum, which is created where there is none of that name.
#[verifier::opaque]
pub open spec fn update_enum_outcome(rif: RifDefView, name: Seq<char>, values: Seq<EnumItemView>) -> Outcome {
    match first(rif.enum_defs, enum_named(name)) {
        Some(k) => Outcome {
            rif: RifDefView {
                enum_defs: rif.enum_defs.update(k, EnumTypeView { values, ..rif.enum_defs[k] }),
                ..rif
            },
            records: enum_records(
                rif.enum_defs[k].values,
                values,
                rif.enum_defs[k].values.len() as int,
            ),
        },
        None => Outcome {
            rif: RifDefView {
                enum_defs: rif.enum_defs.push(EnumTypeView { name, values, decl_line: None }),
                ..rif
            },
            records: seq![],
        },
    }
}

fn says_same(a: &EnumItem, b: &EnumItem) -> (r: bool)
    ensures
        r == same_entry(a@, b@),
{
    a.name == b.name && a.value == b.value && same_line(&a.repr, &b.repr) && a.description.public
        == b.description.public && a.description.private == b.description.private
}

fn note_entry(now: &Vec<EnumItem>, e: &EnumItem) -> (r: Vec<Record>)
    ensures
        r.deep_view() == entry_records(now.deep_view(), e@),
{
    let mut r = no_records();
    let line: usize = match e.decl_line {
        Some(l) => l,
        None => {
            return r;
        },
    };
    let ghost s = now.deep_view();
    let mut stands = false;
    let mut changed = false;
    let mut j: usize = 0;
    while j < now.len()
        invariant
            j <= now@.len(),
            s == now.deep_view(),
            e@.decl_line == Some(line),
            stands == exists|k: int| 0 <= k < j && (#[trigger] s[k]).decl_line == Some(line),
            changed == exists|k: int|
                0 <= k < j && (#[trigger] s[k]).decl_line == e@.decl_line && !same_entry(s[k], e@),
        decreases now@.len() - j,
    {
        proof {
            assert(s[j as int] == now@[j as int]@);
        }
        let here = match now[j].decl_line {
            Some(l) => l == line,
            None => false,
        };
        if here {
            stands = true;
            if !says_same(&now[j], e) {
                changed = true;
            }
        }
        j += 1;
    }
    if !stands {
        push_when(&mut r, true, Record::EnumDeleted(line));
    } else {
        push_when(&mut r, changed, Record::EnumDirty(line));
    }
    proof {
        assert(r.deep_view() =~= entry_records(s, e@));
    }
    r
}

fn note_enum(was: &Vec<EnumItem>, now: &Vec<EnumItem>) -> (r: Vec<Record>)
    ensures
        r.deep_view() == enum_records(was.deep_view(), now.deep_view(), was@.len() as int),
{
    let mut r = no_records();
    let mut i: usize = 0;
    while i < was.len()
        invariant
            i <= was@.len(),
            r.deep_view() == enum_records(was.deep_view(), now.deep_view(), i as int),
        decreases was@.len() - i,
    {
        extend_records(&mut r, note_entry(now, &was[i]));
        i += 1;
    }
    r
}

/// Sets the entries of an enum.
pub fn stage_update_enum(rif: &mut RifDef, name: &String, values: Vec<EnumItem>) -> (r: Vec<Record>)
    ensures
        final(rif)@ == update_enum_outcome(old(rif)@, name@, values.deep_view()).rif,
        r.deep_view() == update_enum_outcome(old(rif)@, name@, values.deep_view()).records,
{
    proof {
        reveal(update_enum_outcome);
    }
    let ghost before = rif@;
    let ghost now = values.deep_view();
    match find_enum(&rif.enum_defs, name) {
        Some(k) => {
            let ghost def = rif.enum_defs@[k as int]@;
            let r = note_enum(&rif.enum_defs[k].values, &values);
            rif.enum_defs[k].values = values;
            proof {
                assert(before.enum_defs[k as int] == def);
                assert(rif.enum_defs@[k as int]@ == (EnumTypeView { values: now, ..def }));
                assert(rif.enum_defs.deep_view() =~= before.enum_defs.update(
                    k as int,
                    EnumTypeView { values: now, ..def },
                ));
            }
            r
        },
        None => {
            rif.enum_defs.push(EnumType { name: name.clone(), values, decl_line: None });
            proof {
                assert(rif.enum_defs.deep_view() =~= before.enum_defs.push(
                    EnumTypeView { name: name@, values: now, decl_line: None },
                ));
            }
            no_records()
        },
    }
}

/// The RIF with new values.
pub open spec fn rif_after(rif: RifDefView, v: RifDefValsView) -> RifDefView {
    RifDefView {
        name: v.name,
        addr_width: v.addr_width,
        data_width: v.data_width,
        interface: v.interface,
        description: DescView { public: v.desc, ..rif.description },
        ..rif
    }
}

/// The records for the properties that print differently, up to the `n`-th one.
pub open spec fn rif_lines(before: RifDefView, after: RifDefView, n: int) -> Seq<RecordView>
    decreases n,
{
    if n <= 0 {
        seq![]
    } else {
        let p = RifProp::at_index(n - 1);
        rif_lines(before, after, n - 1) + only_if(
            rif_prop_line(before, p) != rif_prop_line(after, p),
            RecordView::RifLine(p, line_edit(rif_prop_line(after, p))),
        )
    }
}

/// What is to be saved of new values of a RIF.
pub open spec fn rif_records(before: RifDefView, after: RifDefView) -> Seq<RecordView> {
    match before.src.decl_line {
        Some(line) => only_if(
            rif_decl(after.name) != rif_decl(before.name),
            RecordView::RifDirty(line),
        ) + rif_lines(before, after, 10) + only_if(
            rif_desc_block(after.description) != rif_desc_block(before.description),
            RecordView::RifDesc(block_edit(rif_desc_block(after.description))),
        ),
        None => seq![],
    }
}

/// Applies new values to a RIF.
pub fn stage_update_rif(rif: &mut RifDef, v: &RifDefVals) -> (r: Vec<Record>)
    ensures
        final(rif)@ == rif_after(old(rif)@, v@),
        r.deep_view() == rif_records(old(rif)@, rif_after(old(rif)@, v@)),
{
    let before = rif.clone();
    rif.name = v.name.clone();
    rif.addr_width = v.addr_width;
    rif.data_width = v.data_width;
    rif.interface = v.interface.clone();
    rif.description.public = v.desc.clone();
    proof {
        assert(rif@ == rif_after(before@, v@));
    }
    let mut r = no_records();
    let line: usize = match before.src.decl_line {
        Some(l) => l,
        None => {
            return r;
        },
    };
    let renamed = show_rif_decl(rif.name.as_str()) != show_rif_decl(before.name.as_str());
    push_when(&mut r, renamed, Record::RifDirty(line));
    let ghost head = r.deep_view();
    proof {
        assert(head =~= only_if(rif_decl(rif@.name) != rif_decl(before@.name), RecordView::RifDirty(line)));
    }
    let mut lines = no_records();
    let mut i: usize = 0;
    while i < 10
        invariant
            i <= 10,
            lines.deep_view() == rif_lines(before@, rif@, i as int),
        decreases 10 - i,
    {
        let p = RifProp::at(i);
        let was = show_rif_prop_line(&before, p);
        let now = show_rif_prop_line(rif, p);
        let changed = !same_line(&was, &now);
        push_when(&mut lines, changed, Record::RifLine(p, to_line_edit(now)));
        i += 1;
    }
    extend_records(&mut r, lines);
    let was = show_rif_desc_block(&before.description);
    let now = show_rif_desc_block(&rif.description);
    let changed = !same_block(&now, &was);
    push_when(&mut r, changed, Record::RifDesc(to_block_edit(now)));
    r
}

/// What is to be saved of one clock line.
pub open spec fn clock_record(before: RifDefView, after: RifDefView, k: RifClockLineKind, p: RifProp) -> Seq<
    RecordView,
> {
    only_if(
        rif_prop_line(before, p) != rif_prop_line(after, p),
        RecordView::ClockLine(k, line_edit(rif_prop_line(after, p))),
    )
}

/// What is to be saved of the clock lines.
pub open spec fn clock_records(before: RifDefView, after: RifDefView) -> Seq<RecordView> {
    clock_record(before, after, RifClockLineKind::SwClock, RifProp::SwClock) + clock_record(
        before,
        after,
        RifClockLineKind::HwClock,
        RifProp::HwClock,
    ) + clock_record(before, after, RifClockLineKind::SwClkEn, RifProp::SwClkEn) + clock_record(
        before,
        after,
        RifClockLineKind::HwClkEn,
        RifProp::HwClkEn,
    ) + clock_record(before, after, RifClockLineKind::SwClear, RifProp::SwClear) + clock_record(
        before,
        after,
        RifClockLineKind::HwClear,
        RifProp::HwClear,
    )
}

/// Whether two reset lines say the same, wherever they stand.
pub open spec fn same_rst(a: ResetLineView, b: ResetLineView) -> bool {
    a.name == b.name && a.sync == b.sync && a.active_high == b.active_high
}

/// Whether two groups of clocks have the same resets.
pub open spec fn same_resets(a: Seq<ClockingView>, b: Seq<ClockingView>) -> bool {
    a.len() == b.len() && forall|i: int| 0 <= i < a.len() ==> same_rst((#[trigger] a[i]).rst, b[i].rst)
}

/// The reset lines of the first `n` clocks that were there before go.
pub open spec fn resets_gone(cs: Seq<ClockingView>, n: int) -> Seq<RecordView>
    decreases n,
{
    if n <= 0 {
        seq![]
    } else {
        resets_gone(cs, n - 1) + match cs[n - 1].rst.decl_line {
            Some(line) => seq![RecordView::ResetDeleted(line)],
            None => seq![],
        }
    }
}

/// The reset lines of a group of clocks.
pub open spec fn reset_lines(keyword: Seq<char>, cs: Seq<ClockingView>) -> Seq<Seq<char>> {
    Seq::new(cs.len(), |i: int| reset_line(keyword, cs[i].rst))
}

/// What is to be saved of the resets of a group of clocks.
pub open spec fn reset_records(was: Seq<ClockingView>, now: Seq<ClockingView>, hw: bool) -> Seq<RecordView> {
    if same_resets(was, now) {
        seq![]
    } else {
        resets_gone(was, was.len() as int) + seq![
            RecordView::ResetLines(
                hw,
                reset_lines(
                    if hw {
                        "hwReset"@
                    } else {
                        "swReset"@
                    },
                    now,
                ),
            ),
        ]
    }
}

/// Other clocks for a RIF.
#[verifier::opaque]
pub open spec fn clocking_outcome(rif: RifDefView, sw: Seq<ClockingView>, hw: Seq<ClockingView>) -> Outcome {
    let after = RifDefView { sw_clocking: sw, hw_clocking: hw, ..rif };
    Outcome {
        rif: after,
        records: clock_records(rif, after) + reset_records(rif.sw_clocking, sw, false)
            + reset_records(rif.hw_clocking, hw, true),
    }
}

fn note_clock(before: &RifDef, after: &RifDef, k: RifClockLineKind, p: RifProp) -> (r: Vec<Record>)
    ensures
        r.deep_view() == clock_record(before@, after@, k, p),
{
    let mut r = no_records();
    let was = show_rif_prop_line(before, p);
    let now = show_rif_prop_line(after, p);
    let changed = !same_line(&was, &now);
    push_when(&mut r, changed, Record::ClockLine(k, to_line_edit(now)));
    proof {
        assert(r.deep_view() =~= clock_record(before@, after@, k, p));
    }
    r
}

fn says_same_reset(a: &ResetLine, b: &ResetLine) -> (r: bool)
    ensures
        r == same_rst(a@, b@),
{
    a.name == b.name && a.sync == b.sync && a.active_high == b.active_high
}

fn resets_unchanged(a: &Vec<Clocking>, b: &Vec<Clocking>) -> (r: bool)
    ensures
        r == same_resets(a.deep_view(), b.deep_view()),
{
    if a.len() != b.len() {
        return false;
    }
    let ghost (x, y) = (a.deep_view(), b.deep_view());
    let mut i: usize = 0;
    while i < a.len()
        invariant
            i <= a@.len() == b@.len(),
            x == a.deep_view(),
            y == b.deep_view(),
            forall|k: int| 0 <= k < i ==> same_rst((#[trigger] x[k]).rst, y[k].rst),
        decreases a@.len() - i,
    {
        proof {
            assert(x[i as int] == a@[i as int]@);
            assert(y[i as int] == b@[i as int]@);
        }
        if !says_same_reset(&a[i].rst, &b[i].rst) {
            return false;
        }
        i += 1;
    }
    true
}

fn note_resets(was: &Vec<Clocking>, now: &Vec<Clocking>, hw: bool) -> (r: Vec<Record>)
    ensures
        r.deep_view() == reset_records(was.deep_view(), now.deep_view(), hw),
{
    let mut r = no_records();
    if resets_unchanged(was, now) {
        return r;
    }
    let ghost s = was.deep_view();
    let mut i: usize = 0;
    while i < was.len()
        invariant
            i <= was@.len(),
            s == was.deep_view(),
            r.deep_view() == resets_gone(s, i as int),
        decreases was@.len() - i,
    {
        proof {
            assert(s[i as int] == was@[i as int]@);
        }
        let ghost sofar = r.deep_view();
        if let Some(line) = was[i].rst.decl_line {
            push_when(&mut r, true, Record::ResetDeleted(line));
            proof {
                assert(r.deep_view() =~= sofar + seq![RecordView::ResetDeleted(line)]);
            }
        } else {
            proof {
                assert(sofar =~= sofar + Seq::<RecordView>::empty());
            }
        }
        i += 1;
    }
    let keyword = if hw {
        "hwReset"
    } else {
        "swReset"
    };
    let ghost t = now.deep_view();
    let mut lines: Vec<String> = Vec::new();
    let mut i: usize = 0;
    while i < now.len()
        invariant
            i <= now@.len(),
            t == now.deep_view(),
            lines@.len() == i,
            forall|k: int| 0 <= k < i ==> (#[trigger] lines@[k])@ == reset_line(keyword@, t[k].rst),
        decreases now@.len() - i,
    {
        proof {
            assert(t[i as int] == now@[i as int]@);
        }
        lines.push(show_reset_line(keyword, &now[i].rst));
        i += 1;
    }
    let ghost sofar = r.deep_view();
    let ghost texts = lines.deep_view();
    proof {
        assert(texts =~= reset_lines(keyword@, t));
    }
    push_when(&mut r, true, Record::ResetLines(hw, lines));
    proof {
        assert(r.deep_view() =~= sofar + seq![RecordView::ResetLines(hw, texts)]);
    }
    r
}

/// Sets the clocks of a RIF.
pub fn stage_clocking(rif: &mut RifDef, sw: Vec<Clocking>, hw: Vec<Clocking>) -> (r: Vec<Record>)
    ensures
        final(rif)@ == clocking_outcome(old(rif)@, sw.deep_view(), hw.deep_view()).rif,
        r.deep_view() == clocking_outcome(old(rif)@, sw.deep_view(), hw.deep_view()).records,
{
    proof {
        reveal(clocking_outcome);
    }
    let before = rif.clone();
    rif.sw_clocking = sw;
    rif.hw_clocking = hw;
    let mut r = note_clock(&before, rif, RifClockLineKind::SwClock, RifProp::SwClock);
    extend_records(&mut r, note_clock(&before, rif, RifClockLineKind::HwClock, RifProp::HwClock));
    extend_records(&mut r, note_clock(&before, rif, RifClockLineKind::SwClkEn, RifProp::SwClkEn));
    extend_records(&mut r, note_clock(&before, rif, RifClockLineKind::HwClkEn, RifProp::HwClkEn));
    extend_records(&mut r, note_clock(&before, rif, RifClockLineKind::SwClear, RifProp::SwClear));
    extend_records(&mut r, note_clock(&before, rif, RifClockLineKind::HwClear, RifProp::HwClear));
    extend_records(&mut r, note_resets(&before.sw_clocking, &rif.sw_clocking, false));
    extend_records(&mut r, note_resets(&before.hw_clocking, &rif.hw_clocking, true));
    r
}

/// Whether a parameter has a name.
pub open spec fn param_named(name: Seq<char>) -> spec_fn(ParamView) -> bool {
    |p: ParamView| p.name == name
}

/// Whether a generic has a name.
pub open spec fn generic_named(name: Seq<char>) -> spec_fn(GenericView) -> bool {
    |g: GenericView| g.name == name
}

/// Whether a line belongs to a name.
pub open spec fn line_named(name: Seq<char>) -> spec_fn(NamedLineView) -> bool {
    |l: NamedLineView| l.name == name
}

/// The line of a name.
pub open spec fn line_of(lines: Seq<NamedLineView>, name: Seq<char>) -> Option<usize> {
    match first(lines, line_named(name)) {
        Some(k) => Some(lines[k].line),
        None => None,
    }
}

/// The parameters of the first `n` rows. A name that comes again takes the later value, in the
/// place of the earlier one.
pub open spec fn params_of(rows: Seq<ParamEntryView>, n: int) -> Seq<ParamView>
    decreases n,
{
    if n <= 0 {
        seq![]
    } else {
        let s = params_of(rows, n - 1);
        let p = ParamView { name: rows[n - 1].name, value: rows[n - 1].value };
        match first(s, param_named(p.name)) {
            Some(k) => s.update(k, p),
            None => s.push(p),
        }
    }
}

/// The generics of the first `n` rows, as for the parameters.
pub open spec fn generics_of(rows: Seq<GenericEntryView>, n: int) -> Seq<GenericView>
    decreases n,
{
    if n <= 0 {
        seq![]
    } else {
        let s = generics_of(rows, n - 1);
        let g = GenericView { name: rows[n - 1].name, range: rows[n - 1].range };
        match first(s, generic_named(g.name)) {
            Some(k) => s.update(k, g),
            None => s.push(g),
        }
    }
}

/// Whether a parameter is no longer there under that name with that value. Two values are the
/// same where they print the same.
pub open spec fn param_changed(was: Seq<ParamView>, old_name: Seq<char>, row: ParamEntryView) -> bool {
    old_name != row.name || match first(was, param_named(old_name)) {
        Some(k) => was[k].value.rif != row.value.rif,
        None => true,
    }
}

/// Whether a generic is no longer there under that name with that range.
pub open spec fn generic_changed(was: Seq<GenericView>, old_name: Seq<char>, row: GenericEntryView) -> bool {
    old_name != row.name || match first(was, generic_named(old_name)) {
        Some(k) => was[k].range != row.range,
        None => true,
    }
}

/// What is to be saved of one row of the parameter table.
pub open spec fn param_row_records(rif: RifDefView, row: ParamEntryView) -> Seq<RecordView> {
    match row.orig_name {
        None => seq![RecordView::ParamInsert(param_line(row.name, row.value.rif))],
        Some(old_name) => match line_of(rif.src.param_lines, old_name) {
            Some(line) => only_if(
                param_changed(rif.parameters, old_name, row),
                RecordView::ParamLine(line, LineEditView::Write(param_line(row.name, row.value.rif))),
            ),
            None => seq![],
        },
    }
}

/// What is to be saved of one row of the generic table.
pub open spec fn generic_row_records(rif: RifDefView, row: GenericEntryView) -> Seq<RecordView> {
    match row.orig_name {
        None => seq![RecordView::GenericInsert(generic_line(row.name, row.range))],
        Some(old_name) => match line_of(rif.src.generic_lines, old_name) {
            Some(line) => only_if(
                generic_changed(rif.generics, old_name, row),
                RecordView::GenericLine(line, LineEditView::Write(generic_line(row.name, row.range))),
            ),
            None => seq![],
        },
    }
}

/// What is to be saved of the first `n` rows of the parameter table.
pub open spec fn param_rows_records(rif: RifDefView, rows: Seq<ParamEntryView>, n: int) -> Seq<RecordView>
    decreases n,
{
    if n <= 0 {
        seq![]
    } else {
        param_rows_records(rif, rows, n - 1) + param_row_records(rif, rows[n - 1])
    }
}

/// What is to be saved of the first `n` rows of the generic table.
pub open spec fn generic_rows_records(rif: RifDefView, rows: Seq<GenericEntryView>, n: int) -> Seq<RecordView>
    decreases n,
{
    if n <= 0 {
        seq![]
    } else {
        generic_rows_records(rif, rows, n - 1) + generic_row_records(rif, rows[n - 1])
    }
}

/// Whether a row of the parameter table comes from that name.
pub open spec fn param_seen(rows: Seq<ParamEntryView>, name: Seq<char>) -> bool {
    exists|j: int| 0 <= j < rows.len() && (#[trigger] rows[j]).orig_name == Some(name)
}

/// Whether a row of the generic table comes from that name.
pub open spec fn generic_seen(rows: Seq<GenericEntryView>, name: Seq<char>) -> bool {
    exists|j: int| 0 <= j < rows.len() && (#[trigger] rows[j]).orig_name == Some(name)
}

/// The lines of parameters without a row go, among the first `n` parameters.
pub open spec fn params_gone(rif: RifDefView, rows: Seq<ParamEntryView>, n: int) -> Seq<RecordView>
    decreases n,
{
    if n <= 0 {
        seq![]
    } else {
        let name = rif.parameters[n - 1].name;
        params_gone(rif, rows, n - 1) + match line_of(rif.src.param_lines, name) {
            Some(line) => only_if(
                !param_seen(rows, name),
                RecordView::ParamLine(line, LineEditView::Remove),
            ),
            None => seq![],
        }
    }
}

/// The lines of generics without a row go, among the first `n` generics.
pub open spec fn generics_gone(rif: RifDefView, rows: Seq<GenericEntryView>, n: int) -> Seq<RecordView>
    decreases n,
{
    if n <= 0 {
        seq![]
    } else {
        let name = rif.generics[n - 1].name;
        generics_gone(rif, rows, n - 1) + match line_of(rif.src.generic_lines, name) {
            Some(line) => only_if(
                !generic_seen(rows, name),
                RecordView::GenericLine(line, LineEditView::Remove),
            ),
            None => seq![],
        }
    }
}

/// Other parameters and generics for a RIF.
#[verifier::opaque]
pub open spec fn params_outcome(
    rif: RifDefView,
    params: Seq<ParamEntryView>,
    generics: Seq<GenericEntryView>,
) -> Outcome {
    Outcome {
        rif: RifDefView {
            parameters: params_of(params, params.len() as int),
            generics: generics_of(generics, generics.len() as int),
            ..rif
        },
        records: param_rows_records(rif, params, params.len() as int) + params_gone(
            rif,
            params,
            rif.parameters.len() as int,
        ) + generic_rows_records(rif, generics, generics.len() as int) + generics_gone(
            rif,
            generics,
            rif.generics.len() as int,
        ),
    }
}

fn find_param(ps: &Vec<Param>, name: &String) -> (r: Option<usize>)
    ensures
        match first(ps.deep_view(), param_named(name@)) {
            Some(k) => r is Some && r->0 == k && k < ps@.len(),
            None => r is None,
        },
{
    let ghost s = ps.deep_view();
    let ghost p = param_named(name@);
    let mut i: usize = 0;
    while i < ps.len()
        invariant
            i <= ps@.len(),
            s == ps.deep_view(),
            p == param_named(name@),
            forall|j: int| 0 <= j < i ==> !p(s[j]),
        decreases ps@.len() - i,
    {
        if ps[i].name == *name {
            proof {
                lemma_is_first(s, p, i as int);
            }
            return Some(i);
        }
        i += 1;
    }
    proof {
        lemma_no_first(s, p);
    }
    None
}

fn find_generic(gs: &Vec<Generic>, name: &String) -> (r: Option<usize>)
    ensures
        match first(gs.deep_view(), generic_named(name@)) {
            Some(k) => r is Some && r->0 == k && k < gs@.len(),
            None => r is None,
        },
{
    let ghost s = gs.deep_view();
    let ghost p = generic_named(name@);
    let mut i: usize = 0;
    while i < gs.len()
        invariant
            i <= gs@.len(),
            s == gs.deep_view(),
            p == generic_named(name@),
            forall|j: int| 0 <= j < i ==> !p(s[j]),
        decreases gs@.len() - i,
    {
        if gs[i].name == *name {
            proof {
                lemma_is_first(s, p, i as int);
            }
            return Some(i);
        }
        i += 1;
    }
    proof {
        lemma_no_first(s, p);
    }
    None
}

fn find_line(lines: &Vec<NamedLine>, name: &String) -> (r: Option<usize>)
    ensures
        r == line_of(lines.deep_view(), name@),
{
    let ghost s = lines.deep_view();
    let ghost p = line_named(name@);
    let mut i: usize = 0;
    while i < lines.len()
        invariant
            i <= lines@.len(),
            s == lines.deep_view(),
            p == line_named(name@),
            forall|j: int| 0 <= j < i ==> !p(s[j]),
        decreases lines@.len() - i,
    {
        if lines[i].name == *name {
            proof {
                lemma_is_first(s, p, i as int);
            }
            return Some(lines[i].line);
        }
        i += 1;
    }
    proof {
        lemma_no_first(s, p);
    }
    None
}

fn build_params(rows: &Vec<ParamEntry>) -> (r: Vec<Param>)
    ensures
        r.deep_view() == params_of(rows.deep_view(), rows@.len() as int),
{
    let ghost s = rows.deep_view();
    let mut r: Vec<Param> = Vec::new();
    proof {
        assert(r.deep_view() =~= params_of(s, 0));
    }
    let mut i: usize = 0;
    while i < rows.len()
        invariant
            i <= rows@.len(),
            s == rows.deep_view(),
            r.deep_view() == params_of(s, i as int),
        decreases rows@.len() - i,
    {
        let ghost sofar = r.deep_view();
        proof {
            assert(s[i as int] == rows@[i as int]@);
        }
        let p = Param { name: rows[i].name.clone(), value: rows[i].value.clone() };
        let ghost pv = p@;
        match find_param(&r, &rows[i].name) {
            Some(k) => {
                r[k] = p;
                proof {
                    assert(r.deep_view() =~= sofar.update(k as int, pv));
                }
            },
            None => {
                r.push(p);
                proof {
                    assert(r.deep_view() =~= sofar.push(pv));
                }
            },
        }
        i += 1;
    }
    r
}

fn build_generics(rows: &Vec<GenericEntry>) -> (r: Vec<Generic>)
    ensures
        r.deep_view() == generics_of(rows.deep_view(), rows@.len() as int),
{
    let ghost s = rows.deep_view();
    let mut r: Vec<Generic> = Vec::new();
    proof {
        assert(r.deep_view() =~= generics_of(s, 0));
    }
    let mut i: usize = 0;
    while i < rows.len()
        invariant
            i <= rows@.len(),
            s == rows.deep_view(),
            r.deep_view() == generics_of(s, i as int),
        decreases rows@.len() - i,
    {
        let ghost sofar = r.deep_view();
        proof {
            assert(s[i as int] == rows@[i as int]@);
        }
        let g = Generic { name: rows[i].name.clone(), range: rows[i].range.clone() };
        let ghost gv = g@;
        match find_generic(&r, &rows[i].name) {
            Some(k) => {
                r[k] = g;
                proof {
                    assert(r.deep_view() =~= sofar.update(k as int, gv));
                }
            },
            None => {
                r.push(g);
                proof {
                    assert(r.deep_view() =~= sofar.push(gv));
                }
            },
        }
        i += 1;
    }
    r
}

fn param_differs(was: &Vec<Param>, old_name: &String, row: &ParamEntry) -> (r: bool)
    ensures
        r == param_changed(was.deep_view(), old_name@, row@),
{
    if *old_name != row.name {
        return true;
    }
    match find_param(was, old_name) {
        Some(k) => {
            proof {
                assert(was.deep_view()[k as int] == was@[k as int]@);
            }
            was[k].value.rif != row.value.rif
        },
        None => true,
    }
}

fn same_range(a: &Range, b: &Range) -> (r: bool)
    ensures
        r == (a@ == b@),
{
    a.min == b.min && a.max == b.max && a.default == b.default && same_line(&a.desc, &b.desc)
}

fn generic_differs(was: &Vec<Generic>, old_name: &String, row: &GenericEntry) -> (r: bool)
    ensures
        r == generic_changed(was.deep_view(), old_name@, row@),
{
    if *old_name != row.name {
        return true;
    }
    match find_generic(was, old_name) {
        Some(k) => {
            proof {
                assert(was.deep_view()[k as int] == was@[k as int]@);
            }
            !same_range(&was[k].range, &row.range)
        },
        None => true,
    }
}

fn note_param_row(rif: &RifDef, row: &ParamEntry) -> (r: Vec<Record>)
    ensures
        r.deep_view() == param_row_records(rif@, row@),
{
    let mut r = no_records();
    let text = show_param_line(row.name.as_str(), row.value.rif.as_str());
    match &row.orig_name {
        None => {
            push_when(&mut r, true, Record::ParamInsert(text));
        },
        Some(old_name) => {
            if let Some(line) = find_line(&rif.src.param_lines, old_name) {
                let changed = param_differs(&rif.parameters, old_name, row);
                push_when(&mut r, changed, Record::ParamLine(line, LineEdit::Write(text)));
            }
        },
    }
    proof {
        assert(r.deep_view() =~= param_row_records(rif@, row@));
    }
    r
}

fn note_generic_row(rif: &RifDef, row: &GenericEntry) -> (r: Vec<Record>)
    ensures
        r.deep_view() == generic_row_records(rif@, row@),
{
    let mut r = no_records();
    let text = show_generic_line(row.name.as_str(), &row.range);
    match &row.orig_name {
        None => {
            push_when(&mut r, true, Record::GenericInsert(text));
        },
        Some(old_name) => {
            if let Some(line) = find_line(&rif.src.generic_lines, old_name) {
                let changed = generic_differs(&rif.generics, old_name, row);
                push_when(&mut r, changed, Record::GenericLine(line, LineEdit::Write(text)));
            }
        },
    }
    proof {
        assert(r.deep_view() =~= generic_row_records(rif@, row@));
    }
    r
}

fn sees_param(rows: &Vec<ParamEntry>, name: &String) -> (r: bool)
    ensures
        r == param_seen(rows.deep_view(), name@),
{
    let ghost s = rows.deep_view();
    let mut i: usize = 0;
    while i < rows.len()
        invariant
            i <= rows@.len(),
            s == rows.deep_view(),
            forall|k: int| 0 <= k < i ==> (#[trigger] s[k]).orig_name != Some(name@),
        decreases rows@.len() - i,
    {
        proof {
            assert(s[i as int] == rows@[i as int]@);
        }
        if let Some(n) = &rows[i].orig_name {
            if *n == *name {
                proof {
                    assert(s[i as int].orig_name == Some(name@));
                }
                return true;
            }
        }
        i += 1;
    }
    false
}

fn sees_generic(rows: &Vec<GenericEntry>, name: &String) -> (r: bool)
    ensures
        r == generic_seen(rows.deep_view(), name@),
{
    let ghost s = rows.deep_view();
    let mut i: usize = 0;
    while i < rows.len()
        invariant
            i <= rows@.len(),
            s == rows.deep_view(),
            forall|k: int| 0 <= k < i ==> (#[trigger] s[k]).orig_name != Some(name@),
        decreases rows@.len() - i,
    {
        proof {
            assert(s[i as int] == rows@[i as int]@);
        }
        if let Some(n) = &rows[i].orig_name {
            if *n == *name {
                proof {
                    assert(s[i as int].orig_name == Some(name@));
                }
                return true;
            }
        }
        i += 1;
    }
    false
}

fn note_params(rif: &RifDef, rows: &Vec<ParamEntry>) -> (r: Vec<Record>)
    ensures
        r.deep_view() == param_rows_records(rif@, rows.deep_view(), rows@.len() as int) + params_gone(
            rif@,
            rows.deep_view(),
            rif@.parameters.len() as int,
        ),
{
    let ghost s = rows.deep_view();
    let mut r = no_records();
    let mut i: usize = 0;
    while i < rows.len()
        invariant
            i <= rows@.len(),
            s == rows.deep_view(),
            r.deep_view() == param_rows_records(rif@, s, i as int),
        decreases rows@.len() - i,
    {
        proof {
            assert(s[i as int] == rows@[i as int]@);
        }
        extend_records(&mut r, note_param_row(rif, &rows[i]));
        i += 1;
    }
    let mut gone = no_records();
    let mut i: usize = 0;
    while i < rif.parameters.len()
        invariant
            i <= rif.parameters@.len(),
            s == rows.deep_view(),
            gone.deep_view() == params_gone(rif@, s, i as int),
        decreases rif.parameters@.len() - i,
    {
        proof {
            assert(rif@.parameters[i as int] == rif.parameters@[i as int]@);
        }
        let ghost sofar = gone.deep_view();
        let name = &rif.parameters[i].name;
        if let Some(line) = find_line(&rif.src.param_lines, name) {
            let unseen = !sees_param(rows, name);
            push_when(&mut gone, unseen, Record::ParamLine(line, LineEdit::Remove));
        } else {
            proof {
                assert(sofar =~= sofar + Seq::<RecordView>::empty());
            }
        }
        i += 1;
    }
    extend_records(&mut r, gone);
    r
}

fn note_generics(rif: &RifDef, rows: &Vec<GenericEntry>) -> (r: Vec<Record>)
    ensures
        r.deep_view() == generic_rows_records(rif@, rows.deep_view(), rows@.len() as int) + generics_gone(
            rif@,
            rows.deep_view(),
            rif@.generics.len() as int,
        ),
{
    let ghost s = rows.deep_view();
    let mut r = no_records();
    let mut i: usize = 0;
    while i < rows.len()
        invariant
            i <= rows@.len(),
            s == rows.deep_view(),
            r.deep_view() == generic_rows_records(rif@, s, i as int),
        decreases rows@.len() - i,
    {
        proof {
            assert(s[i as int] == rows@[i as int]@);
        }
        extend_records(&mut r, note_generic_row(rif, &rows[i]));
        i += 1;
    }
    let mut gone = no_records();
    let mut i: usize = 0;
    while i < rif.generics.len()
        invariant
            i <= rif.generics@.len(),
            s == rows.deep_view(),
            gone.deep_view() == generics_gone(rif@, s, i as int),
        decreases rif.generics@.len() - i,
    {
        proof {
            assert(rif@.generics[i as int] == rif.generics@[i as int]@);
        }
        let ghost sofar = gone.deep_view();
        let name = &rif.generics[i].name;
        if let Some(line) = find_line(&rif.src.generic_lines, name) {
            let unseen = !sees_generic(rows, name);
            push_when(&mut gone, unseen, Record::GenericLine(line, LineEdit::Remove));
        } else {
            proof {
                assert(sofar =~= sofar + Seq::<RecordView>::empty());
            }
        }
        i += 1;
    }
    extend_records(&mut r, gone);
    r
}

/// Sets the parameters and generics of a RIF.
pub fn stage_params(rif: &mut RifDef, params: &Vec<ParamEntry>, generics: &Vec<GenericEntry>) -> (r: Vec<
    Record,
>)
    ensures
        final(rif)@ == params_outcome(old(rif)@, params.deep_view(), generics.deep_view()).rif,
        r.deep_view() == params_outcome(old(rif)@, params.deep_view(), generics.deep_view()).records,
{
    proof {
        reveal(params_outcome);
    }
    let mut r = note_params(rif, params);
    extend_records(&mut r, note_generics(rif, generics));
    proof {
        assert(r.deep_view() =~= params_outcome(rif@, params.deep_view(), generics.deep_view()).records);
    }
    rif.parameters = build_params(params);
    rif.generics = build_generics(generics);
    r
}

} // verus!
