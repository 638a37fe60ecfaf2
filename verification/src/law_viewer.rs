//! What the viewer does with edits, files and selections.
use vstd::prelude::*;
use crate::apply::{applied, Applied, FollowView};
use crate::compiled::{reset_bits, FieldInstView};
use crate::edits::nothing_pending;
use crate::field_editor::{EnumMode, EnumTypeSrc};
use crate::file_io::saved_text;
use crate::held::{holds, noted_edit_is_held, stands};
use crate::law_source::{is_keyed, listed};
use crate::model::page::PageView;
use crate::model::register::{RegItemView, RegisterDefView};
use crate::model::rif::{ClockingView, EnumTypeView, TopView};
use crate::model::values::InstMode;
use crate::rename::{bare_name, path_keyed};
use crate::search::{first, lemma_first, lemma_is_first, lemma_no_first};
use crate::session::{
    answered, edit_owner, guarded, opened, opening, place_of, saved, text_to_save, Opened, Reread, SwitchAnswer,
};
use crate::source::{inst_named, locate_rif};
use crate::viewer::{
    base_name, editors_after, finished, no_editors, pending_applied, selection_after, unsaved, EditorsView,
    RifViewerView, SelectedItemView, SelectionView, StagedView,
};
use crate::views::{
    addr_can_change, array_in_scope, belongs, entry_is, groups_of, instances_of, intr_default, last_clock,
    last_rif, placed_by_hand, reset_label_text, Shown,
};

verus! {

/// An edit that waits is taken up: the source is edited as the edit says, and nothing waits any more. An
/// edit that is refused leaves the source, and is answered.
pub proof fn waiting_edit_is_taken_up(v: RifViewerView, mid: RifViewerView, r: Option<StagedView>)
    requires
        pending_applied(v, mid, r),
    ensures
        mid.pending is None,
        mid.edits == v.edits,
        mid.selected == v.selected,
        mid.editors == v.editors,
        mid.dialogs == v.dialogs,
        mid.editing_rif == v.editing_rif,
        v.pending is None || v.rif_src is None ==> r is None && mid.rif_src == v.rif_src,
        (v.pending matches Some(a) && v.rif_src matches Some(src)) ==> match applied(v.rif_src->0, v.pending->0) {
            Applied::Staged(s, records, follow) => {
                &&& mid.rif_src == Some(s)
                &&& r matches Some(x) && x.before == v.rif_src->0 && x.records == records && x.follow == follow
                    && x.was_unsaved == unsaved(v)
            },
            Applied::Refused(t) => r is None && mid.rif_src == v.rif_src && mid.edit_err == Some(t),
            Applied::Nothing => r is None && mid.rif_src == v.rif_src && mid.edit_err == v.edit_err,
        },
{
}

/// An edit that compiles stays in the source, its notes wait to be saved, and no error is shown. Every note
/// that no later one overtakes waits then; what waited before and is not overtaken waits still.
pub proof fn compiled_edit_is_kept(v: RifViewerView, s: StagedView, k: int)
    requires
        v.edits.wf(),
        0 <= k < s.records.len(),
        stands(s.records, k),
    ensures
        finished(v, s, Ok(())).rif_src == v.rif_src,
        finished(v, s, Ok(())).edit_err is None,
        finished(v, s, Ok(())).dialogs == v.dialogs,
        holds(finished(v, s, Ok(())).edits, s.records[k]),
{
    noted_edit_is_held(v.edits, s.records, k);
}

/// The selection and the editors follow an edit that compiles; its notes are added to those that wait.
pub proof fn compiled_edit_is_followed(v: RifViewerView, s: StagedView)
    ensures
        finished(v, s, Ok(())).selected == selection_after(v.selected, s.follow),
        finished(v, s, Ok(())).editors == editors_after(v.editors, s.follow),
        finished(v, s, Ok(())).validated_selection == v.validated_selection,
        finished(v, s, Ok(())).edits == crate::edits::recorded_all(v.edits, s.records),
        s.follow matches FollowView::FieldAdded { name } ==> finished(v, s, Ok(())).selected.item
            == SelectedItemView::Field(name),
        s.follow is FieldDeleted ==> finished(v, s, Ok(())).selected.item == SelectedItemView::Nothing,
        s.follow is FieldUpdated ==> finished(v, s, Ok(())).editors.field_editor is None,
        s.follow is RegUpdated ==> finished(v, s, Ok(())).editors.reg_editor is None,
        s.follow is RegOverridden ==> finished(v, s, Ok(())).editors.reg_override_editor is None,
        s.follow is FieldOverridden ==> finished(v, s, Ok(())).editors.field_override_editor is None,
        s.follow is EnumUpdated ==> finished(v, s, Ok(())).editors.enum_editor is None,
        s.follow is RegAdded ==> finished(v, s, Ok(())).editors.reg_add_editor is None,
{
}

/// An edit that does not compile is taken back: the source is what it was, nothing is noted, the selection
/// and the editors stay, and the error is shown.
pub proof fn edit_that_does_not_compile_is_taken_back(v: RifViewerView, s: StagedView, e: Seq<char>)
    ensures
        finished(v, s, Err(e)).rif_src == Some(s.before),
        finished(v, s, Err(e)).edits == v.edits,
        finished(v, s, Err(e)).selected == v.selected,
        finished(v, s, Err(e)).editors == v.editors,
        finished(v, s, Err(e)).edit_err == Some(e),
{
}

/// The RIF of the first edit owns the edits until they are saved; a RIF that gets a new name owns them
/// under it; where nothing is left to save, nothing owns them.
pub proof fn edits_belong_to_a_rif(v: RifViewerView, s: StagedView)
    ensures
        ({
            let after = finished(v, s, Ok(()));
            &&& !(s.follow is RifUpdated) && !s.was_unsaved && unsaved(after) ==> after.editing_rif == (
            match v.editing_rif {
                Some(n) => Some(n),
                None => Some(s.rif_type),
            })
            &&& (s.follow matches FollowView::RifUpdated { new_name: Some(n) } && unsaved(after)) ==> after.editing_rif
                == s.follow->RifUpdated_new_name
            &&& s.was_unsaved && !unsaved(after) ==> after.editing_rif is None
        }),
{
}

/// The selection follows an edit: a field that was renamed stays selected, a new field or register is
/// selected, and what was deleted is selected no more.
pub proof fn selection_follows_the_edit(s: SelectionView, a: Seq<char>, b: Seq<char>, page: Seq<char>)
    ensures
        ({
            let up = selection_after(s, FollowView::FieldUpdated { orig_name: a, new_name: b });
            &&& up.path == s.path
            &&& s.item matches SelectedItemView::Field(n) ==> base_name(n) == a ==> up.item
                == SelectedItemView::Field(b)
            &&& s.item matches SelectedItemView::Field(n) ==> base_name(n) != a ==> up.item == s.item
            &&& !(s.item is Field) ==> up.item == s.item
        }),
        selection_after(s, FollowView::FieldAdded { name: a }).item == SelectedItemView::Field(a),
        selection_after(s, FollowView::FieldAdded { name: a }).path == s.path,
        selection_after(s, FollowView::FieldDeleted).item == SelectedItemView::Nothing,
        selection_after(s, FollowView::FieldDeleted).path == s.path,
        ({
            let up = selection_after(s, FollowView::RegUpdated { orig_name: a, new_name: b });
            &&& up.item == s.item
            &&& s.path.len() > 0 && s.path.last() == a ==> up.path == s.path.drop_last().push(b)
            &&& s.path.len() == 0 || s.path.last() != a ==> up.path == s.path
        }),
        selection_after(s, FollowView::RegAdded { page_name: None, name: a }).path == s.path.push(a),
        ({
            let up = selection_after(s, FollowView::RegAdded { page_name: Some(page), name: a });
            &&& up.item == SelectedItemView::Nothing
            &&& up.path.len() > 0 && up.path.last() == a
            &&& s.path.len() > 0 && s.path.last() == page ==> up.path == s.path.push(a)
            &&& s.path.len() == 0 || s.path.last() != page ==> up.path == s.path.push(page).push(a)
        }),
        ({
            let up = selection_after(s, FollowView::RegDeleted { name: a });
            &&& s.path.len() > 0 && s.path.last() == a ==> up.path == s.path.drop_last() && up.item
                == SelectedItemView::Nothing
            &&& s.path.len() == 0 || s.path.last() != a ==> up == s
        }),
        selection_after(s, FollowView::FieldsMoved) == s,
        selection_after(s, FollowView::RegsMoved) == s,
        selection_after(s, FollowView::RifEdited) == s,
        selection_after(s, FollowView::RegDescribed) == s,
        selection_after(s, FollowView::FieldDescribed) == s,
        selection_after(s, FollowView::RegOverridden) == s,
        selection_after(s, FollowView::FieldOverridden) == s,
{
}

/// The editor that an edit came from is closed with it, so that it is loaded anew; the others stay open.
pub proof fn editor_is_closed_with_its_edit(e: EditorsView, a: Seq<char>, b: Seq<char>)
    ensures
        editors_after(e, FollowView::FieldUpdated { orig_name: a, new_name: b }) == (EditorsView {
            field_editor: None,
            ..e
        }),
        editors_after(e, FollowView::FieldAdded { name: a }) == (EditorsView { field_editor: None, ..e }),
        editors_after(e, FollowView::FieldDeleted) == (EditorsView { field_editor: None, ..e }),
        editors_after(e, FollowView::FieldsMoved) == (EditorsView { field_editor: None, ..e }),
        editors_after(e, FollowView::RegUpdated { orig_name: a, new_name: b }) == (EditorsView { reg_editor: None, ..e }),
        editors_after(e, FollowView::RegsMoved) == (EditorsView { reg_editor: None, ..e }),
        editors_after(e, FollowView::RegDeleted { name: a }) == (EditorsView { reg_editor: None, ..e }),
        editors_after(e, FollowView::RegDescribed) == (EditorsView { reg_intr_desc_editor: None, ..e }),
        editors_after(e, FollowView::FieldDescribed) == (EditorsView { field_intr_desc_editor: None, ..e }),
        editors_after(e, FollowView::RegOverridden) == (EditorsView { reg_override_editor: None, ..e }),
        editors_after(e, FollowView::FieldOverridden) == (EditorsView { field_override_editor: None, ..e }),
        editors_after(e, FollowView::RegAdded { page_name: None, name: a }) == (EditorsView {
            reg_add_editor: None,
            ..e
        }),
        editors_after(e, FollowView::RegAdded { page_name: Some(b), name: a }) == (EditorsView {
            reg_add_editor: None,
            ..e
        }),
        ({
            let up = editors_after(e, FollowView::PageConverted { rif_type: a, page_name: b });
            &&& up == (EditorsView { reg_add_editor: up.reg_add_editor, ..e })
            &&& e.reg_add_editor is None ==> up.reg_add_editor is None
            &&& e.reg_add_editor matches Some(f) ==> (up.reg_add_editor matches Some(g) && {
                &&& f.rif_type == a && f.page_name == b ==> !g.page_is_auto && g.name == f.name && g.addr == f.addr && g.kind
                    == f.kind
                &&& !(f.rif_type == a && f.page_name == b) ==> g == f
            })
        }),
        editors_after(e, FollowView::RifEdited) == e,
        ({
            let up = editors_after(e, FollowView::EnumUpdated { name: a });
            &&& up.enum_editor is None
            &&& up == (EditorsView { enum_editor: None, field_editor: up.field_editor, ..e })
            &&& e.field_editor is None ==> up.field_editor is None
            &&& e.field_editor matches Some(f) ==> (up.field_editor matches Some(g) && {
                &&& f.buf.enum_mode == EnumMode::Type ==> g.buf.enum_name == a && g.enum_type_src
                    == EnumTypeSrc::Existing
                &&& f.buf.enum_mode != EnumMode::Type ==> g == f
                &&& g.buf.name == f.buf.name && g.orig == f.orig && g.key == f.key
            })
        }),
{
}

/// A file that is opened starts without edits, editors and questions; its source and its top are shown,
/// or why it has none.
pub proof fn opened_file_starts_afresh(v: RifViewerView, o: Opened)
    ensures
        ({
            let a = opening(v);
            &&& nothing_pending(a.edits) && a.pending is None && a.editing_rif is None && a.edit_err is None
            &&& a.selected.path.len() == 0 && a.validated_selection == a.selected
            &&& a.editors.field_editor is None && a.editors.reg_editor is None && a.editors.enum_editor is None
            &&& a.editors.reg_add_editor is None && a.editors.reg_override_editor is None
            &&& a.editors.field_override_editor is None && a.editors.reg_intr_desc_editor is None
            &&& a.editors.field_intr_desc_editor is None
            &&& !a.dialogs.confirm_reload && a.dialogs.confirm_switch_rif is None
        }),
        ({
            let b = opened(v, o);
            match o {
                Opened::Compiled(src, name) => b.rif_src == Some(src@) && b.last_err is None && b.selected.path
                    == v.selected.path.push(name@),
                Opened::NotCompiled(src, e) => b.rif_src == Some(src@) && b.last_err == Some(e@) && b.selected
                    == v.selected,
                Opened::NotParsed(e) => b.rif_src is None && b.last_err == Some(e@) && b.selected == v.selected,
            }
        }),
        opened(v, o).edits == v.edits,
{
}

/// Once a file was saved nothing waits to be saved, no RIF owns edits and no editor is open. The source is
/// what was read again; where that failed, the source stays and the error says so.
pub proof fn saved_edits_are_done_with(v: RifViewerView, r: Reread)
    ensures
        ({
            let a = saved(v, r);
            &&& nothing_pending(a.edits) && a.editing_rif is None
            &&& a.editors == no_editors()
            &&& a.selected == v.selected && a.dialogs == v.dialogs && a.pending == v.pending
            &&& match r {
                Reread::Compiled(src) => a.rif_src == Some(src@) && a.edit_err is None,
                Reread::NotCompiled(e) => a.rif_src == v.rif_src && a.edit_err == Some(
                    "Saved, but recompile failed: "@ + e@,
                ),
                Reread::NotParsed(e) => a.rif_src == v.rif_src && a.edit_err == Some(
                    "Saved, but re-parse failed: "@ + e@,
                ),
            }
        }),
{
}

/// What is saved is the text of the file with the edits of that RIF; where there is no such RIF, nothing is
/// saved. The file of the top is the one that was opened, and any other lies in the directory that is
/// listed for it.
pub proof fn edits_are_saved_to_the_file_of_their_rif(
    v: RifViewerView,
    rif_type: Seq<char>,
    content: Seq<char>,
    k: int,
    dir: Seq<char>,
)
    ensures
        v.rif_src is None ==> text_to_save(v, rif_type, content) is Err && place_of(v, rif_type) is Err,
        v.rif_src matches Some(src) ==> {
            &&& is_keyed(src, rif_type, k) ==> text_to_save(v, rif_type, content) == Ok::<Seq<char>, Seq<char>>(
                saved_text(src.rifs[k].rif, v.edits, content),
            )
            &&& locate_rif(src.rifs, rif_type) is None ==> text_to_save(v, rif_type, content) is Err && place_of(
                v,
                rif_type,
            ) is Err
            &&& is_keyed(src, rif_type, k) && (src.top == TopView::Rif(rif_type) || src.top == TopView::Rifmux(rif_type))
                ==> place_of(v, rif_type) == Ok::<Option<Seq<char>>, Seq<char>>(None)
            &&& is_keyed(src, rif_type, k) && !(src.top == TopView::Rif(rif_type) || src.top == TopView::Rifmux(
                rif_type,
            )) && listed(src.paths, bare_name(rif_type), dir) ==> place_of(v, rif_type) == Ok::<
                Option<Seq<char>>,
                Seq<char>,
            >(Some(dir))
        },
{
    if let Some(src) = v.rif_src {
        crate::law_source::a_rif_is_found_under_its_names(src, rif_type, k);
        if listed(src.paths, bare_name(rif_type), dir) {
            let key = bare_name(rif_type);
            let i = choose|i: int|
                0 <= i < src.paths.len() && (#[trigger] src.paths[i]).key == key && src.paths[i].dir == dir && forall|
                    j: int,
                |
                    0 <= j < i ==> (#[trigger] src.paths[j]).key != key;
            let q = path_keyed(key);
            assert forall|j: int| 0 <= j < i implies !q(#[trigger] src.paths[j]) by {}
            lemma_is_first(src.paths, q, i);
        }
    }
}

/// Leaving a RIF with edits for another is asked about first, and the selection stays until it is answered;
/// without edits, or within the RIF, the selection is taken.
pub proof fn leaving_a_rif_is_asked_about(v: RifViewerView, attempted: Seq<char>, current: Seq<char>)
    ensures
        ({
            let a = guarded(v, attempted, current);
            &&& a.edits == v.edits && a.rif_src == v.rif_src && a.editors == v.editors && a.pending == v.pending
            &&& attempted == current ==> a == v
            &&& attempted != current ==> {
                &&& edit_owner(v) matches Some(o) ==> o != attempted ==> {
                    &&& a.selected == v.validated_selection
                    &&& a.dialogs.confirm_switch_rif matches Some(s) && s.target == v.selected && s.from_rif == o
                }
                &&& edit_owner(v) is None || edit_owner(v) == Some(attempted) ==> a.selected == v.selected
                    && a.validated_selection == v.selected && a.dialogs == v.dialogs
            }
        }),
        v.editing_rif matches Some(n) ==> edit_owner(v) == Some(n),
{
}

/// The answer is followed: edits that were saved or are dropped let the selection go where it was headed;
/// otherwise it stays, and so do the edits.
pub proof fn answer_about_leaving_is_followed(v: RifViewerView)
    ensures
        v.dialogs.confirm_switch_rif is None ==> answered(v, SwitchAnswer::Saved) == v && answered(
            v,
            SwitchAnswer::Discard,
        ) == v && answered(v, SwitchAnswer::Cancel) == v,
        v.dialogs.confirm_switch_rif matches Some(s) ==> {
            let (a, b, c) = (
                answered(v, SwitchAnswer::Saved),
                answered(v, SwitchAnswer::Discard),
                answered(v, SwitchAnswer::Cancel),
            );
            &&& unsaved(v) ==> a == v
            &&& !unsaved(v) ==> a.selected == s.target && a.validated_selection == s.target
                && a.dialogs.confirm_switch_rif is None && a.edits == v.edits
            &&& b.selected == s.target && b.validated_selection == s.target && b.dialogs.confirm_switch_rif is None
            &&& nothing_pending(b.edits) && b.editing_rif is None && b.editors == no_editors()
            &&& c.selected == v.selected && c.edits == v.edits && c.dialogs.confirm_switch_rif is None
        },
{
}

/// The name of a field without its index.
pub proof fn index_is_left_off(a: Seq<char>, rest: Seq<char>)
    requires
        !a.contains('['),
    ensures
        base_name(a) == a,
        base_name(a + seq!['['] + rest) == a,
    decreases a.len(),
{
    let s = a + seq!['['] + rest;
    if a.len() == 0 {
        assert(s[0] == '[');
        assert(base_name(s) =~= a);
        assert(base_name(a) =~= a);
    } else {
        let t = a.skip(1);
        assert(!t.contains('[')) by {
            if t.contains('[') {
                let k = choose|k: int| 0 <= k < t.len() && t[k] == '[';
                assert(a[k + 1] == '[');
            }
        }
        index_is_left_off(t, rest);
        assert(a[0] != '[');
        assert(s.skip(1) =~= t + seq!['['] + rest);
        assert(base_name(s) =~= a);
        assert(base_name(a) =~= a);
    }
}

proof fn lemma_instances_of(p: PageView, reg_type: Seq<char>, n: int)
    requires
        0 <= n <= p.instances.len(),
    ensures
        0 <= instances_of(p, reg_type, n) <= n,
        instances_of(p, reg_type, n) == 0 <==> forall|k: int|
            0 <= k < n ==> (#[trigger] p.instances[k]).reg_type != reg_type,
        instances_of(p, reg_type, n) > 1 <==> exists|i: int, j: int|
            0 <= i < j < n && (#[trigger] p.instances[i]).reg_type == reg_type && (#[trigger] p.instances[j]).reg_type
                == reg_type,
    decreases n,
{
    if n > 0 {
        lemma_instances_of(p, reg_type, n - 1);
        if p.instances[n - 1].reg_type == reg_type && instances_of(p, reg_type, n - 1) > 0 {
            let i = choose|i: int| 0 <= i < n - 1 && (#[trigger] p.instances[i]).reg_type == reg_type;
            assert(p.instances[i].reg_type == reg_type && p.instances[n - 1].reg_type == reg_type);
        }
    }
}

/// An address can be changed where addresses are explicit and the instance is on the page; an array size
/// where addresses are not, or no other instance of the page is of the register.
pub proof fn editable_is_what_is_explicit(p: PageView, inst: Seq<char>, reg_type: Seq<char>)
    ensures
        addr_can_change(p, inst) <==> p.inst_auto == InstMode::Manual && exists|k: int|
            0 <= k < p.instances.len() && (#[trigger] p.instances[k]).inst_name == inst,
        placed_by_hand(p, inst) ==> addr_can_change(p, inst),
        array_in_scope(p, reg_type) <==> p.inst_auto != InstMode::Manual || !exists|i: int, j: int|
            0 <= i < j < p.instances.len() && (#[trigger] p.instances[i]).reg_type == reg_type && (
            #[trigger] p.instances[j]).reg_type == reg_type,
{
    lemma_instances_of(p, reg_type, p.instances.len() as int);
    lemma_first(p.instances, inst_named(inst));
    if exists|k: int| 0 <= k < p.instances.len() && (#[trigger] p.instances[k]).inst_name == inst {
        let k = choose|k: int| 0 <= k < p.instances.len() && (#[trigger] p.instances[k]).inst_name == inst;
        assert(inst_named(inst)(p.instances[k]));
    }
    if first(p.instances, inst_named(inst)) is Some {
        let k = first(p.instances, inst_named(inst))->0;
        assert(p.instances[k].inst_name == inst);
    }
}

/// The groups to choose from are those of the definitions of the page.
pub proof fn group_choices_are_those_in_use(items: Seq<RegItemView>, n: int, g: Seq<char>)
    requires
        0 <= n <= items.len(),
    ensures
        groups_of(items, n).contains(g) <==> exists|k: int|
            0 <= k < n && ((#[trigger] items[k]) matches RegItemView::Def(d) && d.group_name == g),
    decreases n,
{
    if n > 0 {
        group_choices_are_those_in_use(items, n - 1, g);
        let before = groups_of(items, n - 1);
        if let RegItemView::Def(d) = items[n - 1] {
            group_choices_are_those_in_use(items, n - 1, d.group_name);
            if !before.contains(d.group_name) {
                crate::law_rif::lemma_both(before, seq![d.group_name], g);
                assert(groups_of(items, n) =~= before + seq![d.group_name]);
                assert(seq![d.group_name].contains(g) <==> d.group_name == g) by {
                    assert(seq![d.group_name][0] == d.group_name);
                }
            }
        }
    }
}

/// The RIF of a place in the tree is the last one on the way to it.
pub proof fn rif_of_a_place_is_the_last(types: Seq<Option<Seq<char>>>, n: int, k: int)
    requires
        0 <= k < n <= types.len(),
        types[k] is Some,
        forall|j: int| k < j < n ==> (#[trigger] types[j]) is None,
    ensures
        Some(last_rif(types, n)) == types[k],
    decreases n,
{
    if k < n - 1 {
        assert(types[n - 1] is None);
        rif_of_a_place_is_the_last(types, n - 1, k);
    }
}

/// Pulses are on the last software clock, or on `clk` where there is none; the interrupt of a register is
/// its first; and what is selected belongs to what is shown.
pub proof fn defaults_are_those_of_the_source(cs: Seq<ClockingView>, d: RegisterDefView, n: Seq<char>)
    ensures
        cs.len() > 0 ==> last_clock(cs) == cs[cs.len() - 1].clk,
        cs.len() == 0 ==> last_clock(cs) == "clk"@,
        d.interrupt.len() == 0 ==> intr_default(d) is None,
        d.interrupt.len() > 0 ==> (intr_default(d) matches Some(i) && i.trigger == Some(d.interrupt[0].trigger) && i.clear
            == Some(d.interrupt[0].clear)),
        belongs(SelectedItemView::Nothing, Shown::Reg),
        belongs(SelectedItemView::Field(n), Shown::Reg),
        !belongs(SelectedItemView::Field(n), Shown::Rif),
        !belongs(SelectedItemView::Field(n), Shown::Page),
        belongs(SelectedItemView::Reg(n), Shown::Rif),
        belongs(SelectedItemView::Reg(n), Shown::Page),
        !belongs(SelectedItemView::Reg(n), Shown::Reg),
{
}

/// A reset value is shown by the first entry of the enum that has it, and as a number otherwise.
pub proof fn reset_is_shown_by_its_entry(f: FieldInstView, d: EnumTypeView, k: int)
    ensures
        ({
            let v = reset_bits(f.reset, (f.width.bits() % 256) as u8) % 256;
            &&& (0 <= k < d.values.len() && d.values[k].value == v && forall|j: int|
                0 <= j < k ==> (#[trigger] d.values[j]).value != v) ==> reset_label_text(f, Some(d)) == d.values[k].name
            &&& (forall|j: int| 0 <= j < d.values.len() ==> (#[trigger] d.values[j]).value != v) ==> reset_label_text(
                f,
                Some(d),
            ) == reset_label_text(f, None)
        }),
{
    let v = reset_bits(f.reset, (f.width.bits() % 256) as u8) % 256;
    if 0 <= k < d.values.len() && d.values[k].value == v && forall|j: int|
        0 <= j < k ==> (#[trigger] d.values[j]).value != v {
        lemma_is_first(d.values, entry_is(v), k);
    }
    if forall|j: int| 0 <= j < d.values.len() ==> (#[trigger] d.values[j]).value != v {
        lemma_no_first(d.values, entry_is(v));
    }
}

} // verus!
