//! What the panels show, and what can be edited there.
use vstd::prelude::*;
use crate::compiled::{
    editable, get_field_rst_str, reset_bits, reset_shown, reset_value, FieldInst, FieldInstView, FieldSpan,
};
use crate::model::page::{Page, PageView};
use crate::model::register::{FieldDef, RegItem, RegItemView, RegisterDef, RegisterDefView};
use crate::model::rif::{Clocking, ClockingView, EnumItemView, EnumType, EnumTypeView, RifDef, RifDefView};
use crate::model::values::{AddrKind, Dim, IntrKind, IntrOvr};
use crate::names::is_taken;
use crate::search::{first, lemma_is_first, lemma_no_first};
use crate::source::{find_def, find_instance, inst_named, is_auto, page_defines};
use crate::stage_reg::page_is_auto;
use crate::viewer::{EditTarget, RifViewer, SelectedItem, SelectedItemView, Selection, SelectionView};

verus! {

impl RifViewer {
    /// Whether the editor of declarations can handle a field.
    pub fn is_field_editable(in_reg_array: bool, field: &FieldInst, def_field: &FieldDef) -> (r: bool)
        ensures
            r == editable(in_reg_array, field@, def_field@),
    {
        let fixed = match field.width {
            FieldSpan::Fixed(_) => true,
            FieldSpan::Generic(_, _) => false,
        };
        let counted = match def_field.array {
            Dim::Value(_) => true,
            Dim::Param(_) => false,
        };
        fixed && field.partial.0.is_none() && counted && (field.array_dim == 0 || !in_reg_array)
    }

    /// Whether a field can be deleted: a register keeps at least one.
    pub fn field_can_delete(regdef: &RegisterDef) -> (r: bool)
        ensures
            r == (regdef@.fields.len() > 1),
    {
        regdef.fields.len() > 1
    }

    /// Whether a field can change places with its neighbour. An array spans several places.
    pub fn is_field_reorderable(field: &FieldInst) -> (r: bool)
        ensures
            r == (field@.array_dim == 0),
    {
        field.array_dim == 0
    }

    /// Whether an instance can override its register. A register that is derived from an
    /// interrupt has no overrides of its own; one that comes from another file can have them.
    pub fn is_reg_override_editable(kind: IntrKind) -> (r: bool)
        ensures
            r == !(kind == IntrKind::Enable || kind == IntrKind::Mask || kind == IntrKind::Pending),
    {
        match kind {
            IntrKind::Enable | IntrKind::Mask | IntrKind::Pending => false,
            IntrKind::Plain | IntrKind::Base => true,
        }
    }

    /// Whether an instance can override a field. The elements of an array share one definition.
    pub fn is_field_override_editable(field: &FieldInst) -> (r: bool)
        ensures
            r == (field@.array_dim == 0),
    {
        field.array_dim == 0
    }

    /// Whether an instance can change places with its neighbour: its register is `editable` and
    /// no array, and it has a fixed address on a page with explicit addresses.
    pub fn is_reg_reorderable(editable: bool, array_dim: u16, inst: &String, page: Option<&Page>) -> (r: bool)
        ensures
            r == (editable && array_dim == 0 && page is Some && placed_by_hand(page->0@, inst@)),
    {
        if !editable || array_dim != 0 {
            return false;
        }
        match page {
            Some(p) => {
                if page_is_auto(p) {
                    return false;
                }
                match find_instance(&p.instances, inst) {
                    Some(k) => {
                        proof {
                            assert(p@.instances[k as int] == p.instances@[k as int]@);
                        }
                        p.instances[k].addr.kind == AddrKind::Absolute
                    },
                    None => false,
                }
            },
            None => false,
        }
    }
}

/// Whether an instance has a fixed address on a page with explicit addresses.
pub open spec fn placed_by_hand(p: PageView, inst: Seq<char>) -> bool {
    !is_auto(p) && match first(p.instances, inst_named(inst)) {
        Some(k) => p.instances[k].addr.kind == AddrKind::Absolute,
        None => false,
    }
}

/// Looks for the page that defines a register.
pub fn find_reg_page(rif: &RifDef, reg_type: &String) -> (r: Option<usize>)
    ensures
        match first(rif@.pages, page_defines(reg_type@)) {
            Some(k) => r is Some && r->0 == k && k < rif.pages@.len(),
            None => r is None,
        },
{
    let ghost s = rif@.pages;
    let ghost p = page_defines(reg_type@);
    let mut i: usize = 0;
    while i < rif.pages.len()
        invariant
            i <= rif.pages@.len(),
            s == rif@.pages,
            p == page_defines(reg_type@),
            forall|j: int| 0 <= j < i ==> !p(s[j]),
        decreases rif.pages@.len() - i,
    {
        proof {
            assert(s[i as int] == rif.pages@[i as int]@);
        }
        if let Some(_) = find_def(&rif.pages[i].registers, reg_type) {
            proof {
                lemma_is_first(s, p, i as int);
            }
            return Some(i);
        }
        i += 1;
    }
    proof {
        lemma_no_first(s, p);
    }
    None
}

/// Whether a register of the group continues the field, which is then split over registers.
pub open spec fn continues(i: RegItemView, group: Seq<char>, field: Seq<char>) -> bool {
    match i {
        RegItemView::Def(d) => d.group_name == group && exists|f: int|
            0 <= f < d.fields.len() && (#[trigger] d.fields[f]).name == field && d.fields[f].partial.1 > 0,
        _ => false,
    }
}

pub open spec fn page_continues(p: PageView, group: Seq<char>, field: Seq<char>) -> bool {
    exists|r: int| 0 <= r < p.registers.len() && continues(#[trigger] p.registers[r], group, field)
}

/// Whether a field is split over registers of its group. Only the parts behind the first one are
/// marked, so all registers of the group are looked at.
pub open spec fn array_partial(rif: RifDefView, group: Seq<char>, field: Seq<char>) -> bool {
    exists|p: int| 0 <= p < rif.pages.len() && page_continues(#[trigger] rif.pages[p], group, field)
}

fn item_continues(i: &RegItem, group: &String, field: &String) -> (r: bool)
    ensures
        r == continues(i@, group@, field@),
{
    match i {
        RegItem::Def(d) => {
            if d.group_name != *group {
                return false;
            }
            let ghost fields = d.fields.deep_view();
            let mut f: usize = 0;
            while f < d.fields.len()
                invariant
                    f <= d.fields@.len(),
                    i@ == RegItemView::Def(d@),
                    d@.group_name == group@,
                    fields == d.fields.deep_view(),
                    forall|k: int|
                        0 <= k < f ==> !((#[trigger] fields[k]).name == field@ && fields[k].partial.1 > 0),
                decreases d.fields@.len() - f,
            {
                proof {
                    assert(fields[f as int] == d.fields@[f as int]@);
                }
                if d.fields[f].name == *field && d.fields[f].partial.1 > 0 {
                    proof {
                        assert(i@->Def_0.fields[f as int].name == field@);
                    }
                    return true;
                }
                f += 1;
            }
            false
        },
        _ => false,
    }
}

fn any_item_continues(p: &Page, group: &String, field: &String) -> (r: bool)
    ensures
        r == page_continues(p@, group@, field@),
{
    let ghost items = p.registers.deep_view();
    let mut i: usize = 0;
    while i < p.registers.len()
        invariant
            i <= p.registers@.len(),
            items == p.registers.deep_view(),
            forall|k: int| 0 <= k < i ==> !continues(#[trigger] items[k], group@, field@),
        decreases p.registers@.len() - i,
    {
        proof {
            assert(items[i as int] == p.registers@[i as int]@);
        }
        if item_continues(&p.registers[i], group, field) {
            proof {
                assert(continues(p@.registers[i as int], group@, field@));
            }
            return true;
        }
        i += 1;
    }
    false
}

/// Whether a field is split over registers of its group.
pub fn field_has_array_partial(rif: &RifDef, group: &String, field: &String) -> (r: bool)
    ensures
        r == array_partial(rif@, group@, field@),
{
    let ghost pages = rif.pages.deep_view();
    let mut i: usize = 0;
    while i < rif.pages.len()
        invariant
            i <= rif.pages@.len(),
            pages == rif.pages.deep_view(),
            forall|k: int| 0 <= k < i ==> !page_continues(#[trigger] pages[k], group@, field@),
        decreases rif.pages@.len() - i,
    {
        proof {
            assert(pages[i as int] == rif.pages@[i as int]@);
        }
        if any_item_continues(&rif.pages[i], group, field) {
            proof {
                assert(page_continues(rif@.pages[i as int], group@, field@));
            }
            return true;
        }
        i += 1;
    }
    false
}

/// The clock of registered pulses: the last software clock of the RIF.
pub open spec fn last_clock(cs: Seq<ClockingView>) -> Seq<char> {
    if cs.len() > 0 {
        cs.last().clk
    } else {
        "clk"@
    }
}

/// The clock of registered pulses.
pub fn default_clk(cs: &Vec<Clocking>) -> (r: String)
    ensures
        r@ == last_clock(cs.deep_view()),
{
    let n: usize = cs.len();
    if n > 0 {
        proof {
            assert(cs.deep_view().last() == cs@[n - 1]@);
        }
        cs[n - 1].clk.clone()
    } else {
        "clk".to_owned()
    }
}

/// Whether the address of an instance can be changed: it has an entry on a page with explicit
/// addresses.
pub open spec fn addr_can_change(p: PageView, inst: Seq<char>) -> bool {
    !is_auto(p) && first(p.instances, inst_named(inst)) is Some
}

/// Whether the address of an instance can be changed.
pub fn addr_editable(p: &Page, inst: &String) -> (r: bool)
    ensures
        r == addr_can_change(p@, inst@),
{
    if page_is_auto(p) {
        return false;
    }
    match find_instance(&p.instances, inst) {
        Some(_) => true,
        None => false,
    }
}

/// How many of the first `n` instances have a type.
pub open spec fn instances_of(p: PageView, reg_type: Seq<char>, n: int) -> int
    decreases n,
{
    if n <= 0 {
        0
    } else {
        instances_of(p, reg_type, n - 1) + if p.instances[n - 1].reg_type == reg_type {
            1int
        } else {
            0
        }
    }
}

/// Whether array sizes of a register can be changed: where addresses are explicit, it has at
/// most one instance.
pub open spec fn array_in_scope(p: PageView, reg_type: Seq<char>) -> bool {
    is_auto(p) || instances_of(p, reg_type, p.instances.len() as int) <= 1
}

/// Whether array sizes of a register can be changed.
pub fn array_scope_ok(p: &Page, reg_type: &String) -> (r: bool)
    ensures
        r == array_in_scope(p@, reg_type@),
{
    if page_is_auto(p) {
        return true;
    }
    let mut n: usize = 0;
    let mut i: usize = 0;
    while i < p.instances.len()
        invariant
            n <= i <= p.instances@.len(),
            n == instances_of(p@, reg_type@, i as int),
        decreases p.instances@.len() - i,
    {
        proof {
            assert(p@.instances[i as int] == p.instances@[i as int]@);
        }
        if p.instances[i].reg_type == *reg_type {
            n += 1;
        }
        i += 1;
    }
    n <= 1
}

/// The groups of the first `n` registers, each once, in the order in which they come.
pub open spec fn groups_of(items: Seq<RegItemView>, n: int) -> Seq<Seq<char>>
    decreases n,
{
    if n <= 0 {
        seq![]
    } else {
        let before = groups_of(items, n - 1);
        match items[n - 1] {
            RegItemView::Def(d) => if before.contains(d.group_name) {
                before
            } else {
                before.push(d.group_name)
            },
            _ => before,
        }
    }
}

/// No group is offered twice.
pub proof fn groups_are_distinct(items: Seq<RegItemView>, n: int)
    requires
        0 <= n <= items.len(),
    ensures
        groups_of(items, n).no_duplicates(),
    decreases n,
{
    if n > 0 {
        groups_are_distinct(items, n - 1);
    }
}

/// The groups that a register of a page can be put in.
pub fn group_choices(p: &Page) -> (r: Vec<String>)
    ensures
        r.deep_view() == groups_of(p@.registers, p@.registers.len() as int),
{
    let ghost items = p@.registers;
    let mut r: Vec<String> = Vec::new();
    proof {
        assert(r.deep_view() =~= Seq::<Seq<char>>::empty());
    }
    let mut i: usize = 0;
    while i < p.registers.len()
        invariant
            i <= p.registers@.len(),
            items == p@.registers,
            r.deep_view() == groups_of(items, i as int),
        decreases p.registers@.len() - i,
    {
        proof {
            assert(items[i as int] == p.registers@[i as int]@);
        }
        let ghost sofar = r.deep_view();
        if let RegItem::Def(d) = &p.registers[i] {
            if !is_taken(&r, &d.group_name) {
                let ghost g = d.group_name@;
                r.push(d.group_name.clone());
                proof {
                    assert(r.deep_view() =~= sofar.push(g));
                }
            }
        }
        i += 1;
    }
    r
}

/// The interrupt settings that a field has where it has none of its own.
pub open spec fn intr_default(d: RegisterDefView) -> Option<IntrOvr> {
    if d.interrupt.len() > 0 {
        Some(IntrOvr { trigger: Some(d.interrupt[0].trigger), clear: Some(d.interrupt[0].clear) })
    } else {
        None
    }
}

/// The interrupt settings that a field has where it has none of its own.
pub fn reg_intr_default(d: &RegisterDef) -> (r: Option<IntrOvr>)
    ensures
        r == intr_default(d@),
{
    if d.interrupt.len() > 0 {
        proof {
            assert(d@.interrupt[0] == d.interrupt@[0]@);
        }
        Some(IntrOvr { trigger: Some(d.interrupt[0].trigger), clear: Some(d.interrupt[0].clear) })
    } else {
        None
    }
}

/// What is shown above the table of a register or field.
#[derive(Clone, Copy, Debug, PartialEq, Eq, Structural)]
pub enum Panel {
    /// The description of a derived register.
    Derived,
    /// What the instance overrides.
    Override,
    /// The definition.
    Definition,
    /// No editor.
    ReadOnly,
}

/// The editor that is shown. A derived register has only its description; otherwise the user
/// picks between the definition and the instance.
pub fn pick_panel(derived: bool, can_override: bool, can_define: bool, target: EditTarget) -> (r: Panel)
    ensures
        r == (if derived {
            Panel::Derived
        } else if can_override && target == EditTarget::Instance {
            Panel::Override
        } else if can_define {
            Panel::Definition
        } else {
            Panel::ReadOnly
        }),
{
    if derived {
        Panel::Derived
    } else if can_override && target == EditTarget::Instance {
        Panel::Override
    } else if can_define {
        Panel::Definition
    } else {
        Panel::ReadOnly
    }
}

/// Whether the user picks between the definition and the instance: there is more than one
/// instance, or the definition comes from another file.
pub fn show_target_choice(can_override: bool, instances: usize, included: bool) -> (r: bool)
    ensures
        r == (can_override && (instances > 1 || included)),
{
    can_override && (instances > 1 || included)
}

/// What stands at the end of the path.
#[derive(Clone, Copy, Debug, PartialEq, Eq, Structural)]
pub enum Shown {
    /// A multiplexer of RIFs.
    Mux,
    /// A RIF.
    Rif,
    /// A page.
    Page,
    /// A register.
    Reg,
    /// Something outside the source.
    External,
    /// Nothing.
    Nothing,
}

/// Whether an item can be selected there: registers on RIFs and pages, fields in registers.
pub open spec fn belongs(item: SelectedItemView, shown: Shown) -> bool {
    match item {
        SelectedItemView::Nothing => true,
        SelectedItemView::Reg(_) => shown == Shown::Rif || shown == Shown::Page,
        SelectedItemView::Field(_) => shown == Shown::Reg,
    }
}

impl Selection {
    /// Goes up to the first `level` names of the path; zero stays.
    pub fn go_up(&mut self, level: usize)
        requires
            level <= old(self)@.path.len(),
        ensures
            final(self)@ == (if level == 0 {
                old(self)@
            } else {
                SelectionView { path: old(self)@.path.take(level as int), updt: 1, ..old(self)@ }
            }),
    {
        if level != 0 {
            self.path.truncate(level);
            self.updt = 1;
            proof {
                assert(self.path.deep_view() =~= old(self).path.deep_view().take(level as int));
            }
        }
    }

    /// One frame has passed.
    pub fn tick(&mut self)
        ensures
            final(self)@ == (if old(self)@.updt > 0 {
                SelectionView { updt: (old(self)@.updt - 1) as usize, ..old(self)@ }
            } else {
                old(self)@
            }),
    {
        if self.updt > 0 {
            self.updt = self.updt - 1;
        }
    }

    /// Forgets an item that cannot be selected there.
    pub fn drop_stale(&mut self, shown: Shown)
        ensures
            final(self)@ == (if belongs(old(self)@.item, shown) {
                old(self)@
            } else {
                SelectionView { item: SelectedItemView::Nothing, ..old(self)@ }
            }),
    {
        let stale = match &self.item {
            SelectedItem::Nothing => false,
            SelectedItem::Reg(_) => !(shown == Shown::Rif || shown == Shown::Page),
            SelectedItem::Field(_) => shown != Shown::Reg,
        };
        if stale {
            self.item = SelectedItem::Nothing;
        }
    }
}

/// The last RIF among the first `n` steps of a path; empty where there is none.
pub open spec fn last_rif(types: Seq<Option<Seq<char>>>, n: int) -> Seq<char>
    decreases n,
{
    if n <= 0 {
        seq![]
    } else {
        match types[n - 1] {
            Some(t) => t,
            None => last_rif(types, n - 1),
        }
    }
}

/// The RIF that owns the end of a path. For each step, `types` holds the type of the RIF that it
/// leads to, where it leads to one.
pub fn rif_type_of(types: &Vec<Option<String>>) -> (r: String)
    ensures
        r@ == last_rif(types.deep_view(), types@.len() as int),
{
    let ghost s = types.deep_view();
    let mut r = String::new();
    let mut i: usize = 0;
    proof {
        assert(r@ =~= Seq::<char>::empty());
    }
    while i < types.len()
        invariant
            i <= types@.len(),
            s == types.deep_view(),
            r@ == last_rif(s, i as int),
        decreases types@.len() - i,
    {
        proof {
            assert(s[i as int] == types@[i as int].deep_view());
        }
        if let Some(t) = &types[i] {
            r = t.clone();
        }
        i += 1;
    }
    r
}

/// Whether an enum entry has the reset value of a field.
pub open spec fn entry_is(v: int) -> spec_fn(EnumItemView) -> bool {
    |e: EnumItemView| e.value == v
}

/// The reset value of a field: the name of its enum entry, or else the number.
pub open spec fn reset_label_text(f: FieldInstView, def: Option<EnumTypeView>) -> Seq<char> {
    match def {
        Some(d) => match first(
            d.values,
            entry_is(reset_bits(f.reset, (f.width.bits() % 256) as u8) % 256),
        ) {
            Some(k) => d.values[k].name,
            None => reset_shown(f),
        },
        None => reset_shown(f),
    }
}

/// The reset value of a field, as it is shown.
pub fn reset_label(f: &FieldInst, def: Option<&EnumType>) -> (r: String)
    ensures
        r@ == reset_label_text(
            f@,
            match def {
                Some(d) => Some(d@),
                None => None,
            },
        ),
{
    if let Some(d) = def {
        let bits: u8 = (f.width() % 256) as u8;
        let v: u8 = (reset_value(f.reset, bits) % 256) as u8;
        let ghost s = d@.values;
        let ghost p = entry_is(v as int);
        let mut i: usize = 0;
        while i < d.values.len()
            invariant
                i <= d.values@.len(),
                def == Some(d),
                s == d@.values,
                p == entry_is(v as int),
                v == reset_bits(f@.reset, (f@.width.bits() % 256) as u8) % 256,
                forall|j: int| 0 <= j < i ==> !p(s[j]),
            decreases d.values@.len() - i,
        {
            proof {
                assert(s[i as int] == d.values@[i as int]@);
            }
            if d.values[i].value == v {
                proof {
                    lemma_is_first(s, p, i as int);
                }
                return d.values[i].name.clone();
            }
            i += 1;
        }
        proof {
            lemma_no_first(s, p);
        }
    }
    get_field_rst_str(f)
}

/// The search result after the current one; the first one after the last.
pub fn next_result(current: usize, n: usize) -> (r: usize)
    requires
        current < n,
    ensures
        r == (current + 1) % (n as int),
        r < n,
{
    if current + 1 == n {
        proof {
            assert((current + 1) % (n as int) == 0) by (nonlinear_arith)
                requires
                    current + 1 == n,
                    n > 0,
            ;
        }
        0
    } else {
        proof {
            assert((current + 1) % (n as int) == current + 1) by (nonlinear_arith)
                requires
                    0 <= current + 1 < n,
            ;
        }
        current + 1
    }
}

/// Whether there is something to search for, and somewhere.
pub fn wants_search(query: &str, by_name: bool, by_desc: bool) -> (r: bool)
    ensures
        r == (query@.len() > 0 && (by_name || by_desc)),
{
    !query.is_empty() && (by_name || by_desc)
}

/// The search result before the current one; the last one before the first.
pub fn previous_result(current: usize, n: usize) -> (r: usize)
    requires
        current < n,
    ensures
        r == (current + n - 1) % (n as int),
        r < n,
{
    if current > 0 {
        proof {
            assert((current + n - 1) % (n as int) == current - 1) by (nonlinear_arith)
                requires
                    0 < current < n,
            ;
        }
        current - 1
    } else {
        proof {
            assert((n - 1) % (n as int) == n - 1) by (nonlinear_arith)
                requires
                    n > 0,
            ;
        }
        n - 1
    }
}

/// Going to the next search result and back, or back and to the next one, leads nowhere.
pub proof fn results_go_both_ways(k: int, n: int)
    requires
        0 <= k < n,
    ensures
        ((k + 1) % n + n - 1) % n == k,
        ((k + n - 1) % n + 1) % n == k,
{
    if k + 1 == n {
        assert((k + 1) % n == 0) by (nonlinear_arith)
            requires
                k + 1 == n,
                n > 0,
        ;
    } else {
        assert((k + 1) % n == k + 1) by (nonlinear_arith)
            requires
                0 <= k + 1 < n,
        ;
    }
    if k > 0 {
        assert((k + n - 1) % n == k - 1) by (nonlinear_arith)
            requires
                0 < k < n,
        ;
    } else {
        assert((k + n - 1) % n == n - 1) by (nonlinear_arith)
            requires
                k == 0,
                n > 0,
        ;
    }
    assert((k + n) % n == k) by (nonlinear_arith)
        requires
            0 <= k < n,
    ;
    assert(k % n == k) by (nonlinear_arith)
        requires
            0 <= k < n,
    ;
    assert((n - 1) % n == n - 1 && n % n == 0) by (nonlinear_arith)
        requires
            n > 0,
    ;
}

} // verus!
