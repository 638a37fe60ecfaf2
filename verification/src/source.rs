//! Finding and replacing items of the source.
use vstd::prelude::*;
use crate::model::page::{Instance, InstanceView, Page, PageView};
use crate::model::register::{FieldDef, FieldDefView, RegItem, RegItemView, RegisterDef, RegisterDefView};
use crate::model::rif::{EnumType, EnumTypeView, RifDef, RifDefView, RifEntry, RifEntryView};
use crate::model::values::InstMode;
use crate::search::{first, lemma_first, lemma_is_first, lemma_no_first};
use crate::text::join;

verus! {

/// The definition of the register type `name`.
pub open spec fn def_named(name: Seq<char>) -> spec_fn(RegItemView) -> bool {
    |r: RegItemView| r is Def && r->Def_0.name == name
}

/// The field `name`.
pub open spec fn field_named(name: Seq<char>) -> spec_fn(FieldDefView) -> bool {
    |f: FieldDefView| f.name == name
}

/// The instance `name`.
pub open spec fn inst_named(name: Seq<char>) -> spec_fn(InstanceView) -> bool {
    |i: InstanceView| i.inst_name == name
}

/// The page `name`.
pub open spec fn page_named(name: Seq<char>) -> spec_fn(PageView) -> bool {
    |p: PageView| p.name == name
}

/// A page that defines the register type `name`.
pub open spec fn page_defines(name: Seq<char>) -> spec_fn(PageView) -> bool {
    |p: PageView| first(p.registers, def_named(name)) is Some
}

/// A page that holds the instance `name`.
pub open spec fn page_places(name: Seq<char>) -> spec_fn(PageView) -> bool {
    |p: PageView| first(p.instances, inst_named(name)) is Some
}

/// The enum `name`.
pub open spec fn enum_named(name: Seq<char>) -> spec_fn(EnumTypeView) -> bool {
    |e: EnumTypeView| e.name == name
}

/// The RIF kept under `key`.
pub open spec fn rif_keyed(key: Seq<char>) -> spec_fn(RifEntryView) -> bool {
    |e: RifEntryView| e.key == key
}

/// Page and place of the first definition of a register type.
pub open spec fn locate_reg(rif: RifDefView, name: Seq<char>) -> Option<(int, int)> {
    match first(rif.pages, page_defines(name)) {
        Some(pi) => Some((pi, first(rif.pages[pi].registers, def_named(name))->0)),
        None => None,
    }
}

/// Page and place of the first instance of that name.
pub open spec fn locate_inst(rif: RifDefView, name: Seq<char>) -> Option<(int, int)> {
    match first(rif.pages, page_places(name)) {
        Some(pi) => Some((pi, first(rif.pages[pi].instances, inst_named(name))->0)),
        None => None,
    }
}

/// The register definition at a place.
pub open spec fn reg_at(rif: RifDefView, at: (int, int)) -> RegisterDefView {
    rif.pages[at.0].registers[at.1]->Def_0
}

/// The instance at a place.
pub open spec fn inst_at(rif: RifDefView, at: (int, int)) -> InstanceView {
    rif.pages[at.0].instances[at.1]
}

/// The RIF with another page in a place.
pub open spec fn with_page(rif: RifDefView, pi: int, p: PageView) -> RifDefView {
    RifDefView { pages: rif.pages.update(pi, p), ..rif }
}

/// The RIF with another register definition in a place.
pub open spec fn with_reg(rif: RifDefView, at: (int, int), d: RegisterDefView) -> RifDefView {
    let page = rif.pages[at.0];
    with_page(
        rif,
        at.0,
        PageView { registers: page.registers.update(at.1, RegItemView::Def(d)), ..page },
    )
}

/// The RIF with another instance in a place.
pub open spec fn with_inst(rif: RifDefView, at: (int, int), i: InstanceView) -> RifDefView {
    let page = rif.pages[at.0];
    with_page(rif, at.0, PageView { instances: page.instances.update(at.1, i), ..page })
}

/// The names that a RIF is looked for under, in this order.
pub open spec fn rif_aliases(name: Seq<char>) -> Seq<Seq<char>> {
    seq![name, name + "_rif"@, name + "_rif_mux"@, "rif_"@ + name, "rif_mux_"@ + name]
}

/// The first alias, from `i` on, that a RIF is kept under.
pub open spec fn locate_alias(rifs: Seq<RifEntryView>, aliases: Seq<Seq<char>>, i: int) -> Option<int>
    decreases aliases.len() - i,
{
    if i < 0 || i >= aliases.len() {
        None
    } else {
        match first(rifs, rif_keyed(aliases[i])) {
            Some(k) => Some(k),
            None => locate_alias(rifs, aliases, i + 1),
        }
    }
}

/// The place of a RIF, by its name, with or without the usual affixes.
pub open spec fn locate_rif(rifs: Seq<RifEntryView>, name: Seq<char>) -> Option<int> {
    locate_alias(rifs, rif_aliases(name), 0)
}

/// A located register is a definition of that name.
pub proof fn lemma_locate_reg(rif: RifDefView, name: Seq<char>)
    ensures
        locate_reg(rif, name) matches Some(at) ==> 0 <= at.0 < rif.pages.len() && 0 <= at.1
            < rif.pages[at.0].registers.len() && rif.pages[at.0].registers[at.1] is Def && reg_at(
            rif,
            at,
        ).name == name,
{
    lemma_first(rif.pages, page_defines(name));
    if let Some(pi) = first(rif.pages, page_defines(name)) {
        lemma_first(rif.pages[pi].registers, def_named(name));
    }
}

/// A located instance has that name.
pub proof fn lemma_locate_inst(rif: RifDefView, name: Seq<char>)
    ensures
        locate_inst(rif, name) matches Some(at) ==> 0 <= at.0 < rif.pages.len() && 0 <= at.1
            < rif.pages[at.0].instances.len() && inst_at(rif, at).inst_name == name,
{
    lemma_first(rif.pages, page_places(name));
    if let Some(pi) = first(rif.pages, page_places(name)) {
        lemma_first(rif.pages[pi].instances, inst_named(name));
    }
}

/// Looks for a register definition on a page.
pub fn find_def(items: &Vec<RegItem>, name: &String) -> (r: Option<usize>)
    ensures
        match first(items.deep_view(), def_named(name@)) {
            Some(k) => r is Some && r->0 == k && k < items@.len(),
            None => r is None,
        },
{
    let ghost s = items.deep_view();
    let ghost p = def_named(name@);
    let mut i: usize = 0;
    while i < items.len()
        invariant
            i <= items@.len(),
            s == items.deep_view(),
            p == def_named(name@),
            forall|j: int| 0 <= j < i ==> !p(s[j]),
        decreases items@.len() - i,
    {
        if let RegItem::Def(d) = &items[i] {
            if d.name == *name {
                proof {
                    assert(p(s[i as int]));
                    lemma_is_first(s, p, i as int);
                }
                return Some(i);
            }
        }
        proof {
            assert(!p(s[i as int]));
        }
        i += 1;
    }
    proof {
        lemma_no_first(s, p);
    }
    None
}

/// Looks for a field.
pub fn find_field(fields: &Vec<FieldDef>, name: &String) -> (r: Option<usize>)
    ensures
        match first(fields.deep_view(), field_named(name@)) {
            Some(k) => r is Some && r->0 == k && k < fields@.len(),
            None => r is None,
        },
{
    let ghost s = fields.deep_view();
    let ghost p = field_named(name@);
    let mut i: usize = 0;
    while i < fields.len()
        invariant
            i <= fields@.len(),
            s == fields.deep_view(),
            p == field_named(name@),
            forall|j: int| 0 <= j < i ==> !p(s[j]),
        decreases fields@.len() - i,
    {
        if fields[i].name == *name {
            proof {
                lemma_is_first(s, p, i as int);
            }
            return Some(i);
        }
        i += 1;
    }
    proof {
        lemma_no_first(s, p);
    }
    None
}

/// Looks for an instance on a page.
pub fn find_instance(insts: &Vec<Instance>, name: &String) -> (r: Option<usize>)
    ensures
        match first(insts.deep_view(), inst_named(name@)) {
            Some(k) => r is Some && r->0 == k && k < insts@.len(),
            None => r is None,
        },
{
    let ghost s = insts.deep_view();
    let ghost p = inst_named(name@);
    let mut i: usize = 0;
    while i < insts.len()
        invariant
            i <= insts@.len(),
            s == insts.deep_view(),
            p == inst_named(name@),
            forall|j: int| 0 <= j < i ==> !p(s[j]),
        decreases insts@.len() - i,
    {
        if insts[i].inst_name == *name {
            proof {
                lemma_is_first(s, p, i as int);
            }
            return Some(i);
        }
        i += 1;
    }
    proof {
        lemma_no_first(s, p);
    }
    None
}

/// Looks for a page.
pub fn find_page(pages: &Vec<Page>, name: &String) -> (r: Option<usize>)
    ensures
        match first(pages.deep_view(), page_named(name@)) {
            Some(k) => r is Some && r->0 == k && k < pages@.len(),
            None => r is None,
        },
{
    let ghost s = pages.deep_view();
    let ghost p = page_named(name@);
    let mut i: usize = 0;
    while i < pages.len()
        invariant
            i <= pages@.len(),
            s == pages.deep_view(),
            p == page_named(name@),
            forall|j: int| 0 <= j < i ==> !p(s[j]),
        decreases pages@.len() - i,
    {
        if pages[i].name == *name {
            proof {
                lemma_is_first(s, p, i as int);
            }
            return Some(i);
        }
        i += 1;
    }
    proof {
        lemma_no_first(s, p);
    }
    None
}

/// Looks for an enum.
pub fn find_enum(defs: &Vec<EnumType>, name: &String) -> (r: Option<usize>)
    ensures
        match first(defs.deep_view(), enum_named(name@)) {
            Some(k) => r is Some && r->0 == k && k < defs@.len(),
            None => r is None,
        },
{
    let ghost s = defs.deep_view();
    let ghost p = enum_named(name@);
    let mut i: usize = 0;
    while i < defs.len()
        invariant
            i <= defs@.len(),
            s == defs.deep_view(),
            p == enum_named(name@),
            forall|j: int| 0 <= j < i ==> !p(s[j]),
        decreases defs@.len() - i,
    {
        if defs[i].name == *name {
            proof {
                lemma_is_first(s, p, i as int);
            }
            return Some(i);
        }
        i += 1;
    }
    proof {
        lemma_no_first(s, p);
    }
    None
}

/// Looks for a RIF by the exact name that it is kept under.
pub fn find_key(rifs: &Vec<RifEntry>, key: &String) -> (r: Option<usize>)
    ensures
        match first(rifs.deep_view(), rif_keyed(key@)) {
            Some(k) => r is Some && r->0 == k && k < rifs@.len(),
            None => r is None,
        },
{
    let ghost s = rifs.deep_view();
    let ghost p = rif_keyed(key@);
    let mut i: usize = 0;
    while i < rifs.len()
        invariant
            i <= rifs@.len(),
            s == rifs.deep_view(),
            p == rif_keyed(key@),
            forall|j: int| 0 <= j < i ==> !p(s[j]),
        decreases rifs@.len() - i,
    {
        if rifs[i].key == *key {
            proof {
                lemma_is_first(s, p, i as int);
            }
            return Some(i);
        }
        i += 1;
    }
    proof {
        lemma_no_first(s, p);
    }
    None
}

/// Looks for a RIF by its name, with or without the usual affixes.
pub fn find_rif(rifs: &Vec<RifEntry>, name: &String) -> (r: Option<usize>)
    ensures
        match locate_rif(rifs.deep_view(), name@) {
            Some(k) => r is Some && r->0 == k && k < rifs@.len(),
            None => r is None,
        },
{
    proof {
        reveal_with_fuel(locate_alias, 6);
    }
    if let Some(i) = find_key(rifs, name) {
        return Some(i);
    }
    if let Some(i) = find_key(rifs, &join(name.as_str(), "_rif")) {
        return Some(i);
    }
    if let Some(i) = find_key(rifs, &join(name.as_str(), "_rif_mux")) {
        return Some(i);
    }
    if let Some(i) = find_key(rifs, &join("rif_", name.as_str())) {
        return Some(i);
    }
    find_key(rifs, &join("rif_mux_", name.as_str()))
}

/// Looks for a register definition on all pages.
pub fn find_regdef(rif: &RifDef, name: &String) -> (r: Option<(usize, usize)>)
    ensures
        match locate_reg(rif@, name@) {
            Some(at) => r is Some && (r->0).0 == at.0 && (r->0).1 == at.1 && at.0
                < rif.pages@.len() && at.1 < rif.pages@[at.0].registers@.len()
                && rif.pages@[at.0].registers@[at.1] is Def,
            None => r is None,
        },
{
    let ghost s = rif@.pages;
    let ghost p = page_defines(name@);
    let mut i: usize = 0;
    while i < rif.pages.len()
        invariant
            i <= rif.pages@.len(),
            s == rif@.pages,
            p == page_defines(name@),
            forall|j: int| 0 <= j < i ==> !p(s[j]),
        decreases rif.pages@.len() - i,
    {
        let found = find_def(&rif.pages[i].registers, name);
        proof {
            assert(s[i as int].registers == rif.pages@[i as int].registers.deep_view());
        }
        if let Some(k) = found {
            proof {
                assert(p(s[i as int]));
                lemma_is_first(s, p, i as int);
                lemma_locate_reg(rif@, name@);
            }
            return Some((i, k));
        }
        i += 1;
    }
    proof {
        lemma_no_first(s, p);
    }
    None
}

/// Looks for an instance on all pages.
pub fn find_inst(rif: &RifDef, name: &String) -> (r: Option<(usize, usize)>)
    ensures
        match locate_inst(rif@, name@) {
            Some(at) => r is Some && (r->0).0 == at.0 && (r->0).1 == at.1 && at.0
                < rif.pages@.len() && at.1 < rif.pages@[at.0].instances@.len(),
            None => r is None,
        },
{
    let ghost s = rif@.pages;
    let ghost p = page_places(name@);
    let mut i: usize = 0;
    while i < rif.pages.len()
        invariant
            i <= rif.pages@.len(),
            s == rif@.pages,
            p == page_places(name@),
            forall|j: int| 0 <= j < i ==> !p(s[j]),
        decreases rif.pages@.len() - i,
    {
        let found = find_instance(&rif.pages[i].instances, name);
        proof {
            assert(s[i as int].instances == rif.pages@[i as int].instances.deep_view());
        }
        if let Some(k) = found {
            proof {
                assert(p(s[i as int]));
                lemma_is_first(s, p, i as int);
            }
            return Some((i, k));
        }
        i += 1;
    }
    proof {
        lemma_no_first(s, p);
    }
    None
}

/// The register definition at a place.
pub fn get_reg(rif: &RifDef, at: (usize, usize)) -> (r: &RegisterDef)
    requires
        at.0 < rif.pages@.len(),
        at.1 < rif.pages@[at.0 as int].registers@.len(),
        rif.pages@[at.0 as int].registers@[at.1 as int] is Def,
    ensures
        r@ == reg_at(rif@, (at.0 as int, at.1 as int)),
{
    match &rif.pages[at.0].registers[at.1] {
        RegItem::Def(d) => d,
        RegItem::Incl(_) => vstd::pervasive::unreached(),
    }
}

/// Puts another register definition in a place.
pub fn set_reg(rif: &mut RifDef, at: (usize, usize), d: RegisterDef)
    requires
        at.0 < old(rif).pages@.len(),
        at.1 < old(rif).pages@[at.0 as int].registers@.len(),
    ensures
        final(rif)@ == with_reg(old(rif)@, (at.0 as int, at.1 as int), d@),
        final(rif).pages@.len() == old(rif).pages@.len(),
{
    rif.pages[at.0].registers[at.1] = RegItem::Def(d);
    proof {
        let page = rif.pages@[at.0 as int];
        let before = old(rif).pages@[at.0 as int];
        assert(page.registers.deep_view() =~= before.registers.deep_view().update(
            at.1 as int,
            RegItemView::Def(d@),
        ));
        assert(rif.pages.deep_view() =~= old(rif).pages.deep_view().update(at.0 as int, page@));
    }
}

/// Puts another instance in a place.
pub fn set_inst(rif: &mut RifDef, at: (usize, usize), i: Instance)
    requires
        at.0 < old(rif).pages@.len(),
        at.1 < old(rif).pages@[at.0 as int].instances@.len(),
    ensures
        final(rif)@ == with_inst(old(rif)@, (at.0 as int, at.1 as int), i@),
        final(rif).pages@.len() == old(rif).pages@.len(),
{
    rif.pages[at.0].instances[at.1] = i;
    proof {
        let page = rif.pages@[at.0 as int];
        let before = old(rif).pages@[at.0 as int];
        assert(page.instances.deep_view() =~= before.instances.deep_view().update(at.1 as int, i@));
        assert(rif.pages.deep_view() =~= old(rif).pages.deep_view().update(at.0 as int, page@));
    }
}

/// Puts another page in a place.
pub fn set_page(rif: &mut RifDef, pi: usize, p: Page)
    requires
        pi < old(rif).pages@.len(),
    ensures
        final(rif)@ == with_page(old(rif)@, pi as int, p@),
{
    rif.pages[pi] = p;
    proof {
        assert(rif.pages.deep_view() =~= old(rif).pages.deep_view().update(pi as int, p@));
    }
}

/// Puts another field in a place.
pub fn set_field(d: &mut RegisterDef, fi: usize, f: FieldDef)
    requires
        fi < old(d).fields@.len(),
    ensures
        final(d)@ == (RegisterDefView { fields: old(d)@.fields.update(fi as int, f@), ..old(d)@ }),
{
    d.fields[fi] = f;
    proof {
        assert(d.fields.deep_view() =~= old(d).fields.deep_view().update(fi as int, f@));
    }
}

/// Whether the registers of a page get their addresses in order.
pub open spec fn is_auto(p: PageView) -> bool {
    p.inst_auto != InstMode::Manual
}

} // verus!
