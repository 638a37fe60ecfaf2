//! Where registers, fields and instances stand, said without a search.
use vstd::prelude::*;
use crate::model::page::{InstanceView, PageView};
use crate::model::register::{FieldDefView, RegItemView, RegisterDefView};
use crate::model::rif::RifDefView;
use crate::search::{first, lemma_first, lemma_is_first, lemma_no_first};
use crate::source::{def_named, field_named, inst_named, locate_inst, locate_reg, page_defines, page_places};

verus! {

/// Whether a place on a page holds the definition of a register.
pub open spec fn defines(rif: RifDefView, p: int, r: int, name: Seq<char>) -> bool {
    &&& 0 <= p < rif.pages.len()
    &&& 0 <= r < rif.pages[p].registers.len()
    &&& rif.pages[p].registers[r] matches RegItemView::Def(d) && d.name == name
}

/// Whether a register is defined at a place, and nowhere in front of it.
pub open spec fn is_def(rif: RifDefView, name: Seq<char>, p: int, r: int) -> bool {
    &&& defines(rif, p, r, name)
    &&& forall|q: int, s: int| q < p || (q == p && s < r) ==> !#[trigger] defines(rif, q, s, name)
}

/// Whether no register has a name.
pub open spec fn no_def(rif: RifDefView, name: Seq<char>) -> bool {
    forall|q: int, s: int| !#[trigger] defines(rif, q, s, name)
}

/// Whether a place on a page holds an instance.
pub open spec fn places(rif: RifDefView, p: int, k: int, name: Seq<char>) -> bool {
    &&& 0 <= p < rif.pages.len()
    &&& 0 <= k < rif.pages[p].instances.len()
    &&& rif.pages[p].instances[k].inst_name == name
}

/// Whether an instance stands at a place, and no other of that name in front of it.
pub open spec fn is_inst(rif: RifDefView, name: Seq<char>, p: int, k: int) -> bool {
    &&& places(rif, p, k, name)
    &&& forall|q: int, s: int| q < p || (q == p && s < k) ==> !#[trigger] places(rif, q, s, name)
}

/// Whether no instance has a name.
pub open spec fn no_inst(rif: RifDefView, name: Seq<char>) -> bool {
    forall|q: int, s: int| !#[trigger] places(rif, q, s, name)
}

/// Whether a field stands at a place in a register, and no other of that name in front of it.
pub open spec fn is_field(d: RegisterDefView, name: Seq<char>, k: int) -> bool {
    &&& 0 <= k < d.fields.len()
    &&& d.fields[k].name == name
    &&& forall|j: int| 0 <= j < k ==> (#[trigger] d.fields[j]).name != name
}

/// Whether no field of a register has a name.
pub open spec fn no_field(d: RegisterDefView, name: Seq<char>) -> bool {
    forall|j: int| 0 <= j < d.fields.len() ==> (#[trigger] d.fields[j]).name != name
}

/// The definition at a place.
pub open spec fn the_def(rif: RifDefView, p: int, r: int) -> RegisterDefView {
    rif.pages[p].registers[r]->Def_0
}

/// Whether `after` is `before` with another definition at one place, and nothing else changed.
pub open spec fn only_def(before: RifDefView, after: RifDefView, p: int, r: int, d: RegisterDefView) -> bool {
    after == (RifDefView {
        pages: before.pages.update(
            p,
            PageView {
                registers: before.pages[p].registers.update(r, RegItemView::Def(d)),
                ..before.pages[p]
            },
        ),
        ..before
    })
}

/// Whether `after` is `before` with another field at one place, and nothing else changed.
pub open spec fn only_field(
    before: RifDefView,
    after: RifDefView,
    p: int,
    r: int,
    k: int,
    f: FieldDefView,
) -> bool {
    let d = the_def(before, p, r);
    only_def(before, after, p, r, RegisterDefView { fields: d.fields.update(k, f), ..d })
}

/// Whether `after` is `before` with another instance at one place, and nothing else changed.
pub open spec fn only_inst(before: RifDefView, after: RifDefView, p: int, k: int, i: InstanceView) -> bool {
    after == (RifDefView {
        pages: before.pages.update(
            p,
            PageView { instances: before.pages[p].instances.update(k, i), ..before.pages[p] },
        ),
        ..before
    })
}

/// A definition is found where it stands.
pub proof fn lemma_def(rif: RifDefView, name: Seq<char>, p: int, r: int)
    requires
        is_def(rif, name, p, r),
    ensures
        locate_reg(rif, name) == Some((p, r)),
{
    let regs = rif.pages[p].registers;
    let q = def_named(name);
    assert forall|s: int| 0 <= s < r implies !q(#[trigger] regs[s]) by {
        assert(!defines(rif, p, s, name));
    }
    lemma_is_first(regs, q, r);
    let on = page_defines(name);
    assert forall|x: int| 0 <= x < p implies !on(#[trigger] rif.pages[x]) by {
        let before = rif.pages[x].registers;
        assert forall|s: int| 0 <= s < before.len() implies !q(#[trigger] before[s]) by {
            assert(!defines(rif, x, s, name));
        }
        lemma_no_first(before, q);
    }
    lemma_is_first(rif.pages, on, p);
}

/// A register that is not there is not found.
pub proof fn lemma_no_def(rif: RifDefView, name: Seq<char>)
    requires
        no_def(rif, name),
    ensures
        locate_reg(rif, name) is None,
{
    let q = def_named(name);
    let on = page_defines(name);
    assert forall|x: int| 0 <= x < rif.pages.len() implies !on(#[trigger] rif.pages[x]) by {
        let before = rif.pages[x].registers;
        assert forall|s: int| 0 <= s < before.len() implies !q(#[trigger] before[s]) by {
            assert(!defines(rif, x, s, name));
        }
        lemma_no_first(before, q);
    }
    lemma_no_first(rif.pages, on);
}

/// An instance is found where it stands.
pub proof fn lemma_inst(rif: RifDefView, name: Seq<char>, p: int, k: int)
    requires
        is_inst(rif, name, p, k),
    ensures
        locate_inst(rif, name) == Some((p, k)),
{
    let insts = rif.pages[p].instances;
    let q = inst_named(name);
    assert forall|s: int| 0 <= s < k implies !q(#[trigger] insts[s]) by {
        assert(!places(rif, p, s, name));
    }
    lemma_is_first(insts, q, k);
    let on = page_places(name);
    assert forall|x: int| 0 <= x < p implies !on(#[trigger] rif.pages[x]) by {
        let before = rif.pages[x].instances;
        assert forall|s: int| 0 <= s < before.len() implies !q(#[trigger] before[s]) by {
            assert(!places(rif, x, s, name));
        }
        lemma_no_first(before, q);
    }
    lemma_is_first(rif.pages, on, p);
}

/// An instance that is not there is not found.
pub proof fn lemma_no_inst(rif: RifDefView, name: Seq<char>)
    requires
        no_inst(rif, name),
    ensures
        locate_inst(rif, name) is None,
{
    let q = inst_named(name);
    let on = page_places(name);
    assert forall|x: int| 0 <= x < rif.pages.len() implies !on(#[trigger] rif.pages[x]) by {
        let before = rif.pages[x].instances;
        assert forall|s: int| 0 <= s < before.len() implies !q(#[trigger] before[s]) by {
            assert(!places(rif, x, s, name));
        }
        lemma_no_first(before, q);
    }
    lemma_no_first(rif.pages, on);
}

/// A field is found where it stands.
pub proof fn lemma_field(d: RegisterDefView, name: Seq<char>, k: int)
    requires
        is_field(d, name, k),
    ensures
        first(d.fields, field_named(name)) == Some(k),
{
    lemma_is_first(d.fields, field_named(name), k);
}

/// A field that is not there is not found.
pub proof fn lemma_no_field(d: RegisterDefView, name: Seq<char>)
    requires
        no_field(d, name),
    ensures
        first(d.fields, field_named(name)) is None,
{
    lemma_no_first(d.fields, field_named(name));
}

/// What is looked for by name stands at one place, or nowhere.
pub proof fn names_stand_once_or_nowhere(rif: RifDefView, name: Seq<char>)
    ensures
        no_def(rif, name) || exists|p: int, r: int| #[trigger] is_def(rif, name, p, r),
        no_inst(rif, name) || exists|p: int, k: int| #[trigger] is_inst(rif, name, p, k),
{
    let q = def_named(name);
    lemma_first(rif.pages, page_defines(name));
    match first(rif.pages, page_defines(name)) {
        Some(p) => {
            lemma_first(rif.pages[p].registers, q);
            let r = first(rif.pages[p].registers, q)->0;
            assert forall|x: int, s: int| x < p || (x == p && s < r) implies !#[trigger] defines(
                rif,
                x,
                s,
                name,
            ) by {
                if defines(rif, x, s, name) && x < p {
                    lemma_first(rif.pages[x].registers, q);
                    assert(q(rif.pages[x].registers[s]));
                    assert(page_defines(name)(rif.pages[x]));
                } else if defines(rif, x, s, name) {
                    assert(q(rif.pages[x].registers[s]));
                }
            }
            assert(q(rif.pages[p].registers[r]));
            assert(is_def(rif, name, p, r));
        },
        None => {
            assert forall|x: int, s: int| !#[trigger] defines(rif, x, s, name) by {
                if defines(rif, x, s, name) {
                    lemma_first(rif.pages[x].registers, q);
                    assert(q(rif.pages[x].registers[s]));
                    assert(page_defines(name)(rif.pages[x]));
                }
            }
        },
    }
    let q = inst_named(name);
    lemma_first(rif.pages, page_places(name));
    match first(rif.pages, page_places(name)) {
        Some(p) => {
            lemma_first(rif.pages[p].instances, q);
            let r = first(rif.pages[p].instances, q)->0;
            assert forall|x: int, s: int| x < p || (x == p && s < r) implies !#[trigger] places(
                rif,
                x,
                s,
                name,
            ) by {
                if places(rif, x, s, name) && x < p {
                    lemma_first(rif.pages[x].instances, q);
                    assert(q(rif.pages[x].instances[s]));
                    assert(page_places(name)(rif.pages[x]));
                } else if places(rif, x, s, name) {
                    assert(q(rif.pages[x].instances[s]));
                }
            }
            assert(q(rif.pages[p].instances[r]));
            assert(is_inst(rif, name, p, r));
        },
        None => {
            assert forall|x: int, s: int| !#[trigger] places(rif, x, s, name) by {
                if places(rif, x, s, name) {
                    lemma_first(rif.pages[x].instances, q);
                    assert(q(rif.pages[x].instances[s]));
                    assert(page_places(name)(rif.pages[x]));
                }
            }
        },
    }
}

} // verus!
