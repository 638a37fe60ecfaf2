//! Renames a RIF throughout the source.
use vstd::prelude::*;
use crate::model::rif::{
    Mux, MuxItem, MuxItemView, MuxView, PathEntry, PathEntryView, RifEntryView, Source, SourceView, Top,
    TopView,
};
use crate::search::{first, lemma_is_first, lemma_no_first};
use crate::source::{find_key, rif_keyed};
use crate::text::{from_chars, to_chars};

verus! {

/// A name without the affix that marks a RIF or a multiplexer of RIFs.
pub open spec fn bare_name(name: Seq<char>) -> Seq<char> {
    if "rif_"@.is_prefix_of(name) {
        name.skip(4)
    } else if "_rif"@.is_suffix_of(name) {
        name.take(name.len() - 4)
    } else if "rifmux_"@.is_prefix_of(name) {
        name.skip(7)
    } else if "_rifmux"@.is_suffix_of(name) {
        name.take(name.len() - 7)
    } else {
        name
    }
}

fn matches_at(cs: &Vec<char>, start: usize, part: &Vec<char>) -> (r: bool)
    requires
        start + part@.len() <= cs@.len(),
    ensures
        r == (cs@.subrange(start as int, start + part@.len()) == part@),
{
    let ghost window = cs@.subrange(start as int, start + part@.len());
    let n: usize = cs.len();
    let mut i: usize = 0;
    while i < part.len()
        invariant
            i <= part@.len(),
            start + part@.len() <= n == cs@.len(),
            window == cs@.subrange(start as int, start + part@.len()),
            forall|k: int| 0 <= k < i ==> window[k] == part@[k],
        decreases part@.len() - i,
    {
        if cs[start + i] != part[i] {
            proof {
                assert(window[i as int] != part@[i as int]);
            }
            return false;
        }
        i += 1;
    }
    proof {
        assert(window =~= part@);
    }
    true
}

fn has_prefix(cs: &Vec<char>, part: &str) -> (r: bool)
    ensures
        r == part@.is_prefix_of(cs@),
{
    let p = to_chars(part);
    if p.len() > cs.len() {
        return false;
    }
    matches_at(cs, 0, &p)
}

fn has_suffix(cs: &Vec<char>, part: &str) -> (r: bool)
    ensures
        r == part@.is_suffix_of(cs@),
{
    let p = to_chars(part);
    if p.len() > cs.len() {
        return false;
    }
    matches_at(cs, cs.len() - p.len(), &p)
}

/// A name without the affix that marks a RIF or a multiplexer of RIFs.
pub fn remove_rif(name: &str) -> (r: String)
    ensures
        r@ == bare_name(name@),
{
    let cs = to_chars(name);
    let n: usize = cs.len();
    proof {
        reveal_strlit("rif_");
        reveal_strlit("_rif");
        reveal_strlit("rifmux_");
        reveal_strlit("_rifmux");
    }
    let (from, to): (usize, usize) = if has_prefix(&cs, "rif_") {
        (4, n)
    } else if has_suffix(&cs, "_rif") {
        (0, n - 4)
    } else if has_prefix(&cs, "rifmux_") {
        (7, n)
    } else if has_suffix(&cs, "_rifmux") {
        (0, n - 7)
    } else {
        (0, n)
    };
    let r = from_chars(&cs, from, to);
    proof {
        assert(r@ =~= bare_name(name@));
    }
    r
}

/// The item of a multiplexer after a rename.
pub open spec fn item_renamed(i: MuxItemView, old_name: Seq<char>, new_name: Seq<char>) -> MuxItemView {
    if i.rif == Some(old_name) {
        MuxItemView { rif: Some(new_name), ..i }
    } else {
        i
    }
}

/// The multiplexer after a rename.
pub open spec fn mux_renamed(m: MuxView, old_name: Seq<char>, new_name: Seq<char>) -> MuxView {
    MuxView {
        items: Seq::new(m.items.len(), |i: int| item_renamed(m.items[i], old_name, new_name)),
        ..m
    }
}

/// The top after a rename.
pub open spec fn top_renamed(t: TopView, old_name: Seq<char>, new_name: Seq<char>) -> TopView {
    if t == TopView::Rif(old_name) {
        TopView::Rif(new_name)
    } else {
        t
    }
}

/// Whether a path is that of a name.
pub open spec fn path_keyed(key: Seq<char>) -> spec_fn(PathEntryView) -> bool {
    |p: PathEntryView| p.key == key
}

/// The paths with one set: in the place of an earlier one with that key, or else at the end.
pub open spec fn path_put(s: Seq<PathEntryView>, p: PathEntryView) -> Seq<PathEntryView> {
    match first(s, path_keyed(p.key)) {
        Some(k) => s.update(k, p),
        None => s.push(p),
    }
}

/// The paths after a rename: the directory of the old name goes to the new one.
pub open spec fn paths_renamed(s: Seq<PathEntryView>, old_key: Seq<char>, new_key: Seq<char>) -> Seq<
    PathEntryView,
> {
    match first(s, path_keyed(old_key)) {
        Some(k) => path_put(s.remove(k), PathEntryView { key: new_key, dir: s[k].dir }),
        None => s,
    }
}

/// The RIFs after a rename: the one that is kept under the old name is kept under the new one.
pub open spec fn keys_renamed(s: Seq<RifEntryView>, old_name: Seq<char>, new_name: Seq<char>) -> Seq<
    RifEntryView,
> {
    match first(s, rif_keyed(old_name)) {
        Some(k) => s.update(k, RifEntryView { key: new_name, ..s[k] }),
        None => s,
    }
}

/// The source after a rename: everything that refers to the RIF follows.
pub open spec fn rif_renamed(src: SourceView, old_name: Seq<char>, new_name: Seq<char>) -> SourceView {
    SourceView {
        top: top_renamed(src.top, old_name, new_name),
        rifs: keys_renamed(src.rifs, old_name, new_name),
        rifmux: Seq::new(src.rifmux.len(), |i: int| mux_renamed(src.rifmux[i], old_name, new_name)),
        paths: paths_renamed(src.paths, bare_name(old_name), bare_name(new_name)),
    }
}

/// After a rename nothing refers to the old name any more, where the names differ.
pub proof fn rename_leaves_no_reference(src: SourceView, old_name: Seq<char>, new_name: Seq<char>)
    requires
        old_name != new_name,
    ensures
        rif_renamed(src, old_name, new_name).top != TopView::Rif(old_name),
        forall|m: int, i: int|
            0 <= m < src.rifmux.len() && 0 <= i < src.rifmux[m].items.len() ==> (
            #[trigger] rif_renamed(src, old_name, new_name).rifmux[m].items[i]).rif != Some(old_name),
{
}

fn rename_mux(m: &Mux, old_name: &String, new_name: &String) -> (r: Mux)
    ensures
        r@ == mux_renamed(m@, old_name@, new_name@),
{
    let ghost want = mux_renamed(m@, old_name@, new_name@).items;
    let mut items: Vec<MuxItem> = Vec::new();
    let mut i: usize = 0;
    while i < m.items.len()
        invariant
            i <= m.items@.len(),
            items@.len() == i,
            want == mux_renamed(m@, old_name@, new_name@).items,
            forall|k: int| 0 <= k < i ==> (#[trigger] items@[k])@ == want[k],
        decreases m.items@.len() - i,
    {
        proof {
            assert(m@.items[i as int] == m.items@[i as int]@);
        }
        let mut item = m.items[i].clone();
        let here = match &m.items[i].rif {
            Some(n) => *n == *old_name,
            None => false,
        };
        if here {
            item.rif = Some(new_name.clone());
        }
        items.push(item);
        i += 1;
    }
    let r = Mux { name: m.name.clone(), items };
    proof {
        assert(r.items.deep_view() =~= want);
    }
    r
}

fn rename_muxes(ms: &Vec<Mux>, old_name: &String, new_name: &String) -> (r: Vec<Mux>)
    ensures
        r.deep_view() == Seq::new(
            ms.deep_view().len(),
            |i: int| mux_renamed(ms.deep_view()[i], old_name@, new_name@),
        ),
{
    let ghost s = ms.deep_view();
    let mut r: Vec<Mux> = Vec::new();
    let mut i: usize = 0;
    while i < ms.len()
        invariant
            i <= ms@.len(),
            s == ms.deep_view(),
            r@.len() == i,
            forall|k: int| 0 <= k < i ==> (#[trigger] r@[k])@ == mux_renamed(s[k], old_name@, new_name@),
        decreases ms@.len() - i,
    {
        proof {
            assert(s[i as int] == ms@[i as int]@);
        }
        r.push(rename_mux(&ms[i], old_name, new_name));
        i += 1;
    }
    proof {
        assert(r.deep_view() =~= Seq::new(s.len(), |i: int| mux_renamed(s[i], old_name@, new_name@)));
    }
    r
}

/// Looks for the path of a name.
pub fn find_path(ps: &Vec<PathEntry>, key: &String) -> (r: Option<usize>)
    ensures
        match first(ps.deep_view(), path_keyed(key@)) {
            Some(k) => r is Some && r->0 == k && k < ps@.len(),
            None => r is None,
        },
{
    let ghost s = ps.deep_view();
    let ghost p = path_keyed(key@);
    let mut i: usize = 0;
    while i < ps.len()
        invariant
            i <= ps@.len(),
            s == ps.deep_view(),
            p == path_keyed(key@),
            forall|j: int| 0 <= j < i ==> !p(s[j]),
        decreases ps@.len() - i,
    {
        if ps[i].key == *key {
            proof {
                lemma_is_first(s, p, i as int);
            }
            return Some(i);
        }
        i += 1;
    }
    proof {
        lemma_no_first(s, p);
    }
    None
}

fn rename_path(ps: &mut Vec<PathEntry>, old_key: &String, new_key: String)
    ensures
        final(ps).deep_view() == paths_renamed(old(ps).deep_view(), old_key@, new_key@),
{
    let ghost s = ps.deep_view();
    if let Some(k) = find_path(ps, old_key) {
        let was = ps.remove(k);
        proof {
            assert(ps.deep_view() =~= s.remove(k as int));
            assert(was@ == s[k as int]);
        }
        let ghost rest = ps.deep_view();
        let place = find_path(ps, &new_key);
        let entry = PathEntry { key: new_key, dir: was.dir };
        let ghost now = entry@;
        match place {
            Some(j) => {
                ps[j] = entry;
                proof {
                    assert(ps.deep_view() =~= rest.update(j as int, now));
                }
            },
            None => {
                ps.push(entry);
                proof {
                    assert(ps.deep_view() =~= rest.push(now));
                }
            },
        }
    }
}

/// Renames a RIF: everything that refers to it follows.
pub fn rename_rif(src: &mut Source, old_name: &String, new_name: &String)
    ensures
        final(src)@ == rif_renamed(old(src)@, old_name@, new_name@),
{
    let ghost before = src@;
    let is_top = match &src.top {
        Top::Rif(n) => *n == *old_name,
        _ => false,
    };
    if is_top {
        src.top = Top::Rif(new_name.clone());
    }
    let muxes = rename_muxes(&src.rifmux, old_name, new_name);
    src.rifmux = muxes;
    let old_key = remove_rif(old_name.as_str());
    let new_key = remove_rif(new_name.as_str());
    rename_path(&mut src.paths, &old_key, new_key);
    if let Some(k) = find_key(&src.rifs, old_name) {
        let ghost rifs = src.rifs.deep_view();
        let ghost entry = src.rifs@[k as int]@;
        src.rifs[k].key = new_name.clone();
        proof {
            assert(src.rifs@[k as int]@ == (RifEntryView { key: new_name@, ..entry }));
            assert(rifs[k as int] == entry);
            assert(src.rifs.deep_view() =~= rifs.update(k as int, src.rifs@[k as int]@));
        }
    }
}

} // verus!
