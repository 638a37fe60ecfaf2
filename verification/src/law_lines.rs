//! What is written for items that are not in the file yet, and where a block of the file ends.
use vstd::prelude::*;
use crate::bridge::{field_decl, reg_decl, reg_prop_line};
use crate::law_field::prop_now;
use crate::model::page::{InstanceView, RegOvrView};
use crate::model::props::{FieldOverrideProp, FieldProp, RegOverrideProp, RegProp};
use crate::model::register::{FieldDefView, RegisterDefView};
use crate::model::rif::{EnumItemView, RifDefView};
use crate::model::values::{EnumRefView, WriteLockView};
use crate::plan::{block_last, block_last_from, indent_width, lines_of};
use crate::printed::{field_line, reg_line};
use crate::save_page::{
    each_field_lines, each_field_ovr_lines, opt_line, ovr_prop_lines, reg_prop_lines, whole_inst, whole_reg,
};
use crate::save_reg::{block_lines, entry_lines, field_entries, field_lines, field_prop_lines};
use crate::search::{first, lemma_first, lemma_is_first};
use crate::source::{enum_named, locate_reg};
use crate::syntax::{desc_block, enum_line, field_ovr_line, inst_decl, override_desc_block, reg_ovr_line};
use crate::text::trimmed;

verus! {

/// Whether lines stand in a text from a place on.
pub open spec fn stand_at(text: Seq<Seq<char>>, at: int, lines: Seq<Seq<char>>) -> bool {
    &&& 0 <= at
    &&& at + lines.len() <= text.len()
    &&& forall|i: int| 0 <= i < lines.len() ==> #[trigger] text[at + i] == lines[i]
}

/// How many of the first `n` properties of a field have a line.
pub open spec fn props_before(f: FieldDefView, n: int) -> nat
    decreases n,
{
    if n <= 0 {
        0
    } else if prop_now(f, FieldProp::at_index(n - 1)) is Some {
        props_before(f, n - 1) + 1
    } else {
        props_before(f, n - 1)
    }
}

proof fn lemma_prop_lines(f: FieldDefView, inner: Seq<char>, n: int)
    requires
        0 <= n <= 12,
    ensures
        field_prop_lines(f, inner, n).len() == props_before(f, n),
        forall|q: FieldProp|
            q.index() < n ==> props_before(f, #[trigger] q.index()) <= props_before(f, n),
        forall|q: FieldProp|
            q.index() < n ==> (prop_now(f, q) matches Some(t) ==> props_before(f, #[trigger] q.index()) < props_before(
                f,
                n,
            ) && field_prop_lines(f, inner, n)[props_before(f, q.index()) as int] == inner + t),
    decreases n,
{
    if n > 0 {
        lemma_prop_lines(f, inner, n - 1);
        let p = FieldProp::at_index(n - 1);
        assert(p.index() == n - 1);
        assert(prop_now(f, p) == field_line(f, p));
        assert forall|q: FieldProp| #[trigger] q.index() == n - 1 implies q == p by {}
    }
}

/// The entries that are written with a field: those of its enum, where that is not in the file yet.
pub open spec fn enum_brought(rif: RifDefView, f: FieldDefView) -> Seq<EnumItemView> {
    match f.enum_kind {
        EnumRefView::Plain => seq![],
        EnumRefView::Doc(name) => new_enum(rif, name),
        EnumRefView::Type(name) => new_enum(rif, name),
    }
}

/// The entries of an enum of that name that is not in the file yet.
pub open spec fn new_enum(rif: RifDefView, name: Seq<char>) -> Seq<EnumItemView> {
    if exists|k: int| #[trigger] crate::law_rif::is_enum(rif, name, k) && rif.enum_defs[k].decl_line is None {
        let k = choose|k: int| #[trigger]
            crate::law_rif::is_enum(rif, name, k) && rif.enum_defs[k].decl_line is None;
        rif.enum_defs[k].values
    } else {
        seq![]
    }
}

proof fn lemma_new_enum(rif: RifDefView, name: Seq<char>, indent: Seq<char>)
    ensures
        entry_lines(rif.enum_defs, name, indent) =~= Seq::new(
            new_enum(rif, name).len(),
            |i: int| indent + enum_line(new_enum(rif, name)[i]),
        ),
{
    let q = enum_named(name);
    lemma_first(rif.enum_defs, q);
    match first(rif.enum_defs, q) {
        Some(k) => {
            assert forall|j: int| 0 <= j < k implies (#[trigger] rif.enum_defs[j]).name != name by {
                assert(!q(rif.enum_defs[j]));
            }
            assert(crate::law_rif::is_enum(rif, name, k));
            assert forall|j: int| #[trigger] crate::law_rif::is_enum(rif, name, j) implies j == k by {
                lemma_is_first(rif.enum_defs, q, j);
            }
        },
        None => {
            assert forall|j: int| !#[trigger] crate::law_rif::is_enum(rif, name, j) by {
                if crate::law_rif::is_enum(rif, name, j) {
                    assert(q(rif.enum_defs[j]));
                }
            }
        },
    }
}

/// A field that is not in the file yet is written whole: its declaration; directly behind it, one step
/// further in and in their order, the line of every property that has one; then its description block;
/// then, another step further in, the entries of its enum, where that is not in the file yet either.
pub proof fn new_field_is_written_whole(rif: RifDefView, f: FieldDefView, indent: Seq<char>)
    ensures
        ({
            let ls = field_lines(rif, f, indent);
            let n = props_before(f, 12) as int;
            let block: Seq<Seq<char>> = match desc_block(f.description) {
                Some(b) => b,
                None => seq![],
            };
            let entries = enum_brought(rif, f);
            &&& ls.len() == 1 + n + block.len() + entries.len()
            &&& ls[0] == indent + field_decl(f)
            &&& forall|q: FieldProp|
                prop_now(f, q) matches Some(t) ==> ls[1int + props_before(f, #[trigger] q.index())] == indent + "  "@ + t
            &&& forall|i: int| 0 <= i < block.len() ==> #[trigger] ls[1 + n + i] == indent + "  "@ + block[i]
            &&& forall|i: int|
                0 <= i < entries.len() ==> #[trigger] ls[1 + n + block.len() + i] == indent + "  "@ + "  "@ + enum_line(
                    entries[i],
                )
        }),
{
    let inner = indent + "  "@;
    let ls = field_lines(rif, f, indent);
    lemma_prop_lines(f, inner, 12);
    let n = props_before(f, 12) as int;
    let props = field_prop_lines(f, inner, 12);
    let block = block_lines(desc_block(f.description), inner);
    let entries = field_entries(rif, f, inner + "  "@);
    match f.enum_kind {
        EnumRefView::Doc(name) => {
            lemma_new_enum(rif, name, inner + "  "@);
        },
        EnumRefView::Type(name) => {
            lemma_new_enum(rif, name, inner + "  "@);
        },
        EnumRefView::Plain => {},
    }
    assert(entries =~= Seq::new(
        enum_brought(rif, f).len(),
        |i: int| inner + "  "@ + enum_line(enum_brought(rif, f)[i]),
    ));
    assert(ls == seq![indent + field_decl(f)] + props + block + entries);
    assert forall|q: FieldProp| prop_now(f, q) is Some implies ls[1int + props_before(f, #[trigger] q.index())] == inner
        + prop_now(f, q)->0 by {
        assert(q.index() < 12);
        assert(ls[1int + props_before(f, q.index())] == props[props_before(f, q.index()) as int]);
    }
    assert forall|i: int| 0 <= i < block.len() implies #[trigger] ls[1 + n + i] == block[i] by {}
    assert forall|i: int| 0 <= i < entries.len() implies #[trigger] ls[1 + n + block.len() + i] == entries[i] by {}
}

/// The line of a property of a register. A lock that cannot be printed has none.
pub open spec fn reg_prop_now(d: RegisterDefView, q: RegProp) -> Option<Seq<char>> {
    if q != RegProp::Lock {
        reg_prop_line(d, q)
    } else {
        match d.lock {
            WriteLockView::Expr(t) => Some("lock "@ + t),
            WriteLockView::Open => None,
            WriteLockView::Complex => None,
        }
    }
}

/// How many of the first `n` properties of a register have a line.
pub open spec fn reg_props_before(d: RegisterDefView, n: int) -> nat
    decreases n,
{
    if n <= 0 {
        0
    } else if reg_prop_now(d, RegProp::at_index(n - 1)) is Some {
        reg_props_before(d, n - 1) + 1
    } else {
        reg_props_before(d, n - 1)
    }
}

proof fn lemma_reg_prop_lines(d: RegisterDefView, inner: Seq<char>, n: int)
    requires
        0 <= n <= 10,
    ensures
        reg_prop_lines(d, inner, n).len() == reg_props_before(d, n),
        forall|q: RegProp|
            q.index() < n ==> (reg_prop_now(d, q) matches Some(t) ==> reg_props_before(d, #[trigger] q.index())
                < reg_props_before(d, n) && reg_prop_lines(d, inner, n)[reg_props_before(d, q.index()) as int] == inner
                + t),
    decreases n,
{
    if n > 0 {
        lemma_reg_prop_lines(d, inner, n - 1);
        let p = RegProp::at_index(n - 1);
        assert(p.index() == n - 1);
        assert(reg_prop_now(d, p) == reg_line(d, p));
        assert forall|q: RegProp| #[trigger] q.index() == n - 1 implies q == p by {}
    }
}

/// Where the lines of the `k`-th of some items start, behind each other.
pub open spec fn start_of<T>(s: Seq<T>, f: spec_fn(T) -> Seq<Seq<char>>, k: int) -> nat
    decreases k,
{
    if k <= 0 {
        0
    } else {
        start_of(s, f, k - 1) + f(s[k - 1]).len()
    }
}

proof fn lemma_lines_of<T>(s: Seq<T>, f: spec_fn(T) -> Seq<Seq<char>>, n: int)
    requires
        0 <= n <= s.len(),
    ensures
        lines_of(s, f, n).len() == start_of(s, f, n),
        forall|k: int|
            0 <= k < n ==> stand_at(lines_of(s, f, n), start_of(s, f, k) as int, f(#[trigger] s[k])),
    decreases n,
{
    if n > 0 {
        lemma_lines_of(s, f, n - 1);
        let (a, b) = (lines_of(s, f, n - 1), lines_of(s, f, n));
        assert forall|k: int| 0 <= k < n implies stand_at(b, start_of(s, f, k) as int, f(#[trigger] s[k])) by {
            if k < n - 1 {
                let at = start_of(s, f, k) as int;
                assert(stand_at(a, at, f(s[k])));
                assert forall|i: int| 0 <= i < f(s[k]).len() implies #[trigger] b[at + i] == f(s[k])[i] by {
                    assert(a[at + i] == f(s[k])[i]);
                }
            }
        }
    }
}

/// The lines of a field at a depth.
pub open spec fn lines_of_field(rif: RifDefView, indent: Seq<char>) -> spec_fn(FieldDefView) -> Seq<Seq<char>> {
    |f: FieldDefView| field_lines(rif, f, indent)
}

/// A register that is not in the file yet is written whole: its declaration; directly behind it, one
/// step further in and in their order, the line of every property that has one; then its description
/// block; then each of its fields, whole and in their order.
pub proof fn new_register_is_written_whole(rif: RifDefView, d: RegisterDefView, indent: Seq<char>)
    ensures
        ({
            let ls = whole_reg(rif, d, indent);
            let n = reg_props_before(d, 10) as int;
            let block: Seq<Seq<char>> = match desc_block(d.description) {
                Some(b) => b,
                None => seq![],
            };
            let each = lines_of_field(rif, indent + "  "@);
            let head = 1 + n + block.len();
            &&& ls.len() == head + start_of(d.fields, each, d.fields.len() as int)
            &&& ls[0] == indent + reg_decl(d)
            &&& forall|q: RegProp|
                reg_prop_now(d, q) matches Some(t) ==> ls[1int + reg_props_before(d, #[trigger] q.index())] == indent
                    + "  "@ + t
            &&& forall|i: int| 0 <= i < block.len() ==> #[trigger] ls[1 + n + i] == indent + "  "@ + block[i]
            &&& forall|k: int|
                0 <= k < d.fields.len() ==> stand_at(
                    ls,
                    head + start_of(d.fields, each, k),
                    field_lines(rif, #[trigger] d.fields[k], indent + "  "@),
                )
        }),
{
    let inner = indent + "  "@;
    let ls = whole_reg(rif, d, indent);
    lemma_reg_prop_lines(d, inner, 10);
    let n = reg_props_before(d, 10) as int;
    let props = reg_prop_lines(d, inner, 10);
    let block = block_lines(desc_block(d.description), inner);
    let each = lines_of_field(rif, inner);
    assert(each_field_lines(rif, inner) == each);
    let fields = lines_of(d.fields, each, d.fields.len() as int);
    lemma_lines_of(d.fields, each, d.fields.len() as int);
    assert(ls == seq![indent + reg_decl(d)] + props + block + fields);
    assert forall|q: RegProp| reg_prop_now(d, q) is Some implies ls[1int + reg_props_before(d, #[trigger] q.index())]
        == inner + reg_prop_now(d, q)->0 by {
        assert(q.index() < 10);
        assert(ls[1int + reg_props_before(d, q.index())] == props[reg_props_before(d, q.index()) as int]);
    }
    assert forall|i: int| 0 <= i < block.len() implies #[trigger] ls[1 + n + i] == block[i] by {}
    let head = 1 + n + block.len();
    assert forall|k: int| 0 <= k < d.fields.len() implies stand_at(
        ls,
        head + start_of(d.fields, each, k),
        field_lines(rif, #[trigger] d.fields[k], inner),
    ) by {
        let at = start_of(d.fields, each, k) as int;
        let own = field_lines(rif, d.fields[k], inner);
        assert(stand_at(fields, at, each(d.fields[k])));
        assert forall|i: int| 0 <= i < own.len() implies #[trigger] ls[head + at + i] == own[i] by {
            assert(fields[at + i] == own[i]);
        }
    }
}

/// Whether a line is among others.
pub open spec fn has(ls: Seq<Seq<char>>, t: Seq<char>) -> bool {
    ls.contains(t)
}

proof fn lemma_ovr_prop_lines(o: RegOvrView, inner: Seq<char>, n: int)
    requires
        0 <= n <= 4,
    ensures
        forall|q: RegOverrideProp|
            #[trigger] q.index() < n ==> (reg_ovr_line(o, q) matches Some(t) ==> has(
                ovr_prop_lines(o, inner, n),
                inner + t,
            )),
    decreases n,
{
    if n > 0 {
        lemma_ovr_prop_lines(o, inner, n - 1);
        let p = RegOverrideProp::at_index(n - 1);
        assert(p.index() == n - 1);
        let (a, b) = (ovr_prop_lines(o, inner, n - 1), ovr_prop_lines(o, inner, n));
        assert forall|q: RegOverrideProp| #[trigger] q.index() < n && reg_ovr_line(o, q) is Some implies has(
            b,
            inner + reg_ovr_line(o, q)->0,
        ) by {
            let t = inner + reg_ovr_line(o, q)->0;
            if q.index() < n - 1 {
                assert(has(a, t));
                let k = choose|k: int| 0 <= k < a.len() && a[k] == t;
                assert(b[k] == t);
            } else {
                assert(q == p);
                assert(b[a.len() as int] == t);
            }
        }
    }
}

/// An instance that is not in the file yet is written whole: its declaration, and one step further in
/// the line of everything that it overrides, for its register and for the fields of its register.
pub proof fn new_instance_is_written_whole(rif: RifDefView, i: InstanceView, indent: Seq<char>)
    ensures
        ({
            let ls = whole_inst(rif, i, indent);
            let inner = indent + "  "@;
            &&& ls.len() > 0 && ls[0] == indent + inst_decl(i)
            &&& i.reg_override is None ==> ls.len() == 1
            &&& i.reg_override matches Some(o) ==> {
                &&& forall|q: RegOverrideProp|
                    reg_ovr_line(o, q) matches Some(t) ==> #[trigger] q.index() < 4 && has(ls, inner + t)
                &&& override_desc_block(o.description) matches Some(b) ==> forall|j: int|
                    0 <= j < b.len() ==> has(ls, inner + #[trigger] b[j])
                &&& forall|p: int, r: int, k: int, m: int|
                    #![trigger crate::law_place::is_def(rif, i.reg_type, p, r), o.fields[k], crate::law_place::is_field(
                        crate::law_place::the_def(rif, p, r),
                        o.fields[k].field,
                        m,
                    )]
                    crate::law_place::is_def(rif, i.reg_type, p, r) && 0 <= k < o.fields.len()
                        && crate::law_place::is_field(crate::law_place::the_def(rif, p, r), o.fields[k].field, m)
                        && crate::law_place::the_def(rif, p, r).fields[m].reset.len() > 0 ==> {
                        let own = crate::law_place::the_def(rif, p, r).fields[m].reset[0];
                        &&& field_ovr_line(o.fields[k], FieldOverrideProp::Description, own) matches Some(t) ==> has(
                            ls,
                            inner + t,
                        )
                        &&& field_ovr_line(o.fields[k], FieldOverrideProp::Reset, own) matches Some(t) ==> has(
                            ls,
                            inner + t,
                        )
                    }
            }
        }),
{
    let ls = whole_inst(rif, i, indent);
    let inner = indent + "  "@;
    if let Some(o) = i.reg_override {
        let decl = seq![indent + inst_decl(i)];
        let props = ovr_prop_lines(o, inner, 4);
        let block = block_lines(override_desc_block(o.description), inner);
        let fields: Seq<Seq<char>> = match locate_reg(rif, i.reg_type) {
            Some(at) => lines_of(
                o.fields,
                each_field_ovr_lines(crate::source::reg_at(rif, at), inner),
                o.fields.len() as int,
            ),
            None => seq![],
        };
        assert(ls =~= decl + props + block + fields);
        lemma_ovr_prop_lines(o, inner, 4);
        assert forall|t: Seq<char>| has(props, t) || has(block, t) || has(fields, t) implies #[trigger] has(ls, t) by {
            crate::law_rif::lemma_both(decl, props, t);
            crate::law_rif::lemma_both(decl + props, block, t);
            crate::law_rif::lemma_both(decl + props + block, fields, t);
        }
        assert forall|q: RegOverrideProp| reg_ovr_line(o, q) is Some implies #[trigger] q.index() < 4 && has(
            ls,
            inner + reg_ovr_line(o, q)->0,
        ) by {
            assert(q.index() < 4);
            assert(has(props, inner + reg_ovr_line(o, q)->0));
        }
        if let Some(b) = override_desc_block(o.description) {
            assert forall|j: int| 0 <= j < b.len() implies has(ls, inner + #[trigger] b[j]) by {
                assert(block[j] == inner + b[j]);
                assert(has(block, inner + b[j]));
            }
        }
        assert forall|p: int, r: int, k: int, m: int|
            #![trigger crate::law_place::is_def(rif, i.reg_type, p, r), o.fields[k], crate::law_place::is_field(
                crate::law_place::the_def(rif, p, r),
                o.fields[k].field,
                m,
            )]
            crate::law_place::is_def(rif, i.reg_type, p, r) && 0 <= k < o.fields.len() && crate::law_place::is_field(
                crate::law_place::the_def(rif, p, r),
                o.fields[k].field,
                m,
            ) && crate::law_place::the_def(rif, p, r).fields[m].reset.len() > 0 implies {
            let own = crate::law_place::the_def(rif, p, r).fields[m].reset[0];
            &&& field_ovr_line(o.fields[k], FieldOverrideProp::Description, own) matches Some(t) ==> has(ls, inner + t)
            &&& field_ovr_line(o.fields[k], FieldOverrideProp::Reset, own) matches Some(t) ==> has(ls, inner + t)
        } by {
            let d = crate::law_place::the_def(rif, p, r);
            crate::law_place::lemma_def(rif, i.reg_type, p, r);
            crate::law_place::lemma_field(d, o.fields[k].field, m);
            let own = d.fields[m].reset[0];
            let each = each_field_ovr_lines(d, inner);
            lemma_lines_of(o.fields, each, o.fields.len() as int);
            let at = start_of(o.fields, each, k) as int;
            let mine = each(o.fields[k]);
            assert(stand_at(fields, at, mine));
            let a = opt_line(field_ovr_line(o.fields[k], FieldOverrideProp::Description, own), inner);
            let b = opt_line(field_ovr_line(o.fields[k], FieldOverrideProp::Reset, own), inner);
            assert(mine == a + b);
            if let Some(t) = field_ovr_line(o.fields[k], FieldOverrideProp::Description, own) {
                assert(mine[0] == inner + t);
                assert(fields[at + 0] == inner + t);
                assert(has(fields, inner + t));
            }
            if let Some(t) = field_ovr_line(o.fields[k], FieldOverrideProp::Reset, own) {
                assert(mine[a.len() as int] == inner + t);
                assert(fields[at + a.len()] == inner + t);
                assert(has(fields, inner + t));
            }
        }
    }
}

/// Whether a line is blank.
pub open spec fn blank(line: Seq<char>) -> bool {
    trimmed(line).len() == 0
}

proof fn lemma_block_end(lines: Seq<Seq<char>>, width: nat, i: int, last: int)
    requires
        0 <= last < i <= lines.len(),
        forall|j: int| last < j < i ==> blank(#[trigger] lines[j]),
    ensures
        ({
            let k = block_last_from(lines, width, i, last);
            &&& last <= k < lines.len()
            &&& k > last ==> !blank(lines[k]) && indent_width(lines[k]) > width
            &&& forall|j: int| last < j <= k ==> blank(#[trigger] lines[j]) || indent_width(lines[j]) > width
            &&& (exists|m: int|
                k < m < lines.len() && !blank(#[trigger] lines[m]) && indent_width(lines[m]) <= width && forall|j: int|
                    k < j < m ==> blank(#[trigger] lines[j])) || (forall|j: int|
                k < j < lines.len() ==> blank(#[trigger] lines[j]))
        }),
    decreases lines.len() - i,
{
    if i < lines.len() {
        if blank(lines[i]) {
            lemma_block_end(lines, width, i + 1, last);
        } else if indent_width(lines[i]) > width {
            lemma_block_end(lines, width, i + 1, i);
        }
    }
}

/// The block that a line of the file starts holds the lines behind it that are indented more, up to
/// the last of them in front of the first that is not; blank lines within it belong to it, and blank
/// lines behind it do not.
pub proof fn block_holds_what_is_indented_more(lines: Seq<Seq<char>>, i: int)
    requires
        0 <= i < lines.len(),
    ensures
        ({
            let k = block_last(lines, i);
            let width = indent_width(lines[i]);
            &&& i <= k < lines.len()
            &&& k > i ==> !blank(lines[k]) && indent_width(lines[k]) > width
            &&& forall|j: int| i < j <= k ==> blank(#[trigger] lines[j]) || indent_width(lines[j]) > width
            &&& (exists|m: int|
                k < m < lines.len() && !blank(#[trigger] lines[m]) && indent_width(lines[m]) <= width && forall|j: int|
                    k < j < m ==> blank(#[trigger] lines[j])) || (forall|j: int|
                k < j < lines.len() ==> blank(#[trigger] lines[j]))
        }),
{
    lemma_block_end(lines, indent_width(lines[i]), i + 1, i);
}

} // verus!
