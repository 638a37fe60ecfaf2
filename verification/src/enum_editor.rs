//! Editor of an enum.
use vstd::prelude::*;
use vstd::arithmetic::power2::{lemma2_to64, lemma_pow2_strictly_increases, lemma_pow2_unfold, pow2};
use crate::action::{EditAction, EditActionView};
use crate::model::rif::{EnumItem, EnumItemView, EnumType, EnumTypeView};
use crate::model::values::{Desc, DescView};
use crate::number::{
    decimal, decimal_is_trimmed, decimal_reads_back, prefixed_unsigned, read_prefixed_unsigned, show_unsigned,
};
use crate::search::first;
use crate::source::{enum_named, find_enum};
use crate::syntax::short_desc;
use crate::text::{join, join3, to_chars, trim, trimmed};

verus! {

/// One row of the enum table.
#[derive(Debug)]
pub struct EnumEntryRow {
    /// Line of the entry; `None` for one that is not in the file yet.
    pub src_line: Option<usize>,
    /// Name.
    pub name: String,
    /// Value.
    pub value: String,
    /// Number that the entry stands for, in a field with fractional bits; blank for none.
    pub repr: String,
    /// Description.
    pub desc: String,
}

/// The value of a [`EnumEntryRow`].
pub struct EnumEntryRowView {
    pub src_line: Option<usize>,
    pub name: Seq<char>,
    pub value: Seq<char>,
    pub repr: Seq<char>,
    pub desc: Seq<char>,
}

impl DeepView for EnumEntryRow {
    type V = EnumEntryRowView;

    open spec fn deep_view(&self) -> EnumEntryRowView {
        EnumEntryRowView {
            src_line: self.src_line,
            name: self.name.deep_view(),
            value: self.value.deep_view(),
            repr: self.repr.deep_view(),
            desc: self.desc.deep_view(),
        }
    }
}

impl View for EnumEntryRow {
    type V = EnumEntryRowView;

    open spec fn view(&self) -> EnumEntryRowView {
        self.deep_view()
    }
}

/// Buffers for the enum table.
#[derive(Debug)]
pub struct EnumEditor {
    /// RIF.
    pub rif_type: String,
    /// Name of the enum.
    pub name: String,
    /// Name when the table was opened.
    pub orig_name: String,
    /// Entries.
    pub rows: Vec<EnumEntryRow>,
    /// Whether the field has fractional bits.
    pub has_frac: bool,
    /// Width of the field.
    pub width: u8,
    /// What is wrong with the buffers.
    pub parse_err: Option<String>,
}

/// The value of a [`EnumEditor`].
pub struct EnumEditorView {
    pub rif_type: Seq<char>,
    pub name: Seq<char>,
    pub orig_name: Seq<char>,
    pub rows: Seq<EnumEntryRowView>,
    pub has_frac: bool,
    pub width: u8,
    pub parse_err: Option<Seq<char>>,
}

impl DeepView for EnumEditor {
    type V = EnumEditorView;

    open spec fn deep_view(&self) -> EnumEditorView {
        EnumEditorView {
            rif_type: self.rif_type.deep_view(),
            name: self.name.deep_view(),
            orig_name: self.orig_name.deep_view(),
            rows: self.rows.deep_view(),
            has_frac: self.has_frac,
            width: self.width,
            parse_err: self.parse_err.deep_view(),
        }
    }
}

impl View for EnumEditor {
    type V = EnumEditorView;

    open spec fn view(&self) -> EnumEditorView {
        self.deep_view()
    }
}

/// What a byte is read as, in hexadecimal behind `0x`; otherwise the text of the error.
pub open spec fn u8_parsed(s: Seq<char>) -> Result<u8, Seq<char>> {
    let t = trimmed(s);
    match prefixed_unsigned(t) {
        Some(v) if v <= u8::MAX => Ok(v as u8),
        _ => Err("Invalid value '"@ + t + "'"@),
    }
}

/// Reads a byte, in hexadecimal behind `0x`.
pub fn parse_u8(s: &str) -> (r: Result<u8, String>)
    ensures
        match u8_parsed(s@) {
            Ok(v) => r == Ok::<u8, String>(v),
            Err(e) => r is Err && r->Err_0@ == e,
        },
{
    let t = trim(s);
    if let Some(v) = read_prefixed_unsigned(t.as_str()) {
        if v <= 0xff {
            return Ok(v as u8);
        }
    }
    Err(join3("Invalid value '", t.as_str(), "'"))
}

/// The row of an entry.
pub open spec fn row_of(e: EnumItemView) -> EnumEntryRowView {
    EnumEntryRowView {
        src_line: e.decl_line,
        name: e.name,
        value: decimal(e.value as int),
        repr: match e.repr {
            Some(t) => t,
            None => seq![],
        },
        desc: short_desc(e.description, false),
    }
}

/// The largest value of the first `n` rows that have one.
pub open spec fn largest(rows: Seq<EnumEntryRowView>, n: int) -> Option<u8>
    decreases n,
{
    if n <= 0 {
        None
    } else {
        match (largest(rows, n - 1), u8_parsed(rows[n - 1].value)) {
            (Some(m), Ok(v)) => Some(
                if v > m {
                    v
                } else {
                    m
                },
            ),
            (None, Ok(v)) => Some(v),
            (m, Err(_)) => m,
        }
    }
}

/// The value after the largest one; the largest byte where there is none after it.
pub open spec fn next_value(rows: Seq<EnumEntryRowView>) -> u8 {
    match largest(rows, rows.len() as int) {
        Some(m) => if m < u8::MAX {
            (m + 1) as u8
        } else {
            m
        },
        None => 0,
    }
}

/// A new row.
pub open spec fn new_row(rows: Seq<EnumEntryRowView>) -> EnumEntryRowView {
    EnumEntryRowView {
        src_line: None,
        name: seq![],
        value: decimal(next_value(rows) as int),
        repr: seq![],
        desc: seq![],
    }
}

impl EnumEntryRow {
    /// The row of an entry.
    pub fn from_entry(e: &EnumItem) -> (r: Self)
        ensures
            r@ == row_of(e@),
    {
        EnumEntryRow {
            src_line: e.decl_line,
            name: e.name.clone(),
            value: show_unsigned(e.value as u128),
            repr: match &e.repr {
                Some(t) => t.clone(),
                None => String::new(),
            },
            desc: e.description.short(false),
        }
    }

    /// A new row, with the value after the largest one that is there.
    pub fn next_default(existing: &Vec<EnumEntryRow>) -> (r: Self)
        ensures
            r@ == new_row(existing.deep_view()),
    {
        let ghost rows = existing.deep_view();
        let mut m: Option<u8> = None;
        let mut i: usize = 0;
        while i < existing.len()
            invariant
                i <= existing@.len(),
                rows == existing.deep_view(),
                m == largest(rows, i as int),
            decreases existing@.len() - i,
        {
            proof {
                assert(rows[i as int] == existing@[i as int]@);
            }
            if let Ok(v) = parse_u8(existing[i].value.as_str()) {
                m = match m {
                    Some(x) => Some(
                        if v > x {
                            v
                        } else {
                            x
                        },
                    ),
                    None => Some(v),
                };
            }
            i += 1;
        }
        let value: u8 = match m {
            Some(x) => if x < u8::MAX {
                x + 1
            } else {
                x
            },
            None => 0,
        };
        EnumEntryRow {
            src_line: None,
            name: String::new(),
            value: show_unsigned(value as u128),
            repr: String::new(),
            desc: String::new(),
        }
    }
}

/// The rows of an enum. One that is not there yet starts with one row.
pub open spec fn opened_rows(defs: Seq<EnumTypeView>, name: Seq<char>) -> Seq<EnumEntryRowView> {
    match first(defs, enum_named(name)) {
        Some(k) => Seq::new(defs[k].values.len(), |i: int| row_of(defs[k].values[i])),
        None => seq![new_row(seq![])],
    }
}

/// Whether a row names the number that it stands for.
pub open spec fn has_repr(row: EnumEntryRowView) -> bool {
    trimmed(row.repr).len() > 0
}

/// The entry of a row, or what is wrong with it. `repr` is the number that the entry stands for,
/// where the text is a number.
pub open spec fn entry_of(row: EnumEntryRowView, repr: Option<Seq<char>>, width: u8) -> Result<
    EnumItemView,
    Seq<char>,
> {
    let name = trimmed(row.name);
    if name.len() == 0 {
        Err("Entry name cannot be empty"@)
    } else {
        match u8_parsed(row.value) {
            Err(e) => Err(name + ": "@ + e),
            Ok(value) => if value >= pow2(width as nat) {
                Err(
                    name + ": value "@ + decimal(value as int) + " does not fit the field width ("@ + decimal(
                        width as int,
                    ) + " bits)"@,
                )
            } else if has_repr(row) && repr is None {
                Err(name + ": invalid representation '"@ + row.repr + "'"@)
            } else {
                Ok(
                    EnumItemView {
                        name,
                        value,
                        repr: if has_repr(row) {
                            repr
                        } else {
                            None
                        },
                        description: DescView { public: trimmed(row.desc), private: seq![] },
                        decl_line: row.src_line,
                    },
                )
            },
        }
    }
}

/// The entries of the first `n` rows, or what is wrong with the first bad one.
pub open spec fn entries_of(
    rows: Seq<EnumEntryRowView>,
    reprs: Seq<Option<Seq<char>>>,
    width: u8,
    n: int,
) -> Result<Seq<EnumItemView>, Seq<char>>
    decreases n,
{
    if n <= 0 {
        Ok(seq![])
    } else {
        match entries_of(rows, reprs, width, n - 1) {
            Err(e) => Err(e),
            Ok(s) => match entry_of(rows[n - 1], reprs[n - 1], width) {
                Ok(e) => Ok(s.push(e)),
                Err(e) => Err(e),
            },
        }
    }
}

/// What two entries have in common that they may not.
pub open spec fn clash(a: EnumItemView, b: EnumItemView) -> Option<Seq<char>> {
    if a.name == b.name {
        Some("Duplicate entry name '"@ + a.name + "'"@)
    } else if a.value == b.value {
        Some(
            "Duplicate value "@ + decimal(a.value as int) + " ('"@ + a.name + "' and '"@ + b.name + "')"@,
        )
    } else {
        None
    }
}

/// The first clash of entry `i` with one from `j` on.
pub open spec fn clash_with(s: Seq<EnumItemView>, i: int, j: int) -> Option<Seq<char>>
    decreases s.len() - j,
{
    if j >= s.len() {
        None
    } else {
        match clash(s[i], s[j]) {
            Some(t) => Some(t),
            None => clash_with(s, i, j + 1),
        }
    }
}

/// The first clash of an entry from `i` on with a later one.
pub open spec fn clash_from(s: Seq<EnumItemView>, i: int) -> Option<Seq<char>>
    decreases s.len() - i,
{
    if i >= s.len() {
        None
    } else {
        match clash_with(s, i, i + 1) {
            Some(t) => Some(t),
            None => clash_from(s, i + 1),
        }
    }
}

/// The entries of a table, or what is wrong with it.
pub open spec fn values_of(
    rows: Seq<EnumEntryRowView>,
    reprs: Seq<Option<Seq<char>>>,
    width: u8,
) -> Result<Seq<EnumItemView>, Seq<char>> {
    match entries_of(rows, reprs, width, rows.len() as int) {
        Err(e) => Err(e),
        Ok(s) => match clash_from(s, 0) {
            Some(t) => Err(t),
            None => Ok(s),
        },
    }
}

proof fn lemma_no_clash_with(s: Seq<EnumItemView>, i: int, j: int)
    requires
        clash_with(s, i, j) is None,
    ensures
        forall|k: int| j <= k < s.len() ==> #[trigger] clash(s[i], s[k]) is None,
    decreases s.len() - j,
{
    if j < s.len() {
        lemma_no_clash_with(s, i, j + 1);
    }
}

proof fn lemma_no_clash(s: Seq<EnumItemView>, i: int)
    requires
        clash_from(s, i) is None,
    ensures
        forall|a: int, b: int| i <= a < b < s.len() ==> #[trigger] clash(s[a], s[b]) is None,
    decreases s.len() - i,
{
    if i < s.len() {
        lemma_no_clash_with(s, i, i + 1);
        lemma_no_clash(s, i + 1);
    }
}

proof fn lemma_entries(rows: Seq<EnumEntryRowView>, reprs: Seq<Option<Seq<char>>>, width: u8, n: int)
    requires
        0 <= n <= rows.len(),
        entries_of(rows, reprs, width, n) is Ok,
    ensures
        entries_of(rows, reprs, width, n)->Ok_0.len() == n,
        forall|i: int|
            0 <= i < n ==> entry_of(rows[i], reprs[i], width) == Ok::<EnumItemView, Seq<char>>(
                #[trigger] entries_of(rows, reprs, width, n)->Ok_0[i],
            ),
    decreases n,
{
    if n > 0 {
        lemma_entries(rows, reprs, width, n - 1);
    }
}

/// A table that is accepted has one entry for each row. The names differ, the values differ, and
/// every value fits the field.
pub proof fn accepted_entries_are_distinct(
    rows: Seq<EnumEntryRowView>,
    reprs: Seq<Option<Seq<char>>>,
    width: u8,
)
    requires
        values_of(rows, reprs, width) is Ok,
    ensures
        ({
            let s = values_of(rows, reprs, width)->Ok_0;
            &&& s.len() == rows.len()
            &&& forall|i: int, j: int|
                0 <= i < j < s.len() ==> (#[trigger] s[i]).name != (#[trigger] s[j]).name && s[i].value
                    != s[j].value
            &&& forall|i: int| 0 <= i < s.len() ==> (#[trigger] s[i]).value < pow2(width as nat)
        }),
{
    lemma_entries(rows, reprs, width, rows.len() as int);
    let s = values_of(rows, reprs, width)->Ok_0;
    lemma_no_clash(s, 0);
    assert forall|i: int, j: int| 0 <= i < j < s.len() implies (#[trigger] s[i]).name != (
    #[trigger] s[j]).name && s[i].value != s[j].value by {
        assert(clash(s[i], s[j]) is None);
    }
    assert forall|i: int| 0 <= i < s.len() implies (#[trigger] s[i]).value < pow2(width as nat) by {
        assert(entry_of(rows[i], reprs[i], width) == Ok::<EnumItemView, Seq<char>>(s[i]));
    }
}

/// The row of an entry reads back as that entry, where its name and description have no blanks
/// around them, the description is one public line, and the value fits the field.
pub proof fn row_reads_back(e: EnumItemView, width: u8)
    requires
        e.name.len() > 0,
        trimmed(e.name) == e.name,
        e.value < pow2(width as nat),
        e.repr is Some ==> trimmed(e.repr->0).len() > 0,
        e.description == (DescView { public: trimmed(row_of(e).desc), private: seq![] }),
    ensures
        entry_of(row_of(e), e.repr, width) == Ok::<EnumItemView, Seq<char>>(e),
{
    decimal_reads_back(e.value as int);
    decimal_is_trimmed(e.value as int);
    assert(trimmed(Seq::<char>::empty()) =~= Seq::<char>::empty());
}

/// Every byte fits eight bits and more.
proof fn lemma_wide(width: u8)
    ensures
        width >= 8 ==> pow2(width as nat) >= 256,
{
    lemma2_to64();
    if width > 8 {
        lemma_pow2_strictly_increases(8, width as nat);
    }
}

/// Two to the power of a small number.
fn small_power(n: u8) -> (r: u32)
    requires
        n < 8,
    ensures
        r == pow2(n as nat),
{
    let mut r: u32 = 1;
    let mut i: u8 = 0;
    proof {
        lemma2_to64();
    }
    while i < n
        invariant
            i <= n < 16,
            r == pow2(i as nat),
            r <= 0x8000,
        decreases n - i,
    {
        proof {
            lemma2_to64();
            lemma_pow2_unfold((i + 1) as nat);
            if i + 1 < 15 {
                lemma_pow2_strictly_increases((i + 1) as nat, 15);
            }
        }
        r = r * 2;
        i += 1;
    }
    r
}

impl EnumEditor {
    /// Opens the table of an enum.
    pub fn open(rif_type: &str, name: String, enum_defs: &Vec<EnumType>, has_frac: bool, width: u8) -> (r: Self)
        ensures
            r@ == (EnumEditorView {
                rif_type: rif_type@,
                name: name@,
                orig_name: name@,
                rows: opened_rows(enum_defs.deep_view(), name@),
                has_frac,
                width,
                parse_err: None,
            }),
    {
        let mut rows: Vec<EnumEntryRow> = Vec::new();
        match find_enum(enum_defs, &name) {
            Some(k) => {
                let ghost vs = enum_defs.deep_view()[k as int].values;
                let n: usize = enum_defs[k].values.len();
                let mut i: usize = 0;
                while i < n
                    invariant
                        k < enum_defs@.len(),
                        i <= n == enum_defs@[k as int].values@.len(),
                        vs == enum_defs.deep_view()[k as int].values,
                        rows@.len() == i,
                        forall|j: int| 0 <= j < i ==> (#[trigger] rows@[j])@ == row_of(vs[j]),
                    decreases n - i,
                {
                    proof {
                        assert(vs[i as int] == enum_defs@[k as int].values@[i as int]@);
                    }
                    rows.push(EnumEntryRow::from_entry(&enum_defs[k].values[i]));
                    i += 1;
                }
            },
            None => {
                let none: Vec<EnumEntryRow> = Vec::new();
                proof {
                    assert(none.deep_view() =~= Seq::<EnumEntryRowView>::empty());
                }
                rows.push(EnumEntryRow::next_default(&none));
            },
        }
        proof {
            assert(rows.deep_view() =~= opened_rows(enum_defs.deep_view(), name@));
        }
        EnumEditor {
            rif_type: rif_type.to_owned(),
            orig_name: name.clone(),
            name,
            rows,
            has_frac,
            width,
            parse_err: None,
        }
    }

    fn build_entry(&self, row: &EnumEntryRow, repr: &Option<String>) -> (r: Result<EnumItem, String>)
        ensures
            match entry_of(row@, repr.deep_view(), self.width) {
                Ok(e) => r is Ok && r->Ok_0@ == e,
                Err(t) => r is Err && r->Err_0@ == t,
            },
    {
        let name = trim(row.name.as_str());
        if name.as_str().is_empty() {
            return Err("Entry name cannot be empty".to_owned());
        }
        let value: u8 = match parse_u8(row.value.as_str()) {
            Ok(v) => v,
            Err(e) => {
                return Err(join3(name.as_str(), ": ", e.as_str()));
            },
        };
        proof {
            lemma_wide(self.width);
        }
        if self.width < 8 && (value as u32) >= small_power(self.width) {
            let what = join3(name.as_str(), ": value ", show_unsigned(value as u128).as_str());
            let why = join3(
                what.as_str(),
                " does not fit the field width (",
                show_unsigned(self.width as u128).as_str(),
            );
            return Err(join(why.as_str(), " bits)"));
        }
        let number = if trim(row.repr.as_str()).as_str().is_empty() {
            None
        } else {
            match repr {
                Some(t) => Some(t.clone()),
                None => {
                    let what = join3(name.as_str(), ": invalid representation '", row.repr.as_str());
                    return Err(join(what.as_str(), "'"));
                },
            }
        };
        Ok(
            EnumItem {
                name,
                value,
                repr: number,
                description: Desc { public: trim(row.desc.as_str()), private: String::new() },
                decl_line: row.src_line,
            },
        )
    }

    /// Checks the rows and makes the entries. `reprs` holds, for each row, the number that the
    /// entry stands for, where the text of the row is a number.
    pub fn build_values(&self, reprs: &Vec<Option<String>>) -> (r: Result<Vec<EnumItem>, String>)
        requires
            reprs@.len() == self.rows@.len(),
        ensures
            match values_of(self@.rows, reprs.deep_view(), self.width) {
                Ok(s) => r is Ok && (r->Ok_0).deep_view() == s,
                Err(t) => r is Err && r->Err_0@ == t,
            },
    {
        let ghost rows = self.rows.deep_view();
        let ghost numbers = reprs.deep_view();
        let mut out: Vec<EnumItem> = Vec::new();
        let mut i: usize = 0;
        proof {
            assert(out.deep_view() =~= Seq::<EnumItemView>::empty());
        }
        while i < self.rows.len()
            invariant
                i <= self.rows@.len() == reprs@.len(),
                rows == self.rows.deep_view(),
                numbers == reprs.deep_view(),
                entries_of(rows, numbers, self.width, i as int) == Ok::<Seq<EnumItemView>, Seq<char>>(
                    out.deep_view(),
                ),
            decreases self.rows@.len() - i,
        {
            let ghost sofar = out.deep_view();
            proof {
                assert(rows[i as int] == self.rows@[i as int]@);
                assert(numbers[i as int] == reprs@[i as int].deep_view());
            }
            match self.build_entry(&self.rows[i], &reprs[i]) {
                Ok(e) => {
                    out.push(e);
                    proof {
                        assert(out.deep_view() =~= sofar.push(e@));
                    }
                },
                Err(e) => {
                    proof {
                        lemma_bad_entry(rows, numbers, self.width, i + 1, rows.len() as int);
                    }
                    return Err(e);
                },
            }
            i += 1;
        }
        match find_clash(&out) {
            Some(t) => Err(t),
            None => Ok(out),
        }
    }

    /// Whether the name is made from a field, and cannot be changed.
    pub fn name_locked(&self) -> (r: bool)
        ensures
            r == "doc:"@.is_prefix_of(self@.name),
    {
        let cs = to_chars(self.name.as_str());
        proof {
            reveal_strlit("doc:");
            let p = "doc:"@;
            assert(p.len() == 4 && p[0] == 'd' && p[1] == 'o' && p[2] == 'c' && p[3] == ':');
            if cs@.len() >= 4 && cs@[0] == 'd' && cs@[1] == 'o' && cs@[2] == 'c' && cs@[3] == ':' {
                assert(cs@.subrange(0, 4) =~= p);
            }
            if p.is_prefix_of(cs@) {
                assert(cs@.subrange(0, 4) == p);
                assert(cs@[0] == p[0] && cs@[1] == p[1] && cs@[2] == p[2] && cs@[3] == p[3]);
            }
        }
        cs.len() >= 4 && cs[0] == 'd' && cs[1] == 'o' && cs[2] == 'c' && cs[3] == ':'
    }

    /// Appends a new row.
    pub fn add_row(&mut self)
        ensures
            final(self)@ == (EnumEditorView {
                rows: old(self)@.rows.push(new_row(old(self)@.rows)),
                ..old(self)@
            }),
    {
        let row = EnumEntryRow::next_default(&self.rows);
        self.rows.push(row);
        proof {
            assert(self.rows.deep_view() =~= old(self).rows.deep_view().push(row@));
        }
    }

    /// Removes a row.
    pub fn remove_row(&mut self, i: usize)
        requires
            i < old(self)@.rows.len(),
        ensures
            final(self)@ == (EnumEditorView { rows: old(self)@.rows.remove(i as int), ..old(self)@ }),
    {
        self.rows.remove(i);
        proof {
            assert(self.rows.deep_view() =~= old(self).rows.deep_view().remove(i as int));
        }
    }

    /// Checks the table and makes the edit. `None` where something is wrong with it, which is
    /// then told. The enum may be renamed, though not to a name that another enum has.
    pub fn save(&mut self, enum_defs: &Vec<EnumType>, reprs: &Vec<Option<String>>) -> (r: Option<EditAction>)
        requires
            reprs@.len() == old(self).rows@.len(),
        ensures
            enum_saved(
                old(self)@,
                enum_defs.deep_view(),
                reprs.deep_view(),
                final(self)@,
                r.deep_view(),
            ),
    {
        let name = trim(self.name.as_str());
        if name.as_str().is_empty() {
            self.parse_err = Some("Enum name cannot be empty".to_owned());
            return None;
        }
        if name != self.orig_name {
            if let Some(_) = find_enum(enum_defs, &name) {
                self.parse_err = Some(join3("An enum named '", name.as_str(), "' already exists"));
                return None;
            }
        }
        match self.build_values(reprs) {
            Ok(values) => {
                self.parse_err = None;
                Some(EditAction::UpdateEnum { rif_type: self.rif_type.clone(), name, values })
            },
            Err(e) => {
                self.parse_err = Some(e);
                None
            },
        }
    }
}

/// What is wrong with a table that is saved.
pub open spec fn enum_problem(
    e: EnumEditorView,
    defs: Seq<EnumTypeView>,
    reprs: Seq<Option<Seq<char>>>,
) -> Option<Seq<char>> {
    let name = trimmed(e.name);
    if name.len() == 0 {
        Some("Enum name cannot be empty"@)
    } else if name != e.orig_name && first(defs, enum_named(name)) is Some {
        Some("An enum named '"@ + name + "' already exists"@)
    } else {
        match values_of(e.rows, reprs, e.width) {
            Err(t) => Some(t),
            Ok(_) => None,
        }
    }
}

/// What becomes of a table that is saved.
pub open spec fn enum_saved(
    e: EnumEditorView,
    defs: Seq<EnumTypeView>,
    reprs: Seq<Option<Seq<char>>>,
    after: EnumEditorView,
    action: Option<EditActionView>,
) -> bool {
    match enum_problem(e, defs, reprs) {
        Some(t) => action is None && after == (EnumEditorView { parse_err: Some(t), ..e }),
        None => after == (EnumEditorView { parse_err: None, ..e }) && action == Some(
            EditActionView::UpdateEnum {
                rif_type: e.rif_type,
                name: trimmed(e.name),
                values: values_of(e.rows, reprs, e.width)->Ok_0,
            },
        ),
    }
}

proof fn lemma_bad_entry(
    rows: Seq<EnumEntryRowView>,
    reprs: Seq<Option<Seq<char>>>,
    width: u8,
    i: int,
    n: int,
)
    requires
        0 <= i <= n,
        entries_of(rows, reprs, width, i) is Err,
    ensures
        entries_of(rows, reprs, width, n) == entries_of(rows, reprs, width, i),
    decreases n - i,
{
    if i < n {
        lemma_bad_entry(rows, reprs, width, i, n - 1);
    }
}

fn show_clash(a: &EnumItem, b: &EnumItem) -> (r: Option<String>)
    ensures
        r.deep_view() == clash(a@, b@),
{
    if a.name == b.name {
        Some(join3("Duplicate entry name '", a.name.as_str(), "'"))
    } else if a.value == b.value {
        let what = join3("Duplicate value ", show_unsigned(a.value as u128).as_str(), " ('");
        let both = join3(what.as_str(), a.name.as_str(), "' and '");
        Some(join3(both.as_str(), b.name.as_str(), "')"))
    } else {
        None
    }
}

fn find_clash(out: &Vec<EnumItem>) -> (r: Option<String>)
    ensures
        r.deep_view() == clash_from(out.deep_view(), 0),
{
    let ghost s = out.deep_view();
    let mut i: usize = 0;
    while i < out.len()
        invariant
            i <= out@.len(),
            s == out.deep_view(),
            clash_from(s, 0) == clash_from(s, i as int),
        decreases out@.len() - i,
    {
        let mut j: usize = i + 1;
        while j < out.len()
            invariant
                i < j <= out@.len(),
                s == out.deep_view(),
                clash_from(s, 0) == clash_from(s, i as int),
                clash_with(s, i as int, i + 1) == clash_with(s, i as int, j as int),
            decreases out@.len() - j,
        {
            proof {
                assert(s[i as int] == out@[i as int]@);
                assert(s[j as int] == out@[j as int]@);
            }
            if let Some(t) = show_clash(&out[i], &out[j]) {
                return Some(t);
            }
            j += 1;
        }
        i += 1;
    }
    None
}

} // verus!
