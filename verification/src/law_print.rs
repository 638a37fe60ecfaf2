//! How values are printed.
use vstd::arithmetic::power2::{lemma_pow2_pos, pow2};
use vstd::prelude::*;
use crate::compiled::{position_at, reset_bits, reset_shown, FieldInstView, FieldSpanView, ResetInt};
use crate::edits::PendingEditsView;
use crate::field_editor::{buffers_same, field_override_unchanged, EnumMode, FieldEditorView};
use crate::file_io::{file_ops, saved_text};
use crate::lines::{find_from, indented, joined, lemma_find_bound, split};
use crate::model::page::InstanceView;
use crate::model::rif::{EnumItemView, RifDefView};
use crate::model::values::{
    AddrKind, AddrView, BitPosView, DescView, DimView, IntrDescView, IntrKind, OffsetView, ResetView,
};
use crate::number::{
    decimal, decimal_reads_back, digit_in, digits, digits_value, hex_body, hexadecimal, hexadecimal_reads_back,
    lemma_digits_read_back, prefixed_unsigned, signed_value, upper_digit, upper_digits,
};
use crate::plan::{indent_end, indentation, is_indent, rebuilt};
use crate::reg_editor::{reg_override_unchanged, reg_unchanged};
use crate::session::{candidate_enum, changed_editor};
use crate::syntax::{
    addr_text, desc_block, enum_line, inst_decl, intr_desc_block, other_lines, override_desc_block, reset_text,
    rif_desc_block, short_desc,
};
use crate::text::{is_white, trim_end, trim_start, trimmed};
use crate::viewer::EditorsView;

verus! {

proof fn lemma_lines(s: Seq<char>)
    ensures
        split(s, "\n"@).len() >= 1,
        crate::syntax::first_line(s) == split(s, "\n"@)[0],
        other_lines(s) matches Some(rest) ==> split(s, "\n"@) == seq![crate::syntax::first_line(s)] + split(rest, "\n"@),
        other_lines(s) is None <==> split(s, "\n"@).len() == 1 || (split(s, "\n"@).len() == 2 && split(
            s,
            "\n"@,
        )[1].len() == 0),
{
    reveal_strlit("\n");
    let sep = "\n"@;
    crate::lines::join_undoes_split(s, sep);
    lemma_find_bound(s, sep, 0);
    match find_from(s, sep, 0) {
        None => {},
        Some(i) => {
            let rest = s.skip(i + 1);
            crate::lines::join_undoes_split(rest, sep);
            assert(split(s, sep) == seq![s.take(i)] + split(rest, sep));
            if i + 1 < s.len() {
                if split(rest, sep).len() == 1 {
                    assert(joined(split(rest, sep), sep) == split(rest, sep)[0]);
                    assert(split(rest, sep)[0] == rest);
                }
            } else {
                assert(rest.len() == 0);
                assert(find_from(rest, sep, 0) is None);
                assert(split(rest, sep) == seq![rest]);
            }
        },
    }
}

/// The first line of a description is its short text; the public one, or the private one where there is
/// no public one and it may be shown. The lines behind it make up the block, below its header and one step
/// further in; a text of one line has no block.
pub proof fn description_is_printed_line_by_line(d: DescView)
    ensures
        ({
            let ls = split(d.public, "\n"@);
            let more = ls.len() > 2 || (ls.len() == 2 && ls[1].len() > 0);
            &&& ls.len() >= 1
            &&& short_desc(d, true) == ls[0]
            &&& d.public.len() > 0 ==> short_desc(d, false) == ls[0]
            &&& d.public.len() == 0 ==> short_desc(d, false) == split(d.private, "\n"@)[0]
            &&& !more ==> desc_block(d) is None
            &&& more ==> (desc_block(d) matches Some(b) && b.len() == ls.len() && b[0] == "description:"@ && forall|i: int|
                1 <= i < ls.len() ==> #[trigger] b[i] == "  "@ + ls[i])
        }),
{
    lemma_lines(d.public);
    lemma_lines(d.private);
    let ls = split(d.public, "\n"@);
    if let Some(rest) = other_lines(d.public) {
        let b = desc_block(d)->0;
        assert forall|i: int| 1 <= i < ls.len() implies #[trigger] b[i] == "  "@ + ls[i] by {
            assert(ls[i] == split(rest, "\n"@)[i - 1]);
        }
    }
}

/// The description of a RIF is printed whole in its block, and that of a derived register or field below
/// a header that says which one it is; an empty text has no block. What an instance overrides of a
/// description has the lines behind the first one, without a header.
pub proof fn other_descriptions_are_printed_line_by_line(d: DescView, t: IntrDescView)
    ensures
        ({
            let ls = split(d.public, "\n"@);
            &&& d.public.len() == 0 ==> rif_desc_block(d) is None
            &&& d.public.len() > 0 ==> (rif_desc_block(d) matches Some(b) && b.len() == ls.len() + 1 && b[0]
                == "description:"@ && forall|i: int| 1 <= i < b.len() ==> #[trigger] b[i] == "  "@ + ls[i - 1])
            &&& override_desc_block(None) is None
            &&& override_desc_block(Some(d)) matches Some(b) ==> b.len() == ls.len() - 1 && forall|i: int|
                0 <= i < b.len() ==> #[trigger] b[i] == "  "@ + ls[i + 1]
            &&& override_desc_block(Some(d)) is None <==> desc_block(d) is None
        }),
        intr_desc_block(None, IntrKind::Enable) is None,
        t.enable.public.len() == 0 <==> intr_desc_block(Some(t), IntrKind::Enable) is None,
        t.mask.public.len() == 0 <==> intr_desc_block(Some(t), IntrKind::Mask) is None,
        t.pending.public.len() == 0 <==> intr_desc_block(Some(t), IntrKind::Pending) is None,
        intr_desc_block(Some(t), IntrKind::Enable) matches Some(b) ==> b =~= seq!["enable.description:"@] + indented(
            split(t.enable.public, "\n"@),
            "  "@,
        ),
        intr_desc_block(Some(t), IntrKind::Mask) matches Some(b) ==> b =~= seq!["mask.description:"@] + indented(
            split(t.mask.public, "\n"@),
            "  "@,
        ),
        intr_desc_block(Some(t), IntrKind::Pending) matches Some(b) ==> b =~= seq!["pending.description:"@] + indented(
            split(t.pending.public, "\n"@),
            "  "@,
        ),
{
    lemma_lines(d.public);
    let ls = split(d.public, "\n"@);
    if let Some(b) = override_desc_block(Some(d)) {
        let rest = other_lines(d.public)->0;
        assert forall|i: int| 0 <= i < b.len() implies #[trigger] b[i] == "  "@ + ls[i + 1] by {
            assert(ls[i + 1] == split(rest, "\n"@)[i]);
        }
    }
}

/// Numbers are printed so that they read back: large unsigned ones in hexadecimal, others in decimal.
pub proof fn reset_values_read_back(v: u128, w: i128, t: Seq<char>)
    ensures
        prefixed_unsigned(reset_text(ResetView::Unsigned(v))) == Some(v as nat),
        signed_value(reset_text(ResetView::Signed(w)), 10) == Some(w as int),
        v > 9 ==> hex_body(reset_text(ResetView::Unsigned(v))) is Some,
        v <= 9 ==> hex_body(reset_text(ResetView::Unsigned(v))) is None,
        reset_text(ResetView::Param(t)) == "$"@ + t,
        reset_text(ResetView::Label(t)) == t,
        reset_text(ResetView::FloatU(t)) == t,
        reset_text(ResetView::FloatS(t)) == t,
{
    decimal_reads_back(v as int);
    hexadecimal_reads_back(v as nat);
    decimal_reads_back(w as int);
}

/// The declaration of an instance: its name, its array size, the register where that has another name, the
/// group where it is not the one that it would have anyway, and the address where it is not the one that
/// follows by itself.
pub proof fn instance_is_declared(i: InstanceView)
    ensures
        ({
            let plain = i.array.text.len() == 0;
            let own = i.reg_type == i.inst_name && i.group_name.len() == 0;
            let named = i.reg_type != i.inst_name && i.group_name == i.inst_name;
            let next = AddrView { kind: AddrKind::RelativeSet, offset: OffsetView::Value(0) };
            &&& plain && own && i.addr == next ==> inst_decl(i) == "- "@ + i.inst_name
            &&& plain && own && i.addr != next ==> inst_decl(i) == "- "@ + i.inst_name + " "@ + addr_text(i.addr)
            &&& plain && named && i.addr != next ==> inst_decl(i) == "- "@ + i.inst_name + " = "@ + i.reg_type + " "@
                + addr_text(i.addr)
            &&& !plain && own && i.addr != next ==> inst_decl(i) == "- "@ + i.inst_name + "["@ + i.array.rif + "]"@ + " "@
                + addr_text(i.addr)
            &&& !plain && named && i.addr != next ==> inst_decl(i) == "- "@ + i.inst_name + "["@ + i.array.rif + "]"@
                + " = "@ + i.reg_type + " "@ + addr_text(i.addr)
            &&& plain && i.reg_type != i.inst_name && !named && i.addr != next ==> inst_decl(i) == "- "@ + i.inst_name
                + " = "@ + i.reg_type + " ("@ + i.group_name + ")"@ + " "@ + addr_text(i.addr)
        }),
        forall|v: u64|
            #[trigger] addr_text(AddrView { kind: AddrKind::Absolute, offset: OffsetView::Value(v) }) == "@ "@
                + hexadecimal(v as nat),
        forall|v: u64|
            #[trigger] addr_text(AddrView { kind: AddrKind::Relative, offset: OffsetView::Value(v) }) == "@+ "@
                + hexadecimal(v as nat),
{
    reveal_strlit("");
    let next = AddrView { kind: AddrKind::RelativeSet, offset: OffsetView::Value(0) };
    let plain = i.array.text.len() == 0;
    let own = i.reg_type == i.inst_name && i.group_name.len() == 0;
    let named = i.reg_type != i.inst_name && i.group_name == i.inst_name;
    if own {
        assert(i.group_name =~= seq![]);
    }
    if plain && own && i.addr == next {
        assert(inst_decl(i) =~= "- "@ + i.inst_name);
    }
    if plain && own && i.addr != next {
        assert(inst_decl(i) =~= "- "@ + i.inst_name + " "@ + addr_text(i.addr));
    }
    if plain && named && i.addr != next {
        assert(inst_decl(i) =~= "- "@ + i.inst_name + " = "@ + i.reg_type + " "@ + addr_text(i.addr));
    }
    if !plain && own && i.addr != next {
        assert(inst_decl(i) =~= "- "@ + i.inst_name + "["@ + i.array.rif + "]"@ + " "@ + addr_text(i.addr));
    }
    if !plain && named && i.addr != next {
        assert(inst_decl(i) =~= "- "@ + i.inst_name + "["@ + i.array.rif + "]"@ + " = "@ + i.reg_type + " "@ + addr_text(
            i.addr,
        ));
    }
    if plain && i.reg_type != i.inst_name && !named && i.addr != next {
        assert(inst_decl(i) =~= "- "@ + i.inst_name + " = "@ + i.reg_type + " ("@ + i.group_name + ")"@ + " "@
            + addr_text(i.addr));
    }
}

/// The line of an enum entry: its name, its value, its representation where it has one, and its short
/// description in quotes.
pub proof fn entry_is_printed(e: EnumItemView)
    ensures
        e.repr is None ==> enum_line(e) == "- "@ + e.name + " = "@ + decimal(e.value as int) + " \""@ + short_desc(
            e.description,
            false,
        ) + "\""@,
        e.repr matches Some(r) ==> enum_line(e) == "- "@ + e.name + " = "@ + decimal(e.value as int) + " ("@ + r + ")"@
            + " \""@ + short_desc(e.description, false) + "\""@,
{
    match e.repr {
        None => {
            assert(enum_line(e) =~= "- "@ + e.name + " = "@ + decimal(e.value as int) + " \""@ + short_desc(
                e.description,
                false,
            ) + "\""@);
        },
        Some(r) => {
            assert(enum_line(e) =~= "- "@ + e.name + " = "@ + decimal(e.value as int) + " ("@ + r + ")"@ + " \""@
                + short_desc(e.description, false) + "\""@);
        },
    }
}

proof fn lemma_trim_start(a: Seq<char>, t: Seq<char>)
    requires
        forall|i: int| 0 <= i < a.len() ==> is_white(#[trigger] a[i]),
        t.len() > 0 ==> !is_white(t[0]),
    ensures
        trim_start(a + t) == t,
    decreases a.len(),
{
    if a.len() == 0 {
        assert(a + t =~= t);
    } else {
        assert((a + t)[0] == a[0]);
        assert((a + t).drop_first() =~= a.drop_first() + t);
        lemma_trim_start(a.drop_first(), t);
    }
}

proof fn lemma_trim_end(t: Seq<char>, b: Seq<char>)
    requires
        forall|i: int| 0 <= i < b.len() ==> is_white(#[trigger] b[i]),
        t.len() > 0 ==> !is_white(t.last()),
    ensures
        trim_end(t + b) == t,
    decreases b.len(),
{
    if b.len() == 0 {
        assert(t + b =~= t);
    } else {
        assert((t + b).last() == b.last());
        assert((t + b).drop_last() =~= t + b.drop_last());
        lemma_trim_end(t, b.drop_last());
    }
}

/// A text without the blanks around it: the blanks in front and behind go, and nothing between them.
pub proof fn blanks_around_are_left_off(a: Seq<char>, t: Seq<char>, b: Seq<char>)
    requires
        forall|i: int| 0 <= i < a.len() ==> is_white(#[trigger] a[i]),
        forall|i: int| 0 <= i < b.len() ==> is_white(#[trigger] b[i]),
        t.len() > 0 ==> !is_white(t[0]) && !is_white(t.last()),
    ensures
        trimmed(a + t + b) == t,
{
    if t.len() == 0 {
        let none = Seq::<char>::empty();
        assert(a + t + b =~= (a + b) + none);
        assert forall|i: int| 0 <= i < (a + b).len() implies is_white(#[trigger] (a + b)[i]) by {
            if i < a.len() {
                assert(is_white(a[i]));
            } else {
                assert(is_white(b[i - a.len()]));
            }
        }
        lemma_trim_start(a + b, none);
        assert(t =~= none);
    } else {
        assert(a + t + b =~= a + (t + b));
        assert((t + b)[0] == t[0]);
        lemma_trim_start(a, t + b);
        lemma_trim_end(t, b);
    }
}

/// The line ends of a file stay as they are: where it has carriage returns in front of its line feeds, it
/// is taken apart and put together at both, and otherwise at line feeds alone.
pub proof fn line_ends_stay(rif: RifDefView, e: PendingEditsView, content: Seq<char>)
    ensures
        (exists|i: int| 0 <= i && i + 2 <= content.len() && #[trigger] content.subrange(i, i + 2) == seq!['\r', '\n'])
            ==> ({
            let orig = split(content, seq!['\r', '\n']);
            saved_text(rif, e, content) == joined(rebuilt(orig, file_ops(orig, rif, e)), seq!['\r', '\n'])
        }),
        !(exists|i: int| 0 <= i && i + 2 <= content.len() && #[trigger] content.subrange(i, i + 2) == seq!['\r', '\n'])
            ==> ({
            let orig = split(content, seq!['\n']);
            saved_text(rif, e, content) == joined(rebuilt(orig, file_ops(orig, rif, e)), seq!['\n'])
        }),
{
    reveal_strlit("\r\n");
    reveal_strlit("\n");
    let crlf = "\r\n"@;
    assert(crlf =~= seq!['\r', '\n']);
    assert("\n"@ =~= seq!['\n']);
    lemma_find_bound(content, crlf, 0);
    if let Some(k) = find_from(content, crlf, 0) {
        assert(content.subrange(k, k + 2) == crlf);
    } else {
        lemma_not_found(content, crlf, 0);
    }
}

proof fn lemma_not_found(s: Seq<char>, sep: Seq<char>, i: int)
    requires
        0 <= i,
        find_from(s, sep, i) is None,
    ensures
        forall|j: int| i <= j && j + sep.len() <= s.len() ==> #[trigger] s.subrange(j, j + sep.len()) != sep,
    decreases s.len() + 1 - i,
{
    if i + sep.len() <= s.len() {
        lemma_not_found(s, sep, i + 1);
    }
}

/// A field that is put at another place is as wide as it was: a fixed width from the new lowest bit on, and
/// a width that is a parameter likewise.
pub proof fn moved_field_keeps_its_width(w: u16, name: Seq<char>, max: u16, lsb: int)
    requires
        0 <= lsb,
        w >= 1,
        lsb + w <= 256,
    ensures
        position_at(FieldSpanView::Fixed(w), lsb) matches BitPosView::MsbLsb(DimView::Value(m), DimView::Value(l)) && l
            == lsb && m - l + 1 == w,
        position_at(FieldSpanView::Generic(name, max), lsb) == BitPosView::LsbSize(
            DimView::Value(lsb as u8),
            DimView::Param(name),
        ),
{
}

proof fn lemma_upper(c: char)
    requires
        digit_in(c, 16) is Some,
        c != 'A' && c != 'B' && c != 'C' && c != 'D' && c != 'E' && c != 'F',
    ensures
        digit_in(upper_digit(c), 16) == digit_in(c, 16),
{
    if 'a' <= c && c <= 'f' {
        let n = c as u32;
        assert(97 <= n <= 102);
        let m = (n - 32) as u32;
        assert(upper_digit(c) == m as char);
        assert(m as char as u32 == m);
    }
}

proof fn lemma_digit_chars(n: nat)
    ensures
        forall|i: int|
            0 <= i < digits(n, 16).len() ==> {
                let c = #[trigger] digits(n, 16)[i];
                digit_in(c, 16) is Some && c != 'A' && c != 'B' && c != 'C' && c != 'D' && c != 'E' && c != 'F'
            },
    decreases n,
{
    let d = n % 16;
    assert(0 <= d < 16);
    if n >= 16 {
        lemma_digit_chars(n / 16);
        let c = crate::number::digit_char(d);
        lemma_digit_char(d);
    } else {
        lemma_digit_char(n);
    }
}

proof fn lemma_digit_char(d: nat)
    requires
        d < 16,
    ensures
        digit_in(crate::number::digit_char(d), 16) == Some(d),
        ({
            let c = crate::number::digit_char(d);
            c != 'A' && c != 'B' && c != 'C' && c != 'D' && c != 'E' && c != 'F'
        }),
{
    let c = crate::number::digit_char(d);
    if d < 10 {
        let x = ('0' as u32 + d) as u32;
        assert(48 <= x <= 57);
        assert(c as u32 == x);
    } else {
        let x = ('a' as u32 + (d - 10)) as u32;
        assert(97 <= x <= 102);
        assert(c as u32 == x);
    }
}

proof fn lemma_same_digits(a: Seq<char>, b: Seq<char>)
    requires
        a.len() == b.len(),
        forall|i: int| 0 <= i < a.len() ==> digit_in(#[trigger] a[i], 16) == digit_in(b[i], 16),
    ensures
        digits_value(a, 16) == digits_value(b, 16),
    decreases a.len(),
{
    if a.len() > 0 {
        assert forall|i: int| 0 <= i < a.drop_last().len() implies digit_in(#[trigger] a.drop_last()[i], 16) == digit_in(
            b.drop_last()[i],
            16,
        ) by {
            assert(digit_in(a[i], 16) == digit_in(b[i], 16));
        }
        lemma_same_digits(a.drop_last(), b.drop_last());
        assert(digit_in(a[a.len() - 1], 16) == digit_in(b[b.len() - 1], 16));
    }
}

proof fn lemma_leading_zeros(z: Seq<char>, s: Seq<char>)
    requires
        forall|i: int| 0 <= i < z.len() ==> #[trigger] z[i] == '0',
        digits_value(s, 16) is Some,
    ensures
        digits_value(z + s, 16) == digits_value(s, 16),
    decreases z.len() + s.len(),
{
    if s.len() == 0 {
        assert(z + s =~= z);
        if z.len() > 0 {
            let y = z.drop_last();
            assert forall|i: int| 0 <= i < y.len() implies #[trigger] y[i] == '0' by {
                assert(z[i] == '0');
            }
            lemma_leading_zeros(y, s);
            assert(y + s =~= y);
            assert(z[z.len() - 1] == '0');
            assert(digit_in('0', 16) == Some(0nat));
        }
    } else {
        assert((z + s).drop_last() =~= z + s.drop_last());
        assert((z + s).last() == s.last());
        lemma_leading_zeros(z, s.drop_last());
    }
}

/// The reset value of a field is shown as a number that reads back: in hexadecimal where the field is wide,
/// and in decimal otherwise.
pub proof fn shown_reset_reads_back(f: FieldInstView)
    requires
        f.width.bits() < 256,
        reset_bits(f.reset, f.width.bits() as u8) >= 0,
    ensures
        prefixed_unsigned(reset_shown(f)) == Some(reset_bits(f.reset, f.width.bits() as u8) as nat),
        f.width.bits() > 12 <==> hex_body(reset_shown(f)) is Some,
{
    let bits = f.width.bits() as u8;
    let v = reset_bits(f.reset, bits);
    decimal_reads_back(v);
    if bits > 12 {
        let n = v as nat;
        let ds = digits(n, 16);
        lemma_digits_read_back(n, 16);
        lemma_digit_chars(n);
        let up = upper_digits(n);
        assert forall|i: int| 0 <= i < up.len() implies digit_in(#[trigger] up[i], 16) == digit_in(ds[i], 16) by {
            lemma_upper(ds[i]);
        }
        lemma_same_digits(up, ds);
        let width = (bits / 4) as nat;
        let z = Seq::new(
            if up.len() < width {
                (width - up.len()) as nat
            } else {
                0
            },
            |i: int| '0',
        );
        lemma_leading_zeros(z, up);
        let body = z + up;
        let all = reset_shown(f);
        assert(all =~= seq!['0', 'x'] + body);
        assert(all.skip(2) =~= body);
        assert(body.len() > 0);
        assert(body[0] != '+') by {
            if z.len() > 0 {
                assert(body[0] == '0');
            } else {
                assert(body[0] == up[0]);
                assert(digit_in(up[0], 16) is Some);
            }
        }
    }
}

/// The RIF that owns an edit which is still being typed is that of a changed editor; there is none where
/// no editor was changed.
pub proof fn typed_edit_belongs_to_its_editor(e: EditorsView)
    ensures
        ({
            let reg = e.reg_editor matches Some(x) && !reg_unchanged(x);
            let field = e.field_editor matches Some(x) && !buffers_same(x.buf, x.orig);
            let rovr = e.reg_override_editor matches Some(x) && !reg_override_unchanged(x);
            let fovr = e.field_override_editor matches Some(x) && !field_override_unchanged(x);
            let rdesc = e.reg_intr_desc_editor matches Some(x) && x.desc != x.desc_orig;
            let fdesc = e.field_intr_desc_editor matches Some(x) && x.desc != x.desc_orig;
            &&& changed_editor(e) is None <==> !reg && !field && !rovr && !fovr && !rdesc && !fdesc
            &&& changed_editor(e) matches Some(n) ==> {
                ||| reg && n == e.reg_editor->0.rif_type
                ||| field && n == e.field_editor->0.rif_type
                ||| rovr && n == e.reg_override_editor->0.rif_type
                ||| fovr && n == e.field_override_editor->0.rif_type
                ||| rdesc && n == e.reg_intr_desc_editor->0.rif_type
                ||| fdesc && n == e.field_intr_desc_editor->0.rif_type
            }
        }),
{
}

/// The enum whose table is opened from a field is the one that the edit of the field refers to.
pub proof fn opened_table_is_that_of_the_field(e: FieldEditorView, r: crate::field_editor::FieldReadingsView)
    ensures
        e.buf.enum_mode == EnumMode::Plain ==> candidate_enum(e) is None,
        e.buf.enum_mode == EnumMode::Doc ==> (crate::field_editor::field_vals(e, r).enum_kind
            matches crate::model::values::EnumRefView::Doc(n) && candidate_enum(e) == Some(n)),
        e.buf.enum_mode == EnumMode::Type && trimmed(e.buf.enum_name) != "type"@ ==> (crate::field_editor::field_vals(
            e,
            r,
        ).enum_kind matches crate::model::values::EnumRefView::Type(n) && candidate_enum(e) == Some(n)),
{
    reveal_strlit("type");
}

/// The bits of a reset value: an unsigned one as it is, and a signed one as the two's complement in the
/// width of its field.
pub proof fn reset_bits_are_twos_complement(v: u128, w: i128, bits: u8)
    requires
        0 < bits <= 127,
        -pow2(bits as nat) <= w < pow2(bits as nat),
    ensures
        reset_bits(ResetInt::Unsigned(v), bits) == v,
        w >= 0 ==> reset_bits(ResetInt::Signed(w), bits) == w,
        w < 0 ==> reset_bits(ResetInt::Signed(w), bits) == w + pow2(bits as nat),
{
    let m = pow2(bits as nat) as int;
    lemma_pow2_pos(bits as nat);
    let x = w as int;
    if x >= 0 {
        assert(x % m == x) by (nonlinear_arith)
            requires
                0 <= x < m,
        ;
    } else {
        assert(x % m == x + m) by (nonlinear_arith)
            requires
                -m <= x < 0,
                m > 0,
        ;
    }
}

proof fn lemma_indent(s: Seq<char>, i: int)
    requires
        0 <= i <= s.len(),
    ensures
        ({
            let k = indent_end(s, i);
            &&& i <= k <= s.len()
            &&& forall|j: int| i <= j < k ==> is_indent(#[trigger] s[j])
            &&& k < s.len() ==> !is_indent(s[k])
        }),
    decreases s.len() - i,
{
    if i < s.len() && is_indent(s[i]) {
        lemma_indent(s, i + 1);
    }
}

/// The indentation of a line is all the white space in front of its first other character, as far as it is
/// on the line.
pub proof fn indentation_is_the_white_space_in_front(s: Seq<char>)
    ensures
        ({
            let t = indentation(s);
            &&& t.len() <= s.len()
            &&& s == t + s.skip(t.len() as int)
            &&& forall|j: int|
                0 <= j < t.len() ==> is_white(#[trigger] t[j]) && t[j] != '\n' && t[j] != '\r'
            &&& t.len() < s.len() ==> !is_white(s[t.len() as int]) || s[t.len() as int] == '\n' || s[t.len() as int]
                == '\r'
        }),
{
    lemma_indent(s, 0);
    let t = indentation(s);
    assert(s =~= t + s.skip(t.len() as int));
    assert forall|j: int| 0 <= j < t.len() implies is_white(#[trigger] t[j]) && t[j] != '\n' && t[j] != '\r' by {
        assert(is_indent(s[j]));
    }
}

} // verus!
