//! Every counter that can be set up in the editor is taken.
use vstd::prelude::*;
use crate::counter::{
    after_direction, after_flag, after_gap, after_hex, after_number, after_sized, after_step, after_steps,
    after_word, digits_ahead, is_counter, is_digit, is_gap, only_flags,
};
use crate::field_editor::FieldBuffersView;
use crate::law_editor::{counter_typed, step_typed};
use crate::number::{decimal, decimal_reads_back, digit_char, digits};
use crate::text::trimmed;

verus! {

/// Whether a text is empty or starts with a blank.
spec fn apart(r: Seq<char>) -> bool {
    r.len() == 0 || r[0] == ' '
}

proof fn lemma_word(w: Seq<char>, r: Seq<char>)
    requires
        w.len() > 0,
        !is_gap(w[0]),
    ensures
        after_word(w + r, w) == Some(after_gap(r)),
        after_word(seq![' '] + (w + r), w) == Some(after_gap(r)),
        after_gap(w + r) == w + r,
        after_gap(seq![' '] + (w + r)) == w + r,
{
    let t = w + r;
    assert(t[0] == w[0]);
    assert(w.is_prefix_of(t)) by {
        assert(t.subrange(0, w.len() as int) =~= w);
    }
    assert(t.skip(w.len() as int) =~= r);
    let b = seq![' '] + t;
    assert(b[0] == ' ');
    assert(b.skip(1) =~= t);
}

proof fn lemma_other_word(s: Seq<char>, w: Seq<char>, k: int)
    requires
        0 <= k < w.len(),
        s.len() == 0 || !is_gap(s[0]),
        k >= s.len() || s[k] != w[k],
    ensures
        after_word(s, w) is None,
        s.len() > 0 ==> after_word(seq![' '] + s, w) is None,
{
    assert(!w.is_prefix_of(s)) by {
        if w.is_prefix_of(s) {
            assert(s.subrange(0, w.len() as int)[k] == w[k]);
        }
    }
    if s.len() > 0 {
        let b = seq![' '] + s;
        assert(b[0] == ' ');
        assert(b.skip(1) =~= s);
    }
}

/// Whether a text is one of the flags.
spec fn is_flag(w: Seq<char>) -> bool {
    w == "sat"@ || w == "event"@ || w == "clr"@
}

/// Whether a text is flags, with or without the blank in front of them.
spec fn flags(r: Seq<char>) -> bool {
    apart(r) && only_flags(r) && only_flags(after_gap(r)) && (r.len() > 0 ==> after_gap(r).len() > 0 && ({
        let c = after_gap(r)[0];
        c == 's' || c == 'e' || c == 'c'
    }))
}

proof fn lemma_flag(w: Seq<char>, r: Seq<char>)
    requires
        is_flag(w),
        flags(r),
    ensures
        flags(seq![' '] + (w + r)),
{
    reveal_strlit("sat");
    reveal_strlit("event");
    reveal_strlit("clr");
    lemma_word(w, r);
    let t = w + r;
    let b = seq![' '] + t;
    assert(t[0] == w[0]);
    if w == "event"@ {
        lemma_other_word(t, "sat"@, 0);
    }
    if w == "clr"@ {
        lemma_other_word(t, "sat"@, 0);
        lemma_other_word(t, "event"@, 0);
    }
    assert(after_flag(t) == Some(after_gap(r)));
    assert(after_flag(b) == Some(after_gap(r)));
    lemma_gap_shrinks(r);
    assert(only_flags(t));
    assert(only_flags(b));
}

proof fn lemma_gap_shrinks(s: Seq<char>)
    ensures
        after_gap(s).len() <= s.len(),
    decreases s.len(),
{
    if s.len() > 0 && is_gap(s[0]) {
        lemma_gap_shrinks(s.skip(1));
    }
}

proof fn lemma_decimal_digits(n: nat)
    ensures
        forall|i: int| 0 <= i < digits(n, 10).len() ==> is_digit(#[trigger] digits(n, 10)[i], false),
        digits(n, 10).len() > 0,
    decreases n,
{
    if n >= 10 {
        lemma_decimal_digits(n / 10);
        lemma_digit(n % 10);
    } else {
        lemma_digit(n);
    }
}

proof fn lemma_digit(d: nat)
    requires
        d < 10,
    ensures
        is_digit(digit_char(d), false),
{
    let x = ('0' as u32 + d) as u32;
    assert(48 <= x <= 57);
    assert(digit_char(d) as u32 == x);
}

proof fn lemma_digits_ahead(d: Seq<char>, r: Seq<char>)
    requires
        forall|i: int| 0 <= i < d.len() ==> is_digit(#[trigger] d[i], false),
        apart(r),
    ensures
        digits_ahead(d + r, false) == d.len(),
    decreases d.len(),
{
    let s = d + r;
    if d.len() == 0 {
        assert(s =~= r);
    } else {
        assert(s[0] == d[0]);
        assert(s.skip(1) =~= d.skip(1) + r);
        assert forall|i: int| 0 <= i < d.skip(1).len() implies is_digit(#[trigger] d.skip(1)[i], false) by {
            assert(is_digit(d[i + 1], false));
        }
        lemma_digits_ahead(d.skip(1), r);
    }
}

proof fn lemma_number(n: u8, r: Seq<char>)
    requires
        apart(r),
    ensures
        after_number(decimal(n as int) + r) == Some(r),
{
    let d = decimal(n as int);
    let s = d + r;
    lemma_decimal_digits(n as nat);
    lemma_digits_ahead(d, r);
    decimal_reads_back(n as int);
    let k = d.len() as int;
    assert(s.take(k) =~= d);
    assert(s.skip(k) =~= r);
    if k < s.len() {
        assert(s[k] == r[0]);
    }
    assert(after_sized(s) is None);
    assert(after_hex(s) is None) by {
        if s.len() >= 2 && s[1] == 'x' {
            if k >= 2 {
                assert(is_digit(d[1], false));
            } else {
                assert(s[1] == r[0]);
            }
        }
    }
}

proof fn lemma_step(w: Seq<char>, n: u8, r: Seq<char>)
    requires
        w == "incrVal"@ || w == "decrVal"@,
        apart(r),
    ensures
        after_step(w + seq!['='] + decimal(n as int) + r, w, false) == Some(r),
        after_step(seq![' '] + (w + seq!['='] + decimal(n as int) + r), w, false) == Some(r),
{
    reveal_strlit("incrVal");
    reveal_strlit("decrVal");
    let d = decimal(n as int);
    let v = seq!['='] + (d + r);
    assert(w + seq!['='] + d + r =~= w + v);
    lemma_word(w, v);
    assert(v[0] == '=');
    assert(after_gap(v) == v);
    assert(v.skip(1) =~= d + r);
    lemma_number(n, r);
}

/// A step as it is typed: none, or its number.
spec fn step_text(word: Seq<char>, n: Option<u8>) -> Seq<char> {
    match n {
        Some(k) => seq![' '] + (word + seq!['='] + decimal(k as int)),
        None => seq![],
    }
}

proof fn lemma_no_step(r: Seq<char>)
    requires
        flags(r),
    ensures
        after_word(r, "incrVal"@) is None,
        after_word(r, "decrVal"@) is None,
        after_word(after_gap(r), "incrVal"@) is None,
        after_word(after_gap(r), "decrVal"@) is None,
{
    reveal_strlit("incrVal");
    reveal_strlit("decrVal");
    let g = after_gap(r);
    lemma_gap_cut(r);
    lemma_other_word(g, "incrVal"@, 0);
    lemma_other_word(g, "decrVal"@, 0);
    lemma_word_after_gap(r, "incrVal"@);
    lemma_word_after_gap(r, "decrVal"@);
}

proof fn lemma_step_ahead(w: Seq<char>, k: u8, r: Seq<char>)
    requires
        w == "incrVal"@ || w == "decrVal"@,
        apart(r),
    ensures
        ({
            let s = step_text(w, Some(k)) + r;
            &&& apart(s)
            &&& after_step(s, w, false) == Some(r)
            &&& after_step(after_gap(s), w, false) == Some(r)
            &&& w == "decrVal"@ ==> after_word(after_gap(s), "incrVal"@) is None
        }),
{
    reveal_strlit("incrVal");
    reveal_strlit("decrVal");
    let body = w + seq!['='] + decimal(k as int) + r;
    let s = step_text(w, Some(k)) + r;
    assert(s =~= seq![' '] + body);
    lemma_step(w, k, r);
    let v = seq!['='] + (decimal(k as int) + r);
    assert(body =~= w + v);
    lemma_word(w, v);
    if w == "decrVal"@ {
        assert(body[0] == 'd');
        lemma_other_word(body, "incrVal"@, 0);
    }
}

proof fn lemma_steps(up: Option<u8>, down: Option<u8>, r: Seq<char>)
    requires
        flags(r),
    ensures
        ({
            let s = step_text("incrVal"@, up) + (step_text("decrVal"@, down) + r);
            only_flags(after_steps(after_gap(s))) && apart(s)
        }),
{
    let (iw, dw) = ("incrVal"@, "decrVal"@);
    let tail = step_text(dw, down) + r;
    let s = step_text(iw, up) + tail;
    lemma_no_step(r);
    match down {
        Some(k) => {
            lemma_step_ahead(dw, k, r);
        },
        None => {
            assert(tail =~= r);
        },
    }
    match up {
        Some(k) => {
            lemma_step_ahead(iw, k, tail);
        },
        None => {
            assert(s =~= tail);
        },
    }
}

proof fn lemma_gap_cut(s: Seq<char>)
    ensures
        after_gap(s).len() == 0 || !is_gap(after_gap(s)[0]),
        after_gap(after_gap(s)) == after_gap(s),
    decreases s.len(),
{
    if s.len() > 0 && is_gap(s[0]) {
        lemma_gap_cut(s.skip(1));
    }
}

proof fn lemma_word_after_gap(s: Seq<char>, w: Seq<char>)
    ensures
        after_word(s, w) == after_word(after_gap(s), w),
{
    lemma_gap_cut(s);
}

/// The flags that are set, as they are typed.
spec fn flag_text(sat: bool, event: bool, clr: bool) -> Seq<char> {
    let none = Seq::<char>::empty();
    (if sat {
        " sat"@
    } else {
        none
    }) + (if event {
        " event"@
    } else {
        none
    }) + (if clr {
        " clr"@
    } else {
        none
    })
}

proof fn lemma_flag_text(sat: bool, event: bool, clr: bool)
    ensures
        flags(flag_text(sat, event, clr)),
{
    reveal_strlit(" sat");
    reveal_strlit(" event");
    reveal_strlit(" clr");
    reveal_strlit("sat");
    reveal_strlit("event");
    reveal_strlit("clr");
    let none = Seq::<char>::empty();
    assert(flags(none));
    let a = if clr {
        seq![' '] + ("clr"@ + none)
    } else {
        none
    };
    if clr {
        lemma_flag("clr"@, none);
        assert(a =~= " clr"@);
    }
    let b = if event {
        seq![' '] + ("event"@ + a)
    } else {
        a
    };
    if event {
        lemma_flag("event"@, a);
        assert(b =~= " event"@ + a);
    }
    let c = if sat {
        seq![' '] + ("sat"@ + b)
    } else {
        b
    };
    if sat {
        lemma_flag("sat"@, b);
        assert(c =~= " sat"@ + b);
    }
    assert(flag_text(sat, event, clr) =~= c);
}

proof fn lemma_direction(r: Seq<char>)
    requires
        apart(r),
    ensures
        after_direction("up"@ + r) == Some(after_gap(r)),
        after_direction("down"@ + r) == Some(after_gap(r)),
        after_direction("updown"@ + r) == Some(after_gap(r)),
{
    reveal_strlit("up");
    reveal_strlit("down");
    reveal_strlit("updown");
    lemma_word("up"@, r);
    lemma_word("down"@, r);
    lemma_word("updown"@, r);
    let (a, c) = ("up"@ + r, "updown"@ + r);
    assert(a[0] == 'u' && c[0] == 'u');
    lemma_other_word(a, "down"@, 0);
    lemma_other_word(c, "down"@, 0);
    if a.len() > 2 {
        assert(a[2] == r[0]);
    }
    lemma_other_word(a, "updown"@, 2);
}

/// Whether a buffer for a step holds a decimal number below 256, or nothing.
pub open spec fn step_is(t: Seq<char>, n: Option<u8>) -> bool {
    match n {
        Some(k) => trimmed(t) == decimal(k as int),
        None => trimmed(t).len() == 0,
    }
}

proof fn lemma_typed_step(t: Seq<char>, n: Option<u8>)
    requires
        step_is(t, n),
    ensures
        step_typed(" incrVal="@, t) == step_text(
            "incrVal"@,
            if n == Some(0u8) {
                None
            } else {
                n
            },
        ),
        step_typed(" decrVal="@, t) == step_text(
            "decrVal"@,
            if n == Some(0u8) {
                None
            } else {
                n
            },
        ),
        n is Some <==> trimmed(t).len() > 0,
{
    reveal_strlit(" incrVal=");
    reveal_strlit(" decrVal=");
    reveal_strlit("incrVal");
    reveal_strlit("decrVal");
    reveal_strlit("0");
    if let Some(k) = n {
        let d = decimal(k as int);
        lemma_decimal_digits(k as nat);
        decimal_reads_back(k as int);
        decimal_reads_back(0);
        assert("0"@ =~= decimal(0)) by {
            assert(digit_char(0) == '0');
        }
        assert(k != 0 ==> d != decimal(0));
        assert(" incrVal="@ + d =~= seq![' '] + ("incrVal"@ + seq!['='] + d));
        assert(" decrVal="@ + d =~= seq![' '] + ("decrVal"@ + seq!['='] + d));
    }
}

/// The direction of a counter with steps.
spec fn direction(up: bool, down: bool) -> Seq<char> {
    if up && down {
        "updown"@
    } else if up {
        "up"@
    } else {
        "down"@
    }
}

/// A step that counts: zero is none.
spec fn counting(n: Option<u8>) -> Option<u8> {
    if n == Some(0u8) {
        None
    } else {
        n
    }
}

proof fn lemma_taken(up: bool, down: bool, u: Option<u8>, d: Option<u8>, f: Seq<char>)
    requires
        flags(f),
    ensures
        is_counter(direction(up, down) + (step_text("incrVal"@, u) + (step_text("decrVal"@, d) + f))),
{
    lemma_steps(u, d, f);
    lemma_direction(step_text("incrVal"@, u) + (step_text("decrVal"@, d) + f));
}

proof fn lemma_typed(b: FieldBuffersView, up: Option<u8>, down: Option<u8>)
    requires
        step_is(b.counter_up, up),
        step_is(b.counter_down, down),
    ensures
        counter_typed(b) == direction(up is Some, down is Some) + (step_text("incrVal"@, counting(up)) + (step_text(
            "decrVal"@,
            counting(down),
        ) + flag_text(b.counter_sat, b.counter_event, b.counter_clr))),
{
    lemma_typed_step(b.counter_up, up);
    lemma_typed_step(b.counter_down, down);
    let none = Seq::<char>::empty();
    lemma_grouped(
        direction(up is Some, down is Some),
        step_text("incrVal"@, counting(up)),
        step_text("decrVal"@, counting(down)),
        if b.counter_sat {
            " sat"@
        } else {
            none
        },
        if b.counter_event {
            " event"@
        } else {
            none
        },
        if b.counter_clr {
            " clr"@
        } else {
            none
        },
    );
}

/// Every counter with a step below 256 up, down or both ways goes to its reader, whatever flags are set.
pub proof fn counters_with_small_steps_are_taken(b: FieldBuffersView, up: Option<u8>, down: Option<u8>)
    requires
        step_is(b.counter_up, up),
        step_is(b.counter_down, down),
        up is Some || down is Some,
    ensures
        is_counter(counter_typed(b)),
{
    lemma_typed(b, up, down);
    lemma_flag_text(b.counter_sat, b.counter_event, b.counter_clr);
    lemma_taken(
        up is Some,
        down is Some,
        counting(up),
        counting(down),
        flag_text(b.counter_sat, b.counter_event, b.counter_clr),
    );
}

proof fn lemma_grouped(a: Seq<char>, b: Seq<char>, c: Seq<char>, d: Seq<char>, e: Seq<char>, f: Seq<char>)
    ensures
        a + b + c + d + e + f == a + (b + (c + (d + e + f))),
{
    assert(a + b + c + d + e + f =~= a + (b + (c + (d + e + f))));
}

} // verus!
