//! Counter settings: the texts that can be handed to the reader of `yarig`.
//!
//! The reader stops the program on a text with anything but settings behind the direction, where
//! it was built with debug assertions. So a text is looked through first.
use vstd::prelude::*;
use crate::number::{read_unsigned, unsigned_value};
use crate::text::{from_chars, to_chars};

verus! {

/// Blanks between settings.
pub open spec fn is_gap(c: char) -> bool {
    c == ' ' || c == '\t' || c == '\r' || c == '\n'
}

/// What follows the blanks.
pub open spec fn after_gap(s: Seq<char>) -> Seq<char>
    decreases s.len(),
{
    if s.len() > 0 && is_gap(s[0]) {
        after_gap(s.skip(1))
    } else {
        s
    }
}

/// What follows a word and the blanks around it; `None` where it does not come next.
pub open spec fn after_word(s: Seq<char>, word: Seq<char>) -> Option<Seq<char>> {
    let t = after_gap(s);
    if word.is_prefix_of(t) {
        Some(after_gap(t.skip(word.len() as int)))
    } else {
        None
    }
}

/// Whether a character is a decimal digit, or a hexadecimal one.
pub open spec fn is_digit(c: char, hex: bool) -> bool {
    ('0' <= c && c <= '9') || (hex && (('a' <= c && c <= 'f') || ('A' <= c && c <= 'F')))
}

/// How many digits come next.
pub open spec fn digits_ahead(s: Seq<char>, hex: bool) -> nat
    decreases s.len(),
{
    if s.len() > 0 && is_digit(s[0], hex) {
        1 + digits_ahead(s.skip(1), hex)
    } else {
        0
    }
}

/// What follows the digits of a byte; `None` where none comes next.
pub open spec fn after_byte(s: Seq<char>, radix: nat) -> Option<Seq<char>> {
    let n = digits_ahead(s, radix == 16);
    match unsigned_value(s.take(n as int), radix) {
        Some(v) if n > 0 && v <= u8::MAX => Some(s.skip(n as int)),
        _ => None,
    }
}

/// The radix that a letter stands for.
pub open spec fn radix_of(c: char) -> Option<nat> {
    if c == 'b' {
        Some(2)
    } else if c == 'o' {
        Some(8)
    } else if c == 'd' {
        Some(10)
    } else if c == 'h' {
        Some(16)
    } else {
        None
    }
}

/// What follows a byte with its radix in front, as in `8'h1f`.
pub open spec fn after_sized(s: Seq<char>) -> Option<Seq<char>> {
    let n = digits_ahead(s, false) as int;
    if n + 1 < s.len() && s[n] == '\'' {
        match radix_of(s[n + 1]) {
            Some(radix) => after_byte(s.skip(n + 2), radix),
            None => None,
        }
    } else {
        None
    }
}

/// What follows a byte that is written with `0x`.
pub open spec fn after_hex(s: Seq<char>) -> Option<Seq<char>> {
    if s.len() >= 2 && s[0] == '0' && s[1] == 'x' {
        after_byte(s.skip(2), 16)
    } else {
        None
    }
}

/// What follows a number; `None` where none comes next.
pub open spec fn after_number(s: Seq<char>) -> Option<Seq<char>> {
    match after_sized(s) {
        Some(t) => Some(t),
        None => match after_hex(s) {
            Some(t) => Some(t),
            None => after_byte(s, 10),
        },
    }
}

/// What follows the value of a step; where none comes next, nothing is skipped.
pub open spec fn after_value(s: Seq<char>, sign_needed: bool) -> Seq<char> {
    let signed = s.len() > 0 && s[0] == '=';
    let t = if signed {
        s.skip(1)
    } else {
        s
    };
    match after_number(t) {
        Some(u) if signed || !sign_needed => u,
        _ => s,
    }
}

/// What follows a step; `None` where it does not come next.
pub open spec fn after_step(s: Seq<char>, word: Seq<char>, sign_needed: bool) -> Option<Seq<char>> {
    match after_word(s, word) {
        Some(t) => Some(after_value(t, sign_needed)),
        None => None,
    }
}

/// What follows the direction.
pub open spec fn after_direction(s: Seq<char>) -> Option<Seq<char>> {
    match after_word(s, "down"@) {
        Some(t) => Some(t),
        None => match after_word(s, "updown"@) {
            Some(t) => Some(t),
            None => after_word(s, "up"@),
        },
    }
}

/// What follows the steps: up and down, or down and up.
pub open spec fn after_steps(s: Seq<char>) -> Seq<char> {
    match after_step(s, "incrVal"@, false) {
        Some(t) => match after_step(t, "decrVal"@, false) {
            Some(u) => u,
            None => t,
        },
        None => match after_step(s, "decrVal"@, false) {
            Some(t) => match after_step(t, "incrVal"@, true) {
                Some(u) => u,
                None => t,
            },
            None => s,
        },
    }
}

/// What follows a flag; `None` where none comes next.
pub open spec fn after_flag(s: Seq<char>) -> Option<Seq<char>> {
    match after_word(s, "sat"@) {
        Some(t) => Some(t),
        None => match after_word(s, "event"@) {
            Some(t) => Some(t),
            None => after_word(s, "clr"@),
        },
    }
}

/// Whether there is nothing but flags.
pub open spec fn only_flags(s: Seq<char>) -> bool
    decreases s.len(),
{
    if s.len() == 0 {
        true
    } else {
        match after_flag(s) {
            Some(t) if t.len() < s.len() => only_flags(t),
            _ => false,
        }
    }
}

/// Whether a text is a direction with settings behind it.
pub open spec fn is_counter(s: Seq<char>) -> bool {
    match after_direction(s) {
        Some(t) => only_flags(after_steps(t)),
        None => false,
    }
}

/// Goes past the blanks from `i` on.
pub fn skip_gap(cs: &Vec<char>, i: usize) -> (r: usize)
    requires
        i <= cs@.len(),
    ensures
        i <= r <= cs@.len(),
        after_gap(cs@.skip(i as int)) == cs@.skip(r as int),
{
    let mut k: usize = i;
    while k < cs.len() && (cs[k] == ' ' || cs[k] == '\t' || cs[k] == '\r' || cs[k] == '\n')
        invariant
            i <= k <= cs@.len(),
            after_gap(cs@.skip(i as int)) == after_gap(cs@.skip(k as int)),
        decreases cs@.len() - k,
    {
        proof {
            assert(cs@.skip(k as int).skip(1) =~= cs@.skip(k + 1));
        }
        k += 1;
    }
    k
}

fn skip_word(cs: &Vec<char>, i: usize, word: &str) -> (r: Option<usize>)
    requires
        i <= cs@.len(),
    ensures
        match r {
            Some(k) => i + word@.len() <= k <= cs@.len() && after_word(cs@.skip(i as int), word@) == Some(
                cs@.skip(k as int),
            ),
            None => after_word(cs@.skip(i as int), word@) is None,
        },
{
    let from = skip_gap(cs, i);
    let ghost t = cs@.skip(from as int);
    let w = to_chars(word);
    let n: usize = w.len();
    let total: usize = cs.len();
    if n > total - from {
        return None;
    }
    let mut k: usize = 0;
    while k < n
        invariant
            k <= n == w@.len(),
            w@ == word@,
            i <= from <= cs@.len(),
            n <= total - from,
            total == cs@.len(),
            t == cs@.skip(from as int),
            after_gap(cs@.skip(i as int)) == t,
            forall|j: int| 0 <= j < k ==> w@[j] == t[j],
        decreases n - k,
    {
        if cs[from + k] != w[k] {
            proof {
                assert(t[k as int] != word@[k as int]);
            }
            return None;
        }
        k += 1;
    }
    proof {
        assert(word@.is_prefix_of(t)) by {
            assert(word@ =~= t.subrange(0, word@.len() as int));
        }
        assert(t.skip(n as int) =~= cs@.skip(from + n));
    }
    Some(skip_gap(cs, from + n))
}

fn count_digits(cs: &Vec<char>, i: usize, hex: bool) -> (r: usize)
    requires
        i <= cs@.len(),
    ensures
        r == digits_ahead(cs@.skip(i as int), hex),
        i + r <= cs@.len(),
{
    let mut k: usize = i;
    while k < cs.len() && (('0' <= cs[k] && cs[k] <= '9') || (hex && (('a' <= cs[k] && cs[k] <= 'f') || ('A'
        <= cs[k] && cs[k] <= 'F'))))
        invariant
            i <= k <= cs@.len(),
            digits_ahead(cs@.skip(i as int), hex) == (k - i) + digits_ahead(cs@.skip(k as int), hex),
        decreases cs@.len() - k,
    {
        proof {
            assert(cs@.skip(k as int).skip(1) =~= cs@.skip(k + 1));
        }
        k += 1;
    }
    k - i
}

fn skip_byte(cs: &Vec<char>, i: usize, radix: u32) -> (r: Option<usize>)
    requires
        i <= cs@.len(),
        2 <= radix <= 36,
    ensures
        match r {
            Some(k) => i < k <= cs@.len() && after_byte(cs@.skip(i as int), radix as nat) == Some(
                cs@.skip(k as int),
            ),
            None => after_byte(cs@.skip(i as int), radix as nat) is None,
        },
{
    let n = count_digits(cs, i, radix == 16);
    let total: usize = cs.len();
    assert(i + n <= total);
    let text = from_chars(cs, i, i + n);
    proof {
        assert(text@ =~= cs@.skip(i as int).take(n as int));
        assert(cs@.skip(i as int).skip(n as int) =~= cs@.skip(i + n));
    }
    match read_unsigned(text.as_str(), radix) {
        Some(v) => {
            if n > 0 && v <= 0xff {
                Some(i + n)
            } else {
                None
            }
        },
        None => None,
    }
}

fn skip_sized(cs: &Vec<char>, i: usize) -> (r: Option<usize>)
    requires
        i <= cs@.len(),
    ensures
        match r {
            Some(k) => i < k <= cs@.len() && after_sized(cs@.skip(i as int)) == Some(cs@.skip(k as int)),
            None => after_sized(cs@.skip(i as int)) is None,
        },
{
    let n = count_digits(cs, i, false);
    let ghost s = cs@.skip(i as int);
    if cs.len() - i < 2 || n >= cs.len() - i - 1 {
        return None;
    }
    if cs[i + n] != '\'' {
        return None;
    }
    let letter = cs[i + n + 1];
    proof {
        assert(s[n as int] == '\'' && s[n + 1] == letter);
        assert(s.skip(n + 2) =~= cs@.skip(i + n + 2));
    }
    let radix: u32 = if letter == 'b' {
        2
    } else if letter == 'o' {
        8
    } else if letter == 'd' {
        10
    } else if letter == 'h' {
        16
    } else {
        return None;
    };
    skip_byte(cs, i + n + 2, radix)
}

fn skip_number(cs: &Vec<char>, i: usize) -> (r: Option<usize>)
    requires
        i <= cs@.len(),
    ensures
        match r {
            Some(k) => i < k <= cs@.len() && after_number(cs@.skip(i as int)) == Some(cs@.skip(k as int)),
            None => after_number(cs@.skip(i as int)) is None,
        },
{
    if let Some(k) = skip_sized(cs, i) {
        return Some(k);
    }
    if cs.len() - i >= 2 && cs[i] == '0' && cs[i + 1] == 'x' {
        proof {
            assert(cs@.skip(i as int).skip(2) =~= cs@.skip(i + 2));
        }
        if let Some(k) = skip_byte(cs, i + 2, 16) {
            return Some(k);
        }
    }
    skip_byte(cs, i, 10)
}

fn skip_value(cs: &Vec<char>, i: usize, sign_needed: bool) -> (r: usize)
    requires
        i <= cs@.len(),
    ensures
        i <= r <= cs@.len(),
        after_value(cs@.skip(i as int), sign_needed) == cs@.skip(r as int),
{
    if i < cs.len() && cs[i] == '=' {
        proof {
            assert(cs@.skip(i as int).skip(1) =~= cs@.skip(i + 1));
        }
        match skip_number(cs, i + 1) {
            Some(k) => k,
            None => i,
        }
    } else if sign_needed {
        i
    } else {
        match skip_number(cs, i) {
            Some(k) => k,
            None => i,
        }
    }
}

fn skip_step(cs: &Vec<char>, i: usize, word: &str, sign_needed: bool) -> (r: Option<usize>)
    requires
        i <= cs@.len(),
    ensures
        match r {
            Some(k) => i <= k <= cs@.len() && after_step(cs@.skip(i as int), word@, sign_needed) == Some(
                cs@.skip(k as int),
            ),
            None => after_step(cs@.skip(i as int), word@, sign_needed) is None,
        },
{
    match skip_word(cs, i, word) {
        Some(k) => Some(skip_value(cs, k, sign_needed)),
        None => None,
    }
}

fn skip_direction(cs: &Vec<char>) -> (r: Option<usize>)
    ensures
        match r {
            Some(k) => k <= cs@.len() && after_direction(cs@) == Some(cs@.skip(k as int)),
            None => after_direction(cs@) is None,
        },
{
    proof {
        assert(cs@.skip(0) =~= cs@);
    }
    if let Some(k) = skip_word(cs, 0, "down") {
        return Some(k);
    }
    if let Some(k) = skip_word(cs, 0, "updown") {
        return Some(k);
    }
    skip_word(cs, 0, "up")
}

fn skip_steps(cs: &Vec<char>, i: usize) -> (r: usize)
    requires
        i <= cs@.len(),
    ensures
        r <= cs@.len(),
        after_steps(cs@.skip(i as int)) == cs@.skip(r as int),
{
    match skip_step(cs, i, "incrVal", false) {
        Some(k) => match skip_step(cs, k, "decrVal", false) {
            Some(m) => m,
            None => k,
        },
        None => match skip_step(cs, i, "decrVal", false) {
            Some(k) => match skip_step(cs, k, "incrVal", true) {
                Some(m) => m,
                None => k,
            },
            None => i,
        },
    }
}

fn skip_flag(cs: &Vec<char>, i: usize) -> (r: Option<usize>)
    requires
        i <= cs@.len(),
    ensures
        match r {
            Some(k) => i < k <= cs@.len() && after_flag(cs@.skip(i as int)) == Some(cs@.skip(k as int)),
            None => after_flag(cs@.skip(i as int)) is None,
        },
{
    proof {
        reveal_strlit("sat");
        reveal_strlit("event");
        reveal_strlit("clr");
    }
    if let Some(k) = skip_word(cs, i, "sat") {
        return Some(k);
    }
    if let Some(k) = skip_word(cs, i, "event") {
        return Some(k);
    }
    skip_word(cs, i, "clr")
}

/// Whether a text is a direction with settings behind it.
pub fn check_counter(text: &str) -> (r: bool)
    ensures
        r == is_counter(text@),
{
    let cs = to_chars(text);
    let mut i: usize = match skip_direction(&cs) {
        Some(k) => skip_steps(&cs, k),
        None => {
            return false;
        },
    };
    while i < cs.len()
        invariant
            i <= cs@.len(),
            only_flags(cs@.skip(i as int)) == is_counter(text@),
        decreases cs@.len() - i,
    {
        match skip_flag(&cs, i) {
            Some(k) => {
                i = k;
            },
            None => {
                return false;
            },
        }
    }
    true
}

} // verus!
