//! Conditions: the texts that can be handed to the reader of `yarig`.
//!
//! The reader takes a name, or an expression in brackets. It stops the program at a backslash
//! before the bracket that closes the expression, it counts brackets and separators in small
//! numbers, and the expression that it builds nests with every operator. So a text is looked
//! through first.
use vstd::prelude::*;
use crate::counter::{after_gap, skip_gap};
use crate::text::to_chars;

verus! {

/// The most operators that an expression may have. Each of them nests it once more, and printing and
/// dropping it takes up to half a kilobyte of stack for each: a megabyte is enough for these.
pub const MOST_OPERATORS: usize = 2048;

/// The most characters that an expression may have, as far as its brackets are counted.
pub const MOST_CHARS: usize = 0x7fff_ffff;

/// The most colons that a range may have, as far as its bounds are counted.
pub const MOST_COLONS: usize = 0xfffe;

/// The most commas that a list in braces may have, as far as they are counted.
pub const MOST_COMMAS: usize = 0xffff;

/// Where the expression that opened in front of `i` ends, with `depth` more brackets open: at the
/// bracket that closes it, or at a backslash, or at the end of the text.
pub open spec fn expression_end(s: Seq<char>, i: int, depth: nat) -> int
    decreases s.len() - i,
{
    if i < 0 || i >= s.len() {
        s.len() as int
    } else if s[i] == '\\' {
        i
    } else if s[i] == '(' {
        expression_end(s, i + 1, depth + 1)
    } else if s[i] == ')' {
        if depth == 0 {
            i
        } else {
            expression_end(s, i + 1, (depth - 1) as nat)
        }
    } else {
        expression_end(s, i + 1, depth)
    }
}

/// Whether a character makes an expression nest: negations, comparisons, joins and braces.
pub open spec fn is_operator(c: char) -> bool {
    c == '!' || c == '~' || c == '&' || c == '|' || c == '^' || c == '=' || c == '<' || c == '>' || c == '{'
}

/// How many operators there are.
pub open spec fn operators(s: Seq<char>) -> nat
    decreases s.len(),
{
    if s.len() == 0 {
        0
    } else {
        operators(s.drop_last()) + if is_operator(s.last()) {
            1nat
        } else {
            0nat
        }
    }
}

/// A bracket that is open, with the separators behind it.
pub struct OpenBracket {
    pub bracket: char,
    pub separators: usize,
}

/// The bracket that opens what another one closes.
pub open spec fn opener(c: char) -> char {
    if c == ')' {
        '('
    } else if c == ']' {
        '['
    } else {
        '{'
    }
}

/// Whether the separators from `i` on can be counted, with brackets open. Colons stand in ranges and
/// commas in braces: an expression with anything out of place is rejected there.
pub open spec fn separators_fit(s: Seq<char>, i: int, open: Seq<OpenBracket>) -> bool
    decreases s.len() - i,
{
    if i < 0 || i >= s.len() {
        true
    } else if s[i] == '(' || s[i] == '[' || s[i] == '{' {
        separators_fit(s, i + 1, open.push(OpenBracket { bracket: s[i], separators: 0 }))
    } else if s[i] == ')' || s[i] == ']' || s[i] == '}' {
        open.len() > 0 && open.last().bracket == opener(s[i]) ==> separators_fit(s, i + 1, open.drop_last())
    } else if s[i] == ':' || s[i] == ',' {
        let (home, most) = if s[i] == ':' {
            ('[', MOST_COLONS)
        } else {
            ('{', MOST_COMMAS)
        };
        open.len() > 0 && open.last().bracket == home ==> open.last().separators < most && separators_fit(
            s,
            i + 1,
            open.drop_last().push(
                OpenBracket { bracket: home, separators: (open.last().separators + 1) as usize },
            ),
        )
    } else {
        separators_fit(s, i + 1, open)
    }
}

/// What keeps an expression in brackets from being read.
pub open spec fn expression_problem(t: Seq<char>) -> Option<Seq<char>> {
    let k = expression_end(t, 1, 0);
    if t.len() > MOST_CHARS {
        Some("expression too long"@)
    } else if k >= t.len() {
        None
    } else if t[k] == '\\' {
        Some("unexpected backslash"@)
    } else if after_gap(t.skip(k + 1)).len() > 0 {
        None
    } else if !separators_fit(t, 0, seq![]) {
        Some("too many separators"@)
    } else if operators(t) > MOST_OPERATORS {
        Some("too many operators"@)
    } else {
        None
    }
}

/// What keeps a condition from being read; `None` where the reader can take it. It takes any name,
/// and it rejects by itself what is no name and opens no bracket, or does not end with the bracket
/// that closes it.
pub open spec fn condition_problem(text: Seq<char>) -> Option<Seq<char>> {
    let t = after_gap(text);
    if t.len() > 0 && t[0] == '(' {
        expression_problem(t)
    } else {
        None
    }
}

/// Whether a condition can be handed to its reader.
pub open spec fn is_readable(text: Seq<char>) -> bool {
    condition_problem(text) is None
}

/// Finds where the expression that opens at `start` ends.
fn find_end(cs: &Vec<char>, start: usize) -> (r: usize)
    requires
        start < cs@.len(),
    ensures
        start < r <= cs@.len(),
        r - start == expression_end(cs@.skip(start as int), 1, 0),
{
    let ghost t = cs@.skip(start as int);
    let total: usize = cs.len();
    let mut i: usize = start + 1;
    let mut depth: usize = 0;
    while i < total
        invariant
            start < i <= total == cs@.len(),
            t == cs@.skip(start as int),
            depth < i - start,
            expression_end(t, 1, 0) == expression_end(t, i - start, depth as nat),
        decreases cs@.len() - i,
    {
        let c = cs[i];
        proof {
            assert(t[i - start] == c);
        }
        if c == '\\' || (c == ')' && depth == 0) {
            return i;
        }
        if c == '(' {
            depth += 1;
        } else if c == ')' {
            depth -= 1;
        }
        i += 1;
    }
    i
}

fn operator(c: char) -> (r: bool)
    ensures
        r == is_operator(c),
{
    c == '!' || c == '~' || c == '&' || c == '|' || c == '^' || c == '=' || c == '<' || c == '>' || c == '{'
}

fn count_operators(cs: &Vec<char>, start: usize) -> (r: usize)
    requires
        start <= cs@.len(),
    ensures
        r == operators(cs@.skip(start as int)),
{
    let ghost t = cs@.skip(start as int);
    let mut i: usize = start;
    let mut n: usize = 0;
    while i < cs.len()
        invariant
            start <= i <= cs@.len(),
            t == cs@.skip(start as int),
            n <= i - start,
            n == operators(t.take(i - start)),
        decreases cs@.len() - i,
    {
        proof {
            assert(t.take(i + 1 - start).drop_last() =~= t.take(i - start));
            assert(t.take(i + 1 - start).last() == cs@[i as int]);
        }
        if operator(cs[i]) {
            n += 1;
        }
        i += 1;
    }
    proof {
        assert(t.take(i - start) =~= t);
    }
    n
}

fn check_separators(cs: &Vec<char>, start: usize) -> (r: bool)
    requires
        start <= cs@.len(),
    ensures
        r == separators_fit(cs@.skip(start as int), 0, seq![]),
{
    let ghost t = cs@.skip(start as int);
    let mut open: Vec<OpenBracket> = Vec::new();
    let mut i: usize = start;
    proof {
        assert(open@ =~= Seq::<OpenBracket>::empty());
    }
    while i < cs.len()
        invariant
            start <= i <= cs@.len(),
            t == cs@.skip(start as int),
            separators_fit(t, 0, seq![]) == separators_fit(t, i - start, open@),
        decreases cs@.len() - i,
    {
        let c = cs[i];
        let ghost was = open@;
        proof {
            assert(t[i - start] == c);
        }
        if c == '(' || c == '[' || c == '{' {
            open.push(OpenBracket { bracket: c, separators: 0 });
        } else if c == ')' || c == ']' || c == '}' {
            let home = if c == ')' {
                '('
            } else if c == ']' {
                '['
            } else {
                '{'
            };
            match open.pop() {
                Some(o) => {
                    if o.bracket != home {
                        return true;
                    }
                },
                None => {
                    return true;
                },
            }
        } else if c == ':' || c == ',' {
            let home = if c == ':' {
                '['
            } else {
                '{'
            };
            let most: usize = if c == ':' {
                MOST_COLONS
            } else {
                MOST_COMMAS
            };
            match open.pop() {
                Some(o) => {
                    if o.bracket != home {
                        return true;
                    }
                    if o.separators >= most {
                        return false;
                    }
                    open.push(OpenBracket { bracket: home, separators: o.separators + 1 });
                },
                None => {
                    return true;
                },
            }
        }
        i += 1;
    }
    true
}

/// Says what keeps a condition from being read, where something does.
pub fn check_condition(text: &str) -> (r: Option<String>)
    ensures
        r.deep_view() == condition_problem(text@),
{
    let cs = to_chars(text);
    proof {
        assert(cs@.skip(0) =~= cs@);
    }
    let start = skip_gap(&cs, 0);
    let ghost t = cs@.skip(start as int);
    if start >= cs.len() || cs[start] != '(' {
        return None;
    }
    proof {
        assert(t[0] == '(');
    }
    if cs.len() - start > MOST_CHARS {
        return Some("expression too long".to_owned());
    }
    let end = find_end(&cs, start);
    if end >= cs.len() {
        return None;
    }
    proof {
        assert(t[end - start] == cs@[end as int]);
        assert(t.skip(end - start + 1) =~= cs@.skip(end + 1));
    }
    if cs[end] == '\\' {
        return Some("unexpected backslash".to_owned());
    }
    if skip_gap(&cs, end + 1) < cs.len() {
        return None;
    }
    if !check_separators(&cs, start) {
        return Some("too many separators".to_owned());
    }
    if count_operators(&cs, start) > MOST_OPERATORS {
        return Some("too many operators".to_owned());
    }
    None
}

} // verus!
