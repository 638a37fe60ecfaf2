//! Number syntax: digits, signs and radix prefixes, both ways.
use vstd::prelude::*;
use crate::text::to_chars;

verus! {

/// What the character stands for as a digit, whatever the radix.
pub open spec fn digit_of(c: char) -> Option<nat> {
    if '0' <= c && c <= '9' {
        Some((c as u32 - '0' as u32) as nat)
    } else if 'a' <= c && c <= 'z' {
        Some((c as u32 - 'a' as u32 + 10) as nat)
    } else if 'A' <= c && c <= 'Z' {
        Some((c as u32 - 'A' as u32 + 10) as nat)
    } else {
        None
    }
}

/// The value of `c` as a digit below `radix`.
pub open spec fn digit_in(c: char, radix: nat) -> Option<nat> {
    match digit_of(c) {
        Some(d) if d < radix => Some(d),
        _ => None,
    }
}

/// The number that a run of digits writes, most significant digit first; `None` where a
/// character is no digit of the radix. The empty run writes zero.
pub open spec fn digits_value(s: Seq<char>, radix: nat) -> Option<nat>
    decreases s.len(),
{
    if s.len() == 0 {
        Some(0)
    } else {
        match (digits_value(s.drop_last(), radix), digit_in(s.last(), radix)) {
            (Some(v), Some(d)) => Some(v * radix + d),
            _ => None,
        }
    }
}

/// An optional `+` and at least one digit.
pub open spec fn unsigned_value(s: Seq<char>, radix: nat) -> Option<nat> {
    let body = if s.len() > 0 && s[0] == '+' {
        s.drop_first()
    } else {
        s
    };
    if body.len() == 0 {
        None
    } else {
        digits_value(body, radix)
    }
}

/// An optional sign and at least one digit.
pub open spec fn signed_value(s: Seq<char>, radix: nat) -> Option<int> {
    if s.len() > 0 && s[0] == '-' {
        if s.len() == 1 {
            None
        } else {
            match digits_value(s.drop_first(), radix) {
                Some(v) => Some(-(v as int)),
                None => None,
            }
        }
    } else {
        match unsigned_value(s, radix) {
            Some(v) => Some(v as int),
            None => None,
        }
    }
}

/// The part behind a `0x` or `0X` prefix.
pub open spec fn hex_body(s: Seq<char>) -> Option<Seq<char>> {
    if s.len() >= 2 && s[0] == '0' && (s[1] == 'x' || s[1] == 'X') {
        Some(s.skip(2))
    } else {
        None
    }
}

/// A natural number: hexadecimal behind a `0x` prefix, decimal otherwise.
pub open spec fn prefixed_unsigned(s: Seq<char>) -> Option<nat> {
    match hex_body(s) {
        Some(h) => unsigned_value(h, 16),
        None => unsigned_value(s, 10),
    }
}

/// An integer: hexadecimal behind a `0x` prefix, decimal otherwise.
pub open spec fn prefixed_signed(s: Seq<char>) -> Option<int> {
    match hex_body(s) {
        Some(h) => signed_value(h, 16),
        None => signed_value(s, 10),
    }
}

fn digit(c: char) -> (r: Option<u32>)
    ensures
        match digit_of(c) {
            Some(d) => r == Some(d as u32) && d < 36,
            None => r is None,
        },
{
    let n: u32 = c as u32;
    if '0' as u32 <= n && n <= '9' as u32 {
        Some(n - '0' as u32)
    } else if 'a' as u32 <= n && n <= 'z' as u32 {
        Some(n - 'a' as u32 + 10)
    } else if 'A' as u32 <= n && n <= 'Z' as u32 {
        Some(n - 'A' as u32 + 10)
    } else {
        None
    }
}

/// Appending digits never makes the number smaller.
proof fn lemma_prefix_value(s: Seq<char>, i: int, radix: nat)
    requires
        0 <= i <= s.len(),
        radix >= 1,
    ensures
        digits_value(s, radix) is Some ==> digits_value(s.take(i), radix) is Some && digits_value(
            s.take(i),
            radix,
        )->0 <= digits_value(s, radix)->0,
    decreases s.len(),
{
    if i == s.len() {
        assert(s.take(i) =~= s);
    } else {
        lemma_prefix_value(s.drop_last(), i, radix);
        assert(s.drop_last().take(i) =~= s.take(i));
        if digits_value(s, radix) is Some {
            let v = digits_value(s.drop_last(), radix)->0;
            assert(v <= v * radix) by (nonlinear_arith)
                requires
                    radix >= 1,
            ;
        }
    }
}

/// The value of the digits `cs[from..]`, where it fits 128 bits.
fn parse_digits(cs: &Vec<char>, from: usize, radix: u32) -> (r: Option<u128>)
    requires
        from <= cs@.len(),
        2 <= radix <= 36,
    ensures
        ({
            let v = digits_value(cs@.skip(from as int), radix as nat);
            match r {
                Some(x) => v == Some(x as nat),
                None => v is None || v->0 > u128::MAX,
            }
        }),
{
    let mut acc: u128 = 0;
    let mut i: usize = from;
    let ghost s = cs@.skip(from as int);
    proof {
        assert(s.take(0) =~= Seq::<char>::empty());
    }
    while i < cs.len()
        invariant
            from <= i <= cs@.len(),
            2 <= radix <= 36,
            s == cs@.skip(from as int),
            digits_value(s.take(i - from), radix as nat) == Some(acc as nat),
        decreases cs@.len() - i,
    {
        let ghost t = s.take(i - from + 1);
        proof {
            assert(t.drop_last() =~= s.take(i - from));
            assert(t.last() == cs@[i as int]);
            lemma_prefix_value(s, i - from + 1, radix as nat);
        }
        let d: u32 = match digit(cs[i]) {
            Some(d) => d,
            None => {
                return None;
            },
        };
        if d >= radix {
            return None;
        }
        let scaled: u128 = match acc.checked_mul(radix as u128) {
            Some(x) => x,
            None => {
                return None;
            },
        };
        acc = match scaled.checked_add(d as u128) {
            Some(x) => x,
            None => {
                return None;
            },
        };
        i += 1;
    }
    proof {
        assert(s.take(s.len() as int) =~= s);
    }
    Some(acc)
}

/// Reads `cs[from..]` as an optional `+` and digits.
fn parse_unsigned(cs: &Vec<char>, from: usize, radix: u32) -> (r: Option<u128>)
    requires
        from <= cs@.len(),
        2 <= radix <= 36,
    ensures
        ({
            let v = unsigned_value(cs@.skip(from as int), radix as nat);
            match r {
                Some(x) => v == Some(x as nat),
                None => v is None || v->0 > u128::MAX,
            }
        }),
{
    let ghost s = cs@.skip(from as int);
    let mut start: usize = from;
    if from < cs.len() && cs[from] == '+' {
        start = from + 1;
        proof {
            assert(s.drop_first() =~= cs@.skip(from as int + 1));
        }
    }
    if start == cs.len() {
        return None;
    }
    parse_digits(cs, start, radix)
}

/// Reads `cs[from..]` as an optional sign and digits.
fn parse_signed(cs: &Vec<char>, from: usize, radix: u32) -> (r: Option<i128>)
    requires
        from <= cs@.len(),
        2 <= radix <= 36,
    ensures
        ({
            let v = signed_value(cs@.skip(from as int), radix as nat);
            match r {
                Some(x) => v == Some(x as int),
                None => v is None || v->0 > i128::MAX || v->0 < i128::MIN,
            }
        }),
{
    let ghost s = cs@.skip(from as int);
    if from < cs.len() && cs[from] == '-' {
        if from + 1 == cs.len() {
            return None;
        }
        proof {
            assert(s.drop_first() =~= cs@.skip(from as int + 1));
        }
        match parse_digits(cs, from + 1, radix) {
            Some(m) => {
                if m <= 0x7fff_ffff_ffff_ffff_ffff_ffff_ffff_ffffu128 {
                    Some(-(m as i128))
                } else if m == 0x8000_0000_0000_0000_0000_0000_0000_0000u128 {
                    Some(i128::MIN)
                } else {
                    None
                }
            },
            None => None,
        }
    } else {
        match parse_unsigned(cs, from, radix) {
            Some(m) => {
                if m <= 0x7fff_ffff_ffff_ffff_ffff_ffff_ffff_ffffu128 {
                    Some(m as i128)
                } else {
                    None
                }
            },
            None => None,
        }
    }
}

fn has_hex_prefix(cs: &Vec<char>) -> (r: bool)
    ensures
        r == (hex_body(cs@) is Some),
        r ==> hex_body(cs@)->0 == cs@.skip(2) && cs@.len() >= 2,
{
    cs.len() >= 2 && cs[0] == '0' && (cs[1] == 'x' || cs[1] == 'X')
}

/// The natural number that `s` writes in `radix`, where it fits 128 bits.
pub fn read_unsigned(s: &str, radix: u32) -> (r: Option<u128>)
    requires
        2 <= radix <= 36,
    ensures
        match r {
            Some(x) => unsigned_value(s@, radix as nat) == Some(x as nat),
            None => unsigned_value(s@, radix as nat) is None || unsigned_value(
                s@,
                radix as nat,
            )->0 > u128::MAX,
        },
{
    let cs = to_chars(s);
    proof {
        assert(cs@.skip(0) =~= cs@);
    }
    parse_unsigned(&cs, 0, radix)
}

/// The integer that `s` writes in decimal, where it fits 128 bits.
pub fn read_signed(s: &str) -> (r: Option<i128>)
    ensures
        match r {
            Some(x) => signed_value(s@, 10) == Some(x as int),
            None => signed_value(s@, 10) is None || signed_value(s@, 10)->0 > i128::MAX
                || signed_value(s@, 10)->0 < i128::MIN,
        },
{
    let cs = to_chars(s);
    proof {
        assert(cs@.skip(0) =~= cs@);
    }
    parse_signed(&cs, 0, 10)
}

/// The natural number that `s` writes, with or without a `0x` prefix, where it fits 128 bits.
pub fn read_prefixed_unsigned(s: &str) -> (r: Option<u128>)
    ensures
        match r {
            Some(x) => prefixed_unsigned(s@) == Some(x as nat),
            None => prefixed_unsigned(s@) is None || prefixed_unsigned(s@)->0 > u128::MAX,
        },
{
    let cs = to_chars(s);
    proof {
        assert(cs@.skip(0) =~= cs@);
    }
    if has_hex_prefix(&cs) {
        parse_unsigned(&cs, 2, 16)
    } else {
        parse_unsigned(&cs, 0, 10)
    }
}

/// The integer that `s` writes, with or without a `0x` prefix, where it fits 128 bits.
pub fn read_prefixed_signed(s: &str) -> (r: Option<i128>)
    ensures
        match r {
            Some(x) => prefixed_signed(s@) == Some(x as int),
            None => prefixed_signed(s@) is None || prefixed_signed(s@)->0 > i128::MAX
                || prefixed_signed(s@)->0 < i128::MIN,
        },
{
    let cs = to_chars(s);
    proof {
        assert(cs@.skip(0) =~= cs@);
    }
    if has_hex_prefix(&cs) {
        parse_signed(&cs, 2, 16)
    } else {
        parse_signed(&cs, 0, 10)
    }
}

/// The decimal number in `s`, where it fits a byte.
pub open spec fn byte_value(s: Seq<char>) -> Option<u8> {
    match unsigned_value(s, 10) {
        Some(v) if v <= u8::MAX => Some(v as u8),
        _ => None,
    }
}

/// Reads a decimal byte.
pub fn read_byte(s: &str) -> (r: Option<u8>)
    ensures
        r == byte_value(s@),
{
    match read_unsigned(s, 10) {
        Some(v) => {
            if v <= 0xff {
                Some(v as u8)
            } else {
                None
            }
        },
        None => None,
    }
}

/// The hexadecimal address in `s`, with or without a `0x` prefix, where it fits 64 bits.
pub open spec fn address_value(s: Seq<char>) -> Option<u64> {
    let body = match hex_body(s) {
        Some(h) => h,
        None => s,
    };
    match unsigned_value(body, 16) {
        Some(v) if v <= u64::MAX => Some(v as u64),
        _ => None,
    }
}

/// Reads a hexadecimal address.
pub fn read_address(s: &str) -> (r: Option<u64>)
    ensures
        r == address_value(s@),
{
    let cs = to_chars(s);
    proof {
        assert(cs@.skip(0) =~= cs@);
    }
    let v = if has_hex_prefix(&cs) {
        parse_unsigned(&cs, 2, 16)
    } else {
        parse_unsigned(&cs, 0, 16)
    };
    match v {
        Some(v) => {
            if v <= 0xffff_ffff_ffff_ffff {
                Some(v as u64)
            } else {
                None
            }
        },
        None => None,
    }
}

/// The decimal integer in `s`, where it fits `isize`.
pub open spec fn isize_value(s: Seq<char>) -> Option<isize> {
    match signed_value(s, 10) {
        Some(v) if isize::MIN <= v <= isize::MAX => Some(v as isize),
        _ => None,
    }
}

/// Reads a decimal `isize`.
pub fn read_isize(s: &str) -> (r: Option<isize>)
    ensures
        r == isize_value(s@),
{
    match read_signed(s) {
        Some(v) => {
            if (isize::MIN as i128) <= v && v <= (isize::MAX as i128) {
                Some(v as isize)
            } else {
                None
            }
        },
        None => None,
    }
}

/// The character of a digit below 16, letters in lower case.
pub open spec fn digit_char(d: nat) -> char {
    if d < 10 {
        ('0' as u32 + d) as char
    } else {
        ('a' as u32 + (d - 10)) as char
    }
}

/// The digits of `n` in `radix`, most significant first, with no leading zero but for zero
/// itself.
pub open spec fn digits(n: nat, radix: nat) -> Seq<char>
    decreases n,
{
    if radix < 2 || n < radix {
        seq![digit_char(n)]
    } else {
        proof {
            assert(n / radix < n) by (nonlinear_arith)
                requires
                    radix >= 2,
                    n >= radix,
            ;
        }
        digits(n / radix, radix).push(digit_char(n % radix))
    }
}

/// `n` in decimal.
pub open spec fn decimal(n: int) -> Seq<char> {
    if n < 0 {
        seq!['-'] + digits((-n) as nat, 10)
    } else {
        digits(n as nat, 10)
    }
}

/// `n` in hexadecimal, behind `0x`.
pub open spec fn hexadecimal(n: nat) -> Seq<char> {
    seq!['0', 'x'] + digits(n, 16)
}

fn char_of_digit(d: u8) -> (c: char)
    requires
        d < 16,
    ensures
        c == digit_char(d as nat),
{
    let c: char = if d < 10 {
        (48u8 + d) as char
    } else {
        (87u8 + d) as char
    };
    c
}

fn push_digits(out: &mut String, n: u128, radix: u128)
    requires
        radix == 10 || radix == 16,
    ensures
        final(out)@ == old(out)@ + digits(n as nat, radix as nat),
    decreases n,
{
    if n < radix {
        out.push(char_of_digit(n as u8));
        proof {
            assert(digits(n as nat, radix as nat) =~= seq![digit_char(n as nat)]);
        }
    } else {
        push_digits(out, n / radix, radix);
        let d: u8 = (n % radix) as u8;
        out.push(char_of_digit(d));
        proof {
            assert(old(out)@ + digits(n as nat, radix as nat) =~= (old(out)@ + digits(
                (n / radix) as nat,
                radix as nat,
            )).push(digit_char((n % radix) as nat)));
        }
    }
}

/// Writes a natural number in decimal.
pub fn show_unsigned(n: u128) -> (r: String)
    ensures
        r@ == decimal(n as int),
{
    let mut r = String::new();
    push_digits(&mut r, n, 10);
    proof {
        assert(r@ =~= digits(n as nat, 10));
    }
    r
}

/// Writes an integer in decimal.
pub fn show_signed(n: i128) -> (r: String)
    ensures
        r@ == decimal(n as int),
{
    let mut r = String::new();
    if n < 0 {
        r.push('-');
        let m: u128 = if n == i128::MIN {
            0x8000_0000_0000_0000_0000_0000_0000_0000u128
        } else {
            (-n) as u128
        };
        push_digits(&mut r, m, 10);
        proof {
            assert(Seq::<char>::empty().push('-') =~= seq!['-']);
        }
    } else {
        push_digits(&mut r, n as u128, 10);
        proof {
            assert(r@ =~= digits(n as nat, 10));
        }
    }
    r
}

/// Writes a natural number in hexadecimal, behind `0x`.
pub fn show_hex(n: u128) -> (r: String)
    ensures
        r@ == hexadecimal(n as nat),
{
    let mut r = String::new();
    r.push('0');
    r.push('x');
    push_digits(&mut r, n, 16);
    proof {
        assert(Seq::<char>::empty().push('0').push('x') =~= seq!['0', 'x']);
    }
    r
}

/// The upper-case form of a hexadecimal digit.
pub open spec fn upper_digit(c: char) -> char {
    if 'a' <= c && c <= 'f' {
        ((c as u32 - 32) as u32) as char
    } else {
        c
    }
}

/// The digits of `n` in upper-case hexadecimal.
pub open spec fn upper_digits(n: nat) -> Seq<char> {
    Seq::new(digits(n, 16).len(), |i: int| upper_digit(digits(n, 16)[i]))
}

fn to_upper_digit(c: char) -> (r: char)
    ensures
        r == upper_digit(c),
{
    match c {
        'a' => 'A',
        'b' => 'B',
        'c' => 'C',
        'd' => 'D',
        'e' => 'E',
        'f' => 'F',
        _ => c,
    }
}

/// Writes a natural number in upper-case hexadecimal, without a prefix.
pub fn show_upper_hex(n: u128) -> (r: String)
    ensures
        r@ == upper_digits(n as nat),
{
    let mut lower = String::new();
    push_digits(&mut lower, n, 16);
    let cs = to_chars(lower.as_str());
    proof {
        assert(cs@ =~= digits(n as nat, 16));
    }
    let mut r = String::new();
    let mut i: usize = 0;
    while i < cs.len()
        invariant
            i <= cs@.len(),
            cs@ == digits(n as nat, 16),
            r@ == upper_digits(n as nat).take(i as int),
        decreases cs@.len() - i,
    {
        r.push(to_upper_digit(cs[i]));
        proof {
            assert(r@ =~= upper_digits(n as nat).take(i + 1));
        }
        i += 1;
    }
    proof {
        assert(r@ =~= upper_digits(n as nat));
    }
    r
}

/// A digit reads back as itself.
proof fn lemma_digit_char(d: nat, radix: nat)
    requires
        d < radix <= 16,
    ensures
        digit_in(digit_char(d), radix) == Some(d),
        digit_char(d) != '+',
        digit_char(d) != '-',
        digit_char(d) != 'x',
        digit_char(d) != 'X',
        !crate::text::is_white(digit_char(d)),
{
}

/// Digits read back as the number they were written from.
pub proof fn lemma_digits_read_back(n: nat, radix: nat)
    requires
        2 <= radix <= 16,
    ensures
        digits_value(digits(n, radix), radix) == Some(n),
        digits(n, radix).len() >= 1,
        forall|i: int|
            0 <= i < digits(n, radix).len() ==> {
                let c = #[trigger] digits(n, radix)[i];
                c != '+' && c != '-' && c != 'x' && c != 'X' && !crate::text::is_white(c)
            },
    decreases n,
{
    reveal_with_fuel(digits_value, 2);
    if n < radix {
        lemma_digit_char(n, radix);
        assert(digits(n, radix) =~= seq![digit_char(n)]);
        assert(digits(n, radix).drop_last() =~= Seq::<char>::empty());
        assert(0 * radix == 0) by (nonlinear_arith);
    } else {
        assert(n / radix < n && n % radix < radix) by (nonlinear_arith)
            requires
                radix >= 2,
                n >= radix,
        ;
        lemma_digits_read_back(n / radix, radix);
        lemma_digit_char(n % radix, radix);
        let s = digits(n, radix);
        assert(s.drop_last() =~= digits(n / radix, radix));
        assert(s.last() == digit_char(n % radix));
        assert((n / radix) * radix + n % radix == n) by (nonlinear_arith)
            requires
                radix >= 2,
        ;
    }
}

/// A number written in decimal reads back as itself.
pub proof fn decimal_reads_back(n: int)
    ensures
        signed_value(decimal(n), 10) == Some(n),
        n >= 0 ==> unsigned_value(decimal(n), 10) == Some(n as nat),
        hex_body(decimal(n)) is None,
{
    if n < 0 {
        lemma_digits_read_back((-n) as nat, 10);
        assert(decimal(n).drop_first() =~= digits((-n) as nat, 10));
    } else {
        lemma_digits_read_back(n as nat, 10);
        let s = digits(n as nat, 10);
        assert(s[0] != '+');
        if s.len() >= 2 {
            assert(s[1] != 'x');
        }
    }
}

/// A number written in hexadecimal reads back as itself.
pub proof fn hexadecimal_reads_back(n: nat)
    ensures
        prefixed_unsigned(hexadecimal(n)) == Some(n),
        n <= u64::MAX ==> address_value(hexadecimal(n)) == Some(n as u64),
{
    lemma_digits_read_back(n, 16);
    assert(hexadecimal(n).skip(2) =~= digits(n, 16));
    assert(digits(n, 16)[0] != '+');
}

/// A number written in decimal has no white space to trim.
pub proof fn decimal_is_trimmed(n: int)
    ensures
        crate::text::trimmed(decimal(n)) == decimal(n),
{
    let m = if n < 0 {
        (-n) as nat
    } else {
        n as nat
    };
    lemma_digits_read_back(m, 10);
    let s = decimal(n);
    assert(!crate::text::is_white(s[0]));
    assert(s.last() == digits(m, 10).last());
}

} // verus!
