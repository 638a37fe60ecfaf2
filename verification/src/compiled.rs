//! Fields and registers as they come out of compilation.
use vstd::prelude::*;
use vstd::arithmetic::power2::{
    lemma2_to64, lemma2_to64_rest, lemma_pow2_adds, lemma_pow2_pos, lemma_pow2_strictly_increases, lemma_pow2_unfold,
    pow2,
};
use crate::model::register::FieldDefView;
use crate::model::values::{BitPos, BitPosView, Desc, DescView, Dim, DimView, SwKind, SwKindView};
use crate::number::{decimal, show_unsigned, show_upper_hex, upper_digits};
use crate::text::to_chars;

verus! {

/// Reset value of a compiled field.
#[derive(Clone, Copy, Debug, PartialEq, Eq, Structural)]
pub enum ResetInt {
    Unsigned(u128),
    Signed(i128),
}

/// Width of a compiled field.
#[derive(Debug)]
pub enum FieldSpan {
    /// A number of bits.
    Fixed(u16),
    /// A generic, with the largest width that it may take.
    Generic(String, u16),
}

/// The value of a [`FieldSpan`].
pub enum FieldSpanView {
    Fixed(u16),
    Generic(Seq<char>, u16),
}

impl DeepView for FieldSpan {
    type V = FieldSpanView;

    open spec fn deep_view(&self) -> FieldSpanView {
        match self {
            FieldSpan::Fixed(a) => FieldSpanView::Fixed(*a),
            FieldSpan::Generic(a, b) => FieldSpanView::Generic(a.deep_view(), *b),
        }
    }
}

impl View for FieldSpan {
    type V = FieldSpanView;

    open spec fn view(&self) -> FieldSpanView {
        self.deep_view()
    }
}

impl Clone for FieldSpan {
    fn clone(&self) -> (r: Self)
        ensures
            r@ == self@,
    {
        match self {
            FieldSpan::Fixed(a) => FieldSpan::Fixed(*a),
            FieldSpan::Generic(a, b) => FieldSpan::Generic(a.clone(), *b),
        }
    }
}

/// A compiled field.
#[derive(Debug)]
pub struct FieldInst {
    /// Name.
    pub name: String,
    /// Lowest bit.
    pub lsb: u8,
    /// Width.
    pub width: FieldSpan,
    /// Reset value.
    pub reset: ResetInt,
    /// Software access.
    pub sw_kind: SwKind,
    /// Description.
    pub description: Desc,
    /// Part of a field that is split over registers: its base, where it is one, and its offset.
    pub partial: (Option<u16>, u16),
    /// Number of elements; zero for no array.
    pub array_dim: u16,
}

/// The value of a [`FieldInst`].
pub struct FieldInstView {
    pub name: Seq<char>,
    pub lsb: u8,
    pub width: FieldSpanView,
    pub reset: ResetInt,
    pub sw_kind: SwKindView,
    pub description: DescView,
    pub partial: (Option<u16>, u16),
    pub array_dim: u16,
}

impl DeepView for FieldInst {
    type V = FieldInstView;

    open spec fn deep_view(&self) -> FieldInstView {
        FieldInstView {
            name: self.name.deep_view(),
            lsb: self.lsb,
            width: self.width.deep_view(),
            reset: self.reset,
            sw_kind: self.sw_kind.deep_view(),
            description: self.description.deep_view(),
            partial: self.partial,
            array_dim: self.array_dim,
        }
    }
}

impl View for FieldInst {
    type V = FieldInstView;

    open spec fn view(&self) -> FieldInstView {
        self.deep_view()
    }
}

impl Clone for FieldInst {
    fn clone(&self) -> (r: Self)
        ensures
            r@ == self@,
    {
        let r = FieldInst {
            name: self.name.clone(),
            lsb: self.lsb,
            width: self.width.clone(),
            reset: self.reset,
            sw_kind: self.sw_kind.clone(),
            description: self.description.clone(),
            partial: self.partial,
            array_dim: self.array_dim,
        };
        r
    }
}

impl FieldSpanView {
    /// The largest width in bits.
    pub open spec fn bits(self) -> u16 {
        match self {
            FieldSpanView::Fixed(w) => w,
            FieldSpanView::Generic(_, max) => max,
        }
    }
}

impl FieldSpan {
    /// The largest width in bits.
    pub fn value(&self) -> (r: u16)
        ensures
            r == self@.bits(),
    {
        match self {
            FieldSpan::Fixed(w) => *w,
            FieldSpan::Generic(_, max) => *max,
        }
    }
}

impl FieldInst {
    /// The largest width in bits.
    pub fn width(&self) -> (r: u16)
        ensures
            r == self@.width.bits(),
    {
        self.width.value()
    }
}

/// The position of a field that moves to bit `lsb`. A field whose width is a generic keeps it.
pub open spec fn position_at(width: FieldSpanView, lsb: int) -> BitPosView {
    match width {
        FieldSpanView::Fixed(w) => BitPosView::MsbLsb(
            DimView::Value(((lsb + w - 1) % 256) as u8),
            DimView::Value((lsb % 256) as u8),
        ),
        FieldSpanView::Generic(name, _) => BitPosView::LsbSize(
            DimView::Value((lsb % 256) as u8),
            DimView::Param(name),
        ),
    }
}

/// Moves a field to another bit.
pub fn reordered_pos(width: &FieldSpan, new_lsb: u16) -> (r: BitPos)
    requires
        width is Fixed ==> 1 <= new_lsb + width@.bits() <= u16::MAX,
    ensures
        r@ == position_at(width@, new_lsb as int),
{
    let lsb: u8 = (new_lsb % 256) as u8;
    match width {
        FieldSpan::Fixed(w) => {
            let msb: u8 = ((new_lsb + *w - 1) % 256) as u8;
            BitPos::MsbLsb(Dim::Value(msb), Dim::Value(lsb))
        },
        FieldSpan::Generic(name, _) => BitPos::LsbSize(Dim::Value(lsb), Dim::Param(name.clone())),
    }
}

/// The free bits between two fields.
pub open spec fn gap_between(lower: FieldInstView, higher: FieldInstView) -> int {
    if higher.lsb >= lower.lsb + lower.width.bits() {
        higher.lsb - (lower.lsb + lower.width.bits())
    } else {
        0
    }
}

/// Where the lower of two fields goes when they change places: above the other one, with the
/// same free bits between them.
pub open spec fn raised_lsb(lower: FieldInstView, higher: FieldInstView) -> int {
    lower.lsb + higher.width.bits() + gap_between(lower, higher)
}

/// Exchanges two neighbours. The higher field takes the place at the bottom and the lower one
/// goes just above it. The first position is that of `lower`, the second that of `higher`.
pub fn swap_positions(lower: &FieldInst, higher: &FieldInst) -> (r: (BitPos, BitPos))
    requires
        1 <= lower@.lsb + lower@.width.bits() <= u16::MAX,
        1 <= lower@.lsb + higher@.width.bits() <= u16::MAX,
        1 <= raised_lsb(lower@, higher@) + lower@.width.bits() <= u16::MAX,
    ensures
        r.0@ == position_at(lower@.width, raised_lsb(lower@, higher@)),
        r.1@ == position_at(higher@.width, lower@.lsb as int),
{
    let la: u16 = lower.lsb as u16;
    let wa: u16 = lower.width();
    let wb: u16 = higher.width();
    let end: u16 = la + wa;
    let start: u16 = higher.lsb as u16;
    let gap: u16 = if start >= end {
        start - end
    } else {
        0
    };
    (reordered_pos(&lower.width, la + wb + gap), reordered_pos(&higher.width, la))
}

/// When two fields of fixed width change places, together they occupy the bits that they
/// occupied before, with the same free bits between them.
pub proof fn swap_keeps_region(lower: FieldInstView, higher: FieldInstView)
    requires
        lower.width is Fixed,
        higher.width is Fixed,
        lower.width.bits() >= 1,
        higher.width.bits() >= 1,
        lower.lsb + lower.width.bits() <= higher.lsb,
        higher.lsb + higher.width.bits() <= 256,
    ensures
        ({
            let low = position_at(lower.width, raised_lsb(lower, higher));
            let high = position_at(higher.width, lower.lsb as int);
            let old_msb = (higher.lsb + higher.width.bits() - 1) as u8;
            let high_msb = (lower.lsb + higher.width.bits() - 1) as u8;
            let low_lsb = raised_lsb(lower, higher) as u8;
            &&& high == BitPosView::MsbLsb(DimView::Value(high_msb), DimView::Value(lower.lsb))
            &&& low == BitPosView::MsbLsb(DimView::Value(old_msb), DimView::Value(low_lsb))
            &&& low_lsb - high_msb == higher.lsb - (lower.lsb + lower.width.bits() - 1)
        }),
{
}

/// The number that a field shows as its reset value, in `bits` bits.
pub open spec fn reset_bits(r: ResetInt, bits: u8) -> int {
    match r {
        ResetInt::Unsigned(v) => v as int,
        ResetInt::Signed(v) => if bits == 0 || bits > 127 {
            (v as int) % (pow2(128) as int)
        } else {
            (v as int) % (pow2(bits as nat) as int)
        },
    }
}

/// `n` in upper-case hexadecimal with at least `width` digits.
pub open spec fn padded_hex(n: nat, width: nat) -> Seq<char> {
    let ds = upper_digits(n);
    Seq::new(
        if ds.len() < width {
            (width - ds.len()) as nat
        } else {
            0
        },
        |i: int| '0',
    ) + ds
}

/// The reset value of a field: in hexadecimal where it has more than twelve bits.
pub open spec fn reset_shown(f: FieldInstView) -> Seq<char> {
    let bits = (f.width.bits() % 256) as u8;
    let v = reset_bits(f.reset, bits);
    if bits > 12 {
        seq!['0', 'x'] + padded_hex(v as nat, (bits / 4) as nat)
    } else {
        decimal(v)
    }
}

/// Two to the power of `n`.
fn power_of_two(n: u8) -> (r: u128)
    requires
        n <= 127,
    ensures
        r == pow2(n as nat),
{
    let mut r: u128 = 1;
    let mut i: u8 = 0;
    proof {
        lemma2_to64();
    }
    while i < n
        invariant
            i <= n <= 127,
            r == pow2(i as nat),
        decreases n - i,
    {
        proof {
            lemma_pow2_unfold((i + 1) as nat);
            lemma_pow2_strictly_increases(i as nat, 127);
            top_power();
        }
        r = r * 2;
        i += 1;
    }
    r
}

proof fn top_power()
    ensures
        pow2(127) == 0x8000_0000_0000_0000_0000_0000_0000_0000,
        pow2(128) == u128::MAX + 1,
{
    lemma2_to64();
    lemma_pow2_adds(64, 63);
    lemma_pow2_adds(64, 64);
    lemma2_to64_rest();
}

fn wrapped(v: i128, m: u128) -> (r: u128)
    requires
        m > 0,
    ensures
        r == (v as int) % (m as int),
{
    if v >= 0 {
        (v as u128) % m
    } else {
        let n: u128 = if v == i128::MIN {
            0x8000_0000_0000_0000_0000_0000_0000_0000u128
        } else {
            (-v) as u128
        };
        let k: u128 = n % m;
        proof {
            assert((-(n as int)) % (m as int) == (if k == 0 {
                0
            } else {
                m - k
            })) by (nonlinear_arith)
                requires
                    k == (n as int) % (m as int),
                    m > 0,
                    n > 0,
            {
                let q = (n as int) / (m as int);
                assert(n == q * m + k);
                if k == 0 {
                    assert(-(n as int) == (-q) * m + 0);
                } else {
                    assert(-(n as int) == (-q - 1) * m + (m - k));
                }
            }
        }
        if k == 0 {
            0
        } else {
            m - k
        }
    }
}

/// The number that a field shows as its reset value, in `bits` bits.
pub fn reset_value(r: ResetInt, bits: u8) -> (v: u128)
    ensures
        v == reset_bits(r, bits),
{
    match r {
        ResetInt::Unsigned(v) => v,
        ResetInt::Signed(v) => {
            if bits == 0 || bits > 127 {
                proof {
                    top_power();
                }
                if v >= 0 {
                    v as u128
                } else {
                    proof {
                        assert((v as int) % (u128::MAX + 1) == v
                            + u128::MAX + 1);
                    }
                    u128::MAX - ((-(v + 1)) as u128)
                }
            } else {
                let m: u128 = power_of_two(bits);
                proof {
                    lemma_pow2_pos(bits as nat);
                }
                wrapped(v, m)
            }
        },
    }
}

/// The reset value of a field, as it is shown.
pub fn get_field_rst_str(field: &FieldInst) -> (r: String)
    ensures
        r@ == reset_shown(field@),
{
    let bits: u8 = (field.width() % 256) as u8;
    let v: u128 = reset_value(field.reset, bits);
    if bits > 12 {
        show_padded_hex(v, (bits / 4) as usize)
    } else {
        show_unsigned(v)
    }
}

fn show_padded_hex(v: u128, width: usize) -> (r: String)
    ensures
        r@ == seq!['0', 'x'] + padded_hex(v as nat, width as nat),
{
    let ds = show_upper_hex(v);
    let n: usize = to_chars(ds.as_str()).len();
    let mut r = String::new();
    r.push('0');
    r.push('x');
    proof {
        assert(r@ =~= seq!['0', 'x']);
    }
    let mut i: usize = n;
    let ghost zeros = Seq::<char>::empty();
    proof {
        assert(r@ =~= seq!['0', 'x'] + zeros);
    }
    while i < width
        invariant
            n == ds@.len(),
            i == n + zeros.len(),
            n <= i,
            n <= width ==> i <= width,
            n > width ==> zeros.len() == 0,
            r@ == seq!['0', 'x'] + zeros,
            zeros == Seq::new(zeros.len(), |k: int| '0'),
        decreases width - i,
    {
        r.push('0');
        proof {
            assert(seq!['0', 'x'] + zeros.push('0') =~= (seq!['0', 'x'] + zeros).push('0'));
            zeros = zeros.push('0');
            assert(zeros =~= Seq::new(zeros.len(), |k: int| '0'));
        }
        i += 1;
    }
    r.append(ds.as_str());
    proof {
        assert(r@ =~= seq!['0', 'x'] + padded_hex(v as nat, width as nat));
    }
    r
}

/// Whether the editor of declarations can handle a field: its width is fixed, it is not split
/// over registers, its array size is a number, and it is not an array inside a register array.
pub open spec fn editable(in_reg_array: bool, f: FieldInstView, def: FieldDefView) -> bool {
    &&& f.width is Fixed
    &&& f.partial.0 is None
    &&& def.array is Value
    &&& (f.array_dim == 0 || !in_reg_array)
}

} // verus!
