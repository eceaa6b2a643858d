//! Decimal numbers as the chart reads them: an integer mantissa and the count
//! of its digits that stand after the decimal point.
//!
//! Order and text are `rust_decimal`'s. Each is reached through one wrapper
//! at the end of this file; a wrapper turns a [`Number`] into a
//! `rust_decimal::Decimal`, makes the call and hands the answer on. The
//! contracts of the wrappers are taken on trust.

use vstd::prelude::*;

verus! {

/// Largest magnitude of a mantissa: `2^96 - 1`.
pub const MAX_MANTISSA: i128 = 0xFFFF_FFFF_FFFF_FFFF_FFFF_FFFF;

/// Largest scale.
pub const MAX_SCALE: u32 = 28;

/// The mathematical content of a [`Number`]: the value `mantissa / 10^scale`.
pub struct Dec {
    pub mantissa: int,
    pub scale: nat,
}

/// `10^e`.
pub open spec fn pow10(e: nat) -> int
    decreases e,
{
    if e == 0 {
        1
    } else {
        10 * pow10((e - 1) as nat)
    }
}

/// The absolute value of `i`.
pub open spec fn magnitude(i: int) -> int {
    if i < 0 {
        -i
    } else {
        i
    }
}

impl Dec {
    /// Zero, written without decimals.
    pub open spec fn zero() -> Dec {
        Dec { mantissa: 0, scale: 0 }
    }

    /// The whole number `n`.
    pub open spec fn whole(n: int) -> Dec {
        Dec { mantissa: n, scale: 0 }
    }

    /// Whether the pair is one that a [`Number`] can hold.
    pub open spec fn representable(self) -> bool {
        magnitude(self.mantissa) <= MAX_MANTISSA && self.scale <= MAX_SCALE
    }

    /// `self < other` as numbers, whatever their scales.
    pub open spec fn less_than(self, other: Dec) -> bool {
        self.mantissa * pow10(other.scale) < other.mantissa * pow10(self.scale)
    }

    /// `self` and `other` are the same number, whatever their scales.
    pub open spec fn same_value(self, other: Dec) -> bool {
        self.mantissa * pow10(other.scale) == other.mantissa * pow10(self.scale)
    }
}

/// The text that `Decimal`'s `Display` writes for `mantissa / 10^scale`.
pub uninterp spec fn decimal_text(mantissa: int, scale: nat) -> Seq<char>;

/// Whether `c` is a character that the text of a number is made of: a digit,
/// the decimal point or the minus sign.
pub open spec fn is_number_char(c: char) -> bool {
    c == '0' || c == '1' || c == '2' || c == '3' || c == '4' || c == '5' || c == '6' || c == '7'
        || c == '8' || c == '9' || c == '.' || c == '-'
}

/// Whether `text` holds nothing but digits, decimal points and minus signs.
pub open spec fn is_number_text(text: Seq<char>) -> bool {
    forall|i: int| 0 <= i < text.len() ==> is_number_char(#[trigger] text[i])
}

/// The text of the number `d`, given what the decimal library writes for it.
/// It is known without asking to hold nothing but digits, decimal points and
/// minus signs.
pub open spec fn text_given(answer: Seq<char>) -> Seq<char> {
    if is_number_text(answer) {
        answer
    } else {
        Seq::empty()
    }
}

/// The text of the number `d`.
pub open spec fn number_text(d: Dec) -> Seq<char> {
    text_given(decimal_text(d.mantissa, d.scale))
}

/// A decimal number: `mantissa / 10^scale`, with a mantissa of at most 96
/// bits and a scale of at most 28.
#[derive(Debug, Clone, Copy)]
pub struct Number {
    mantissa: i128,
    scale: u32,
}

impl View for Number {
    type V = Dec;

    closed spec fn view(&self) -> Dec {
        Dec { mantissa: self.mantissa as int, scale: self.scale as nat }
    }
}

impl Number {
    #[verifier::type_invariant]
    spec fn in_range(self) -> bool {
        -MAX_MANTISSA <= self.mantissa <= MAX_MANTISSA && self.scale <= MAX_SCALE
    }

    /// The number `mantissa / 10^scale`, if the two are in range.
    pub fn new(mantissa: i128, scale: u32) -> (n: Option<Number>)
        ensures
            n is Some <==> (Dec { mantissa: mantissa as int, scale: scale as nat }).representable(),
            n is Some ==> n->0@ == (Dec { mantissa: mantissa as int, scale: scale as nat }),
    {
        if -MAX_MANTISSA <= mantissa && mantissa <= MAX_MANTISSA && scale <= MAX_SCALE {
            Some(Number { mantissa, scale })
        } else {
            None
        }
    }

    /// The whole number `n`.
    pub fn from_i64(n: i64) -> (r: Number)
        ensures
            r@ == Dec::whole(n as int),
    {
        Number { mantissa: n as i128, scale: 0 }
    }

    /// The whole number `n`.
    pub fn from_u64(n: u64) -> (r: Number)
        ensures
            r@ == Dec::whole(n as int),
    {
        Number { mantissa: n as i128, scale: 0 }
    }

    /// Zero.
    pub fn zero() -> (r: Number)
        ensures
            r@ == Dec::zero(),
    {
        Number { mantissa: 0, scale: 0 }
    }

    /// The mantissa.
    pub fn mantissa(&self) -> (m: i128)
        ensures
            m == self@.mantissa,
            self@.representable(),
    {
        proof {
            use_type_invariant(self);
        }
        self.mantissa
    }

    /// The number of digits after the decimal point.
    pub fn scale(&self) -> (s: u32)
        ensures
            s == self@.scale,
            self@.representable(),
    {
        proof {
            use_type_invariant(self);
        }
        self.scale
    }

    /// The number as the decimal library prints it.
    pub fn to_text(&self) -> (s: String)
        ensures
            s@ == number_text(self@),
    {
        decimal_to_string(self)
    }
}

/// Calls `<` of `Decimal`. The contract claims that it orders by value: the
/// mantissas are brought to one scale and then ordered as integers.
#[verifier::external_body]
pub(crate) fn decimal_less(a: &Number, b: &Number) -> (r: bool)
    ensures
        r == a@.less_than(b@),
{
    let x = rust_decimal::Decimal::from_i128_with_scale(a.mantissa, a.scale);
    let y = rust_decimal::Decimal::from_i128_with_scale(b.mantissa, b.scale);
    x < y
}

/// Calls `to_string` of `Decimal`. The contract names the answer
/// ([`decimal_text`]) and claims one thing of it: it holds nothing but digits,
/// decimal points and minus signs.
#[verifier::external_body]
pub(crate) fn decimal_to_string(a: &Number) -> (s: String)
    ensures
        s@ == text_given(decimal_text(a@.mantissa, a@.scale)),
{
    let x = rust_decimal::Decimal::from_i128_with_scale(a.mantissa, a.scale);
    x.to_string()
}

} // verus!
