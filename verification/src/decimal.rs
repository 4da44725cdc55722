//! Decimal text to unsigned integers, digit by digit, with overflow detected.

use vstd::prelude::*;

verus! {

/// Why a piece of date/time text was refused.
#[derive(Clone, Copy, Debug, PartialEq, Eq, Structural)]
pub enum ParseError {
    /// The text is one of the two blank placeholders.
    Blank,
    /// The text has fewer than 19 bytes.
    TooShort,
    /// A separator is missing from its fixed position.
    Delimiter,
    /// A byte that is no ASCII digit stands in a numeric field.
    NonDigit(u8),
    /// The digits read so far do not fit the target integer type.
    Overflow,
}

/// `b` is one of the ASCII digits `0` to `9`.
pub open spec fn is_digit(b: u8) -> bool {
    0x30 <= b && b <= 0x39
}

/// The number that the digit byte `b` stands for; 0 for any other byte.
pub open spec fn digit_value(b: u8) -> nat {
    if is_digit(b) {
        (b - 0x30) as nat
    } else {
        0
    }
}

/// Every byte of `s` is an ASCII digit.
pub open spec fn all_digits(s: Seq<u8>) -> bool {
    forall|i: int| 0 <= i < s.len() ==> is_digit(#[trigger] s[i])
}

/// The length of the longest prefix of `s` that holds digits only.
pub open spec fn digit_prefix_len(s: Seq<u8>) -> nat
    decreases s.len(),
{
    if s.len() == 0 || !is_digit(s[0]) {
        0
    } else {
        1 + digit_prefix_len(s.skip(1))
    }
}

/// The number that `s` denotes in base ten, most significant digit first.
pub open spec fn decimal_value(s: Seq<u8>) -> nat
    decreases s.len(),
{
    if s.len() == 0 {
        0
    } else {
        10 * decimal_value(s.drop_last()) + digit_value(s.last())
    }
}

/// What reading `s` as a number of at most `limit` gives.
///
/// The bytes are read from the left. The first byte that is no digit ends the
/// reading with `NonDigit`, unless the digits before it already exceed
/// `limit`, which ends it with `Overflow`.
pub open spec fn atou_spec(s: Seq<u8>, limit: nat) -> Result<nat, ParseError> {
    let k = digit_prefix_len(s) as int;
    if decimal_value(s.take(k)) > limit {
        Err(ParseError::Overflow)
    } else if k < s.len() {
        Err(ParseError::NonDigit(s[k]))
    } else {
        Ok(decimal_value(s))
    }
}

/// An unsigned integer type, at least as wide as a byte, that `atou` can fill.
pub trait Unsigned: Sized + Copy {
    /// The largest number that the type holds.
    spec fn limit() -> nat;

    /// The number that a value of the type stands for.
    spec fn value(self) -> nat;

    /// Every byte fits the type.
    proof fn limit_covers_bytes()
        ensures
            Self::limit() >= 255,
    ;

    /// No value exceeds the limit.
    proof fn value_within_limit(self)
        ensures
            self.value() <= Self::limit(),
    ;

    fn zero() -> (r: Self)
        ensures
            r.value() == 0,
    ;

    fn from_u8(b: u8) -> (r: Option<Self>)
        ensures
            r matches Some(v) && v.value() == b,
    ;

    fn checked_mul(self, other: Self) -> (r: Option<Self>)
        ensures
            self.value() * other.value() <= Self::limit() ==> (r matches Some(v) && v.value()
                == self.value() * other.value()),
            self.value() * other.value() > Self::limit() ==> r is None,
    ;

    fn checked_add(self, other: Self) -> (r: Option<Self>)
        ensures
            self.value() + other.value() <= Self::limit() ==> (r matches Some(v) && v.value()
                == self.value() + other.value()),
            self.value() + other.value() > Self::limit() ==> r is None,
    ;
}

/// `<u8 as num::Zero>::zero`: the additive identity of `u8`, which is 0.
#[verifier::external_body]
fn zero_u8() -> (r: u8)
    ensures
        r == 0,
{
    num::Zero::zero()
}

/// `<u32 as num::Zero>::zero`: the additive identity of `u32`, which is 0.
#[verifier::external_body]
fn zero_u32() -> (r: u32)
    ensures
        r == 0,
{
    num::Zero::zero()
}

/// `<u8 as num::FromPrimitive>::from_u8`: a `u8` always converts to itself.
#[verifier::external_body]
fn u8_from_byte(b: u8) -> (r: Option<u8>)
    ensures
        r == Some(b),
{
    num::FromPrimitive::from_u8(b)
}

/// `<u32 as num::FromPrimitive>::from_u8`: a `u8` always fits a `u32`, and
/// the number is kept.
#[verifier::external_body]
fn u32_from_byte(b: u8) -> (r: Option<u32>)
    ensures
        r == Some(b as u32),
{
    num::FromPrimitive::from_u8(b)
}

/// `<u8 as num::CheckedMul>::checked_mul`: the product, or `None` where it
/// does not fit a `u8`.
#[verifier::external_body]
fn checked_mul_u8(a: u8, b: u8) -> (r: Option<u8>)
    ensures
        r == (if a * b <= u8::MAX {
            Some((a * b) as u8)
        } else {
            None
        }),
{
    num::CheckedMul::checked_mul(&a, &b)
}

/// `<u32 as num::CheckedMul>::checked_mul`: the product, or `None` where it
/// does not fit a `u32`.
#[verifier::external_body]
fn checked_mul_u32(a: u32, b: u32) -> (r: Option<u32>)
    ensures
        r == (if a * b <= u32::MAX {
            Some((a * b) as u32)
        } else {
            None
        }),
{
    num::CheckedMul::checked_mul(&a, &b)
}

/// `<u8 as num::CheckedAdd>::checked_add`: the sum, or `None` where it does
/// not fit a `u8`.
#[verifier::external_body]
fn checked_add_u8(a: u8, b: u8) -> (r: Option<u8>)
    ensures
        r == (if a + b <= u8::MAX {
            Some((a + b) as u8)
        } else {
            None
        }),
{
    num::CheckedAdd::checked_add(&a, &b)
}

/// `<u32 as num::CheckedAdd>::checked_add`: the sum, or `None` where it does
/// not fit a `u32`.
#[verifier::external_body]
fn checked_add_u32(a: u32, b: u32) -> (r: Option<u32>)
    ensures
        r == (if a + b <= u32::MAX {
            Some((a + b) as u32)
        } else {
            None
        }),
{
    num::CheckedAdd::checked_add(&a, &b)
}

impl Unsigned for u8 {
    open spec fn limit() -> nat {
        0xff
    }

    open spec fn value(self) -> nat {
        self as nat
    }

    proof fn limit_covers_bytes() {
    }

    proof fn value_within_limit(self) {
    }

    fn zero() -> (r: Self) {
        zero_u8()
    }

    fn from_u8(b: u8) -> (r: Option<Self>) {
        u8_from_byte(b)
    }

    fn checked_mul(self, other: Self) -> (r: Option<Self>) {
        checked_mul_u8(self, other)
    }

    fn checked_add(self, other: Self) -> (r: Option<Self>) {
        checked_add_u8(self, other)
    }
}

impl Unsigned for u32 {
    open spec fn limit() -> nat {
        0xffff_ffff
    }

    open spec fn value(self) -> nat {
        self as nat
    }

    proof fn limit_covers_bytes() {
    }

    proof fn value_within_limit(self) {
    }

    fn zero() -> (r: Self) {
        zero_u32()
    }

    fn from_u8(b: u8) -> (r: Option<Self>) {
        u32_from_byte(b)
    }

    fn checked_mul(self, other: Self) -> (r: Option<Self>) {
        checked_mul_u32(self, other)
    }

    fn checked_add(self, other: Self) -> (r: Option<Self>) {
        checked_add_u32(self, other)
    }
}

/// Where the first `i` bytes of `s` are digits and the next one, if there is
/// one, is not, the digit prefix has length `i`.
pub proof fn lemma_digit_prefix_ends(s: Seq<u8>, i: int)
    requires
        0 <= i <= s.len(),
        forall|j: int| 0 <= j < i ==> is_digit(#[trigger] s[j]),
        i == s.len() || !is_digit(s[i]),
    ensures
        digit_prefix_len(s) == i,
    decreases i,
{
    if i > 0 {
        let t = s.skip(1);
        assert forall|j: int| 0 <= j < i - 1 implies is_digit(#[trigger] t[j]) by {
            assert(t[j] == s[j + 1]);
        }
        lemma_digit_prefix_ends(t, i - 1);
    }
}

/// The digit prefix is a prefix, and as long as any run of leading digits.
pub proof fn lemma_digit_prefix_covers(s: Seq<u8>, i: int)
    requires
        0 <= i <= s.len(),
        forall|j: int| 0 <= j < i ==> is_digit(#[trigger] s[j]),
    ensures
        i <= digit_prefix_len(s) <= s.len(),
    decreases s.len(),
{
    if s.len() > 0 && is_digit(s[0]) {
        let t = s.skip(1);
        if i > 0 {
            assert forall|j: int| 0 <= j < i - 1 implies is_digit(#[trigger] t[j]) by {
                assert(t[j] == s[j + 1]);
            }
            lemma_digit_prefix_covers(t, i - 1);
        } else {
            lemma_digit_prefix_covers(t, 0);
        }
    }
}

/// One more digit multiplies the number by ten and adds the digit.
pub proof fn lemma_decimal_step(s: Seq<u8>, i: int)
    requires
        0 <= i < s.len(),
    ensures
        decimal_value(s.take(i + 1)) == 10 * decimal_value(s.take(i)) + digit_value(s[i]),
{
    assert(s.take(i + 1).drop_last() =~= s.take(i));
}

/// A longer prefix never denotes a smaller number.
pub proof fn lemma_decimal_monotone(s: Seq<u8>, i: int, k: int)
    requires
        0 <= i <= k <= s.len(),
    ensures
        decimal_value(s.take(i)) <= decimal_value(s.take(k)),
    decreases k - i,
{
    if i < k {
        lemma_decimal_monotone(s, i, k - 1);
        lemma_decimal_step(s, k - 1);
    }
}

/// Reads `bytes` as a decimal number of type `T`.
///
/// Every byte must be an ASCII digit, and the number must fit `T`; the empty
/// text gives 0. The result is exactly `atou_spec` of the bytes and `T`'s
/// limit.
pub fn atou<T: Unsigned>(bytes: &[u8]) -> (r: Result<T, ParseError>)
    ensures
        match atou_spec(bytes@, T::limit()) {
            Ok(v) => r matches Ok(n) && n.value() == v,
            Err(e) => r matches Err(f) && f == e,
        },
{
    let mut n = T::zero();
    let ten = match T::from_u8(10) {
        Some(t) => t,
        None => {
            return Err(ParseError::Overflow);
        },
    };
    let mut i: usize = 0;
    proof {
        T::limit_covers_bytes();
    }
    while i < bytes.len()
        invariant
            i <= bytes.len(),
            ten.value() == 10,
            forall|j: int| 0 <= j < i ==> is_digit(#[trigger] bytes@[j]),
            n.value() == decimal_value(bytes@.take(i as int)),
            n.value() <= T::limit(),
        decreases bytes.len() - i,
    {
        let b = bytes[i];
        if b < 0x30 || b > 0x39 {
            proof {
                lemma_digit_prefix_ends(bytes@, i as int);
            }
            return Err(ParseError::NonDigit(b));
        }
        let digit = match T::from_u8(b - 0x30) {
            Some(d) => d,
            None => {
                return Err(ParseError::Overflow);
            },
        };
        proof {
            lemma_decimal_step(bytes@, i as int);
            lemma_digit_prefix_covers(bytes@, i + 1);
            lemma_decimal_monotone(
                bytes@.take(digit_prefix_len(bytes@) as int),
                i + 1,
                digit_prefix_len(bytes@) as int,
            );
            assert(bytes@.take(digit_prefix_len(bytes@) as int).take(i + 1) =~= bytes@.take(
                i + 1,
            ));
            assert(bytes@.take(digit_prefix_len(bytes@) as int).take(
                digit_prefix_len(bytes@) as int,
            ) =~= bytes@.take(digit_prefix_len(bytes@) as int));
            assert(n.value() * ten.value() == 10 * n.value()) by (nonlinear_arith)
                requires
                    ten.value() == 10,
            ;
        }
        let tenfold = match n.checked_mul(ten) {
            Some(m) => m,
            None => {
                return Err(ParseError::Overflow);
            },
        };
        n = match tenfold.checked_add(digit) {
            Some(m) => m,
            None => {
                return Err(ParseError::Overflow);
            },
        };
        proof {
            n.value_within_limit();
        }
        i += 1;
    }
    proof {
        lemma_digit_prefix_ends(bytes@, bytes@.len() as int);
        assert(bytes@.take(bytes@.len() as int) =~= bytes@);
    }
    Ok(n)
}

/// A byte that is no digit, anywhere in the text, makes the reading fail.
pub proof fn lemma_non_digit_fails(s: Seq<u8>, i: int, limit: nat)
    requires
        0 <= i < s.len(),
        !is_digit(s[i]),
    ensures
        atou_spec(s, limit) is Err,
{
    if digit_prefix_len(s) >= s.len() {
        lemma_all_digits_in_prefix(s, i);
    }
}

/// Every byte before the end of the digit prefix is a digit.
pub proof fn lemma_all_digits_in_prefix(s: Seq<u8>, i: int)
    requires
        0 <= i < digit_prefix_len(s),
    ensures
        i < s.len(),
        is_digit(s[i]),
    decreases s.len(),
{
    if i > 0 {
        lemma_all_digits_in_prefix(s.skip(1), i - 1);
    }
}

/// Digits that denote more than the limit make the reading fail with
/// `Overflow`.
pub proof fn lemma_overflow_fails(s: Seq<u8>, limit: nat)
    requires
        all_digits(s),
        decimal_value(s) > limit,
    ensures
        atou_spec(s, limit) == Err::<nat, ParseError>(ParseError::Overflow),
{
    lemma_digit_prefix_ends(s, s.len() as int);
    assert(s.take(s.len() as int) =~= s);
}

/// Digits that denote no more than the limit are read as that number.
pub proof fn lemma_digits_succeed(s: Seq<u8>, limit: nat)
    requires
        all_digits(s),
        decimal_value(s) <= limit,
    ensures
        atou_spec(s, limit) == Ok::<nat, ParseError>(decimal_value(s)),
{
    lemma_digit_prefix_ends(s, s.len() as int);
    assert(s.take(s.len() as int) =~= s);
}

} // verus!
