//! Exact decimal numbers.
//!
//! Range bounds, completeness thresholds and fractional data values are held
//! as a 64-bit mantissa and a power of ten between -400 and 400, so that
//! every comparison and every rendering in a finding is exact. Every finite
//! binary floating-point number of 64 bits, written in the shortest decimal
//! notation that names it, is such a number. The four values of such a
//! float that are no decimal numbers are held beside them: negative zero,
//! the two infinities and the value that is not a number.

use vstd::prelude::*;
use vstd::string::StringExecFns;
use crate::text::{all_digits, digit_char, digit_of, digit_value, digits_value, first_index_of,
    is_digit, lemma_first_index_of, nat_text, parse_digits, push_nat, same_text, to_chars};

verus! {

/// Ten to the power `n`.
pub open spec fn pow10(n: nat) -> int
    decreases n,
{
    if n == 0 {
        1
    } else {
        10 * pow10((n - 1) as nat)
    }
}

/// Some powers of ten.
pub proof fn lemma_pow10_values()
    ensures
        pow10(0) == 1,
        pow10(1) == 10,
        pow10(2) == 100,
        pow10(4) == 10_000,
        pow10(18) == 1_000_000_000_000_000_000,
        pow10(19) == 10_000_000_000_000_000_000,
        pow10(23) == 100_000_000_000_000_000_000_000,
        pow10(38) == 100_000_000_000_000_000_000_000_000_000_000_000_000,
        pow10(39) == 1_000_000_000_000_000_000_000_000_000_000_000_000_000,
{
    reveal_with_fuel(pow10, 41);
}

/// Every power of ten is positive.
pub proof fn lemma_pow10_positive(n: nat)
    ensures
        pow10(n) >= 1,
    decreases n,
{
    if n > 0 {
        lemma_pow10_positive((n - 1) as nat);
    }
}

/// A greater power of ten is a greater number.
pub proof fn lemma_pow10_grows(a: nat, b: nat)
    requires
        a <= b,
    ensures
        pow10(a) <= pow10(b),
    decreases b,
{
    lemma_pow10_positive(a);
    if a < b {
        lemma_pow10_grows(a, (b - 1) as nat);
    }
}

/// Powers of ten multiply as their exponents add.
pub proof fn lemma_pow10_add(a: nat, b: nat)
    ensures
        pow10(a + b) == pow10(a) * pow10(b),
    decreases b,
{
    if b > 0 {
        lemma_pow10_add(a, (b - 1) as nat);
        assert(pow10(a + b) == 10 * pow10((a + b - 1) as nat));
        assert(10 * (pow10(a) * pow10((b - 1) as nat)) == pow10(a) * (10 * pow10((b - 1) as nat)))
            by (nonlinear_arith);
    }
}

/// Ten to the power `n`, for the powers that fit 128 bits.
pub fn power_of_ten(n: u8) -> (r: u128)
    requires
        n <= 38,
    ensures
        r == pow10(n as nat),
        r >= 1,
{
    proof {
        lemma_pow10_values();
    }
    let mut r: u128 = 1;
    let mut k: u8 = 0;
    while k < n
        invariant
            k <= n <= 38,
            r == pow10(k as nat),
            r >= 1,
            pow10(38) == 100_000_000_000_000_000_000_000_000_000_000_000_000,
        decreases n - k,
    {
        proof {
            lemma_pow10_grows((k + 1) as nat, 38);
        }
        r = r * 10;
        k += 1;
    }
    r
}

/// What a [`Decimal`] is: a decimal number, or one of the four other values
/// of a floating-point number.
#[derive(Clone, Copy, Debug, PartialEq, Eq, Structural)]
pub enum NumberKind {
    /// A decimal number.
    Finite,
    /// Zero with a minus sign: it compares as zero and is written `-0`.
    NegativeZero,
    /// What is greater than every number, written `inf`.
    Infinite,
    /// What is less than every number, written `-inf`.
    MinusInfinite,
    /// What is not a number, written `NaN`: it is neither less nor greater
    /// than anything.
    NotANumber,
}

/// An exact decimal number: `mantissa * 10^exponent`. The exponent lies
/// between -400 and 400. Each number has one form: a mantissa with a
/// negative exponent does not end in a zero, and one with a positive
/// exponent is too great to take another zero. Beside the numbers stand
/// negative zero, the two infinities and the value that is not a number,
/// with a mantissa and an exponent of zero. Two values are equal where they
/// are of the same kind and have the same form.
#[derive(Clone, Copy, Debug, PartialEq, Eq, Structural)]
pub struct Decimal {
    kind: NumberKind,
    mantissa: i64,
    exponent: i16,
}

/// `num / den` rounded to the nearest integer, ties to the even neighbour.
pub open spec fn round_half_even(num: nat, den: nat) -> nat
    recommends
        den > 0,
{
    let q = num / den;
    let r = num % den;
    if 2 * r < den {
        q
    } else if 2 * r > den {
        q + 1
    } else if q % 2 == 0 {
        q
    } else {
        q + 1
    }
}

/// `n` written with exactly `width` digits, with leading zeros where it is
/// short (its low `width` digits where it is long).
pub open spec fn padded(n: nat, width: nat) -> Seq<char>
    decreases width,
{
    if width == 0 {
        Seq::empty()
    } else {
        padded(n / 10, (width - 1) as nat).push(digit_char((n % 10) as int))
    }
}

/// A count of hundredths written with two fractional digits: `9000` is
/// `90.00`.
pub open spec fn hundredths_text(q: nat) -> Seq<char> {
    nat_text(q / 100) + seq!['.'] + padded(q % 100, 2)
}

/// Appends `n` written with exactly `width` digits.
pub fn push_padded(s: &mut String, n: u128, width: u16)
    ensures
        final(s)@ == old(s)@ + padded(n as nat, width as nat),
    decreases width,
{
    if width > 0 {
        push_padded(s, n / 10, width - 1);
        s.push(digit_of((n % 10) as u8));
    }
}

/// `num / den` rounded to the nearest integer, ties to the even neighbour.
pub fn round_ratio(num: u128, den: u128) -> (r: u128)
    requires
        den > 0,
    ensures
        r == round_half_even(num as nat, den as nat),
{
    let q = num / den;
    let r = num % den;
    proof {
        assert(q * den + r == num) by (nonlinear_arith)
            requires
                q == num / den,
                r == num % den,
                den > 0,
        ;
        assert(q <= q * den) by (nonlinear_arith)
            requires
                den >= 1,
                q >= 0,
        ;
    }
    if r < den - r {
        q
    } else if r > den - r {
        q + 1
    } else if q % 2 == 0 {
        q
    } else {
        q + 1
    }
}

/// A count of hundredths written with two fractional digits.
pub fn hundredths_string(q: u128) -> (r: String)
    ensures
        r@ == hundredths_text(q as nat),
{
    let mut s = String::new();
    push_nat(&mut s, q / 100);
    s.push('.');
    push_padded(&mut s, q % 100, 2);
    s
}

/// The greatest magnitude of a mantissa that can take another zero.
pub open spec fn room_for_zero() -> int {
    922_337_203_685_477_580
}

/// The one form of the number `g * 10^e`, for a magnitude `g` that is not
/// zero: zeros at the end of `g` are taken off while the exponent is
/// negative, and put on while it is positive and `g` can take them.
pub open spec fn settled(g: nat, e: int) -> (nat, int)
    decreases
            (if e < 0 {
                -e
            } else {
                e
            }),
{
    if e < 0 && g % 10 == 0 {
        settled(g / 10, e + 1)
    } else if e > 0 && g <= room_for_zero() {
        settled(g * 10, e - 1)
    } else {
        (g, e)
    }
}

/// The mantissa and the exponent of the number `m * 10^e` as a [`Decimal`]
/// holds it, or `None` where its exponent would lie beyond 400 either way.
/// `m` is a 64-bit integer.
pub open spec fn canonical_parts(m: int, e: int) -> Option<(int, int)> {
    if m == 0 {
        Some((0int, 0int))
    } else {
        let g = (if m < 0 {
            -m
        } else {
            m
        }) as nat;
        let (g2, e2) = settled(g, e);
        if -400 <= e2 <= 400 {
            Some(
                (
                    if m < 0 {
                        -(g2 as int)
                    } else {
                        g2 as int
                    },
                    e2,
                ),
            )
        } else {
            None
        }
    }
}

/// Settling a number leaves it the same number: for every power `k` that
/// makes both exponents whole, `g2 * 10^(k + e2)` is `g * 10^(k + e)`.
pub proof fn lemma_settled_is_same_number(g: nat, e: int, k: nat)
    requires
        k + e >= 0,
        k + settled(g, e).1 >= 0,
    ensures
        settled(g, e).0 * pow10((k + settled(g, e).1) as nat) == g * pow10((k + e) as nat),
    decreases
            (if e < 0 {
                -e
            } else {
                e
            }),
{
    if e < 0 && g % 10 == 0 {
        lemma_settled_is_same_number(g / 10, e + 1, k);
        let p = pow10((k + e) as nat);
        assert(pow10((k + e + 1) as nat) == 10 * p);
        assert((g / 10) * (10 * p) == g * p) by (nonlinear_arith)
            requires
                g % 10 == 0,
        ;
    } else if e > 0 && g <= room_for_zero() {
        lemma_settled_exponent_stays(g * 10, e - 1);
        lemma_settled_is_same_number(g * 10, e - 1, k);
        let p = pow10((k + e - 1) as nat);
        assert(pow10((k + e) as nat) == 10 * p);
        assert((g * 10) * p == g * (10 * p)) by (nonlinear_arith);
    }
}

/// Settling moves the exponent towards zero and not across it.
pub proof fn lemma_settled_exponent_stays(g: nat, e: int)
    ensures
        e <= 0 ==> e <= settled(g, e).1 <= 0,
        e >= 0 ==> 0 <= settled(g, e).1 <= e,
    decreases
            (if e < 0 {
                -e
            } else {
                e
            }),
{
    if e < 0 && g % 10 == 0 {
        lemma_settled_exponent_stays(g / 10, e + 1);
    } else if e > 0 && g <= room_for_zero() {
        lemma_settled_exponent_stays(g * 10, e - 1);
    }
}

/// How many zeros stand at the end of a number that is not zero.
pub open spec fn trailing_zeros(n: nat) -> nat
    decreases n,
{
    if n == 0 || n % 10 != 0 {
        0
    } else {
        1 + trailing_zeros(n / 10)
    }
}

/// A number without the zeros at its end.
pub open spec fn without_trailing_zeros(n: nat) -> nat
    decreases n,
{
    if n == 0 || n % 10 != 0 {
        n
    } else {
        without_trailing_zeros(n / 10)
    }
}

/// A number that does not end in a zero, with `z` zeros put behind it, has
/// `z` zeros at its end and is itself without them.
pub proof fn lemma_zeros_behind(c: nat, z: nat)
    requires
        c % 10 != 0,
    ensures
        trailing_zeros((c * pow10(z)) as nat) == z,
        without_trailing_zeros((c * pow10(z)) as nat) == c,
    decreases z,
{
    if z > 0 {
        let p = pow10((z - 1) as nat);
        lemma_pow10_positive((z - 1) as nat);
        lemma_zeros_behind(c, (z - 1) as nat);
        let n = c * pow10(z);
        assert(n == (c * p) * 10) by (nonlinear_arith)
            requires
                n == c * (10 * p),
        ;
        assert(c * p >= 1) by (nonlinear_arith)
            requires
                c >= 1,
                p >= 1,
        ;
        assert(n % 10 == 0 && n / 10 == c * p && n != 0);
    } else {
        assert(c * pow10(0) == c);
    }
}

/// A number is itself without the zeros at its end, with those zeros put
/// behind it.
pub proof fn lemma_zeros_put_back(n: nat)
    ensures
        n == without_trailing_zeros(n) * pow10(trailing_zeros(n)),
    decreases n,
{
    if n == 0 || n % 10 != 0 {
        assert(n * pow10(0) == n);
    } else {
        lemma_zeros_put_back(n / 10);
        let c = without_trailing_zeros(n / 10);
        let p = pow10(trailing_zeros(n / 10));
        assert(c * (10 * p) == (c * p) * 10) by (nonlinear_arith);
    }
}

/// The form in which a number is held is the same number: for every power
/// `k` that makes both exponents whole, `m2 * 10^(k + e2)` is
/// `m * 10^(k + e)`.
pub proof fn lemma_canonical_is_same_number(m: int, e: int, k: nat)
    requires
        canonical_parts(m, e) is Some,
        k + e >= 0,
        k + canonical_parts(m, e).unwrap().1 >= 0,
    ensures
        canonical_parts(m, e).unwrap().0 * pow10((k + canonical_parts(m, e).unwrap().1) as nat) == m
            * pow10((k + e) as nat),
{
    if m == 0 {
        assert(0 * pow10(k) == 0 && 0 * pow10((k + e) as nat) == 0) by (nonlinear_arith);
    } else {
        let g = (if m < 0 {
            -m
        } else {
            m
        }) as nat;
        lemma_settled_is_same_number(g, e, k);
        let g2 = settled(g, e).0;
        let p2 = pow10((k + settled(g, e).1) as nat);
        let p = pow10((k + e) as nat);
        assert((-(g2 as int)) * p2 == -(g2 * p2) && (-(g as int)) * p == -(g * p))
            by (nonlinear_arith);
    }
}

/// What a text in decimal notation writes: whether it has a minus sign, its
/// digits without the point, and how many of them stand behind the point.
/// The notation is an optional minus sign, one or more digits, and
/// optionally a point with one or more digits behind it; any other text
/// writes nothing.
pub open spec fn written(s: Seq<char>) -> Option<(bool, Seq<char>, nat)> {
    let negative = s.len() > 0 && s[0] == '-';
    let body = if negative {
        s.drop_first()
    } else {
        s
    };
    let dot = first_index_of(body, '.');
    let digits = if dot == body.len() {
        body
    } else {
        body.take(dot) + body.skip(dot + 1)
    };
    let scale = if dot == body.len() {
        0
    } else {
        body.len() - dot - 1
    };
    if dot > 0 && (dot == body.len() || scale > 0) && all_digits(digits) {
        Some((negative, digits, scale as nat))
    } else {
        None
    }
}

/// The mantissa and the exponent of the number that a text in decimal
/// notation writes, as a [`Decimal`] holds it. `None` for a text in another
/// notation and for a number that a `Decimal` cannot hold: one whose digits
/// without the zeros at their end are over `i64::MAX`, or whose exponent
/// would lie beyond 400 either way.
pub open spec fn decimal_of_text(s: Seq<char>) -> Option<(int, int)> {
    match written(s) {
        None => None,
        Some((negative, digits, scale)) => digits_parts(negative, digits, scale),
    }
}

/// The mantissa and the exponent of the number that digits write with
/// `scale` of them behind the point and, where `negative` is set, a minus
/// sign before them.
pub open spec fn digits_parts(negative: bool, digits: Seq<char>, scale: nat) -> Option<(int, int)> {
    let n = digits_value(digits) as nat;
    let core = without_trailing_zeros(n);
    if core > i64::MAX {
        None
    } else {
        canonical_parts(
            if negative {
                -(core as int)
            } else {
                core as int
            },
            trailing_zeros(n) - scale,
        )
    }
}

/// Comparing two numbers is comparing their mantissas once the greater
/// power of ten is brought down to the smaller.
pub proof fn lemma_order_of_shifted(a: int, ea: int, b: int, eb: int)
    requires
        -400 <= eb <= ea <= 400,
    ensures
        (a * pow10((ea + 400) as nat) < b * pow10((eb + 400) as nat)) <==> (a * pow10(
            (ea - eb) as nat,
        ) < b),
        (b * pow10((eb + 400) as nat) < a * pow10((ea + 400) as nat)) <==> (b < a * pow10(
            (ea - eb) as nat,
        )),
{
    lemma_pow10_add((ea - eb) as nat, (eb + 400) as nat);
    lemma_pow10_positive((eb + 400) as nat);
    let r = pow10((eb + 400) as nat);
    let p = pow10((ea - eb) as nat);
    assert(pow10((ea + 400) as nat) == p * r);
    assert(a * (p * r) == (a * p) * r) by (nonlinear_arith);
    assert(((a * p) * r < b * r) <==> (a * p < b)) by (nonlinear_arith)
        requires
            r > 0,
    ;
    assert((b * r < (a * p) * r) <==> (b < a * p)) by (nonlinear_arith)
        requires
            r > 0,
    ;
}

/// A power of ten from the nineteenth on outweighs every 64-bit mantissa.
pub proof fn lemma_high_power_outweighs(a: int, d: nat, b: int)
    requires
        d >= 19,
        a != 0,
        -9_223_372_036_854_775_808 <= b <= 9_223_372_036_854_775_807,
    ensures
        a > 0 ==> a * pow10(d) > b,
        a < 0 ==> a * pow10(d) < b,
{
    lemma_pow10_values();
    lemma_pow10_grows(19, d);
    let p = pow10(d);
    assert(a > 0 ==> a * p >= p) by (nonlinear_arith)
        requires
            p >= 1,
    ;
    assert(a < 0 ==> a * p <= -p) by (nonlinear_arith)
        requires
            p >= 1,
    ;
}

/// A number that is not zero, times ten, is written with one zero more.
pub proof fn lemma_text_times_ten(n: nat)
    requires
        n >= 1,
    ensures
        nat_text(n * 10) == nat_text(n).push('0'),
{
    assert((n * 10) / 10 == n && (n * 10) % 10 == 0);
}

/// The number that is held for a text is the number that the text writes:
/// its mantissa, with as many zeros behind it as the exponent and the count
/// of fractional digits make together, is the number that the digits write.
pub proof fn lemma_text_keeps_its_number(s: Seq<char>)
    requires
        decimal_of_text(s) is Some,
    ensures
        ({
            let (negative, digits, scale) = written(s).unwrap();
            let (m, e) = decimal_of_text(s).unwrap();
            &&& e + scale >= 0
            &&& m * pow10((e + scale) as nat) == if negative {
                -digits_value(digits)
            } else {
                digits_value(digits)
            }
        }),
{
    let (negative, digits, scale) = written(s).unwrap();
    crate::text::lemma_digits_value_grows(digits, 0);
    let n = digits_value(digits) as nat;
    let core = without_trailing_zeros(n);
    let z = trailing_zeros(n);
    lemma_zeros_put_back(n);
    let signed = if negative {
        -(core as int)
    } else {
        core as int
    };
    if core == 0 {
        assert(0 * pow10(z) == 0 && 0 * pow10(scale) == 0) by (nonlinear_arith);
    } else {
        lemma_settled_exponent_stays(core, z - scale);
        lemma_canonical_is_same_number(signed, z - scale, scale);
        let pz = pow10(z);
        assert((-(core as int)) * pz == -(core * pz)) by (nonlinear_arith);
    }
}

impl Decimal {
    #[verifier::type_invariant]
    spec fn canonical(self) -> bool {
        &&& !(self.kind is Finite) ==> self.mantissa == 0 && self.exponent == 0
        &&& -400 <= self.exponent <= 400
        &&& self.exponent < 0 ==> self.mantissa % 10 != 0
        &&& self.exponent > 0 ==> (self.mantissa > 922_337_203_685_477_580 || self.mantissa
            < -922_337_203_685_477_580)
    }

    /// What the value is: a number, or one of the four other values.
    pub closed spec fn kind(self) -> NumberKind {
        self.kind
    }

    /// The digits of the number as an integer.
    pub closed spec fn mantissa(self) -> int {
        self.mantissa as int
    }

    /// The power of ten by which the mantissa is multiplied.
    pub closed spec fn exponent(self) -> int {
        self.exponent as int
    }

    /// What holds of every number of this type.
    pub open spec fn wf(self) -> bool {
        &&& !(self.kind() is Finite) ==> self.mantissa() == 0 && self.exponent() == 0
        &&& i64::MIN <= self.mantissa() <= i64::MAX
        &&& -400 <= self.exponent() <= 400
        &&& self.exponent() < 0 ==> self.mantissa() % 10 != 0
        &&& self.exponent() > 0 ==> (self.mantissa() > room_for_zero() || self.mantissa()
            < -room_for_zero())
    }

    /// The number times `10^400`, which is an integer.
    pub open spec fn shifted(self) -> int {
        self.mantissa() * pow10((self.exponent() + 400) as nat)
    }

    /// The integer `i` as a decimal number.
    pub closed spec fn of_int(i: i64) -> Decimal {
        Decimal { kind: NumberKind::Finite, mantissa: i, exponent: 0 }
    }

    /// An integer as a decimal number has itself as mantissa and the
    /// exponent zero.
    pub proof fn lemma_of_int(i: i64)
        ensures
            Decimal::of_int(i).kind() is Finite,
            Decimal::of_int(i).mantissa() == i,
            Decimal::of_int(i).exponent() == 0,
            Decimal::of_int(i).wf(),
    {
    }

    /// Integers compare as decimal numbers as they compare as integers.
    pub proof fn lemma_integers_keep_their_order(a: i64, b: i64)
        ensures
            Decimal::of_int(a).lt(Decimal::of_int(b)) <==> a < b,
            Decimal::of_int(a).gt(Decimal::of_int(b)) <==> a > b,
    {
        Decimal::lemma_of_int(a);
        Decimal::lemma_of_int(b);
        lemma_order_of_shifted(a as int, 0, b as int, 0);
        lemma_order_of_shifted(b as int, 0, a as int, 0);
        assert(pow10(0) == 1);
    }

    /// Whether `self` is less than `other`. Numbers compare as numbers, and
    /// negative zero as zero. What is not a number is not less than
    /// anything, and nothing is less than it; the one infinity is less than
    /// everything else, and everything else is less than the other.
    pub open spec fn lt(self, other: Decimal) -> bool {
        if self.kind() is NotANumber || other.kind() is NotANumber {
            false
        } else if self.kind() is MinusInfinite {
            !(other.kind() is MinusInfinite)
        } else if other.kind() is Infinite {
            !(self.kind() is Infinite)
        } else if self.kind() is Infinite || other.kind() is MinusInfinite {
            false
        } else {
            self.shifted() < other.shifted()
        }
    }

    /// Whether `self` is greater than `other`, as numbers.
    pub open spec fn gt(self, other: Decimal) -> bool {
        other.lt(self)
    }

    /// Whether the share `count / total` is not less than the value: for a
    /// number, whether the number is at most the share.
    pub open spec fn at_most_share(self, count: nat, total: nat) -> bool {
        match self.kind() {
            NumberKind::NotANumber => true,
            NumberKind::MinusInfinite => true,
            NumberKind::Infinite => false,
            _ => count * pow10(400) >= self.shifted() * total,
        }
    }

    /// The magnitude of the mantissa.
    pub open spec fn magnitude(self) -> nat {
        if self.mantissa() < 0 {
            (-self.mantissa()) as nat
        } else {
            self.mantissa() as nat
        }
    }

    /// The minus sign of a negative number, and nothing for another.
    pub open spec fn sign_text(self) -> Seq<char> {
        if self.mantissa() < 0 {
            seq!['-']
        } else {
            Seq::<char>::empty()
        }
    }

    /// The value as it is written: a number in decimal notation, negative
    /// zero as `-0`, the infinities as `inf` and `-inf`, and what is not a
    /// number as `NaN`.
    pub open spec fn text(self) -> Seq<char> {
        match self.kind() {
            NumberKind::NotANumber => "NaN"@,
            NumberKind::Infinite => "inf"@,
            NumberKind::MinusInfinite => "-inf"@,
            NumberKind::NegativeZero => seq!['-'] + self.number_text(),
            NumberKind::Finite => self.number_text(),
        }
    }

    /// The number in decimal notation, without a power of ten: a minus sign
    /// where it is negative, the integer part, and where there are
    /// fractional digits a point and all of them. `3.5`, `-0.25`, `150`.
    pub open spec fn number_text(self) -> Seq<char> {
        if self.exponent() >= 0 {
            self.sign_text() + nat_text((self.magnitude() * pow10(self.exponent() as nat)) as nat)
        } else {
            let scale = (-self.exponent()) as nat;
            let p = pow10(scale) as nat;
            self.sign_text() + nat_text(self.magnitude() / p) + seq!['.'] + padded(
                self.magnitude() % p,
                scale,
            )
        }
    }

    /// A hundred times the magnitude of the number in hundredths, rounded to
    /// a whole number of them, ties to even.
    pub open spec fn hundredths_of_percent(self) -> nat {
        if self.exponent() >= 0 {
            (self.magnitude() * pow10((self.exponent() + 4) as nat)) as nat
        } else {
            round_half_even(self.magnitude() * 10_000, pow10((-self.exponent()) as nat) as nat)
        }
    }

    /// A hundred times the value as it is written with two fractional
    /// digits: a number as [`Self::number_percent_text`], negative zero as
    /// `-0.00`, and the other values as they are written themselves.
    pub open spec fn percent_text(self) -> Seq<char> {
        match self.kind() {
            NumberKind::NotANumber => "NaN"@,
            NumberKind::Infinite => "inf"@,
            NumberKind::MinusInfinite => "-inf"@,
            NumberKind::NegativeZero => seq!['-'] + self.number_percent_text(),
            NumberKind::Finite => self.number_percent_text(),
        }
    }

    /// A hundred times the number, rounded to two fractional digits (ties to
    /// even) and written with both: `0.95` gives `95.00`. The sign is that of
    /// the number itself.
    pub open spec fn number_percent_text(self) -> Seq<char> {
        self.sign_text() + hundredths_text(self.hundredths_of_percent())
    }

    /// States what holds of every number of this type.
    pub fn valid(&self)
        ensures
            self.wf(),
    {
        proof {
            use_type_invariant(self);
        }
    }

    /// The integer `i` as a decimal number.
    pub fn from_int(i: i64) -> (r: Decimal)
        ensures
            r == Decimal::of_int(i),
            r.kind() is Finite,
            r.mantissa() == i,
            r.exponent() == 0,
            r.wf(),
    {
        Decimal { kind: NumberKind::Finite, mantissa: i, exponent: 0 }
    }

    /// The value that is not a number.
    pub fn not_a_number() -> (r: Decimal)
        ensures
            found_parts(Some(r)) == Some((NumberKind::NotANumber, 0int, 0int)),
    {
        Decimal { kind: NumberKind::NotANumber, mantissa: 0, exponent: 0 }
    }

    /// The infinity that is less than every number where `negative` is set,
    /// else the one that is greater.
    pub fn infinity(negative: bool) -> (r: Decimal)
        ensures
            found_parts(Some(r)) == Some(
                (
                    if negative {
                        NumberKind::MinusInfinite
                    } else {
                        NumberKind::Infinite
                    },
                    0int,
                    0int,
                ),
            ),
    {
        if negative {
            Decimal { kind: NumberKind::MinusInfinite, mantissa: 0, exponent: 0 }
        } else {
            Decimal { kind: NumberKind::Infinite, mantissa: 0, exponent: 0 }
        }
    }

    /// Zero with a minus sign.
    pub fn negative_zero() -> (r: Decimal)
        ensures
            found_parts(Some(r)) == Some((NumberKind::NegativeZero, 0int, 0int)),
    {
        Decimal { kind: NumberKind::NegativeZero, mantissa: 0, exponent: 0 }
    }

    /// What the value is.
    pub fn kind_value(&self) -> (r: NumberKind)
        ensures
            r == self.kind(),
    {
        self.kind
    }

    /// The number of the magnitude `magnitude`, which is not zero, times
    /// `10^exponent`, negative where `negative` is set.
    fn settle(negative: bool, magnitude: u64, exponent: i128) -> (r: Option<Decimal>)
        requires
            0 < magnitude <= 9_223_372_036_854_775_807,
        ensures
            found_parts(r) == as_number(
                canonical_parts(
                    if negative {
                        -(magnitude as int)
                    } else {
                        magnitude as int
                    },
                    exponent as int,
                ),
            ),
    {
        let mut g: u64 = magnitude;
        let mut e: i128 = exponent;
        while e < 0 && g % 10 == 0
            invariant
                0 < g <= 9_223_372_036_854_775_807,
                settled(g as nat, e as int) == settled(magnitude as nat, exponent as int),
                exponent >= 0 ==> e == exponent,
            decreases -e,
        {
            g = g / 10;
            e = e + 1;
        }
        while e > 0 && g <= 922_337_203_685_477_580
            invariant
                0 < g <= 9_223_372_036_854_775_807,
                settled(g as nat, e as int) == settled(magnitude as nat, exponent as int),
                e <= 0 ==> (e < 0 ==> g % 10 != 0),
                e < 0 ==> g % 10 != 0,
            decreases e,
        {
            g = g * 10;
            e = e - 1;
        }
        if e < -400 || e > 400 {
            return None;
        }
        let m: i64 = if negative {
            -(g as i64)
        } else {
            g as i64
        };
        Some(Decimal { kind: NumberKind::Finite, mantissa: m, exponent: e as i16 })
    }

    /// The number `mantissa / 10^scale`; a negative scale puts zeros behind
    /// the mantissa. `None` where the number's exponent would lie beyond 400
    /// either way.
    pub fn new(mantissa: i64, scale: i32) -> (r: Option<Decimal>)
        ensures
            found_parts(r) == as_number(canonical_parts(mantissa as int, -(scale as int))),
    {
        if mantissa == 0 {
            Some(Decimal { kind: NumberKind::Finite, mantissa: 0, exponent: 0 })
        } else if mantissa == -9_223_372_036_854_775_808 {
            if -400 <= scale && scale <= 400 {
                Some(Decimal { kind: NumberKind::Finite, mantissa, exponent: (-scale) as i16 })
            } else {
                None
            }
        } else if mantissa < 0 {
            Decimal::settle(true, (-mantissa) as u64, -(scale as i128))
        } else {
            Decimal::settle(false, mantissa as u64, -(scale as i128))
        }
    }

    /// The mantissa.
    pub fn mantissa_value(&self) -> (r: i64)
        ensures
            r == self.mantissa(),
    {
        self.mantissa
    }

    /// The exponent of the power of ten.
    pub fn exponent_value(&self) -> (r: i16)
        ensures
            r == self.exponent(),
            -400 <= r <= 400,
    {
        proof {
            use_type_invariant(self);
        }
        self.exponent
    }

    /// Whether `self` is less than `other`.
    pub fn less_than(&self, other: &Decimal) -> (r: bool)
        ensures
            r == self.lt(*other),
    {
        proof {
            use_type_invariant(self);
            use_type_invariant(other);
            lemma_pow10_values();
        }
        match (self.kind, other.kind) {
            (NumberKind::NotANumber, _) => {
                return false;
            },
            (_, NumberKind::NotANumber) => {
                return false;
            },
            (NumberKind::MinusInfinite, NumberKind::MinusInfinite) => {
                return false;
            },
            (NumberKind::MinusInfinite, _) => {
                return true;
            },
            (NumberKind::Infinite, NumberKind::Infinite) => {
                return false;
            },
            (_, NumberKind::Infinite) => {
                return true;
            },
            (NumberKind::Infinite, _) => {
                return false;
            },
            (_, NumberKind::MinusInfinite) => {
                return false;
            },
            _ => {},
        }
        let a = self.mantissa as i128;
        let b = other.mantissa as i128;
        let ea = self.exponent as i32;
        let eb = other.exponent as i32;
        if ea >= eb {
            let d = ea - eb;
            proof {
                lemma_order_of_shifted(a as int, ea as int, b as int, eb as int);
            }
            assert(self.lt(*other) == (a * pow10(d as nat) < b));
            if d > 18 {
                proof {
                    if a != 0 {
                        lemma_high_power_outweighs(a as int, d as nat, b as int);
                    } else {
                        assert(a * pow10(d as nat) == 0) by (nonlinear_arith)
                            requires
                                a == 0,
                        ;
                    }
                }
                if a == 0 {
                    b > 0
                } else {
                    a < 0
                }
            } else {
                let power = power_of_ten(d as u8);
                proof {
                    lemma_pow10_grows(d as nat, 18);
                }
                let p = power as i128;
                assert(-170141183460469231731687303715884105728 < a * p
                    < 170141183460469231731687303715884105727) by (nonlinear_arith)
                    requires
                        -9223372036854775808 <= a <= 9223372036854775807,
                        1 <= p <= 1_000_000_000_000_000_000,
                ;
                a * p < b
            }
        } else {
            let d = eb - ea;
            proof {
                lemma_order_of_shifted(b as int, eb as int, a as int, ea as int);
            }
            assert(self.lt(*other) == (a < b * pow10(d as nat)));
            if d > 18 {
                proof {
                    if b != 0 {
                        lemma_high_power_outweighs(b as int, d as nat, a as int);
                    } else {
                        assert(b * pow10(d as nat) == 0) by (nonlinear_arith)
                            requires
                                b == 0,
                        ;
                    }
                }
                if b == 0 {
                    a < 0
                } else {
                    b > 0
                }
            } else {
                let power = power_of_ten(d as u8);
                proof {
                    lemma_pow10_grows(d as nat, 18);
                }
                let p = power as i128;
                assert(-170141183460469231731687303715884105728 < b * p
                    < 170141183460469231731687303715884105727) by (nonlinear_arith)
                    requires
                        -9223372036854775808 <= b <= 9223372036854775807,
                        1 <= p <= 1_000_000_000_000_000_000,
                ;
                a < b * p
            }
        }
    }
}

/// The kind, the mantissa and the exponent of an optional value.
pub open spec fn found_parts(r: Option<Decimal>) -> Option<(NumberKind, int, int)> {
    match r {
        Some(d) => Some((d.kind(), d.mantissa(), d.exponent())),
        None => None,
    }
}

/// A mantissa and an exponent as those of a number.
pub open spec fn as_number(parts: Option<(int, int)>) -> Option<(NumberKind, int, int)> {
    match parts {
        Some(p) => Some((NumberKind::Finite, p.0, p.1)),
        None => None,
    }
}

/// The value that a text writes: `NaN`, `inf` and `-inf` are the values
/// that are written so; a text in decimal notation that writes zero with a
/// minus sign is negative zero; any other text in decimal notation is the
/// number it writes, where a [`Decimal`] can hold that number.
pub open spec fn value_of_text(s: Seq<char>) -> Option<(NumberKind, int, int)> {
    if s == "NaN"@ {
        Some((NumberKind::NotANumber, 0int, 0int))
    } else if s == "inf"@ {
        Some((NumberKind::Infinite, 0int, 0int))
    } else if s == "-inf"@ {
        Some((NumberKind::MinusInfinite, 0int, 0int))
    } else {
        match written(s) {
            None => None,
            Some((negative, digits, scale)) => digits_number(negative, digits, scale),
        }
    }
}

/// The value that digits write with `scale` of them behind the point and,
/// where `negative` is set, a minus sign before them: negative zero where
/// they write zero behind a minus sign, else the number of
/// [`digits_parts`].
pub open spec fn digits_number(negative: bool, digits: Seq<char>, scale: nat) -> Option<
    (NumberKind, int, int),
> {
    if negative && digits_value(digits) == 0 {
        Some((NumberKind::NegativeZero, 0int, 0int))
    } else {
        as_number(digits_parts(negative, digits, scale))
    }
}

/// The magnitude of a mantissa lies below every power of ten from the
/// nineteenth on: divided by it, it leaves nothing and remains whole.
pub proof fn lemma_below_high_power(mag: nat, scale: nat)
    requires
        mag <= 9_223_372_036_854_775_808,
        scale >= 19,
    ensures
        mag / (pow10(scale) as nat) == 0,
        mag % (pow10(scale) as nat) == mag,
{
    lemma_pow10_values();
    lemma_pow10_grows(19, scale);
    let p = pow10(scale) as nat;
    assert(mag / p == 0 && mag % p == mag) by (nonlinear_arith)
        requires
            mag < p,
            p > 0,
    ;
}

/// Zeros behind a whole number of hundredths: the number of hundredths is a
/// whole number with two zeros, so the percentage has no fractional part.
pub proof fn lemma_whole_hundredths(mag: nat, e: nat)
    ensures
        (mag * pow10(e + 4)) / 100 == mag * pow10(e + 2),
        (mag * pow10(e + 4)) % 100 == 0,
{
    lemma_pow10_add(e + 2, 2);
    lemma_pow10_values();
    let p = pow10(e + 2);
    assert(mag * (p * 100) == (mag * p) * 100) by (nonlinear_arith);
    let x = mag * p;
    assert((x * 100) / 100 == x && (x * 100) % 100 == 0);
}

impl Decimal {
    /// Appends the whole number `mag * 10^zeros`, where `mag` is not zero.
    fn push_with_zeros(s: &mut String, mag: u128, zeros: u16)
        requires
            mag >= 1,
        ensures
            final(s)@ == old(s)@ + nat_text((mag * pow10(zeros as nat)) as nat),
    {
        push_nat(s, mag);
        let mut k: u16 = 0;
        assert(mag * pow10(0) == mag);
        while k < zeros
            invariant
                k <= zeros,
                mag >= 1,
                s@ == old(s)@ + nat_text((mag * pow10(k as nat)) as nat),
            decreases zeros - k,
        {
            proof {
                let p = pow10(k as nat);
                lemma_pow10_positive(k as nat);
                assert(mag * p >= 1) by (nonlinear_arith)
                    requires
                        mag >= 1,
                        p >= 1,
                ;
                assert(mag * pow10((k + 1) as nat) == (mag * p) * 10) by (nonlinear_arith)
                    requires
                        pow10((k + 1) as nat) == 10 * p,
                ;
                lemma_text_times_ten((mag * p) as nat);
            }
            s.push('0');
            k += 1;
        }
    }

    /// The magnitude of the mantissa.
    fn magnitude_value(&self) -> (r: u128)
        ensures
            r == self.magnitude(),
            r <= 9_223_372_036_854_775_808,
    {
        let m = self.mantissa as i128;
        if m < 0 {
            (-m) as u128
        } else {
            m as u128
        }
    }

    /// The value as it is written.
    pub fn to_string(&self) -> (r: String)
        ensures
            r@ == self.text(),
    {
        proof {
            use_type_invariant(self);
        }
        let mut s = String::new();
        match self.kind {
            NumberKind::NotANumber => {
                s.append("NaN");
                return s;
            },
            NumberKind::Infinite => {
                s.append("inf");
                return s;
            },
            NumberKind::MinusInfinite => {
                s.append("-inf");
                return s;
            },
            NumberKind::NegativeZero => {
                s.push('-');
            },
            NumberKind::Finite => {},
        }
        if self.mantissa < 0 {
            s.push('-');
        }
        let mag = self.magnitude_value();
        if self.exponent > 0 {
            Decimal::push_with_zeros(&mut s, mag, self.exponent as u16);
        } else if self.exponent == 0 {
            assert(mag * pow10(0) == mag);
            push_nat(&mut s, mag);
        } else {
            let scale: u16 = (-self.exponent) as u16;
            if scale <= 18 {
                let p = power_of_ten(scale as u8);
                push_nat(&mut s, mag / p);
                s.push('.');
                push_padded(&mut s, mag % p, scale);
            } else {
                proof {
                    lemma_below_high_power(mag as nat, scale as nat);
                }
                push_nat(&mut s, 0);
                s.push('.');
                push_padded(&mut s, mag, scale);
            }
        }
        assert(s@ =~= self.text());
        s
    }

    /// A hundred times the value as it is written with two fractional
    /// digits.
    pub fn percent_string(&self) -> (r: String)
        ensures
            r@ == self.percent_text(),
    {
        proof {
            use_type_invariant(self);
            lemma_pow10_values();
        }
        let mut s = String::new();
        match self.kind {
            NumberKind::NotANumber => {
                s.append("NaN");
                return s;
            },
            NumberKind::Infinite => {
                s.append("inf");
                return s;
            },
            NumberKind::MinusInfinite => {
                s.append("-inf");
                return s;
            },
            NumberKind::NegativeZero => {
                s.push('-');
            },
            NumberKind::Finite => {},
        }
        if self.mantissa < 0 {
            s.push('-');
        }
        let mag = self.magnitude_value();
        let ghost sign = s@;
        assert(sign =~= if self.kind is NegativeZero {
            seq!['-']
        } else {
            self.sign_text()
        });
        if self.exponent >= 0 {
            let ghost e = self.exponent as nat;
            let ghost q = (mag * pow10(e + 4)) as nat;
            let ghost whole = (mag * pow10(e + 2)) as nat;
            proof {
                lemma_whole_hundredths(mag as nat, e);
                lemma_pow10_positive(e + 4);
                lemma_pow10_positive(e + 2);
                assert(mag * pow10(e + 4) >= 0 && mag * pow10(e + 2) >= 0) by (nonlinear_arith)
                    requires
                        mag >= 0,
                        pow10(e + 4) >= 1,
                        pow10(e + 2) >= 1,
                ;
                assert(self.hundredths_of_percent() == q);
                assert(q / 100 == whole && q % 100 == 0);
            }
            if mag == 0 {
                assert(whole == 0) by (nonlinear_arith)
                    requires
                        whole == mag * pow10(e + 2),
                        mag == 0,
                ;
                push_nat(&mut s, 0);
            } else {
                Decimal::push_with_zeros(&mut s, mag, (self.exponent + 2) as u16);
            }
            assert(s@ =~= sign + nat_text(whole));
            s.push('.');
            push_padded(&mut s, 0, 2);
            assert(s@ =~= sign + hundredths_text(q));
        } else {
            let scale: u16 = (-self.exponent) as u16;
            let q = if scale <= 38 {
                round_ratio(mag * 10_000, power_of_ten(scale as u8))
            } else {
                proof {
                    lemma_pow10_grows(39, scale as nat);
                    let p = pow10(scale as nat) as nat;
                    let num = (mag * 10_000) as nat;
                    assert(num / p == 0 && num % p == num) by (nonlinear_arith)
                        requires
                            num < p,
                            p > 0,
                    ;
                }
                0
            };
            assert(q == self.hundredths_of_percent());
            s.append(hundredths_string(q).as_str());
        }
        assert(s@ =~= self.percent_text());
        s
    }

    /// Whether the share `count / total` is not less than the value.
    pub fn is_at_most_share(&self, count: usize, total: usize) -> (r: bool)
        requires
            total > 0,
        ensures
            r == self.at_most_share(count as nat, total as nat),
    {
        proof {
            use_type_invariant(self);
            lemma_pow10_values();
            lemma_pow10_positive(400);
            lemma_pow10_positive((self.exponent + 400) as nat);
        }
        match self.kind {
            NumberKind::NotANumber => {
                return true;
            },
            NumberKind::MinusInfinite => {
                return true;
            },
            NumberKind::Infinite => {
                return false;
            },
            _ => {},
        }
        let ghost k = pow10(400);
        let ghost sh = self.shifted();
        if self.mantissa <= 0 {
            proof {
                let p = pow10((self.exponent + 400) as nat);
                let m = self.mantissa as int;
                assert(m * p <= 0) by (nonlinear_arith)
                    requires
                        m <= 0,
                        p >= 1,
                ;
                assert(sh * total <= 0) by (nonlinear_arith)
                    requires
                        sh <= 0,
                        total > 0,
                ;
                assert(count * k >= 0) by (nonlinear_arith)
                    requires
                        count >= 0,
                        k >= 1,
                ;
            }
            return true;
        }
        let m = self.mantissa as u128;
        let c = count as u128;
        let t = total as u128;
        if self.exponent >= 0 {
            let ghost e = self.exponent as nat;
            let ghost v = m * pow10(e);
            proof {
                lemma_pow10_add(e, 400);
                lemma_pow10_positive(e);
                assert(sh == v * k) by (nonlinear_arith)
                    requires
                        sh == m * (pow10(e) * k),
                        v == m * pow10(e),
                ;
                assert((c * k >= (v * k) * t) <==> (c >= v * t)) by (nonlinear_arith)
                    requires
                        k >= 1,
                ;
            }
            if self.exponent >= 2 {
                proof {
                    lemma_pow10_grows(2, e);
                    let p = pow10(e);
                    assert(v * t > c) by (nonlinear_arith)
                        requires
                            v == m * p,
                            p >= 100,
                            m > 922_337_203_685_477_580,
                            t >= 1,
                            c < 18_446_744_073_709_551_616,
                    ;
                }
                false
            } else {
                let p = power_of_ten(self.exponent as u8);
                proof {
                    lemma_pow10_grows(e, 1);
                }
                assert(m * p <= 9_223_372_036_854_775_807 * 10) by (nonlinear_arith)
                    requires
                        0 < m <= 9_223_372_036_854_775_807,
                        1 <= p <= 10,
                ;
                let value = m * p;
                let q = c / t;
                proof {
                    assert((c >= value * t) <==> (q >= value)) by (nonlinear_arith)
                        requires
                            q == c / t,
                            t > 0,
                            c >= 0,
                            value >= 0,
                    ;
                }
                q >= value
            }
        } else {
            let scale: u16 = (-self.exponent) as u16;
            let ghost s = scale as nat;
            let ghost p = pow10(s);
            let ghost low = pow10((400 - s) as nat);
            assert(0 < m * t < 170_141_183_460_469_231_731_687_303_715_884_105_728)
                by (nonlinear_arith)
                requires
                    0 < m <= 9_223_372_036_854_775_807,
                    0 < t <= 18_446_744_073_709_551_615,
            ;
            let x = m * t;
            proof {
                lemma_pow10_add(s, (400 - s) as nat);
                lemma_pow10_positive(s);
                lemma_pow10_positive((400 - s) as nat);
                assert(k == p * low);
                assert(sh == m * low);
                assert((c * (p * low) >= (m * low) * t) <==> (c * p >= m * t)) by (nonlinear_arith)
                    requires
                        low >= 1,
                ;
            }
            if scale <= 38 {
                let pe = power_of_ten(scale as u8);
                let q = x / pe;
                let rest = x % pe;
                proof {
                    assert((c * pe >= x) <==> (q < c || (q == c && rest == 0))) by (nonlinear_arith)
                        requires
                            q == x / pe,
                            rest == x % pe,
                            pe > 0,
                            x >= 0,
                            c >= 0,
                    ;
                }
                q < c || (q == c && rest == 0)
            } else {
                proof {
                    lemma_pow10_grows(39, s);
                    assert((c * p >= x) <==> (c >= 1)) by (nonlinear_arith)
                        requires
                            p >= 1_000_000_000_000_000_000_000_000_000_000_000_000_000,
                            0 < x < 170_141_183_460_469_231_731_687_303_715_884_105_728,
                            c >= 0,
                    ;
                }
                c >= 1
            }
        }
    }

    /// Reads a value as it is written: a number in decimal notation, such as
    /// `150`, `-0.25`, `3.50`, `0.000000000000000000015` or
    /// `10000000000000000000`, or one of `-0`, `inf`, `-inf` and `NaN`. The
    /// number that is held is the number that the text writes:
    /// [`lemma_text_keeps_its_number`].
    pub fn parse(text: &str) -> (r: Option<Decimal>)
        ensures
            found_parts(r) == value_of_text(text@),
    {
        if same_text(text, "NaN") {
            return Some(Decimal::not_a_number());
        }
        if same_text(text, "inf") {
            return Some(Decimal::infinity(false));
        }
        if same_text(text, "-inf") {
            return Some(Decimal::infinity(true));
        }
        let chars = to_chars(text);
        let n = chars.len();
        let negative = n > 0 && chars[0] == '-';
        let start: usize = if negative {
            1
        } else {
            0
        };
        let ghost body = if negative {
            chars@.drop_first()
        } else {
            chars@
        };
        let mut dot: usize = start;
        let mut digits: Vec<char> = Vec::new();
        while dot < n && chars[dot] != '.'
            invariant
                start <= dot <= n == chars.len(),
                body == chars@.skip(start as int),
                forall|i: int| 0 <= i < dot - start ==> #[trigger] body[i] != '.',
                digits@ == body.take(dot - start),
            decreases n - dot,
        {
            digits.push(chars[dot]);
            dot += 1;
        }
        proof {
            lemma_first_index_of(body, '.', dot - start);
        }
        let ghost whole = digits@;
        let mut i: usize = if dot < n {
            dot + 1
        } else {
            n
        };
        let first_frac = i;
        while i < n
            invariant
                first_frac <= i <= n == chars.len(),
                start <= dot <= n,
                first_frac == if dot < n { dot + 1 } else { n as int },
                body == chars@.skip(start as int),
                digits@ == whole + body.subrange(first_frac - start, i - start),
            decreases n - i,
        {
            digits.push(chars[i]);
            i += 1;
        }
        assert(digits@ =~= if dot == n {
            body
        } else {
            body.take(dot - start) + body.skip(dot - start + 1)
        });
        if dot == start {
            return None;
        }
        if dot < n && n - dot - 1 == 0 {
            return None;
        }
        let scale: usize = if dot < n {
            n - dot - 1
        } else {
            0
        };
        Decimal::of_digits(negative, &digits, scale)
    }

    /// The number that the digits `digits` write with `scale` of them behind
    /// the point.
    fn of_digits(negative: bool, digits: &Vec<char>, scale: usize) -> (r: Option<Decimal>)
        requires
            digits.len() > 0,
        ensures
            found_parts(r) == if all_digits(digits@) {
                digits_number(negative, digits@, scale as nat)
            } else {
                None
            },
    {
        let len = digits.len();
        let mut end: usize = len;
        while end > 0 && digits[end - 1] == '0'
            invariant
                end <= len == digits.len(),
                forall|j: int| end <= j < len ==> digits@[j] == '0',
            decreases end,
        {
            end -= 1;
        }
        let ghost head = digits@.take(end as int);
        let ghost z = (len - end) as nat;
        proof {
            lemma_zeros_at_end(digits@, end as int);
        }
        if end == 0 {
            proof {
                assert(head =~= Seq::<char>::empty());
                assert(digits_value(head) == 0);
                assert(0 * pow10(z) == 0) by (nonlinear_arith);
                assert(all_digits(head));
            }
            return Some(
                if negative {
                    Decimal::negative_zero()
                } else {
                    Decimal::from_int(0)
                },
            );
        }
        let mut kept: Vec<char> = Vec::new();
        let mut j: usize = 0;
        while j < end
            invariant
                j <= end <= digits.len(),
                kept@ == digits@.take(j as int),
            decreases end - j,
        {
            kept.push(digits[j]);
            j += 1;
            assert(digits@.take(j as int) =~= digits@.take(j - 1).push(digits@[j - 1]));
        }
        assert(kept@.skip(0) =~= kept@);
        assert(kept@ == head);
        proof {
            if all_digits(head) {
                crate::text::lemma_digits_value_grows(head, 0);
                let h = digits_value(head);
                assert(head.last() == digits@[end - 1]);
                assert(is_digit(head.last()));
                assert(h % 10 == digit_value(head.last()));
                assert(h % 10 != 0);
                lemma_zeros_behind(h as nat, z);
            }
        }
        match parse_digits(&kept, 0, 9_223_372_036_854_775_807u64) {
            None => None,
            Some(core) => {
                let zeros: i128 = (len - end) as i128;
                Decimal::settle(negative, core, zeros - scale as i128)
            },
        }
    }
}

/// Digits that end in zeros from `end` on write the number that the digits
/// before `end` write, with that many zeros behind it; and they are all
/// digits exactly if those before `end` are.
pub proof fn lemma_zeros_at_end(digits: Seq<char>, end: int)
    requires
        0 <= end <= digits.len(),
        forall|j: int| end <= j < digits.len() ==> digits[j] == '0',
    ensures
        digits_value(digits) == digits_value(digits.take(end)) * pow10((digits.len() - end) as nat),
        all_digits(digits) <==> all_digits(digits.take(end)),
    decreases digits.len() - end,
{
    let head = digits.take(end);
    if end == digits.len() {
        assert(head =~= digits);
        assert(digits_value(digits) * pow10(0) == digits_value(digits));
    } else {
        let shorter = digits.drop_last();
        assert(shorter.take(end) =~= head);
        assert forall|j: int| end <= j < shorter.len() implies shorter[j] == '0' by {
            assert(shorter[j] == digits[j]);
        }
        lemma_zeros_at_end(shorter, end);
        assert(digits.last() == '0');
        let z = (digits.len() - end) as nat;
        let p = pow10((z - 1) as nat);
        let h = digits_value(head);
        assert((h * p) * 10 == h * (10 * p)) by (nonlinear_arith);
        assert(all_digits(digits) <==> all_digits(shorter)) by {
            if all_digits(shorter) {
                assert forall|j: int| 0 <= j < digits.len() implies is_digit(#[trigger] digits[j]) by {
                    if j < shorter.len() {
                        assert(digits[j] == shorter[j]);
                    }
                }
            }
            if all_digits(digits) {
                assert forall|j: int| 0 <= j < shorter.len() implies is_digit(#[trigger] shorter[j]) by {
                    assert(shorter[j] == digits[j]);
                }
            }
        }
    }
}

} // verus!
