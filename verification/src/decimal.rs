//! Fixed-point decimal numbers as a mantissa and a power-of-ten scale, the values
//! that `rust_decimal::Decimal` stands for, and the computations on them that
//! `rust_decimal` performs.
use rust_decimal::prelude::ToPrimitive;
use vstd::prelude::*;

verus! {

/// Largest magnitude of a mantissa: 2^96 - 1.
pub const MAX_MANTISSA: i128 = 79228162514264337593543950335;

/// Largest scale (number of fractional decimal digits).
pub const MAX_SCALE: u32 = 28;

/// 10 to the power `n`.
pub open spec fn pow10(n: nat) -> int
    decreases n,
{
    if n == 0 {
        1
    } else {
        10 * pow10((n - 1) as nat)
    }
}

/// Powers of ten are positive.
pub proof fn lemma_pow10_positive(n: nat)
    ensures
        pow10(n) > 0,
    decreases n,
{
    if n > 0 {
        lemma_pow10_positive((n - 1) as nat);
    }
}

/// Integer division rounding toward zero (Rust's `/` on integers).
pub open spec fn div_toward_zero(a: int, d: int) -> int {
    if a >= 0 {
        a / d
    } else {
        -((-a) / d)
    }
}

pub open spec fn abs(a: int) -> int {
    if a < 0 {
        -a
    } else {
        a
    }
}

/// The value `mantissa / 10^scale` with its fractional part cut off.
pub open spec fn truncated(mantissa: int, scale: nat) -> int {
    div_toward_zero(mantissa, pow10(scale))
}

/// The same value with trailing fractional zeros stripped; zero becomes `(0, 0)`.
pub open spec fn normalized(mantissa: int, scale: nat) -> (int, nat)
    decreases scale,
{
    if mantissa == 0 {
        (0, 0)
    } else if scale > 0 && mantissa % 10 == 0 {
        normalized(mantissa / 10, (scale - 1) as nat)
    } else {
        (mantissa, scale)
    }
}

pub open spec fn digit_char(d: nat) -> char {
    if d == 0 { '0' }
    else if d == 1 { '1' }
    else if d == 2 { '2' }
    else if d == 3 { '3' }
    else if d == 4 { '4' }
    else if d == 5 { '5' }
    else if d == 6 { '6' }
    else if d == 7 { '7' }
    else if d == 8 { '8' }
    else { '9' }
}

/// Decimal digits of `n` without leading zeros ("0" for zero).
pub open spec fn digits(n: nat) -> Seq<char>
    decreases n,
{
    if n < 10 {
        seq![digit_char(n)]
    } else {
        digits(n / 10).push(digit_char(n % 10))
    }
}

/// The last `width` decimal digits of `n`, with leading zeros.
pub open spec fn padded_digits(n: nat, width: nat) -> Seq<char>
    decreases width,
{
    if width == 0 {
        seq![]
    } else {
        padded_digits(n / 10, (width - 1) as nat).push(digit_char(n % 10))
    }
}

/// Plain decimal notation of `mantissa / 10^scale`: a minus sign for negative
/// values, the whole part, and, when `scale > 0`, a point followed by exactly
/// `scale` fractional digits.
pub open spec fn decimal_text(mantissa: int, scale: nat) -> Seq<char> {
    let a = abs(mantissa);
    let sign: Seq<char> = if mantissa < 0 { seq!['-'] } else { seq![] };
    let whole = digits((a / pow10(scale)) as nat);
    if scale == 0 {
        sign + whole
    } else {
        sign + whole + seq!['.'] + padded_digits((a % pow10(scale)) as nat, scale)
    }
}

/// Whether `c` is one of the ten decimal digits.
pub open spec fn is_digit(c: char) -> bool {
    c == '0' || c == '1' || c == '2' || c == '3' || c == '4' || c == '5' || c == '6' || c == '7'
        || c == '8' || c == '9'
}

/// The value of a decimal digit.
pub open spec fn digit_value(c: char) -> int {
    if c == '1' { 1 }
    else if c == '2' { 2 }
    else if c == '3' { 3 }
    else if c == '4' { 4 }
    else if c == '5' { 5 }
    else if c == '6' { 6 }
    else if c == '7' { 7 }
    else if c == '8' { 8 }
    else if c == '9' { 9 }
    else { 0 }
}

/// Reading one more character of a decimal number: the digits read so far as one
/// integer, how many of them come after the point, and whether the point was read.
pub open spec fn read_step(st: (int, nat, bool), c: char) -> (int, nat, bool) {
    if c == '.' {
        (st.0, st.1, true)
    } else if is_digit(c) {
        (st.0 * 10 + digit_value(c), if st.2 { st.1 + 1 } else { st.1 }, st.2)
    } else {
        st
    }
}

/// Reading the characters of `t` after the state `st`.
pub open spec fn read_from(st: (int, nat, bool), t: Seq<char>) -> (int, nat, bool)
    decreases t.len(),
{
    if t.len() == 0 {
        st
    } else {
        read_step(read_from(st, t.drop_last()), t.last())
    }
}

/// The number that a decimal text such as "-12.05" writes, as its digits taken as
/// one integer (with the sign) and the number of digits after the point: the text
/// stands for `value.0 / 10^value.1`.
pub open spec fn decimal_value(t: Seq<char>) -> (int, nat) {
    if t.len() > 0 && t[0] == '-' {
        let r = read_from((0, 0, false), t.drop_first());
        (-r.0, r.1)
    } else {
        let r = read_from((0, 0, false), t);
        (r.0, r.1)
    }
}

proof fn lemma_read_from_concat(st: (int, nat, bool), x: Seq<char>, y: Seq<char>)
    ensures
        read_from(st, x + y) == read_from(read_from(st, x), y),
    decreases y.len(),
{
    if y.len() == 0 {
        assert(x + y =~= x);
    } else {
        lemma_read_from_concat(st, x, y.drop_last());
        assert((x + y).drop_last() =~= x + y.drop_last());
        assert((x + y).last() == y.last());
    }
}

proof fn lemma_digit_char(d: nat)
    requires
        d < 10,
    ensures
        is_digit(digit_char(d)),
        digit_value(digit_char(d)) == d,
        digit_char(d) != '.',
        digit_char(d) != '-',
{
}

proof fn lemma_read_digits(n: nat)
    ensures
        read_from((0, 0, false), digits(n)) == (n as int, 0nat, false),
        digits(n).len() > 0,
        is_digit(digits(n)[0]),
    decreases n,
{
    let z = (0int, 0nat, false);
    if n < 10 {
        lemma_digit_char(n);
        assert(digits(n).drop_last() =~= Seq::<char>::empty());
        assert(read_from(z, digits(n).drop_last()) == z);
        assert(digits(n).last() == digit_char(n));
        assert(read_step(z, digit_char(n)) == (n as int, 0nat, false));
    } else {
        lemma_read_digits(n / 10);
        lemma_digit_char(n % 10);
        assert(digits(n).drop_last() =~= digits(n / 10));
        assert(digits(n).last() == digit_char(n % 10));
        assert(read_from(z, digits(n).drop_last()) == ((n / 10) as int, 0nat, false));
        assert(read_step(((n / 10) as int, 0nat, false), digit_char(n % 10)) == (
        n as int, 0nat, false));
        assert(digits(n)[0] == digits(n / 10)[0]);
    }
}

proof fn lemma_read_padded(q: int, r: nat, w: nat)
    requires
        r < pow10(w),
    ensures
        read_from((q, 0, true), padded_digits(r, w)) == (q * pow10(w) + r, w, true),
    decreases w,
{
    lemma_pow10_positive(w);
    if w == 0 {
        assert(padded_digits(r, w) =~= Seq::<char>::empty());
    } else {
        let p = pow10((w - 1) as nat);
        lemma_pow10_positive((w - 1) as nat);
        assert(pow10(w) == 10 * p);
        assert(r / 10 < p) by (nonlinear_arith)
            requires
                r < 10 * p,
                p > 0,
        ;
        lemma_read_padded(q, r / 10, (w - 1) as nat);
        lemma_digit_char(r % 10);
        assert(padded_digits(r, w).drop_last() =~= padded_digits(r / 10, (w - 1) as nat));
        assert((q * p + (r / 10) as int) * 10 + (r % 10) as int == q * (10 * p) + r)
            by (nonlinear_arith);
    }
}

/// Reading back the text of a decimal gives the decimal: the mantissa and the
/// number of digits after the point.
pub proof fn lemma_decimal_text_reads_back(mantissa: int, scale: nat)
    ensures
        decimal_value(decimal_text(mantissa, scale)) == (mantissa, scale),
{
    let a = abs(mantissa);
    lemma_pow10_positive(scale);
    let q = (a / pow10(scale)) as nat;
    let r = (a % pow10(scale)) as nat;
    let sign: Seq<char> = if mantissa < 0 { seq!['-'] } else { seq![] };
    lemma_read_digits(q);
    let rest = if scale == 0 {
        digits(q)
    } else {
        digits(q) + seq!['.'] + padded_digits(r, scale)
    };
    let z = (0int, 0nat, false);
    if scale == 0 {
        assert(pow10(scale) == 1);
        assert(read_from(z, rest) == (a, 0nat, false));
    } else {
        lemma_read_from_concat(z, digits(q) + seq!['.'], padded_digits(r, scale));
        lemma_read_from_concat(z, digits(q), seq!['.']);
        let point = seq!['.'];
        assert(point.drop_last() =~= Seq::<char>::empty());
        assert(point.last() == '.');
        assert(read_from((q as int, 0nat, false), point.drop_last()) == (q as int, 0nat, false));
        assert(read_from((q as int, 0nat, false), point) == (q as int, 0nat, true));
        lemma_read_padded(q as int, r, scale);
        assert(q * pow10(scale) + r == a) by (nonlinear_arith)
            requires
                q == a / pow10(scale),
                r == a % pow10(scale),
                pow10(scale) > 0,
                a >= 0,
        ;
        assert(read_from(z, rest) == (a, scale, true));
    }
    assert(rest[0] == digits(q)[0]);
    lemma_digit_char(0);
    assert(rest[0] != '-') by {
        assert(is_digit(rest[0]));
    }
    assert(decimal_text(mantissa, scale) =~= sign + rest);
    if mantissa < 0 {
        assert((sign + rest).drop_first() =~= rest);
    }
}

/// Normalizing keeps the value: the stripped mantissa times ten to the number of
/// stripped places is the mantissa.
pub proof fn lemma_normalized_keeps_value(mantissa: int, scale: nat)
    ensures
        normalized(mantissa, scale).1 <= scale,
        normalized(mantissa, scale).0 * pow10((scale - normalized(mantissa, scale).1) as nat)
            == mantissa,
    decreases scale,
{
    let n = normalized(mantissa, scale);
    if mantissa == 0 {
        assert(n == (0int, 0nat));
        assert(0 * pow10(scale) == 0);
    } else if scale > 0 && mantissa % 10 == 0 {
        lemma_normalized_keeps_value(mantissa / 10, (scale - 1) as nat);
        let k = (scale - n.1) as nat;
        assert(k >= 1);
        assert(pow10(k) == 10 * pow10((k - 1) as nat));
        assert((scale - 1 - n.1) as nat == (k - 1) as nat);
        assert(n.0 * pow10((k - 1) as nat) == mantissa / 10);
        assert(n.0 * (10 * pow10((k - 1) as nat)) == (n.0 * pow10((k - 1) as nat)) * 10)
            by (nonlinear_arith);
    } else {
        assert(n == (mantissa, scale));
        assert((scale - n.1) as nat == 0nat);
        assert(pow10(0) == 1);
        assert(mantissa * 1 == mantissa);
    }
}

/// A decimal number `mantissa / 10^scale` with the limits of `rust_decimal`:
/// a mantissa of at most 96 bits and a scale of at most 28.
#[derive(Clone, Copy, Debug)]
pub struct Decimal {
    mantissa: i128,
    scale: u32,
}

impl View for Decimal {
    type V = (i128, u32);

    closed spec fn view(&self) -> (i128, u32) {
        (self.mantissa, self.scale)
    }
}

pub open spec fn decimal_option_view(d: Option<Decimal>) -> Option<(i128, u32)> {
    match d {
        Some(x) => Some(x@),
        None => None,
    }
}

impl Decimal {
    #[verifier::type_invariant]
    pub closed spec fn within_limits(self) -> bool {
        &&& -MAX_MANTISSA <= self.mantissa <= MAX_MANTISSA
        &&& self.scale <= MAX_SCALE
    }

    /// Every decimal lies within the limits of its representation.
    pub proof fn lemma_within_limits(d: Decimal)
        requires
            d.within_limits(),
        ensures
            -MAX_MANTISSA <= d@.0 <= MAX_MANTISSA,
            d@.1 <= MAX_SCALE,
    {
    }

    /// `num / 10^scale`; `rust_decimal::Decimal::new` panics for a scale above 28.
    pub fn new(num: i64, scale: u32) -> (d: Decimal)
        requires
            scale <= MAX_SCALE,
        ensures
            d@ == (num as i128, scale),
    {
        Decimal { mantissa: num as i128, scale }
    }

    /// `num / 10^scale`, or `None` where it lies outside the limits.
    pub fn try_from_i128_with_scale(num: i128, scale: u32) -> (d: Option<Decimal>)
        ensures
            d is Some <==> (-MAX_MANTISSA <= num <= MAX_MANTISSA && scale <= MAX_SCALE),
            d matches Some(x) ==> x@ == (num, scale),
    {
        if -MAX_MANTISSA <= num && num <= MAX_MANTISSA && scale <= MAX_SCALE {
            Some(Decimal { mantissa: num, scale })
        } else {
            None
        }
    }

    pub fn mantissa(&self) -> (m: i128)
        ensures
            m == self@.0,
            -MAX_MANTISSA <= m <= MAX_MANTISSA,
    {
        proof {
            use_type_invariant(self);
        }
        self.mantissa
    }

    pub fn scale(&self) -> (s: u32)
        ensures
            s == self@.1,
            s <= MAX_SCALE,
    {
        proof {
            use_type_invariant(self);
        }
        self.scale
    }
}

/// What `rust_decimal::Decimal::checked_mul` returns for two values, mantissa
/// and scale each.
pub uninterp spec fn decimal_product(a: (i128, u32), b: (i128, u32)) -> Option<(i128, u32)>;

/// Calls `rust_decimal::Decimal::checked_mul`. Claimed: a zero factor gives zero
/// at scale 0; where the product of the mantissas fits in 96 bits and the scales
/// add up to at most 28, the product is exact. Otherwise the crate may round the
/// product to a smaller scale or report overflow; that is left to the name
/// `decimal_product`. Like every `rust_decimal` value, the product lies within the
/// limits of `Decimal`.
#[verifier::external_body]
pub(crate) fn checked_mul(a: Decimal, b: Decimal) -> (r: Option<Decimal>)
    ensures
        decimal_option_view(r) == decimal_product(a@, b@),
        (a@.0 == 0 || b@.0 == 0) ==> decimal_option_view(r) == Some((0i128, 0u32)),
        (a@.0 != 0 && b@.0 != 0 && abs(a@.0 * b@.0) <= MAX_MANTISSA && a@.1 + b@.1 <= MAX_SCALE)
            ==> decimal_option_view(r) == Some(((a@.0 * b@.0) as i128, (a@.1 + b@.1) as u32)),
{
    let x = rust_decimal::Decimal::from_i128_with_scale(a.mantissa, a.scale);
    let y = rust_decimal::Decimal::from_i128_with_scale(b.mantissa, b.scale);
    match x.checked_mul(y) {
        Some(p) => Some(Decimal { mantissa: p.mantissa(), scale: p.scale() }),
        None => None,
    }
}

/// Calls `rust_decimal::prelude::ToPrimitive::to_i64`. Claimed: the value with its
/// fractional part cut off (toward zero), or `None` outside the `i64` range.
#[verifier::external_body]
pub(crate) fn to_i64(d: Decimal) -> (r: Option<i64>)
    ensures
        r == (if i64::MIN <= truncated(d@.0 as int, d@.1 as nat) <= i64::MAX {
            Some(truncated(d@.0 as int, d@.1 as nat) as i64)
        } else {
            None
        }),
{
    rust_decimal::Decimal::from_i128_with_scale(d.mantissa, d.scale).to_i64()
}

/// Calls `rust_decimal::Decimal::normalize`. Claimed: trailing fractional zeros
/// are stripped and zero becomes zero at scale 0 (the value stays within the
/// limits of `Decimal`).
#[verifier::external_body]
pub(crate) fn normalize(d: Decimal) -> (r: Decimal)
    ensures
        (r@.0 as int, r@.1 as nat) == normalized(d@.0 as int, d@.1 as nat),
{
    let n = rust_decimal::Decimal::from_i128_with_scale(d.mantissa, d.scale).normalize();
    Decimal { mantissa: n.mantissa(), scale: n.scale() }
}

/// Calls `rust_decimal::Decimal`'s `Display` (through `to_string`). Claimed: plain
/// decimal notation with exactly `scale` fractional digits.
#[verifier::external_body]
pub(crate) fn to_string(d: Decimal) -> (r: String)
    ensures
        r@ == decimal_text(d@.0 as int, d@.1 as nat),
{
    rust_decimal::Decimal::from_i128_with_scale(d.mantissa, d.scale).to_string()
}

} // verus!
