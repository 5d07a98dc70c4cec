//! Units used across the library's calculations.
//!
//! `Kilometers` is a newtype over the bit pattern of an IEEE 754 binary64
//! kilometer count.  Wrapping the scalar keeps distances from being confused
//! with other quantities, and the comparison operators carry the exact IEEE
//! partial order: comparisons against NaN are never "less than", so a NaN
//! distance never passes a radius filter.
//!
//! The module also renders a distance with three decimal places and the
//! unit suffix, exactly: the special values by name, and every finite
//! value as the decimal of the encoded value rounded to the nearest
//! thousandth with ties to even.  Magnitudes of 2^53 kilometers and above
//! are integers; their digits are produced by verified arbitrary-precision
//! doubling, so the contract covers the whole domain.

use core::cmp::Ordering;
use vstd::prelude::*;

use vstd::arithmetic::div_mod::{lemma_basic_div, lemma_div_multiples_vanish, lemma_mod_multiples_basic, lemma_small_mod};
use vstd::arithmetic::power2::{lemma2_to64, lemma2_to64_rest, lemma_pow2_adds, lemma_pow2_strictly_increases, pow2};
use vstd::bits::{lemma_u64_low_bits_mask_is_mod, lemma_u64_shl_is_mul, lemma_u64_shr_is_div, low_bits_mask};

use crate::ieee754::{
    eq_bits, exp_of, is_infinite, is_nan, lt_bits, same_value, sign_of, significand_of, value_lt,
    FRAC_MASK, SIGN_MASK,
};

verus! {

/// A distance in kilometers, held as the bit pattern of the binary64 value.
#[derive(Debug, Clone, Copy)]
pub struct Kilometers(pub u64);

/// The IEEE 754 partial order on two kilometer counts: `None` when either
/// side is NaN, `Equal` for equal values (the two zeros among them), and
/// otherwise the order of the encoded values — the final case is `Greater`
/// because the order is total on non-NaN patterns
/// (`crate::ieee754::lemma_value_total`).
pub open spec fn kilometers_cmp(a: u64, b: u64) -> Option<Ordering> {
    if is_nan(a) || is_nan(b) {
        None
    } else if same_value(a, b) {
        Some(Ordering::Equal)
    } else if value_lt(a, b) {
        Some(Ordering::Less)
    } else {
        Some(Ordering::Greater)
    }
}

impl PartialEq for Kilometers {
    fn eq(&self, other: &Kilometers) -> (r: bool) {
        eq_bits(self.0, other.0)
    }
}

impl vstd::std_specs::cmp::PartialEqSpecImpl for Kilometers {
    open spec fn obeys_eq_spec() -> bool {
        true
    }

    open spec fn eq_spec(&self, other: &Kilometers) -> bool {
        same_value(self.0, other.0)
    }
}

impl PartialOrd for Kilometers {
    fn partial_cmp(&self, other: &Kilometers) -> (r: Option<Ordering>) {
        if nan_pair(self.0, other.0) {
            None
        } else if eq_bits(self.0, other.0) {
            Some(Ordering::Equal)
        } else if lt_bits(self.0, other.0) {
            Some(Ordering::Less)
        } else {
            Some(Ordering::Greater)
        }
    }
}

impl vstd::std_specs::cmp::PartialOrdSpecImpl for Kilometers {
    open spec fn obeys_partial_cmp_spec() -> bool {
        true
    }

    open spec fn partial_cmp_spec(&self, other: &Kilometers) -> Option<Ordering> {
        kilometers_cmp(self.0, other.0)
    }
}

/// True when either pattern is a NaN.
fn nan_pair(a: u64, b: u64) -> (r: bool)
    ensures
        r == (is_nan(a) || is_nan(b)),
{
    crate::ieee754::nan_bits(a) || crate::ieee754::nan_bits(b)
}

/// For a finite pattern, the magnitude of the encoded value is exactly
/// `significand_of * pow2(lift_of) / pow2(places_of)`; one of the two
/// powers is always trivial.
pub open spec fn places_of(bits: u64) -> nat {
    if exp_of(bits) == 0 {
        1074
    } else if exp_of(bits) <= 1075 {
        (1075 - exp_of(bits)) as nat
    } else {
        0
    }
}

/// The power of two that scales the significand up for large exponents:
/// zero until the encoded magnitude reaches 2^53, where the value becomes
/// an integer.
pub open spec fn lift_of(bits: u64) -> nat {
    if exp_of(bits) > 1075 {
        (exp_of(bits) - 1075) as nat
    } else {
        0
    }
}

/// The magnitude of the encoded value in thousandths, rounded to the
/// nearest integer with ties to even — the exact quantity that a fixed
/// three-decimal rendering displays.
pub open spec fn thousandths_of(bits: u64) -> nat {
    let n = significand_of(bits) * pow2(lift_of(bits)) * 1000;
    let d = pow2(places_of(bits));
    let q = n / d;
    let r = n % d;
    if 2 * r > d || (2 * r == d && q % 2 == 1) {
        q + 1
    } else {
        q
    }
}

/// One decimal digit as text.
pub open spec fn digit_str(d: nat) -> Seq<char> {
    if d == 0 {
        "0"@
    } else if d == 1 {
        "1"@
    } else if d == 2 {
        "2"@
    } else if d == 3 {
        "3"@
    } else if d == 4 {
        "4"@
    } else if d == 5 {
        "5"@
    } else if d == 6 {
        "6"@
    } else if d == 7 {
        "7"@
    } else if d == 8 {
        "8"@
    } else {
        "9"@
    }
}

/// A natural number in decimal, most significant digit first.
pub open spec fn decimal_str(n: nat) -> Seq<char>
    decreases n,
{
    if n < 10 {
        digit_str(n)
    } else {
        decimal_str(n / 10) + digit_str(n % 10)
    }
}

/// `t` thousandths rendered with three places after the decimal point,
/// preceded by a minus sign when `negative`.
pub open spec fn fixed3_str(t: nat, negative: bool) -> Seq<char> {
    let sign = if negative {
        "-"@
    } else {
        Seq::<char>::empty()
    };
    sign + decimal_str(t / 1000) + "."@ + digit_str((t / 100) % 10) + digit_str((t / 10) % 10)
        + digit_str(t % 10)
}

/// What rendering a kilometer count produces: the special values by name,
/// and every finite value as its exact three-decimal rendering with the
/// unit suffix.
pub open spec fn km_rendering(bits: u64) -> Seq<char> {
    if is_nan(bits) {
        "NaN Km"@
    } else if is_infinite(bits) {
        if sign_of(bits) {
            "-inf Km"@
        } else {
            "inf Km"@
        }
    } else {
        fixed3_str(thousandths_of(bits), sign_of(bits)) + " Km"@
    }
}

/// 10^n.
pub open spec fn pow10(n: nat) -> nat
    decreases n,
{
    if n == 0 {
        1
    } else {
        10 * pow10((n - 1) as nat)
    }
}

/// Every element is one decimal digit.
pub open spec fn digit_seq_ok(d: Seq<u8>) -> bool {
    forall|i: int| 0 <= i < d.len() ==> #[trigger] d[i] < 10
}

/// The number a little-endian digit sequence stands for: element `i` is
/// the 10^i digit.
pub open spec fn digits_value(d: Seq<u8>) -> nat
    decreases d.len(),
{
    if d.len() == 0 {
        0
    } else {
        (d[0] as nat) + 10 * digits_value(d.drop_first())
    }
}

/// A canonical digit sequence: nonempty, digits only, no leading zero.
pub open spec fn canonical_digits(d: Seq<u8>) -> bool {
    digit_seq_ok(d) && d.len() > 0 && d.last() != 0
}

/// The digits as text, most significant first.
pub open spec fn digits_str(d: Seq<u8>) -> Seq<char>
    decreases d.len(),
{
    if d.len() == 0 {
        Seq::<char>::empty()
    } else {
        digits_str(d.drop_first()) + digit_str(d[0] as nat)
    }
}

/// Powers of ten are positive.
proof fn lemma_pow10_pos(n: nat)
    ensures
        pow10(n) >= 1,
    decreases n,
{
    if n > 0 {
        lemma_pow10_pos((n - 1) as nat);
    }
}

/// Appending a digit adds its place value.
proof fn lemma_digits_value_push(d: Seq<u8>, x: u8)
    ensures
        digits_value(d.push(x)) == digits_value(d) + (x as nat) * pow10(d.len()),
    decreases d.len(),
{
    assert(digits_value(Seq::<u8>::empty()) == 0);
    if d.len() == 0 {
        assert(d.push(x).drop_first() =~= Seq::<u8>::empty());
        assert(d.push(x)[0] == x);
        assert(digits_value(d.push(x)) == x as nat);
        assert(pow10(0) == 1);
        assert(d =~= Seq::<u8>::empty());
    } else {
        assert(d.push(x).drop_first() =~= d.drop_first().push(x));
        assert(d.push(x)[0] == d[0]);
        assert(digits_value(d.push(x)) == (d[0] as nat) + 10 * digits_value(
            d.drop_first().push(x),
        ));
        lemma_digits_value_push(d.drop_first(), x);
        let p = pow10((d.len() - 1) as nat);
        assert(pow10(d.len()) == 10 * p);
        assert(10 * ((x as nat) * p) == (x as nat) * (10 * p)) by (nonlinear_arith);
    }
}

/// Extending a prefix by one element adds its place value.
proof fn lemma_digits_value_take_next(d: Seq<u8>, i: int)
    requires
        0 <= i < d.len(),
    ensures
        digits_value(d.take(i + 1)) == digits_value(d.take(i)) + (d[i] as nat) * pow10(i as nat),
{
    assert(d.take(i + 1) =~= d.take(i).push(d[i]));
    lemma_digits_value_push(d.take(i), d[i]);
}

/// A canonical digit sequence stands for at least its top place value.
proof fn lemma_digits_value_lower(d: Seq<u8>)
    requires
        canonical_digits(d),
    ensures
        digits_value(d) >= pow10((d.len() - 1) as nat),
    decreases d.len(),
{
    if d.len() == 1 {
        assert(d.drop_first() =~= Seq::<u8>::empty());
    } else {
        let rest = d.drop_first();
        assert(rest.last() == d.last());
        assert(digit_seq_ok(rest));
        lemma_digits_value_lower(rest);
    }
}

/// A canonical digit sequence renders, most significant digit first, to
/// exactly the decimal text of the number it stands for.
proof fn lemma_digits_render(d: Seq<u8>)
    requires
        canonical_digits(d),
    ensures
        decimal_str(digits_value(d)) == digits_str(d),
    decreases d.len(),
{
    let v = digits_value(d);
    assert(digits_value(Seq::<u8>::empty()) == 0);
    assert(d[0] < 10);
    if d.len() == 1 {
        assert(d.drop_first() =~= Seq::<u8>::empty());
        assert(v == d[0] as nat);
        assert(digits_str(Seq::<u8>::empty()) == Seq::<char>::empty());
        assert(decimal_str(v) == digit_str(v));
        assert(digits_str(d) == digits_str(d.drop_first()) + digit_str(d[0] as nat));
        assert(Seq::<char>::empty() + digit_str(d[0] as nat) =~= digit_str(d[0] as nat));
    } else {
        let rest = d.drop_first();
        assert(rest.last() == d.last());
        assert(digit_seq_ok(rest));
        lemma_digits_value_lower(d);
        lemma_pow10_pos((d.len() - 2) as nat);
        assert(pow10((d.len() - 1) as nat) == 10 * pow10((d.len() - 2) as nat));
        assert(v >= 10);
        assert(v % 10 == d[0] as nat && v / 10 == digits_value(rest));
        lemma_digits_render(rest);
        assert(decimal_str(v) == decimal_str(v / 10) + digit_str(v % 10));
        assert(digits_str(d) == digits_str(rest) + digit_str(d[0] as nat));
    }
}

/// The little-endian decimal digits of `n`.
fn u64_to_digits(n: u64) -> (r: Vec<u8>)
    requires
        n >= 1,
    ensures
        canonical_digits(r@),
        digits_value(r@) == n,
{
    let mut digits: Vec<u8> = Vec::new();
    let mut m = n;
    proof {
        assert(digits@ =~= Seq::<u8>::empty());
        assert(digits_value(Seq::<u8>::empty()) == 0);
        assert(pow10(0) == 1);
    }
    while m > 0
        invariant
            digit_seq_ok(digits@),
            digits_value(digits@) + (m as nat) * pow10(digits@.len()) == n,
            m == 0 ==> digits@.len() > 0 && digits@.last() != 0,
            m > 0 || digits@.len() > 0,
        decreases m,
    {
        let digit = (m % 10) as u8;
        let md = m / 10;
        proof {
            let p = pow10(digits@.len());
            lemma_digits_value_push(digits@, digit);
            assert(pow10(digits@.len() + 1) == 10 * p);
            assert(m as nat == 10 * (md as nat) + (digit as nat));
            assert((digit as nat) * p + (md as nat) * (10 * p) == (m as nat) * p)
                by (nonlinear_arith)
                requires
                    m as nat == 10 * (md as nat) + (digit as nat),
            ;
        }
        digits.push(digit);
        m = md;
    }
    proof {
        lemma_pow10_pos(digits@.len());
    }
    digits
}

/// Doubles the number a digit sequence stands for.
fn double_digits(digits: &Vec<u8>) -> (r: Vec<u8>)
    requires
        canonical_digits(digits@),
    ensures
        canonical_digits(r@),
        digits_value(r@) == 2 * digits_value(digits@),
{
    let n = digits.len();
    let mut out: Vec<u8> = Vec::new();
    let mut carry: u8 = 0;
    let mut i: usize = 0;
    proof {
        assert(out@ =~= Seq::<u8>::empty());
        assert(digits@.take(0) =~= Seq::<u8>::empty());
        assert(digits_value(Seq::<u8>::empty()) == 0);
        assert(pow10(0) == 1);
    }
    while i < n
        invariant
            n == digits@.len(),
            canonical_digits(digits@),
            0 <= i <= n,
            carry <= 1,
            digit_seq_ok(out@),
            out@.len() == i,
            digits_value(out@) + (carry as nat) * pow10(i as nat) == 2 * digits_value(
                digits@.take(i as int),
            ),
            i == n && carry == 0 ==> out@.len() > 0 && out@.last() != 0,
        decreases n - i,
    {
        let di = digits[i];
        let cur = 2 * di + carry;
        let digit = cur % 10;
        let c2 = cur / 10;
        proof {
            let p = pow10(i as nat);
            lemma_digits_value_push(out@, digit);
            lemma_digits_value_take_next(digits@, i as int);
            assert(pow10(i as nat + 1) == 10 * p);
            assert(2 * (di as nat) + (carry as nat) == 10 * (c2 as nat) + (digit as nat));
            assert((digit as nat) * p + (c2 as nat) * (10 * p) == (carry as nat) * p + 2 * ((
            di as nat) * p)) by (nonlinear_arith)
                requires
                    2 * (di as nat) + (carry as nat) == 10 * (c2 as nat) + (digit as nat),
            ;
        }
        out.push(digit);
        carry = c2;
        i = i + 1;
    }
    proof {
        assert(digits@.take(n as int) =~= digits@);
    }
    if carry > 0 {
        proof {
            lemma_digits_value_push(out@, carry);
        }
        out.push(carry);
    }
    out
}

/// Appends the digits, most significant first.
fn append_digits(s: &mut String, digits: &Vec<u8>)
    requires
        digit_seq_ok(digits@),
    ensures
        final(s)@ == old(s)@ + digits_str(digits@),
{
    let n = digits.len();
    proof {
        assert(digits@.skip(n as int) =~= Seq::<u8>::empty());
        assert(old(s)@ + digits_str(digits@.skip(n as int)) =~= old(s)@);
    }
    let mut idx = n;
    while idx > 0
        invariant
            0 <= idx <= n,
            n == digits@.len(),
            digit_seq_ok(digits@),
            s@ == old(s)@ + digits_str(digits@.skip(idx as int)),
        decreases idx,
    {
        idx = idx - 1;
        append_digit(s, digits[idx] as u64);
        proof {
            let tail = digits@.skip(idx as int);
            assert(tail.drop_first() =~= digits@.skip(idx as int + 1));
            assert(tail[0] == digits@[idx as int]);
            assert(s@ =~= old(s)@ + digits_str(tail));
        }
    }
    proof {
        assert(digits@.skip(0) =~= digits@);
    }
}

/// Appends `sig * 2^lift` in decimal, most significant digit first: the
/// integer magnitude of a large finite value, by verified doubling.
fn append_big_decimal(s: &mut String, sig: u64, lift: u64)
    requires
        sig >= 1,
    ensures
        final(s)@ == old(s)@ + decimal_str((sig as nat) * pow2(lift as nat)),
{
    let mut digits = u64_to_digits(sig);
    proof {
        lemma2_to64();
        assert((sig as nat) * pow2(0) == sig as nat);
    }
    let mut k: u64 = 0;
    while k < lift
        invariant
            0 <= k <= lift,
            canonical_digits(digits@),
            digits_value(digits@) == (sig as nat) * pow2(k as nat),
        decreases lift - k,
    {
        digits = double_digits(&digits);
        proof {
            lemma2_to64();
            lemma_pow2_adds(k as nat, 1);
            let p2 = pow2(k as nat);
            assert(pow2(k as nat + 1) == p2 * 2);
            assert((sig as nat) * (p2 * 2) == 2 * ((sig as nat) * p2)) by (nonlinear_arith);
        }
        k = k + 1;
    }
    proof {
        lemma_digits_render(digits@);
    }
    append_digits(s, &digits);
}

/// Appends one decimal digit.
fn append_digit(s: &mut String, d: u64)
    requires
        d < 10,
    ensures
        final(s)@ == old(s)@ + digit_str(d as nat),
{
    if d == 0 {
        s.append("0");
    } else if d == 1 {
        s.append("1");
    } else if d == 2 {
        s.append("2");
    } else if d == 3 {
        s.append("3");
    } else if d == 4 {
        s.append("4");
    } else if d == 5 {
        s.append("5");
    } else if d == 6 {
        s.append("6");
    } else if d == 7 {
        s.append("7");
    } else if d == 8 {
        s.append("8");
    } else {
        s.append("9");
    }
}

/// Appends `n` in decimal, most significant digit first.
fn append_decimal(s: &mut String, n: u64)
    ensures
        final(s)@ == old(s)@ + decimal_str(n as nat),
    decreases n,
{
    if n < 10 {
        append_digit(s, n);
    } else {
        append_decimal(s, n / 10);
        append_digit(s, n % 10);
        proof {
            assert(old(s)@ + decimal_str((n / 10) as nat) + digit_str((n % 10) as nat) =~= old(
                s,
            )@ + decimal_str(n as nat));
        }
    }
}

impl Kilometers {
    /// Renders the distance with three decimal places and the unit suffix,
    /// e.g. `10.216 Km`: the exact decimal value of the encoded kilometer
    /// count, rounded to the nearest thousandth with ties to even.  NaN
    /// and the infinities render by name.
    #[verifier::rlimit(50)]
    pub fn to_display_string(&self) -> (r: String)
        ensures
            r@ == km_rendering(self.0),
    {
        let bits = self.0;
        if crate::ieee754::nan_bits(bits) {
            return "NaN Km".to_owned();
        }
        let exp: u64 = (bits >> 52) & 0x7FF;
        let negative = bits & SIGN_MASK != 0;
        if exp == 0x7FF {
            return if negative {
                "-inf Km".to_owned()
            } else {
                "inf Km".to_owned()
            };
        }
        let frac: u64 = bits & FRAC_MASK;
        proof {
            assert(bits & 0x000F_FFFF_FFFF_FFFFu64 <= 0x000F_FFFF_FFFF_FFFFu64) by (bit_vector);
        }
        let sig: u64 = if exp == 0 {
            frac
        } else {
            frac + 0x0010_0000_0000_0000
        };
        if exp > 1075 {
            // The magnitude is the integer sig * 2^(exp - 1075): its thousandths
            // of an integer, so the three decimal places are zeros.
            let lift = exp - 1075;
            proof {
                lemma2_to64();
                lemma_div_multiples_vanish((significand_of(bits) * pow2(lift as nat) * 1000) as int, 1);
                lemma_mod_multiples_basic((significand_of(bits) * pow2(lift as nat) * 1000) as int, 1);
                let i_val = significand_of(bits) * pow2(lift as nat);
                let t = thousandths_of(bits);
                assert(pow2(places_of(bits)) == 1);
                assert(t == i_val * 1000);
                assert(t == 1000 * i_val);
                lemma_div_multiples_vanish(i_val as int, 1000);
                assert(t / 1000 == i_val);
                assert(t == 100 * (10 * i_val));
                lemma_div_multiples_vanish((10 * i_val) as int, 100);
                assert(t / 100 == 10 * i_val);
                lemma_mod_multiples_basic(i_val as int, 10);
                assert((t / 100) % 10 == 0);
                assert(t == 10 * (100 * i_val));
                lemma_div_multiples_vanish((100 * i_val) as int, 10);
                assert(t / 10 == 100 * i_val);
                lemma_mod_multiples_basic((10 * i_val) as int, 10);
                assert((t / 10) % 10 == 0);
                lemma_mod_multiples_basic((100 * i_val) as int, 10);
                assert(t % 10 == 0);
            }
            let mut s = String::new();
            if negative {
                s.append("-");
            }
            append_big_decimal(&mut s, sig, lift);
            s.append(".");
            append_digit(&mut s, 0);
            append_digit(&mut s, 0);
            append_digit(&mut s, 0);
            s.append(" Km");
            proof {
                assert(s@ =~= fixed3_str(thousandths_of(bits), negative) + " Km"@);
            }
            return s;
        }
        let n: u64 = sig * 1000;
        let k: u64 = if exp == 0 {
            1074
        } else {
            1075 - exp
        };
        proof {
            lemma2_to64();
            assert(significand_of(bits) * pow2(0) == significand_of(bits));
            assert(n as nat == significand_of(bits) * pow2(lift_of(bits)) * 1000);
        }
        assert(k as nat == places_of(bits));
        let t: u64 = if k >= 64 {
            proof {
                lemma2_to64();
                lemma2_to64_rest();
                if k > 64 {
                    lemma_pow2_strictly_increases(64, k as nat);
                }
                let d = pow2(places_of(bits));
                assert(pow2(64) <= d);
                assert(2 * (n as nat) < d);
                lemma_basic_div(n as int, d as int);
                lemma_small_mod(n as nat, d);
                assert(thousandths_of(bits) == 0);
            }
            0
        } else if k == 0 {
            proof {
                lemma2_to64();
                lemma_div_multiples_vanish(n as int, 1);
                lemma_mod_multiples_basic(n as int, 1);
                assert(thousandths_of(bits) == n as nat);
            }
            n
        } else {
            proof {
                lemma2_to64();
                lemma2_to64_rest();
                lemma_pow2_strictly_increases(k as nat, 64);
                lemma_pow2_strictly_increases((k - 1) as nat, 63);
                lemma_u64_shl_is_mul(1u64, k);
                lemma_u64_shl_is_mul(1u64, (k - 1) as u64);
            }
            let q = n >> k;
            let rem = n & ((1u64 << k) - 1);
            let half = 1u64 << (k - 1);
            proof {
                assert((1u64 << k) - 1 == low_bits_mask(k as nat));
                lemma_u64_low_bits_mask_is_mod(n, k as nat);
                lemma_u64_shr_is_div(n, k);
                lemma_pow2_adds(1, (k - 1) as nat);
                assert(pow2(k as nat) == 2 * pow2((k - 1) as nat));
                assert(q & 1 == q % 2) by (bit_vector);
                assert((n >> k) <= n) by (bit_vector);
            }
            if rem > half || (rem == half && q & 1 == 1) {
                q + 1
            } else {
                q
            }
        };
        assert(t as nat == thousandths_of(bits));
        let mut s = String::new();
        if negative {
            s.append("-");
        }
        append_decimal(&mut s, t / 1000);
        s.append(".");
        append_digit(&mut s, (t / 100) % 10);
        append_digit(&mut s, (t / 10) % 10);
        append_digit(&mut s, t % 10);
        s.append(" Km");
        proof {
            assert(s@ =~= fixed3_str(t as nat, negative) + " Km"@);
        }
        s
    }
}

} // verus!
