//! Measured times: decimal milliseconds as a log line writes them, and the
//! spans they decode to.
//!
//! A measurement is read digit by digit and kept exactly: whole
//! milliseconds, the next six digits as nanoseconds, and a mark for
//! anything smaller. Nothing is rounded; digits below one nanosecond are
//! cut off when the measurement becomes a span.

use crate::duration::Duration;
use crate::text::{
    all_digits, chars_of, decimal_value, digit_of, digits_only, digits_value, is_digit,
    lemma_value_bound, lemma_value_concat, lemma_value_step, lemma_value_zero, pow10,
};
use vstd::prelude::*;

verus! {

/// Why a text is not taken as a measurement.
#[derive(Clone, Copy, Debug, PartialEq, Eq, Structural)]
pub enum NumberError {
    /// The text is not a decimal: ASCII digits, with at most one point
    /// among them, and no sign, exponent or space.
    Syntax,
    /// The text writes a time that is longer than a span can hold.
    TooLarge,
}

/// What a measurement amounts to: `nanos` whole nanoseconds, and `dust`
/// when a rest below one nanosecond was cut off.
pub struct MillisModel {
    pub nanos: nat,
    pub dust: bool,
}

/// Whether the measurement is above zero.
pub open spec fn positive(m: MillisModel) -> bool {
    m.nanos > 0 || m.dust
}

/// Number of characters before the first point of `s`; the length of `s`
/// when it has none.
pub open spec fn point_position(s: Seq<char>) -> int
    decreases s.len(),
{
    if s.len() == 0 || s[0] == '.' {
        0
    } else {
        1 + point_position(s.drop_first())
    }
}

/// The characters of `s` before its first point.
pub open spec fn whole_digits(s: Seq<char>) -> Seq<char> {
    s.take(point_position(s))
}

/// Where the characters after the first point of `s` begin: at the end of
/// `s` when it has no point.
pub open spec fn fraction_start(s: Seq<char>) -> int {
    if point_position(s) < s.len() {
        point_position(s) + 1
    } else {
        s.len() as int
    }
}

/// The characters of `s` after its first point.
pub open spec fn fraction_digits(s: Seq<char>) -> Seq<char> {
    s.skip(fraction_start(s))
}

/// Whether `s` writes a decimal: digits, with at most one point before,
/// among or after them, and at least one digit.
pub open spec fn is_decimal(s: Seq<char>) -> bool {
    &&& all_digits(whole_digits(s))
    &&& all_digits(fraction_digits(s))
    &&& whole_digits(s).len() + fraction_digits(s).len() > 0
}

/// The first six digits of the fraction `f` as a number, zeros standing in
/// for digits that `f` lacks: the nanoseconds in a fraction of a
/// millisecond.
pub open spec fn leading_nanos(f: Seq<char>) -> nat {
    if f.len() >= 6 {
        decimal_value(f.take(6))
    } else {
        decimal_value(f) * pow10((6 - f.len()) as nat)
    }
}

/// Whether the fraction `f` has a digit other than '0' past its sixth.
pub open spec fn has_dust(f: Seq<char>) -> bool {
    exists|i: int| 6 <= i < f.len() && #[trigger] f[i] != '0'
}

/// What `s` reads as: a measurement, or the reason why it is none.
pub open spec fn read_decimal(s: Seq<char>) -> Result<MillisModel, NumberError> {
    if !is_decimal(s) {
        Err(NumberError::Syntax)
    } else if decimal_value(whole_digits(s)) / 1000 > u64::MAX {
        Err(NumberError::TooLarge)
    } else {
        Ok(
            MillisModel {
                nanos: decimal_value(whole_digits(s)) * 1_000_000 + leading_nanos(
                    fraction_digits(s),
                ),
                dust: has_dust(fraction_digits(s)),
            },
        )
    }
}

/// The decimal that `s` writes, multiplied by ten to the number of its
/// fraction digits, which makes it a whole number.
pub open spec fn scaled_value(s: Seq<char>) -> nat {
    decimal_value(whole_digits(s)) * pow10(fraction_digits(s).len()) + decimal_value(
        fraction_digits(s),
    )
}

/// A measured time in milliseconds.
#[derive(Clone, Copy, Debug, PartialEq, Eq, Structural)]
pub struct Millis {
    whole: u128,
    nanos: u32,
    dust: bool,
}

impl View for Millis {
    type V = MillisModel;

    closed spec fn view(&self) -> MillisModel {
        MillisModel { nanos: self.whole as nat * 1_000_000 + self.nanos as nat, dust: self.dust }
    }
}

impl Millis {
    #[verifier::type_invariant]
    spec fn in_range(self) -> bool {
        self.nanos < 1_000_000 && self.whole / 1000 <= u64::MAX
    }

    /// Reads a measurement from `text`.
    pub fn parse(text: &str) -> (read: Result<Millis, NumberError>)
        ensures
            match read {
                Ok(m) => read_decimal(text@) == Ok::<MillisModel, NumberError>(m@),
                Err(e) => read_decimal(text@) == Err::<MillisModel, NumberError>(e),
            },
    {
        let chars = chars_of(text);
        let n = chars.len();
        let point = find_point(&chars);
        let start = if point < n {
            point + 1
        } else {
            n
        };
        assert(chars@.subrange(0, point as int) =~= whole_digits(text@));
        assert(chars@.subrange(start as int, n as int) =~= fraction_digits(text@));
        if !digits_only(&chars, 0, point) || !digits_only(&chars, start, n) || (point == 0
            && start == n) {
            return Err(NumberError::Syntax);
        }
        let whole = match digits_value(&chars, 0, point) {
            Some(w) => w,
            None => {
                return Err(NumberError::TooLarge);
            },
        };
        if whole / 1000 > u64::MAX as u128 {
            return Err(NumberError::TooLarge);
        }
        let nanos = fraction_nanos(&chars, start);
        let dust = fraction_dust(&chars, start);
        Ok(Millis { whole, nanos, dust })
    }

    /// Whether the measurement is above zero.
    pub fn is_positive(&self) -> (above: bool)
        ensures
            above == positive(self@),
    {
        self.whole > 0 || self.nanos > 0 || self.dust
    }
}

/// The span that a measurement in milliseconds stands for: its whole
/// nanoseconds, split into seconds and the nanoseconds beyond them.
pub fn decode_milliseconds(value: Millis) -> (span: Duration)
    requires
        positive(value@),
    ensures
        span@ == value@.nanos,
{
    proof {
        use_type_invariant(value);
    }
    let secs = (value.whole / 1000) as u64;
    let millis = (value.whole % 1000) as u32;
    Duration::from_parts(secs, millis * 1_000_000 + value.nanos)
}

/// Index of the first point in `chars`, or their number when there is none.
fn find_point(chars: &Vec<char>) -> (point: usize)
    ensures
        point == point_position(chars@),
        point <= chars.len(),
{
    let mut i: usize = 0;
    assert(chars@.skip(0) =~= chars@);
    while i < chars.len() && chars[i] != '.'
        invariant
            i <= chars.len(),
            point_position(chars@) == i + point_position(chars@.skip(i as int)),
        decreases chars.len() - i,
    {
        assert(chars@.skip(i as int).drop_first() =~= chars@.skip(i + 1));
        i += 1;
    }
    i
}

/// The first six digits of the fraction that starts at `start`.
fn fraction_nanos(chars: &Vec<char>, start: usize) -> (nanos: u32)
    requires
        start <= chars.len(),
        all_digits(chars@.skip(start as int)),
    ensures
        nanos == leading_nanos(chars@.skip(start as int)),
        nanos < 1_000_000,
{
    let ghost f = chars@.skip(start as int);
    let n = chars.len() - start;
    let mut nanos: u32 = 0;
    let mut limit: u32 = 1;
    let mut j: usize = 0;
    while j < 6
        invariant
            j <= 6,
            start + n == chars.len(),
            f == chars@.skip(start as int),
            all_digits(f),
            limit == pow10(j as nat),
            limit <= 1_000_000,
            j < 6 ==> limit <= 100_000,
            nanos < limit,
            j <= n ==> nanos == decimal_value(f.take(j as int)),
            j > n ==> nanos == decimal_value(f) * pow10((j - n) as nat),
        decreases 6 - j,
    {
        let digit: u32 = if j < n {
            assert(is_digit(f[j as int]));
            match digit_of(chars[start + j]) {
                Some(d) => d as u32,
                None => 0,
            }
        } else {
            0
        };
        proof {
            if j < n {
                lemma_value_step(f, j as int);
            } else {
                assert(f.take(n as int) =~= f);
                let shift = pow10((j - n) as nat);
                assert(pow10((j + 1 - n) as nat) == 10 * shift);
                assert(decimal_value(f) * shift * 10 == decimal_value(f) * (10 * shift))
                    by (nonlinear_arith);
            }
            lemma_pow10_small((j + 1) as nat);
        }
        nanos = nanos * 10 + digit;
        limit = limit * 10;
        j += 1;
    }
    nanos
}

/// Whether the fraction that starts at `start` has a digit other than '0'
/// past its sixth.
fn fraction_dust(chars: &Vec<char>, start: usize) -> (dust: bool)
    requires
        start <= chars.len(),
    ensures
        dust == has_dust(chars@.skip(start as int)),
{
    let ghost f = chars@.skip(start as int);
    let n = chars.len() - start;
    let mut j: usize = 6;
    while j < n
        invariant
            6 <= j,
            start + n == chars.len(),
            f == chars@.skip(start as int),
            forall|i: int| 6 <= i < j && i < n ==> #[trigger] f[i] == '0',
        decreases n - j,
    {
        if chars[start + j] != '0' {
            assert(f[j as int] != '0');
            return true;
        }
        j += 1;
    }
    false
}

/// The first seven powers of ten.
proof fn lemma_pow10_small(k: nat)
    requires
        k <= 6,
    ensures
        k == 0 ==> pow10(k) == 1,
        k == 1 ==> pow10(k) == 10,
        k == 2 ==> pow10(k) == 100,
        k == 3 ==> pow10(k) == 1_000,
        k == 4 ==> pow10(k) == 10_000,
        k == 5 ==> pow10(k) == 100_000,
        k == 6 ==> pow10(k) == 1_000_000,
{
    reveal_with_fuel(pow10, 8);
}

/// Powers of ten multiply by adding exponents, and none is zero.
pub proof fn lemma_pow10_adds(a: nat, b: nat)
    ensures
        pow10(a + b) == pow10(a) * pow10(b),
        pow10(a) > 0,
    decreases a,
{
    if a == 0 {
        assert(pow10(0) == 1);
        assert(pow10(b) == 1 * pow10(b));
    } else {
        lemma_pow10_adds((a - 1) as nat, b);
        let x = pow10((a - 1) as nat);
        let y = pow10(b);
        assert(pow10(a) == 10 * x);
        assert(pow10(a + b) == 10 * pow10((a - 1 + b) as nat));
        assert(10 * (x * y) == (10 * x) * y) by (nonlinear_arith);
    }
}

/// What the first six fraction digits keep of the whole fraction: the
/// fraction cut off below one nanosecond, lossless exactly when no digit
/// past the sixth is other than '0'.
pub proof fn lemma_leading_nanos(f: Seq<char>)
    requires
        all_digits(f),
    ensures
        leading_nanos(f) * pow10(f.len()) <= decimal_value(f) * 1_000_000,
        decimal_value(f) * 1_000_000 < (leading_nanos(f) + 1) * pow10(f.len()),
        has_dust(f) <==> leading_nanos(f) * pow10(f.len()) != decimal_value(f) * 1_000_000,
        leading_nanos(f) < 1_000_000,
{
    let k = f.len();
    let value = decimal_value(f);
    let kept = leading_nanos(f);
    lemma_pow10_small(6);
    if k <= 6 {
        let pad = pow10((6 - k) as nat);
        if k == 6 {
            assert(f.take(6) =~= f);
            assert(kept == value * pad) by (nonlinear_arith)
                requires
                    kept == value,
                    pad == 1,
            ;
        }
        lemma_pow10_adds((6 - k) as nat, k);
        lemma_pow10_adds(k, 0);
        lemma_value_bound(f);
        assert(kept * pow10(k) == value * 1_000_000) by (nonlinear_arith)
            requires
                kept == value * pad,
                pad * pow10(k) == 1_000_000,
        ;
        assert(kept < 1_000_000) by (nonlinear_arith)
            requires
                kept == value * pad,
                pad * pow10(k) == 1_000_000,
                value < pow10(k),
                pad > 0,
        ;
        assert((kept + 1) * pow10(k) == kept * pow10(k) + pow10(k)) by (nonlinear_arith);
    } else {
        let head = f.take(6);
        let tail = f.skip(6);
        let rest = decimal_value(tail);
        let shift = pow10(tail.len());
        assert(f =~= head + tail);
        lemma_value_concat(head, tail);
        lemma_value_bound(tail);
        lemma_value_bound(head);
        lemma_value_zero(tail);
        lemma_pow10_adds(tail.len(), 6);
        assert(pow10(k) == shift * 1_000_000);
        assert(value * 1_000_000 == kept * pow10(k) + rest * 1_000_000) by (nonlinear_arith)
            requires
                value == kept * shift + rest,
                pow10(k) == shift * 1_000_000,
        ;
        assert(rest * 1_000_000 < pow10(k)) by (nonlinear_arith)
            requires
                rest < shift,
                pow10(k) == shift * 1_000_000,
        ;
        assert((kept + 1) * pow10(k) == kept * pow10(k) + pow10(k)) by (nonlinear_arith);
        if has_dust(f) {
            let i = choose|i: int| 6 <= i < f.len() && #[trigger] f[i] != '0';
            assert(tail[i - 6] != '0');
            assert(rest != 0);
        } else {
            assert forall|i: int| 0 <= i < tail.len() implies #[trigger] tail[i] == '0' by {
                assert(f[i + 6] == '0');
            }
            assert(rest == 0);
        }
        assert(rest != 0 <==> rest * 1_000_000 != 0) by (nonlinear_arith);
    }
}

/// Decoding is exact. For a text `s` that reads as a measurement `m`, with
/// `k` digits after the point: `m.nanos` is the decimal that `s` writes,
/// taken in nanoseconds and cut off below one. It is that decimal itself
/// exactly when nothing was cut off, which `m.dust` tells; with six
/// fraction digits or fewer nothing ever is. And `m` is above zero exactly
/// when the decimal is.
pub proof fn lemma_decoding_is_exact(s: Seq<char>)
    requires
        read_decimal(s) is Ok,
    ensures
        ({
            let m = read_decimal(s).unwrap();
            let scale = pow10(fraction_digits(s).len());
            &&& m.nanos * scale <= scaled_value(s) * 1_000_000
            &&& scaled_value(s) * 1_000_000 < (m.nanos + 1) * scale
            &&& m.dust <==> m.nanos * scale != scaled_value(s) * 1_000_000
            &&& fraction_digits(s).len() <= 6 ==> !m.dust
            &&& positive(m) <==> scaled_value(s) > 0
        }),
{
    let m = read_decimal(s).unwrap();
    let f = fraction_digits(s);
    let scale = pow10(f.len());
    let whole = decimal_value(whole_digits(s));
    let value = decimal_value(f);
    let kept = leading_nanos(f);
    lemma_leading_nanos(f);
    lemma_pow10_adds(f.len(), 0);
    assert(m.nanos * scale == whole * scale * 1_000_000 + kept * scale) by (nonlinear_arith)
        requires
            m.nanos == whole * 1_000_000 + kept,
    ;
    assert(scaled_value(s) * 1_000_000 == whole * scale * 1_000_000 + value * 1_000_000)
        by (nonlinear_arith)
        requires
            scaled_value(s) == whole * scale + value,
    ;
    assert((m.nanos + 1) * scale == whole * scale * 1_000_000 + (kept + 1) * scale)
        by (nonlinear_arith)
        requires
            m.nanos == whole * 1_000_000 + kept,
    ;
    assert(scaled_value(s) > 0 <==> (whole > 0 || value > 0)) by (nonlinear_arith)
        requires
            scaled_value(s) == whole * scale + value,
            scale > 0,
    ;
    if value > 0 && kept == 0 {
        assert(kept * scale == 0);
        assert(value * 1_000_000 != 0) by (nonlinear_arith)
            requires
                value > 0,
        ;
    }
    if value == 0 {
        assert(value * 1_000_000 == 0);
        assert(kept == 0) by (nonlinear_arith)
            requires
                kept * scale <= 0,
                scale > 0,
        ;
    }
}

} // verus!
