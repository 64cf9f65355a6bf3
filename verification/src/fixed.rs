//! Exact fixed-point market values.
//!
//! Prices, quantities, volumes and rates arrive from the exchange as decimal
//! strings. The library keeps them as whole numbers of `10^-8` units (eight
//! fractional digits, the exchange's finest precision), so that comparisons,
//! sums and equality of price levels are exact; finer digits are dropped.

use vstd::prelude::*;
use crate::text::{chars_of, push_char};

verus! {

/// Number of fractional digits kept by a fixed-point value.
pub const FRACTION_DIGITS: usize = 8;

/// `10^FRACTION_DIGITS`: the number of units in one whole.
pub const FIXED_ONE: i128 = 100_000_000;

/// Most digits accepted before the decimal point.
pub const MAX_INTEGER_DIGITS: usize = 20;

pub open spec fn pow10(n: nat) -> int
    decreases n,
{
    if n == 0 {
        1
    } else {
        10 * pow10((n - 1) as nat)
    }
}

pub open spec fn is_digit(c: char) -> bool {
    '0' <= c && c <= '9'
}

pub open spec fn digit_value(c: char) -> int {
    c as int - '0' as int
}

pub open spec fn all_digits(s: Seq<char>) -> bool {
    forall|i: int| 0 <= i < s.len() ==> is_digit(#[trigger] s[i])
}

/// The number written by a run of decimal digits.
pub open spec fn digits_value(s: Seq<char>) -> int
    decreases s.len(),
{
    if s.len() == 0 {
        0
    } else {
        digits_value(s.drop_last()) * 10 + digit_value(s.last())
    }
}

/// Index of the first '.', or the length when there is none.
pub open spec fn first_dot(s: Seq<char>) -> int
    decreases s.len(),
{
    if s.len() == 0 {
        0
    } else if s[0] == '.' {
        0
    } else {
        1 + first_dot(s.drop_first())
    }
}

/// The digits before the first '.'.
pub open spec fn integer_part(s: Seq<char>) -> Seq<char> {
    s.subrange(0, first_dot(s))
}

/// The characters after the first '.' (empty when there is no '.').
pub open spec fn fraction_part(s: Seq<char>) -> Seq<char> {
    if first_dot(s) < s.len() {
        s.subrange(first_dot(s) + 1, s.len() as int)
    } else {
        Seq::empty()
    }
}

/// The fractional digits that count: the first `FRACTION_DIGITS` of them;
/// finer digits are below the unit and dropped (the value is truncated).
pub open spec fn kept_fraction(fp: Seq<char>) -> Seq<char> {
    if fp.len() <= FRACTION_DIGITS {
        fp
    } else {
        fp.subrange(0, FRACTION_DIGITS as int)
    }
}

/// Units of an unsigned decimal: `digits[.digits]`, at least one digit and
/// at most `MAX_INTEGER_DIGITS` before the point, any number after it, of
/// which the first `FRACTION_DIGITS` count.
pub open spec fn unsigned_units(s: Seq<char>) -> Option<int> {
    let ip = integer_part(s);
    let fp = fraction_part(s);
    let kp = kept_fraction(fp);
    if all_digits(ip) && all_digits(fp) && ip.len() + fp.len() > 0 && ip.len()
        <= MAX_INTEGER_DIGITS {
        Some(digits_value(ip) * pow10(FRACTION_DIGITS as nat) + digits_value(kp) * pow10(
            (FRACTION_DIGITS - kp.len()) as nat,
        ))
    } else {
        None
    }
}

pub open spec fn is_exp_char(c: char) -> bool {
    c == 'e' || c == 'E'
}

/// Index of the first 'e' or 'E', or the length when there is none.
pub open spec fn exp_marker(s: Seq<char>) -> int
    decreases s.len(),
{
    if s.len() == 0 {
        0
    } else if is_exp_char(s[0]) {
        0
    } else {
        1 + exp_marker(s.drop_first())
    }
}

/// The exponent written after the marker: an optional sign and at least
/// one digit.
pub open spec fn exponent_of(x: Seq<char>) -> Option<int> {
    let neg = x.len() > 0 && x[0] == '-';
    let digits = if x.len() > 0 && (x[0] == '-' || x[0] == '+') { x.drop_first() } else { x };
    if digits.len() > 0 && all_digits(digits) {
        Some(if neg { -digits_value(digits) } else { digits_value(digits) })
    } else {
        None
    }
}

/// `n` zero digits.
pub open spec fn zeros(n: nat) -> Seq<char> {
    Seq::new(n, |i: int| '0')
}

/// The digits `d` with the decimal point placed after the first `p` of
/// them (zeros filled in where `p` lies outside the digits).
pub open spec fn shift_point(d: Seq<char>, p: int) -> Seq<char> {
    if p <= 0 {
        seq!['.'] + zeros((-p) as nat) + d
    } else if p >= d.len() {
        d + zeros((p - d.len()) as nat)
    } else {
        d.subrange(0, p) + seq!['.'] + d.subrange(p, d.len() as int)
    }
}

/// Units of a decimal in scientific notation whose exponent marker stands
/// at `k`: the exponent moves the point of the plain decimal before it.
#[verifier::opaque]
pub open spec fn scientific_units(s: Seq<char>, k: int) -> Option<int> {
    let m = s.subrange(0, k);
    let ip = integer_part(m);
    let fp = fraction_part(m);
    match exponent_of(s.subrange(k + 1, s.len() as int)) {
        Some(e) => if all_digits(ip) && all_digits(fp) && ip.len() + fp.len() > 0 {
            unsigned_units(shift_point(ip + fp, ip.len() + e))
        } else {
            None
        },
        None => None,
    }
}

/// Units of an unsigned decimal, plain (see `unsigned_units`) or in
/// scientific notation `m[eE][+-]digits` (see `scientific_units`).
pub open spec fn decimal_units(s: Seq<char>) -> Option<int> {
    let k = exp_marker(s);
    if k >= s.len() {
        unsigned_units(s)
    } else {
        scientific_units(s, k)
    }
}

/// The value, in units of `10^-8`, that a decimal string denotes: an optional
/// sign ('+' or '-') followed by an unsigned decimal.
pub open spec fn fixed_value(s: Seq<char>) -> Option<int> {
    if s.len() > 0 && s[0] == '-' {
        match decimal_units(s.drop_first()) {
            Some(v) => Some(-v),
            None => None,
        }
    } else if s.len() > 0 && s[0] == '+' {
        decimal_units(s.drop_first())
    } else {
        decimal_units(s)
    }
}

proof fn lemma_pow10_positive(n: nat)
    ensures
        pow10(n) >= 1,
    decreases n,
{
    if n > 0 {
        lemma_pow10_positive((n - 1) as nat);
    }
}

proof fn lemma_digits_value_bound(s: Seq<char>)
    requires
        all_digits(s),
    ensures
        0 <= digits_value(s) < pow10(s.len()),
    decreases s.len(),
{
    if s.len() > 0 {
        let t = s.drop_last();
        assert(all_digits(t)) by {
            assert forall|i: int| 0 <= i < t.len() implies is_digit(#[trigger] t[i]) by {
                assert(t[i] == s[i]);
            }
        }
        lemma_digits_value_bound(t);
        assert(is_digit(s[s.len() - 1]));
        assert(digits_value(s) == digits_value(t) * 10 + digit_value(s.last()));
    }
}

proof fn lemma_first_dot_at(s: Seq<char>, i: int)
    requires
        0 <= i <= s.len(),
        forall|j: int| 0 <= j < i ==> s[j] != '.',
        i == s.len() || s[i] == '.',
    ensures
        first_dot(s) == i,
    decreases s.len(),
{
    if s.len() > 0 && i > 0 {
        let t = s.drop_first();
        assert forall|j: int| 0 <= j < i - 1 implies t[j] != '.' by {
            assert(t[j] == s[j + 1]);
        }
        if i < s.len() {
            assert(t[i - 1] == s[i]);
        }
        lemma_first_dot_at(t, i - 1);
    }
}

proof fn lemma_first_dot_after(s: Seq<char>, i: int)
    requires
        0 <= i < s.len(),
        forall|j: int| 0 <= j <= i ==> s[j] != '.',
    ensures
        first_dot(s) > i,
        first_dot(s) <= s.len(),
    decreases s.len(),
{
    let t = s.drop_first();
    if i > 0 {
        assert forall|j: int| 0 <= j <= i - 1 implies t[j] != '.' by {
            assert(t[j] == s[j + 1]);
        }
        lemma_first_dot_after(t, i - 1);
    } else {
        lemma_first_dot_bounds(t);
    }
}

proof fn lemma_first_dot_bounds(s: Seq<char>)
    ensures
        0 <= first_dot(s) <= s.len(),
    decreases s.len(),
{
    if s.len() > 0 && s[0] != '.' {
        lemma_first_dot_bounds(s.drop_first());
    }
}

proof fn lemma_exp_marker_at(s: Seq<char>, i: int)
    requires
        0 <= i <= s.len(),
        forall|j: int| 0 <= j < i ==> !is_exp_char(#[trigger] s[j]),
        i == s.len() || is_exp_char(s[i]),
    ensures
        exp_marker(s) == i,
    decreases s.len(),
{
    if s.len() > 0 && i > 0 {
        let t = s.drop_first();
        assert(!is_exp_char(s[0]));
        assert forall|j: int| 0 <= j < i - 1 implies !is_exp_char(#[trigger] t[j]) by {
            assert(t[j] == s[j + 1]);
        }
        if i < s.len() {
            assert(t[i - 1] == s[i]);
        }
        lemma_exp_marker_at(t, i - 1);
    }
}

/// A decimal with no exponent marker reads as a plain decimal.
proof fn lemma_plain_decimal(t: Seq<char>)
    requires
        forall|j: int| 0 <= j < t.len() ==> !is_exp_char(#[trigger] t[j]),
    ensures
        decimal_units(t) == unsigned_units(t),
{
    lemma_exp_marker_at(t, t.len() as int);
}

proof fn lemma_zeros_value(n: nat)
    ensures
        all_digits(zeros(n)),
        digits_value(zeros(n)) == 0,
    decreases n,
{
    if n > 0 {
        lemma_zeros_value((n - 1) as nat);
        assert(zeros(n).drop_last() =~= zeros((n - 1) as nat));
    }
}

/// A decimal point placed eight or more places before the digits gives
/// zero units.
proof fn lemma_shift_far_left(d: Seq<char>, p: int)
    requires
        p <= -8,
        all_digits(d),
    ensures
        unsigned_units(shift_point(d, p)) == Some(0int),
{
    let t = shift_point(d, p);
    let z = zeros((-p) as nat);
    assert(t =~= seq!['.'] + z + d);
    lemma_first_dot_at(t, 0);
    assert(integer_part(t) =~= Seq::<char>::empty());
    assert(fraction_part(t) =~= z + d);
    lemma_zeros_value((-p) as nat);
    assert(all_digits(z + d)) by {
        assert forall|j: int| 0 <= j < (z + d).len() implies is_digit(#[trigger] (z + d)[j]) by {
            if j < z.len() {
                assert((z + d)[j] == z[j]);
            } else {
                assert((z + d)[j] == d[j - z.len()]);
            }
        }
    }
    assert(kept_fraction(z + d) =~= zeros(8));
    lemma_zeros_value(8);
    assert(digits_value(Seq::<char>::empty()) == 0);
}

/// A decimal point placed more than `MAX_INTEGER_DIGITS` places into the
/// digits leaves too many integer digits.
proof fn lemma_shift_far_right(d: Seq<char>, p: int)
    requires
        p > MAX_INTEGER_DIGITS,
        all_digits(d),
    ensures
        unsigned_units(shift_point(d, p)) is None,
{
    let t = shift_point(d, p);
    if p >= d.len() {
        let z = zeros((p - d.len()) as nat);
        assert(t =~= d + z);
        assert forall|j: int| 0 <= j < t.len() implies t[j] != '.' by {
            if j < d.len() {
                assert(t[j] == d[j]);
                assert(is_digit(d[j]));
            } else {
                assert(t[j] == z[j - d.len()]);
            }
        }
        lemma_first_dot_at(t, t.len() as int);
        assert(integer_part(t).len() == p);
    } else {
        assert forall|j: int| 0 <= j < p implies t[j] != '.' by {
            assert(t[j] == d[j]);
            assert(is_digit(d[j]));
        }
        assert(t[p] == '.');
        lemma_first_dot_at(t, p);
        assert(integer_part(t).len() == p);
    }
}

proof fn lemma_digits_step(s: Seq<char>, a: int, i: int)
    requires
        0 <= a <= i < s.len(),
    ensures
        digits_value(s.subrange(a, i + 1)) == digits_value(s.subrange(a, i)) * 10
            + digit_value(s[i]),
{
    let x = s.subrange(a, i + 1);
    assert(x.drop_last() =~= s.subrange(a, i));
    assert(x.last() == s[i]);
}

proof fn lemma_pow10_values()
    ensures
        pow10(8) == 100_000_000,
        pow10(20) == 100_000_000_000_000_000_000,
{
    reveal_with_fuel(pow10, 21);
}

/// Reads the unsigned decimal that fills `cs[start..]`.
fn parse_unsigned(cs: &Vec<char>, start: usize) -> (r: Option<i128>)
    requires
        start <= cs.len(),
    ensures
        match r {
            Some(v) => unsigned_units(cs@.subrange(start as int, cs.len() as int)) == Some(
                v as int,
            ),
            None => unsigned_units(cs@.subrange(start as int, cs.len() as int)) is None,
        },
{
    let ghost s = cs@.subrange(start as int, cs.len() as int);
    proof {
        lemma_pow10_values();
    }
    let n = cs.len();
    let mut i: usize = start;
    let mut int_acc: i128 = 0;
    // integer digits
    while i < n && '0' <= cs[i] && cs[i] <= '9'
        invariant
            start <= i <= n,
            n == cs.len(),
            s == cs@.subrange(start as int, n as int),
            forall|j: int| start <= j < i ==> is_digit(#[trigger] cs@[j]),
            i - start <= MAX_INTEGER_DIGITS,
            int_acc == digits_value(cs@.subrange(start as int, i as int)),
            0 <= int_acc < pow10((i - start) as nat),
            pow10(8) == 100_000_000,
            pow10(20) == 100_000_000_000_000_000_000,
        decreases n - i,
    {
        if i - start == MAX_INTEGER_DIGITS {
            proof {
                assert forall|j: int| 0 <= j <= (i - start) implies s[j] != '.' by {
                    assert(s[j] == cs@[start + j]);
                }
                lemma_first_dot_after(s, (i - start) as int);
                assert(integer_part(s).len() > MAX_INTEGER_DIGITS);
            }
            return None;
        }
        let d = (cs[i] as u32 - '0' as u32) as i128;
        proof {
            lemma_digits_step(cs@, start as int, i as int);
            assert(pow10((i + 1 - start) as nat) == 10 * pow10((i - start) as nat));
            lemma_pow10_mono((i - start) as nat, MAX_INTEGER_DIGITS as nat);
        }
        int_acc = int_acc * 10 + d;
        i = i + 1;
    }
    let int_end = i;
    let ghost ie = (int_end - start) as int;
    proof {
        lemma_pow10_mono(ie as nat, 20);
        assert forall|j: int| 0 <= j < ie implies s[j] != '.' && is_digit(s[j]) by {
            assert(s[j] == cs@[start + j]);
        }
    }
    if i == n {
        proof {
            lemma_first_dot_at(s, ie);
            assert(integer_part(s) =~= cs@.subrange(start as int, int_end as int));
            assert(fraction_part(s) =~= Seq::<char>::empty());
            assert(digits_value(Seq::<char>::empty()) == 0);
        }
        if int_end == start {
            return None;
        }
        return Some(int_acc * FIXED_ONE);
    }
    if cs[i] != '.' {
        proof {
            assert(s[ie] == cs@[int_end as int]);
            lemma_first_dot_after(s, ie);
            assert(integer_part(s)[ie] == s[ie]);
            assert(!is_digit(integer_part(s)[ie]));
        }
        return None;
    }
    proof {
        assert(s[ie] == cs@[int_end as int]);
        lemma_first_dot_at(s, ie);
        assert(integer_part(s) =~= cs@.subrange(start as int, int_end as int));
    }
    i = i + 1;
    let mut frac_acc: i128 = 0;
    let mut frac_len: usize = 0;
    while i < n && frac_len < FRACTION_DIGITS && '0' <= cs[i] && cs[i] <= '9'
        invariant
            start <= int_end < n,
            int_end + 1 <= i <= n,
            n == cs.len(),
            s == cs@.subrange(start as int, n as int),
            ie == int_end - start,
            first_dot(s) == ie,
            frac_len == i - int_end - 1,
            frac_len <= FRACTION_DIGITS,
            forall|j: int| int_end + 1 <= j < i ==> is_digit(#[trigger] cs@[j]),
            frac_acc == digits_value(cs@.subrange(int_end + 1, i as int)),
            0 <= frac_acc < pow10(frac_len as nat),
            pow10(8) == 100_000_000,
        decreases n - i,
    {
        let d = (cs[i] as u32 - '0' as u32) as i128;
        proof {
            lemma_digits_step(cs@, int_end + 1, i as int);
            assert(pow10((frac_len + 1) as nat) == 10 * pow10(frac_len as nat));
            lemma_pow10_mono(frac_len as nat, 8);
        }
        frac_acc = frac_acc * 10 + d;
        frac_len = frac_len + 1;
        i = i + 1;
    }
    let kept_end = i;
    if frac_len == FRACTION_DIGITS {
        // digits below the unit: checked, then dropped
        while i < n && '0' <= cs[i] && cs[i] <= '9'
            invariant
                int_end + 1 + FRACTION_DIGITS == kept_end <= i <= n,
                n == cs.len(),
                forall|j: int| int_end + 1 <= j < i ==> is_digit(#[trigger] cs@[j]),
            decreases n - i,
        {
            i = i + 1;
        }
    }
    proof {
        assert(fraction_part(s) =~= cs@.subrange(int_end + 1, n as int));
    }
    if i != n {
        proof {
            let fp = fraction_part(s);
            assert(fp[i - int_end - 1] == cs@[i as int]);
            assert(!is_digit(fp[i - int_end - 1]));
        }
        return None;
    }
    proof {
        let fp = fraction_part(s);
        assert(all_digits(fp)) by {
            assert forall|j: int| 0 <= j < fp.len() implies is_digit(#[trigger] fp[j]) by {
                assert(fp[j] == cs@[int_end + 1 + j]);
            }
        }
        assert(kept_fraction(fp) =~= cs@.subrange(int_end + 1, kept_end as int));
    }
    if int_end == start && frac_len == 0 {
        return None;
    }
    let mut scaled = frac_acc;
    let mut k = frac_len;
    proof {
        assert(pow10(0) == 1);
        assert((k - frac_len) as nat == 0);
        assert(frac_acc * pow10(0) == frac_acc) by (nonlinear_arith)
            requires
                pow10(0) == 1,
        ;
    }
    while k < FRACTION_DIGITS
        invariant
            frac_len <= k <= FRACTION_DIGITS,
            0 <= frac_acc < pow10(frac_len as nat),
            scaled == frac_acc * pow10((k - frac_len) as nat),
            0 <= scaled < pow10(k as nat),
            pow10(8) == 100_000_000,
        decreases FRACTION_DIGITS - k,
    {
        proof {
            assert(pow10((k + 1 - frac_len) as nat) == 10 * pow10((k - frac_len) as nat));
            assert(pow10((k + 1) as nat) == 10 * pow10(k as nat));
            lemma_pow10_mono((k + 1) as nat, 8);
            let p = pow10((k - frac_len) as nat);
            assert(scaled * 10 == frac_acc * (10 * p)) by (nonlinear_arith)
                requires
                    scaled == frac_acc * p,
            ;
        }
        scaled = scaled * 10;
        k = k + 1;
    }
    Some(int_acc * FIXED_ONE + scaled)
}

/// Exponents at or beyond this magnitude move the point past every place a
/// value can have: they are tracked only as "that large".
const EXPONENT_CAP: i128 = 100_000_000_000_000_000_000;

/// Copies `src` onto the end of `dst`.
fn push_all(dst: &mut Vec<char>, src: &Vec<char>, from: usize, to: usize)
    requires
        from <= to <= src.len(),
    ensures
        final(dst)@ == old(dst)@ + src@.subrange(from as int, to as int),
{
    let mut i: usize = from;
    while i < to
        invariant
            from <= i <= to,
            to <= src@.len(),
            dst@ == old(dst)@ + src@.subrange(from as int, i as int),
        decreases to - i,
    {
        dst.push(src[i]);
        proof {
            assert(dst@ =~= old(dst)@ + src@.subrange(from as int, i + 1));
        }
        i = i + 1;
    }
}

/// Appends `n` zero digits.
fn push_zeros(dst: &mut Vec<char>, n: usize)
    ensures
        final(dst)@ == old(dst)@ + zeros(n as nat),
{
    let mut i: usize = 0;
    while i < n
        invariant
            i <= n,
            dst@ == old(dst)@ + zeros(i as nat),
        decreases n - i,
    {
        dst.push('0');
        proof {
            assert(dst@ =~= old(dst)@ + zeros((i + 1) as nat));
        }
        i = i + 1;
    }
}

/// Writes `shift_point(d, p)`.
fn shifted(d: &Vec<char>, p: i128) -> (t: Vec<char>)
    requires
        -8 < p <= MAX_INTEGER_DIGITS,
    ensures
        t@ == shift_point(d@, p as int),
{
    let mut t: Vec<char> = Vec::new();
    if p <= 0 {
        t.push('.');
        push_zeros(&mut t, (-p) as usize);
        push_all(&mut t, d, 0, d.len());
        proof {
            assert(d@.subrange(0, d@.len() as int) =~= d@);
            assert(t@ =~= seq!['.'] + zeros((-p) as nat) + d@);
        }
    } else if p as usize >= d.len() {
        push_all(&mut t, d, 0, d.len());
        push_zeros(&mut t, p as usize - d.len());
        proof {
            assert(d@.subrange(0, d@.len() as int) =~= d@);
            assert(t@ =~= d@ + zeros((p - d@.len()) as nat));
        }
    } else {
        push_all(&mut t, d, 0, p as usize);
        t.push('.');
        push_all(&mut t, d, p as usize, d.len());
        proof {
            assert(t@ =~= d@.subrange(0, p as int) + seq!['.'] + d@.subrange(p as int, d@.len() as int));
        }
    }
    t
}

/// The digits of a plain mantissa `cs[start..k]` with its point removed,
/// and how many of them come before the point; `None` when it is not
/// `digits[.digits]`.
fn mantissa_digits(cs: &Vec<char>, start: usize, k: usize) -> (r: Option<(Vec<char>, usize)>)
    requires
        start <= k <= cs.len(),
    ensures
        ({
            let m = cs@.subrange(start as int, k as int);
            match r {
                Some((d, il)) => all_digits(integer_part(m)) && all_digits(fraction_part(m)) && d@
                    == integer_part(m) + fraction_part(m) && il == integer_part(m).len() && all_digits(d@),
                None => !(all_digits(integer_part(m)) && all_digits(fraction_part(m))),
            }
        }),
{
    let ghost m = cs@.subrange(start as int, k as int);
    let mut d: Vec<char> = Vec::new();
    let mut i: usize = start;
    while i < k && '0' <= cs[i] && cs[i] <= '9'
        invariant
            start <= i <= k,
            k <= cs.len(),
            d@ == cs@.subrange(start as int, i as int),
            forall|j: int| start <= j < i ==> is_digit(#[trigger] cs@[j]),
        decreases k - i,
    {
        d.push(cs[i]);
        proof {
            assert(d@ =~= cs@.subrange(start as int, i + 1));
        }
        i = i + 1;
    }
    let int_end = i;
    let ghost ie = (int_end - start) as int;
    proof {
        assert forall|j: int| 0 <= j < ie implies m[j] != '.' && is_digit(#[trigger] m[j]) by {
            assert(m[j] == cs@[start + j]);
        }
    }
    if i < k {
        if cs[i] != '.' {
            proof {
                assert(m[ie] == cs@[int_end as int]);
                lemma_first_dot_after(m, ie);
                assert(integer_part(m)[ie] == m[ie]);
                assert(!is_digit(integer_part(m)[ie]));
            }
            return None;
        }
        proof {
            assert(m[ie] == cs@[int_end as int]);
            lemma_first_dot_at(m, ie);
            assert(integer_part(m) =~= cs@.subrange(start as int, int_end as int));
        }
        i = i + 1;
        while i < k && '0' <= cs[i] && cs[i] <= '9'
            invariant
                int_end + 1 <= i <= k,
                int_end < k,
                k <= cs.len(),
                d@ == cs@.subrange(start as int, int_end as int) + cs@.subrange(int_end + 1, i as int),
                forall|j: int| int_end + 1 <= j < i ==> is_digit(#[trigger] cs@[j]),
            decreases k - i,
        {
            d.push(cs[i]);
            proof {
                assert(d@ =~= cs@.subrange(start as int, int_end as int) + cs@.subrange(int_end + 1, i + 1));
            }
            i = i + 1;
        }
        proof {
            assert(fraction_part(m) =~= cs@.subrange(int_end + 1, k as int));
        }
        if i < k {
            proof {
                let fp = fraction_part(m);
                assert(fp[i - int_end - 1] == cs@[i as int]);
                assert(!is_digit(fp[i - int_end - 1]));
            }
            return None;
        }
        proof {
            let fp = fraction_part(m);
            assert forall|j: int| 0 <= j < fp.len() implies is_digit(#[trigger] fp[j]) by {
                assert(fp[j] == cs@[int_end + 1 + j]);
            }
        }
    } else {
        proof {
            lemma_first_dot_at(m, ie);
            assert(integer_part(m) =~= cs@.subrange(start as int, int_end as int));
            assert(fraction_part(m) =~= Seq::<char>::empty());
        }
    }
    proof {
        let ip = integer_part(m);
        let fp = fraction_part(m);
        assert(ip =~= cs@.subrange(start as int, int_end as int));
        assert(d@ =~= ip + fp);
        assert(all_digits(ip)) by {
            assert forall|j: int| 0 <= j < ip.len() implies is_digit(#[trigger] ip[j]) by {
                assert(ip[j] == cs@[start + j]);
            }
        }
        assert(all_digits(d@)) by {
            assert forall|j: int| 0 <= j < d@.len() implies is_digit(#[trigger] d@[j]) by {
                if j < ip.len() {
                    assert(d@[j] == ip[j]);
                } else {
                    assert(d@[j] == fp[j - ip.len()]);
                }
            }
        }
    }
    Some((d, int_end - start))
}

/// Reads the exponent `cs[from..]`: its sign and its magnitude, the latter
/// exact below `EXPONENT_CAP` and otherwise at least that.
fn parse_exponent(cs: &Vec<char>, from: usize) -> (r: Option<(bool, i128)>)
    requires
        from <= cs.len(),
    ensures
        ({
            let x = cs@.subrange(from as int, cs.len() as int);
            match r {
                Some((neg, e)) => exponent_of(x) is Some && {
                    let v = exponent_of(x)->0;
                    let mag = if neg { -v } else { v };
                    &&& mag >= 0
                    &&& neg ==> v <= 0
                    &&& !neg ==> v >= 0
                    &&& 0 <= e
                    &&& e < EXPONENT_CAP ==> mag == e
                    &&& e >= EXPONENT_CAP ==> mag >= EXPONENT_CAP
                },
                None => exponent_of(x) is None,
            }
        }),
{
    let ghost x = cs@.subrange(from as int, cs.len() as int);
    let n = cs.len();
    let mut j: usize = from;
    let mut neg = false;
    if j < n && (cs[j] == '-' || cs[j] == '+') {
        neg = cs[j] == '-';
        j = j + 1;
    }
    let exp_start = j;
    proof {
        if x.len() > 0 && (x[0] == '-' || x[0] == '+') {
            assert(x[0] == cs@[from as int]);
            assert(x.drop_first() =~= cs@.subrange(exp_start as int, n as int));
        } else {
            if x.len() > 0 {
                assert(x[0] == cs@[from as int]);
            }
            assert(x =~= cs@.subrange(exp_start as int, n as int));
        }
        assert(neg == (x.len() > 0 && x[0] == '-'));
        assert(digits_value(cs@.subrange(exp_start as int, exp_start as int)) == 0) by {
            assert(cs@.subrange(exp_start as int, exp_start as int) =~= Seq::<char>::empty());
        }
    }
    let mut e: i128 = 0;
    while j < n && '0' <= cs[j] && cs[j] <= '9'
        invariant
            from <= exp_start <= j <= n,
            n == cs.len(),
            forall|t: int| exp_start <= t < j ==> is_digit(#[trigger] cs@[t]),
            0 <= e < EXPONENT_CAP * 10,
            e < EXPONENT_CAP ==> e == digits_value(cs@.subrange(exp_start as int, j as int)),
            e >= EXPONENT_CAP ==> digits_value(cs@.subrange(exp_start as int, j as int)) >= EXPONENT_CAP,
        decreases n - j,
    {
        let dg = (cs[j] as u32 - '0' as u32) as i128;
        proof {
            lemma_digits_step(cs@, exp_start as int, j as int);
        }
        if e < EXPONENT_CAP {
            e = e * 10 + dg;
        }
        j = j + 1;
    }
    let ghost xd = cs@.subrange(exp_start as int, n as int);
    if j < n {
        proof {
            assert(xd[j - exp_start] == cs@[j as int]);
            assert(!is_digit(xd[j - exp_start]));
        }
        return None;
    }
    if j == exp_start {
        proof {
            assert(xd.len() == 0);
        }
        return None;
    }
    proof {
        assert(xd =~= cs@.subrange(exp_start as int, j as int));
        assert(all_digits(xd)) by {
            assert forall|t: int| 0 <= t < xd.len() implies is_digit(#[trigger] xd[t]) by {
                assert(xd[t] == cs@[exp_start + t]);
            }
        }
        lemma_digits_value_bound(xd);
        assert(exponent_of(x) == Some(if neg { -digits_value(xd) } else { digits_value(xd) }));
    }
    Some((neg, e))
}

/// Reads the unsigned decimal, plain or in scientific notation, that fills
/// `cs[start..]`.
fn parse_unsigned_decimal(cs: &Vec<char>, start: usize) -> (r: Option<i128>)
    requires
        start <= cs.len(),
    ensures
        match r {
            Some(v) => decimal_units(cs@.subrange(start as int, cs.len() as int)) == Some(v as int),
            None => decimal_units(cs@.subrange(start as int, cs.len() as int)) is None,
        },
{
    proof {
        }
    let ghost s = cs@.subrange(start as int, cs.len() as int);
    let n = cs.len();
    let mut k: usize = start;
    while k < n && cs[k] != 'e' && cs[k] != 'E'
        invariant
            start <= k <= n,
            n == cs.len(),
            forall|j: int| start <= j < k ==> !is_exp_char(#[trigger] cs@[j]),
        decreases n - k,
    {
        k = k + 1;
    }
    proof {
        assert forall|j: int| 0 <= j < k - start implies !is_exp_char(#[trigger] s[j]) by {
            assert(s[j] == cs@[start + j]);
        }
        if k < n {
            assert(s[k - start] == cs@[k as int]);
        }
        lemma_exp_marker_at(s, (k - start) as int);
    }
    if k == n {
        return parse_unsigned(cs, start);
    }
    let ghost m = s.subrange(0, (k - start) as int);
    let ghost x = s.subrange(k - start + 1, s.len() as int);
    proof {
        reveal(scientific_units);
        assert(m =~= cs@.subrange(start as int, k as int));
        assert(x =~= cs@.subrange(k + 1, n as int));
    }
    let (d, il) = match mantissa_digits(cs, start, k) {
        Some(p) => p,
        None => {
            proof {
        reveal(scientific_units);
                assert(decimal_units(s) == scientific_units(s, (k - start) as int));
                assert(scientific_units(s, (k - start) as int) is None);
            }
            return None;
        },
    };
    let (neg, e) = match parse_exponent(cs, k + 1) {
        Some(p) => p,
        None => {
            proof {
        reveal(scientific_units);
                assert(decimal_units(s) == scientific_units(s, (k - start) as int));
                assert(scientific_units(s, (k - start) as int) is None);
            }
            return None;
        },
    };
    if d.len() == 0 {
        return None;
    }
    let ghost ev = exponent_of(x)->0;
    proof {
        reveal(scientific_units);
        assert(il < EXPONENT_CAP - 8);
    }
    if e >= EXPONENT_CAP {
        if neg {
            proof {
        reveal(scientific_units);
                lemma_shift_far_left(d@, il + ev);
            }
            return Some(0);
        } else {
            proof {
        reveal(scientific_units);
                lemma_shift_far_right(d@, il + ev);
            }
            return None;
        }
    }
    let p: i128 = if neg { il as i128 - e } else { il as i128 + e };
    proof {
        reveal(scientific_units);
        assert(p == il + ev);
    }
    if p > MAX_INTEGER_DIGITS as i128 {
        proof {
        reveal(scientific_units);
            lemma_shift_far_right(d@, p as int);
        }
        return None;
    }
    if p <= -8 {
        proof {
        reveal(scientific_units);
            lemma_shift_far_left(d@, p as int);
        }
        return Some(0);
    }
    let t = shifted(&d, p);
    let r = parse_unsigned(&t, 0);
    proof {
        reveal(scientific_units);
        assert(t@.subrange(0, t@.len() as int) =~= t@);
    }
    r
}

proof fn lemma_pow10_mono(a: nat, b: nat)
    requires
        a <= b,
    ensures
        pow10(a) <= pow10(b),
    decreases b,
{
    if a < b {
        lemma_pow10_mono(a, (b - 1) as nat);
        lemma_pow10_positive((b - 1) as nat);
    }
}

} // verus!

verus! {

/// Parses a decimal string into units of `10^-8`.
///
/// Accepts an optional sign followed by `digits[.digits]` (at least one
/// digit), optionally in scientific notation (`1.5e-3`, `2E+4`); digits
/// below `10^-8` are dropped, and more than twenty integer digits are
/// refused. Anything else is refused with `None`.
pub fn parse_fixed(s: &str) -> (r: Option<i128>)
    ensures
        match r {
            Some(v) => fixed_value(s@) == Some(v as int),
            None => fixed_value(s@) is None,
        },
{
    let cs = chars_of(s);
    parse_fixed_chars(&cs)
}

/// Parses the characters of a decimal string into units of `10^-8`.
pub fn parse_fixed_chars(cs: &Vec<char>) -> (r: Option<i128>)
    ensures
        match r {
            Some(v) => fixed_value(cs@) == Some(v as int),
            None => fixed_value(cs@) is None,
        },
{
    if cs.len() > 0 && (cs[0] == '-' || cs[0] == '+') {
        let neg = cs[0] == '-';
        let r = parse_unsigned_decimal(cs, 1);
        proof {
            assert(cs@.subrange(1, cs.len() as int) =~= cs@.drop_first());
        }
        match r {
            Some(v) => {
                proof {
                    lemma_decimal_bound(cs@.drop_first());
                }
                if neg {
                    Some(-v)
                } else {
                    Some(v)
                }
            },
            None => None,
        }
    } else {
        proof {
            assert(cs@.subrange(0, cs.len() as int) =~= cs@);
        }
        parse_unsigned_decimal(cs, 0)
    }
}

/// Every accepted magnitude, plain or in scientific notation, is below
/// `10^28`.
pub proof fn lemma_decimal_bound(s: Seq<char>)
    ensures
        decimal_units(s) matches Some(v) ==> 0 <= v < pow10(28),
{
    reveal(scientific_units);
    let k = exp_marker(s);
    if k >= s.len() {
        lemma_unsigned_bound(s);
    } else {
        let m = s.subrange(0, k);
        match exponent_of(s.subrange(k + 1, s.len() as int)) {
            Some(e) => lemma_unsigned_bound(shift_point(integer_part(m) + fraction_part(m), integer_part(m).len() + e)),
            None => {},
        }
    }
}

/// Every accepted magnitude is below `10^28`.
pub proof fn lemma_unsigned_bound(s: Seq<char>)
    ensures
        unsigned_units(s) matches Some(v) ==> 0 <= v < pow10(28),
{
    if let Some(v) = unsigned_units(s) {
        let ip = integer_part(s);
        let fp0 = fraction_part(s);
        let fp = kept_fraction(fp0);
        assert(all_digits(fp)) by {
            assert forall|k: int| 0 <= k < fp.len() implies is_digit(#[trigger] fp[k]) by {
                assert(fp[k] == fp0[k]);
            }
        }
        lemma_digits_value_bound(ip);
        lemma_digits_value_bound(fp);
        lemma_pow10_mono(ip.len(), 20);
        lemma_pow10_mono(fp.len(), 8);
        lemma_pow10_positive((FRACTION_DIGITS - fp.len()) as nat);
        lemma_pow10_values();
        reveal_with_fuel(pow10, 29);
        let a = digits_value(ip);
        let b = digits_value(fp);
        let m = pow10((FRACTION_DIGITS - fp.len()) as nat);
        lemma_pow10_split(fp.len(), (FRACTION_DIGITS - fp.len()) as nat);
        assert(b * m < pow10(8)) by (nonlinear_arith)
            requires
                0 <= b < pow10(fp.len()),
                m >= 1,
                pow10(fp.len()) * m == pow10(8),
        ;
        assert(0 <= b * m) by (nonlinear_arith)
            requires
                0 <= b,
                m >= 1,
        ;
        assert(a * 100_000_000 + b * m < 10_000_000_000_000_000_000_000_000_000) by (nonlinear_arith)
            requires
                0 <= a < 100_000_000_000_000_000_000,
                0 <= b * m < 100_000_000,
        ;
    }
}

proof fn lemma_pow10_split(a: nat, b: nat)
    ensures
        pow10(a) * pow10(b) == pow10(a + b),
    decreases a,
{
    if a > 0 {
        lemma_pow10_split((a - 1) as nat, b);
        assert(pow10(a) * pow10(b) == 10 * (pow10((a - 1) as nat) * pow10(b))) by (nonlinear_arith)
            requires
                pow10(a) == 10 * pow10((a - 1) as nat),
        ;
    }
}

} // verus!

verus! {

proof fn lemma_digits_prepend(d: char, s: Seq<char>)
    ensures
        digits_value(seq![d] + s) == digit_value(d) * pow10(s.len()) + digits_value(s),
    decreases s.len(),
{
    let t = seq![d] + s;
    if s.len() == 0 {
        assert(t.drop_last() =~= Seq::<char>::empty());
        assert(t.last() == d);
        assert(digits_value(Seq::<char>::empty()) == 0);
        assert(pow10(0) == 1);
        assert(digits_value(t) == digits_value(t.drop_last()) * 10 + digit_value(t.last()));
    } else {
        assert(t.drop_last() =~= seq![d] + s.drop_last());
        assert(t.last() == s.last());
        lemma_digits_prepend(d, s.drop_last());
        let p = pow10((s.len() - 1) as nat);
        assert(pow10(s.len()) == 10 * p);
        let a = digit_value(d);
        let b = digits_value(s.drop_last());
        let c = digit_value(s.last());
        assert(digits_value(t) == (a * p + b) * 10 + c);
        assert(digits_value(s) == b * 10 + c);
        assert((a * p + b) * 10 + c == a * (10 * p) + (b * 10 + c)) by (nonlinear_arith);
    }
}

proof fn lemma_all_digits_prepend(d: char, s: Seq<char>)
    requires
        is_digit(d),
        all_digits(s),
    ensures
        all_digits(seq![d] + s),
{
    let t = seq![d] + s;
    assert forall|i: int| 0 <= i < t.len() implies is_digit(#[trigger] t[i]) by {
        if i > 0 {
            assert(t[i] == s[i - 1]);
        }
    }
}

/// The character of a decimal digit.
pub open spec fn digit_of(d: int) -> char {
    if d == 0 { '0' }
    else if d == 1 { '1' }
    else if d == 2 { '2' }
    else if d == 3 { '3' }
    else if d == 4 { '4' }
    else if d == 5 { '5' }
    else if d == 6 { '6' }
    else if d == 7 { '7' }
    else if d == 8 { '8' }
    else { '9' }
}

/// The decimal writing of `n`, without leading zeros ("0" for zero).
pub open spec fn decimal(n: nat) -> Seq<char>
    decreases n,
{
    if n < 10 {
        seq![digit_of(n as int)]
    } else {
        decimal(n / 10).push(digit_of((n % 10) as int))
    }
}

proof fn lemma_digit_of(d: int)
    requires
        0 <= d < 10,
    ensures
        is_digit(digit_of(d)),
        digit_value(digit_of(d)) == d,
{
}

/// The decimal writing of `n` reads back as `n`.
pub proof fn lemma_decimal_value(n: nat)
    ensures
        all_digits(decimal(n)),
        digits_value(decimal(n)) == n,
        decimal(n).len() >= 1,
        decimal(n)[0] != '+',
    decreases n,
{
    if n < 10 {
        lemma_digit_of(n as int);
        assert(decimal(n).drop_last() =~= Seq::<char>::empty());
        assert(digits_value(Seq::<char>::empty()) == 0);
    } else {
        lemma_decimal_value(n / 10);
        lemma_digit_of((n % 10) as int);
        let d = decimal(n);
        assert(d.drop_last() =~= decimal(n / 10));
        assert(n == (n / 10) * 10 + n % 10);
        assert forall|i: int| 0 <= i < d.len() implies is_digit(#[trigger] d[i]) by {
            if i < d.len() - 1 {
                assert(d[i] == decimal(n / 10)[i]);
            }
        }
    }
}

fn digit_char(d: u128) -> (c: char)
    requires
        d < 10,
    ensures
        is_digit(c),
        digit_value(c) == d,
        c == digit_of(d as int),
{
    if d == 0 { '0' }
    else if d == 1 { '1' }
    else if d == 2 { '2' }
    else if d == 3 { '3' }
    else if d == 4 { '4' }
    else if d == 5 { '5' }
    else if d == 6 { '6' }
    else if d == 7 { '7' }
    else if d == 8 { '8' }
    else { '9' }
}

/// The decimal digits of `n` (no leading zeros; "0" for zero).
fn integer_digits(n: u128) -> (ds: Vec<char>)
    requires
        n < 100_000_000_000_000_000_000,
    ensures
        all_digits(ds@),
        digits_value(ds@) == n,
        0 < ds@.len() <= MAX_INTEGER_DIGITS,
        ds@.len() == 1 || ds@[0] != '0',
{
    proof {
        lemma_pow10_values();
    }
    let mut ds: Vec<char> = Vec::new();
    let mut m: u128 = n;
    let d = digit_char(m % 10);
    ds.insert(0, d);
    m = m / 10;
    proof {
        assert(ds@ =~= seq![d]);
        lemma_digits_prepend(d, Seq::<char>::empty());
        assert(digits_value(Seq::<char>::empty()) == 0);
        reveal_with_fuel(pow10, 2);
        lemma_all_digits_prepend(d, Seq::<char>::empty());
        assert(n == (n / 10) * 10 + n % 10);
        assert(pow10(1) == 10);
    }
    while m > 0
        invariant
            all_digits(ds@),
            n == m * pow10(ds@.len()) + digits_value(ds@),
            0 < ds@.len(),
            m < pow10((20 - ds@.len()) as nat),
            ds@.len() <= 20,
            pow10(20) == 100_000_000_000_000_000_000,
            (m == 0 && ds@.len() > 1) ==> ds@[0] != '0',
        decreases m,
    {
        let d = digit_char(m % 10);
        let ghost old_ds = ds@;
        let ghost old_m = m;
        ds.insert(0, d);
        m = m / 10;
        proof {
            assert(ds@ =~= seq![d] + old_ds);
            lemma_digits_prepend(d, old_ds);
            lemma_all_digits_prepend(d, old_ds);
            let p = pow10(old_ds.len());
            assert(pow10(ds@.len()) == 10 * p);
            assert(old_m == m * 10 + (old_m % 10));
            assert(n == m * (10 * p) + (digit_value(d) * p + digits_value(old_ds))) by (
            nonlinear_arith)
                requires
                    n == old_m * p + digits_value(old_ds),
                    old_m == m * 10 + digit_value(d),
            ;
            if old_ds.len() >= 20 {
                lemma_pow10_positive(0);
                assert(old_m < 1);
            }
            if m == 0 {
                assert(0 < old_m < 10);
                assert(digit_value(d) != 0);
                assert(ds@[0] == d);
            }
            assert(pow10((20 - old_ds.len()) as nat) == 10 * pow10((20 - ds@.len()) as nat));
            assert(m < pow10((20 - ds@.len()) as nat)) by (nonlinear_arith)
                requires
                    old_m < 10 * pow10((20 - ds@.len()) as nat),
                    m == old_m / 10,
            ;
        }
    }
    proof {
        assert(n == digits_value(ds@));
    }
    ds
}

/// Exactly eight digits of `f` (with leading zeros), then trailing zeros dropped.
fn fraction_digits(f: u128) -> (ds: Vec<char>)
    requires
        0 < f < 100_000_000,
    ensures
        all_digits(ds@),
        0 < ds@.len() <= FRACTION_DIGITS,
        digits_value(ds@) * pow10((FRACTION_DIGITS - ds@.len()) as nat) == f,
        ds@.last() != '0',
{
    proof {
        lemma_pow10_values();
    }
    let mut ds: Vec<char> = Vec::new();
    let mut m: u128 = f;
    let mut k: usize = 0;
    proof {
        assert(digits_value(Seq::<char>::empty()) == 0);
        assert(ds@ =~= Seq::<char>::empty());
    }
    while k < 8
        invariant
            k == ds@.len(),
            k <= 8,
            all_digits(ds@),
            f == m * pow10(k as nat) + digits_value(ds@),
            m < pow10((8 - k) as nat),
            pow10(8) == 100_000_000,
        decreases 8 - k,
    {
        let d = digit_char(m % 10);
        let ghost old_ds = ds@;
        let ghost old_m = m;
        ds.insert(0, d);
        m = m / 10;
        k = k + 1;
        proof {
            assert(ds@ =~= seq![d] + old_ds);
            lemma_digits_prepend(d, old_ds);
            lemma_all_digits_prepend(d, old_ds);
            let p = pow10(old_ds.len());
            assert(pow10(ds@.len()) == 10 * p);
            assert(old_m == m * 10 + (old_m % 10));
            assert(f == m * (10 * p) + (digit_value(d) * p + digits_value(old_ds))) by (
            nonlinear_arith)
                requires
                    f == old_m * p + digits_value(old_ds),
                    old_m == m * 10 + digit_value(d),
            ;
            assert(pow10((8 - old_ds.len()) as nat) == 10 * pow10((8 - ds@.len()) as nat));
            assert(m < pow10((8 - ds@.len()) as nat)) by (nonlinear_arith)
                requires
                    old_m < 10 * pow10((8 - ds@.len()) as nat),
                    m == old_m / 10,
            ;
        }
    }
    proof {
        reveal_with_fuel(pow10, 1);
        assert(m == 0);
        assert(digits_value(ds@) == f);
    }
    // drop trailing zeros
    while ds.len() > 0 && ds[ds.len() - 1] == '0'
        invariant
            all_digits(ds@),
            ds@.len() <= 8,
            digits_value(ds@) * pow10((8 - ds@.len()) as nat) == f,
            f > 0,
        decreases ds@.len(),
    {
        let ghost old_ds = ds@;
        ds.pop();
        proof {
            assert(old_ds.drop_last() =~= ds@);
            assert(digits_value(old_ds) == digits_value(ds@) * 10);
            assert(pow10((8 - ds@.len()) as nat) == 10 * pow10((8 - old_ds.len()) as nat));
            assert(digits_value(ds@) * pow10((8 - ds@.len()) as nat) == digits_value(old_ds)
                * pow10((8 - old_ds.len()) as nat)) by (nonlinear_arith)
                requires
                    digits_value(old_ds) == digits_value(ds@) * 10,
                    pow10((8 - ds@.len()) as nat) == 10 * pow10((8 - old_ds.len()) as nat),
            ;
        }
    }
    proof {
        if ds@.len() == 0 {
            assert(digits_value(ds@) == 0);
        }
    }
    ds
}

/// A decimal text in its shortest form: a '-' only before a nonzero
/// value, no '+', no leading zero in the integer digits but a lone "0", and
/// a fraction only when it has digits, the last of them not zero.
pub open spec fn canonical_fixed(t: Seq<char>) -> bool {
    let b = if t.len() > 0 && t[0] == '-' { t.drop_first() } else { t };
    let ip = integer_part(b);
    let fp = fraction_part(b);
    &&& t.len() > 0 && t[0] != '+'
    &&& (t[0] == '-' ==> fixed_value(t) != Some(0int))
    &&& ip.len() >= 1 && (ip.len() == 1 || ip[0] != '0')
    &&& first_dot(b) < b.len() ==> fp.len() > 0 && fp.last() != '0'
}

/// Writes a fixed-point value as a decimal string: a '-' for negative values,
/// the integer digits, and the fractional digits without trailing zeros
/// ("100.8", "-0.5", "45000").
#[verifier::spinoff_prover]
#[verifier::rlimit(40)]
pub fn format_fixed(v: i128) -> (r: String)
    requires
        -MAX_FIXED < v < MAX_FIXED,
    ensures
        fixed_value(r@) == Some(v as int),
        canonical_fixed(r@),
{
    proof {
        lemma_pow10_values();
    }
    let neg = v < 0;
    let mag: u128 = if neg { (-v) as u128 } else { v as u128 };
    let q = mag / 100_000_000;
    let f = mag % 100_000_000;
    let int_ds = integer_digits(q);
    let mut out: Vec<char> = Vec::new();
    if neg {
        out.push('-');
    }
    let ghost start: int = if neg { 1 } else { 0 };
    let mut i: usize = 0;
    while i < int_ds.len()
        invariant
            i <= int_ds@.len(),
            out@ == (if neg { seq!['-'] } else { Seq::<char>::empty() }) + int_ds@.subrange(0, i as int),
        decreases int_ds@.len() - i,
    {
        out.push(int_ds[i]);
        proof {
            assert(out@ =~= (if neg { seq!['-'] } else { Seq::<char>::empty() }) + int_ds@.subrange(0, i + 1));
        }
        i = i + 1;
    }
    proof {
        assert(int_ds@.subrange(0, int_ds@.len() as int) =~= int_ds@);
    }
    let ghost prefix = out@;
    let ghost body: Seq<char>;
    if f > 0 {
        let frac_ds = fraction_digits(f);
        out.push('.');
        let mut j: usize = 0;
        while j < frac_ds.len()
            invariant
                j <= frac_ds@.len(),
                out@ == prefix + seq!['.'] + frac_ds@.subrange(0, j as int),
            decreases frac_ds@.len() - j,
        {
            out.push(frac_ds[j]);
            proof {
                assert(out@ =~= prefix + seq!['.'] + frac_ds@.subrange(0, j + 1));
            }
            j = j + 1;
        }
        proof {
            assert(frac_ds@.subrange(0, frac_ds@.len() as int) =~= frac_ds@);
            body = int_ds@ + seq!['.'] + frac_ds@;
            assert(out@ =~= (if neg { seq!['-'] } else { Seq::<char>::empty() }) + body);
            assert forall|j: int| 0 <= j < int_ds@.len() implies body[j] != '.' by {
                assert(body[j] == int_ds@[j]);
            }
            assert(body[int_ds@.len() as int] == '.');
            lemma_first_dot_at(body, int_ds@.len() as int);
            assert(integer_part(body) =~= int_ds@);
            assert(fraction_part(body) =~= frac_ds@);
            assert forall|j: int| 0 <= j < body.len() implies !is_exp_char(#[trigger] body[j]) by {
                if j < int_ds@.len() {
                    assert(body[j] == int_ds@[j]);
                    assert(is_digit(int_ds@[j]));
                } else if j > int_ds@.len() {
                    assert(body[j] == frac_ds@[j - int_ds@.len() - 1]);
                    assert(is_digit(frac_ds@[j - int_ds@.len() - 1]));
                }
            }
            assert(q * 100_000_000 + f == mag);
        }
    } else {
        proof {
            body = int_ds@;
            assert(out@ =~= (if neg { seq!['-'] } else { Seq::<char>::empty() }) + body);
            assert forall|j: int| 0 <= j < body.len() implies body[j] != '.' by {
                assert(is_digit(body[j]));
            }
            lemma_first_dot_at(body, body.len() as int);
            assert(integer_part(body) =~= body);
            assert(fraction_part(body) =~= Seq::<char>::empty());
            assert forall|j: int| 0 <= j < body.len() implies !is_exp_char(#[trigger] body[j]) by {
                assert(is_digit(body[j]));
            }
            assert(digits_value(Seq::<char>::empty()) == 0);
            assert(q * 100_000_000 == mag);
        }
    }
    proof {
        assert(unsigned_units(body) == Some(mag as int));
        lemma_plain_decimal(body);
        assert(is_digit(body[0]));
        if neg {
            assert(out@[0] == '-');
            assert(out@.drop_first() =~= body);
        } else {
            assert(out@ =~= body);
        }
    }
    crate::text::string_from_chars(&out)
}

fn push_decimal(n: u128, out: &mut Vec<char>)
    ensures
        final(out)@ == old(out)@ + decimal(n as nat),
    decreases n,
{
    if n >= 10 {
        push_decimal(n / 10, out);
    }
    out.push(digit_char(n % 10));
    proof {
        if n < 10 {
            assert(final(out)@ =~= old(out)@ + decimal(n as nat));
        }
    }
}

/// Writes an unsigned integer in decimal, without leading zeros ("0", "1000").
pub fn format_u64(n: u64) -> (r: String)
    ensures
        r@ == decimal(n as nat),
        uint_value(r@) == Some(n as int),
{
    format_u128(n as u128)
}

/// Writes an unsigned 128-bit integer in decimal, without leading zeros.
pub fn format_u128(n: u128) -> (r: String)
    ensures
        r@ == decimal(n as nat),
        uint_value(r@) == Some(n as int),
{
    let mut ds: Vec<char> = Vec::new();
    push_decimal(n, &mut ds);
    proof {
        assert(ds@ =~= decimal(n as nat));
        lemma_decimal_value(n as nat);
    }
    crate::text::string_from_chars(&ds)
}

/// Largest magnitude `format_fixed` writes: below `10^28` units.
pub const MAX_FIXED: i128 = 10_000_000_000_000_000_000_000_000_000;

} // verus!

verus! {

/// The value of an unsigned integer literal as Rust's integer parsing reads
/// it: an optional '+' then one or more decimal digits.
pub open spec fn uint_value(s: Seq<char>) -> Option<int> {
    let t = if s.len() > 0 && s[0] == '+' {
        s.drop_first()
    } else {
        s
    };
    if t.len() > 0 && all_digits(t) {
        Some(digits_value(t))
    } else {
        None
    }
}

/// `str::parse::<u64>`.
pub fn parse_u64(s: &str) -> (r: Option<u64>)
    ensures
        r == (match uint_value(s@) {
            Some(v) => if v <= u64::MAX {
                Some(v as u64)
            } else {
                None
            },
            None => None,
        }),
        r matches Some(x) ==> uint_value(s@) == Some(x as int),
        uint_value(s@) matches Some(v) ==> v >= 0,
{
    let cs = chars_of(s);
    let n = cs.len();
    let start: usize = if n > 0 && cs[0] == '+' { 1 } else { 0 };
    let ghost t = if s@.len() > 0 && s@[0] == '+' { s@.drop_first() } else { s@ };
    proof {
        assert(t =~= cs@.subrange(start as int, n as int));
    }
    if start >= n {
        return None;
    }
    proof {
        if uint_value(s@) is Some {
            lemma_digits_value_bound(t);
        }
    }
    let mut acc: u64 = 0;
    let mut i: usize = start;
    let mut overflow = false;
    while i < n
        invariant
            start <= i <= n,
            n == cs.len(),
            t == cs@.subrange(start as int, n as int),
            cs@ == s@,
            t == (if s@.len() > 0 && s@[0] == '+' { s@.drop_first() } else { s@ }),
            forall|j: int| start <= j < i ==> is_digit(#[trigger] cs@[j]),
            !overflow ==> acc == digits_value(cs@.subrange(start as int, i as int)),
            overflow ==> digits_value(cs@.subrange(start as int, i as int)) > u64::MAX,
            digits_value(cs@.subrange(start as int, i as int)) >= 0,
        decreases n - i,
    {
        let c = cs[i];
        if !('0' <= c && c <= '9') {
            proof {
                assert(t[i - start] == cs@[i as int]);
                assert(!is_digit(t[i - start]));
                assert(!all_digits(t));
            }
            return None;
        }
        let d = (c as u32 - '0' as u32) as u64;
        proof {
            lemma_digits_step(cs@, start as int, i as int);
        }
        let ghost prev = digits_value(cs@.subrange(start as int, i as int));
        if !overflow {
            if acc > (u64::MAX - d) / 10 {
                proof {
                    assert(acc * 10 + d > u64::MAX) by (nonlinear_arith)
                        requires
                            acc > (u64::MAX - d) / 10,
                            d < 10,
                    ;
                }
                overflow = true;
            } else {
                proof {
                    assert(acc * 10 + d <= u64::MAX) by (nonlinear_arith)
                        requires
                            acc <= (u64::MAX - d) / 10,
                            d < 10,
                    ;
                }
                acc = acc * 10 + d;
            }
        } else {
            proof {
                assert(prev * 10 + d > u64::MAX) by (nonlinear_arith)
                    requires
                        prev > u64::MAX,
                        d >= 0,
                ;
            }
        }
        i = i + 1;
    }
    proof {
        assert(cs@.subrange(start as int, n as int) == t);
        assert(all_digits(t)) by {
            assert forall|j: int| 0 <= j < t.len() implies is_digit(#[trigger] t[j]) by {
                assert(t[j] == cs@[start + j]);
            }
        }
        lemma_digits_value_bound(t);
    }
    if overflow {
        None
    } else {
        Some(acc)
    }
}

} // verus!

verus! {

/// `str::parse::<u32>`.
pub fn parse_u32(s: &str) -> (r: Option<u32>)
    ensures
        r == (match uint_value(s@) {
            Some(v) => if 0 <= v <= u32::MAX {
                Some(v as u32)
            } else {
                None
            },
            None => None,
        }),
{
    match parse_u64(s) {
        Some(v) => if v <= u32::MAX as u64 {
            Some(v as u32)
        } else {
            None
        },
        None => None,
    }
}

/// `str::parse::<usize>`.
pub fn parse_usize(s: &str) -> (r: Option<usize>)
    ensures
        r == (match uint_value(s@) {
            Some(v) => if 0 <= v <= usize::MAX {
                Some(v as usize)
            } else {
                None
            },
            None => None,
        }),
{
    match parse_u64(s) {
        Some(v) => if v as u128 <= usize::MAX as u128 {
            Some(v as usize)
        } else {
            None
        },
        None => None,
    }
}

/// `str::parse::<bool>`: exactly "true" or "false".
pub fn parse_bool(s: &str) -> (r: Option<bool>)
    ensures
        r == (if s@ == "true"@ {
            Some(true)
        } else if s@ == "false"@ {
            Some(false)
        } else {
            None
        }),
{
    if crate::text::str_eq(s, "true") {
        Some(true)
    } else if crate::text::str_eq(s, "false") {
        Some(false)
    } else {
        None
    }
}

} // verus!

verus! {

/// `ds` are the fractional digits of `f` units of `10^-8`: at most eight,
/// the last not zero.
pub open spec fn fraction_text(ds: Seq<char>, f: int) -> bool {
    &&& all_digits(ds)
    &&& 0 < ds.len() <= FRACTION_DIGITS
    &&& ds.last() != '0'
    &&& digits_value(ds) * pow10((FRACTION_DIGITS - ds.len()) as nat) == f
}

/// The magnitude of a value.
pub open spec fn abs_units(v: int) -> int {
    if v < 0 { -v } else { v }
}

/// "-" for a negative value, nothing otherwise.
pub open spec fn sign_text(v: int) -> Seq<char> {
    if v < 0 { seq!['-'] } else { Seq::<char>::empty() }
}

/// `t` is `head`, a '.', and the fractional digits of `f` units.
pub open spec fn with_fraction(head: Seq<char>, f: int, t: Seq<char>) -> bool {
    exists|ds: Seq<char>| #[trigger] fraction_text(ds, f) && t == head + seq!['.'] + ds
}

/// `t` is the shortest decimal text of `v` units of `10^-8`: a '-' for a
/// negative value, the integer digits, and the fraction without trailing
/// zeros when there is one.
pub open spec fn units_shown(v: int, t: Seq<char>) -> bool {
    let head = sign_text(v) + decimal((abs_units(v) / 100_000_000) as nat);
    if abs_units(v) % 100_000_000 == 0 {
        t == head
    } else {
        with_fraction(head, abs_units(v) % 100_000_000, t)
    }
}

/// Writes any fixed-point value as its shortest decimal text (see
/// `units_shown`), e.g. "100.8", "-0.5", "45000".
pub fn format_units(v: i128) -> (r: String)
    ensures
        units_shown(v as int, r@),
{
    let neg = v < 0;
    let mag: u128 = if neg { ((-(v + 1)) as u128) + 1 } else { v as u128 };
    let q = mag / 100_000_000;
    let f = mag % 100_000_000;
    let ghost m: int = abs_units(v as int);
    let ghost head = sign_text(v as int) + decimal((m / 100_000_000) as nat);
    let mut out: Vec<char> = Vec::new();
    if neg {
        out.push('-');
    }
    let qs = format_u128(q);
    let qc = chars_of(qs.as_str());
    push_all(&mut out, &qc, 0, qc.len());
    proof {
        assert(mag == m);
        assert(q == m / 100_000_000);
        assert(qc@.subrange(0, qc@.len() as int) =~= qc@);
        assert(out@ =~= head);
    }
    if f > 0 {
        out.push('.');
        let ds = fraction_digits(f);
        push_all(&mut out, &ds, 0, ds.len());
        proof {
            assert(ds@.subrange(0, ds@.len() as int) =~= ds@);
            assert(out@ =~= head + seq!['.'] + ds@);
            assert(fraction_text(ds@, f as int));
            assert(f == m % 100_000_000);
            assert(fraction_text(ds@, m % 100_000_000));
            assert(units_shown(v as int, out@));
        }
    } else {
        proof {
            assert(m % 100_000_000 == 0);
            assert(units_shown(v as int, out@));
        }
    }
    crate::text::string_from_chars(&out)
}

} // verus!
