use vstd::prelude::*;

use crate::text::{all_digits, digit_value, digits_value, is_digit, is_numeral, parse_u64};

verus! {

/// Smallest units of the chain's currency in one display unit.
pub const NANOERGS_PER_ERG: u64 = 1000000000;

pub open spec fn pow10(n: nat) -> nat
    decreases n,
{
    if n == 0 {
        1
    } else {
        10 * pow10((n - 1) as nat)
    }
}

/// What the digits after the point add, in smallest units: exact up to nine
/// digits; beyond that rounded to the nearest unit, a half rounding up.
pub open spec fn fraction_nanos(f: Seq<char>) -> nat {
    if f.len() <= 9 {
        digits_value(f) * pow10((9 - f.len()) as nat)
    } else {
        digits_value(f.take(9)) + if digit_value(f[9]) >= 5 {
            1nat
        } else {
            0nat
        }
    }
}

/// `s` is digits, a point at `k`, and digits again, with at least one digit on
/// each side.
pub open spec fn is_point_split(s: Seq<char>, k: int) -> bool {
    &&& 0 < k
    &&& k + 1 < s.len()
    &&& s[k] == '.'
    &&& all_digits(s.take(k))
    &&& all_digits(s.skip(k + 1))
}

/// The smallest-unit amount that the display amount `s` denotes: a numeral,
/// or a numeral with a fractional part.
pub open spec fn nanos_of_amount(s: Seq<char>) -> Option<nat> {
    if is_numeral(s) {
        Some(digits_value(s) * pow10(9))
    } else if exists|k: int| is_point_split(s, k) {
        let k = choose|k: int| is_point_split(s, k);
        Some(digits_value(s.take(k)) * pow10(9) + fraction_nanos(s.skip(k + 1)))
    } else {
        None
    }
}

/// What `erg_to_nanoerg` returns: the smallest-unit amount where it fits in 64 bits.
pub open spec fn nanoerg_outcome(s: Seq<char>) -> Option<u64> {
    match nanos_of_amount(s) {
        Some(v) => if v <= u64::MAX {
            Some(v as u64)
        } else {
            None
        },
        None => None,
    }
}

proof fn lemma_pow10_9()
    ensures
        pow10(9) == 1000000000,
{
    assert(pow10(0) == 1);
    assert(pow10(1) == 10);
    assert(pow10(2) == 100);
    assert(pow10(3) == 1000);
    assert(pow10(4) == 10000);
    assert(pow10(5) == 100000);
    assert(pow10(6) == 1000000);
    assert(pow10(7) == 10000000);
    assert(pow10(8) == 100000000);
    assert(pow10(9) == 1000000000);
}

proof fn lemma_pow10_add(a: nat, b: nat)
    ensures
        pow10(a + b) == pow10(a) * pow10(b),
    decreases b,
{
    if b > 0 {
        lemma_pow10_add(a, (b - 1) as nat);
        assert(pow10(a + b) == 10 * pow10((a + b - 1) as nat));
        assert(pow10(b) == 10 * pow10((b - 1) as nat));
        assert((a + b - 1) as nat == a + (b - 1) as nat);
        assert(pow10(a) * (10 * pow10((b - 1) as nat)) == 10 * (pow10(a) * pow10((b - 1) as nat)))
            by (nonlinear_arith);
    } else {
        assert(pow10(0) == 1);
        assert(a + b == a);
    }
}

proof fn lemma_pow10_mono(a: nat, b: nat)
    requires
        a <= b,
    ensures
        pow10(a) <= pow10(b),
    decreases b,
{
    if a < b {
        lemma_pow10_mono(a, (b - 1) as nat);
    }
}

/// A run of `n` digits denotes less than ten to the `n`.
proof fn lemma_digits_bound(s: Seq<char>)
    requires
        all_digits(s),
    ensures
        digits_value(s) < pow10(s.len()),
    decreases s.len(),
{
    if s.len() > 0 {
        let t = s.drop_last();
        assert(all_digits(t)) by {
            assert forall|i: int| 0 <= i < t.len() implies is_digit(#[trigger] t[i]) by {
                assert(t[i] == s[i]);
            }
        }
        lemma_digits_bound(t);
        assert(is_digit(s[s.len() - 1]));
        let p = pow10(t.len());
        assert(digits_value(t) * 10 + digit_value(s.last()) < 10 * p) by (nonlinear_arith)
            requires
                digits_value(t) < p,
                digit_value(s.last()) < 10,
        ;
    }
}

/// Digits written after others shift them by one place each.
proof fn lemma_concat_value(a: Seq<char>, b: Seq<char>)
    ensures
        digits_value(a + b) == digits_value(a) * pow10(b.len()) + digits_value(b),
    decreases b.len(),
{
    if b.len() == 0 {
        assert(a + b =~= a);
        assert(pow10(0) == 1);
    } else {
        let c = b.drop_last();
        lemma_concat_value(a, c);
        assert((a + b).drop_last() =~= a + c);
        assert((a + b).last() == b.last());
        let x = digits_value(a);
        let p = pow10(c.len());
        let y = digits_value(c);
        assert(digits_value(a + b) == digits_value(a + c) * 10 + digit_value(b.last()));
        assert(digits_value(b) == y * 10 + digit_value(b.last()));
        assert(pow10(b.len()) == 10 * p);
        assert((x * p + y) * 10 == x * (10 * p) + y * 10) by (nonlinear_arith);
    }
}

proof fn lemma_point_split_unique(s: Seq<char>, k1: int, k2: int)
    requires
        is_point_split(s, k1),
        is_point_split(s, k2),
    ensures
        k1 == k2,
{
    if k1 < k2 {
        assert(s.take(k2)[k1] == s[k1]);
        assert(is_digit(s.take(k2)[k1]));
    } else if k2 < k1 {
        assert(s.take(k1)[k2] == s[k2]);
        assert(is_digit(s.take(k1)[k2]));
    }
}

/// The index of the first point in `s`, or the length of `s` where it has none.
fn first_point(s: &str) -> (k: usize)
    ensures
        k <= s@.len(),
        forall|j: int| 0 <= j < k ==> s@[j] != '.',
        k < s@.len() ==> s@[k as int] == '.',
{
    let n = s.unicode_len();
    let mut k: usize = 0;
    while k < n
        invariant
            n == s@.len(),
            k <= n,
            forall|j: int| 0 <= j < k ==> s@[j] != '.',
        decreases n - k,
    {
        if s.get_char(k) == '.' {
            return k;
        }
        k = k + 1;
    }
    k
}

/// The smallest units that the digits after the point add, or `None` where they
/// are not a numeral.
fn fraction_value(f: &str) -> (r: Option<u64>)
    ensures
        r == (if is_numeral(f@) {
            Some(fraction_nanos(f@) as u64)
        } else {
            None::<u64>
        }),
        r is Some ==> fraction_nanos(f@) <= pow10(9),
{
    let m = f.unicode_len();
    if m == 0 {
        return None;
    }
    let mut i: usize = 0;
    while i < m
        invariant
            m == f@.len(),
            0 <= i <= m,
            forall|j: int| 0 <= j < i ==> is_digit(#[trigger] f@[j]),
        decreases m - i,
    {
        let c = f.get_char(i);
        if !('0' <= c && c <= '9') {
            return None;
        }
        i = i + 1;
    }
    proof {
        lemma_pow10_9();
    }
    let lim: usize = if m < 9 {
        m
    } else {
        9
    };
    let mut v: u64 = 0;
    let mut j: usize = 0;
    while j < lim
        invariant
            m == f@.len(),
            all_digits(f@),
            lim <= m,
            lim <= 9,
            0 <= j <= lim,
            v as nat == digits_value(f@.take(j as int)),
            v < pow10(j as nat),
            pow10(9) == 1000000000,
        decreases lim - j,
    {
        let c = f.get_char(j);
        let d = (c as u32 - '0' as u32) as u64;
        proof {
            assert(f@.take(j + 1).drop_last() =~= f@.take(j as int));
            assert(is_digit(f@[j as int]));
            lemma_pow10_mono((j + 1) as nat, 9);
            let p = pow10(j as nat);
            assert(v * 10 + d < 10 * p) by (nonlinear_arith)
                requires
                    v < p,
                    d < 10,
            ;
        }
        v = v * 10 + d;
        j = j + 1;
    }
    if m <= 9 {
        assert(f@.take(m as int) =~= f@);
        assert(pow10(0) == 1);
        assert(v as nat == digits_value(f@) * pow10(0));
        let mut p: usize = m;
        while p < 9
            invariant
                m <= p <= 9,
                m == f@.len(),
                v as nat == digits_value(f@) * pow10((p - m) as nat),
                v < pow10(p as nat),
                pow10(9) == 1000000000,
            decreases 9 - p,
        {
            proof {
                lemma_pow10_mono((p + 1) as nat, 9);
                let q = pow10((p - m) as nat);
                assert(pow10((p + 1 - m) as nat) == 10 * q);
                assert(digits_value(f@) * q * 10 == digits_value(f@) * (10 * q)) by (nonlinear_arith);
            }
            v = v * 10;
            p = p + 1;
        }
        Some(v)
    } else {
        let c = f.get_char(9);
        if c >= '5' {
            Some(v + 1)
        } else {
            Some(v)
        }
    }
}

/// Converts a display amount to the chain's smallest unit (`amount * 10^9`):
/// `amount` is a numeral, optionally followed by a point and more digits; past
/// the ninth digit after the point the result is rounded to the nearest unit.
/// `None` where the text is no amount or the result does not fit in a `u64`.
pub fn erg_to_nanoerg(amount: &str) -> (r: Option<u64>)
    ensures
        r == nanoerg_outcome(amount@),
{
    let n = amount.unicode_len();
    let k = first_point(amount);
    proof {
        lemma_pow10_9();
    }
    if k == n {
        proof {
            assert forall|k2: int| !is_point_split(amount@, k2) by {
                if 0 < k2 < amount@.len() {
                    assert(amount@[k2] != '.');
                }
            }
        }
        return match parse_u64(amount) {
            Some(w) => w.checked_mul(NANOERGS_PER_ERG),
            None => None,
        };
    }
    assert(!is_digit(amount@[k as int]));
    assert(!is_numeral(amount@));
    let whole = amount.substring_char(0, k);
    let frac = amount.substring_char(k + 1, n);
    assert(whole@ =~= amount@.take(k as int));
    assert(frac@ =~= amount@.skip(k + 1));
    proof {
        assert forall|k2: int| is_point_split(amount@, k2) implies k2 == k by {
            if k2 < k {
                assert(amount@[k2] != '.');
            } else if k2 > k {
                assert(amount@.take(k2)[k as int] == amount@[k as int]);
                assert(is_digit(amount@.take(k2)[k as int]));
            }
        }
        if is_numeral(whole@) && is_numeral(frac@) {
            assert(is_point_split(amount@, k as int));
        }
    }
    let w = match parse_u64(whole) {
        Some(w) => w,
        None => {
            proof {
                if is_point_split(amount@, k as int) {
                    assert(is_numeral(whole@));
                    assert(digits_value(whole@) * pow10(9) >= digits_value(whole@)) by (
                    nonlinear_arith)
                        requires
                            pow10(9) == 1000000000,
                    ;
                }
            }
            return None;
        },
    };
    let f = match fraction_value(frac) {
        Some(f) => f,
        None => {
            return None;
        },
    };
    assert(is_point_split(amount@, k as int));
    let total: u128 = w as u128 * NANOERGS_PER_ERG as u128 + f as u128;
    if total > u64::MAX as u128 {
        None
    } else {
        Some(total as u64)
    }
}

/// Converting a display amount written with a point gives the nearest whole
/// number of smallest units to the amount times 10^9 (a half rounds up), and
/// exactly that product where at most nine digits follow the point. Here the
/// amount is `digits_value(whole + frac) / 10^k`, with `k` digits after the point.
pub proof fn lemma_amount_rounds_to_nearest(whole: Seq<char>, frac: Seq<char>)
    requires
        is_numeral(whole),
        is_numeral(frac),
    ensures
        ({
            let s = whole + seq!['.'] + frac;
            let k = frac.len();
            let exact = digits_value(whole + frac) * pow10(9);
            &&& nanos_of_amount(s) is Some
            &&& 2 * abs_diff(nanos_of_amount(s)->0 * pow10(k), exact) <= pow10(k)
            &&& k <= 9 ==> nanos_of_amount(s)->0 * pow10(k) == exact
        }),
{
    let s = whole + seq!['.'] + frac;
    let k0 = whole.len() as int;
    let k = frac.len();
    assert(s.take(k0) =~= whole);
    assert(s.skip(k0 + 1) =~= frac);
    assert(s[k0] == '.');
    assert(is_point_split(s, k0));
    assert(!is_digit(s[k0]));
    assert(!is_numeral(s));
    let kc = choose|kk: int| is_point_split(s, kk);
    lemma_point_split_unique(s, kc, k0);
    let wv = digits_value(whole);
    let fv = digits_value(frac);
    let fnanos = fraction_nanos(frac);
    let p9 = pow10(9);
    let pk = pow10(k);
    assert(nanos_of_amount(s) == Some(wv * p9 + fnanos));
    lemma_concat_value(whole, frac);
    let exact = digits_value(whole + frac) * p9;
    assert(exact == (wv * pk + fv) * p9);
    let n = wv * p9 + fnanos;
    assert(n * pk == wv * p9 * pk + fnanos * pk) by (nonlinear_arith)
        requires
            n == wv * p9 + fnanos,
    ;
    assert(exact == wv * pk * p9 + fv * p9) by (nonlinear_arith)
        requires
            exact == (wv * pk + fv) * p9,
    ;
    assert(wv * p9 * pk == wv * pk * p9) by (nonlinear_arith);
    if k <= 9 {
        lemma_pow10_add((9 - k) as nat, k);
        assert(fnanos == fv * pow10((9 - k) as nat));
        assert(fnanos * pk == fv * p9) by (nonlinear_arith)
            requires
                fnanos == fv * pow10((9 - k) as nat),
                p9 == pow10((9 - k) as nat) * pk,
        ;
    } else {
        let head = frac.take(9);
        let tail = frac.skip(9);
        assert(frac =~= head + tail);
        lemma_concat_value(head, tail);
        let d9 = digits_value(head);
        let r = digits_value(tail);
        let big_p = pow10((k - 9) as nat);
        assert(fv == d9 * big_p + r);
        let c = tail[0];
        let rest = tail.skip(1);
        assert(tail =~= seq![c] + rest);
        lemma_concat_value(seq![c], rest);
        assert(seq![c].drop_last() =~= Seq::<char>::empty());
        assert(digits_value(Seq::<char>::empty()) == 0);
        assert(seq![c].last() == c);
        assert(digits_value(seq![c]) == digits_value(seq![c].drop_last()) * 10 + digit_value(c));
        assert(digits_value(seq![c]) == digit_value(c));
        let q = pow10((k - 10) as nat);
        assert(big_p == 10 * q);
        assert(all_digits(rest)) by {
            assert forall|i: int| 0 <= i < rest.len() implies is_digit(#[trigger] rest[i]) by {
                assert(rest[i] == frac[i + 10]);
            }
        }
        lemma_digits_bound(rest);
        let rr = digits_value(rest);
        assert(rest.len() == k - 10);
        assert(r == digit_value(c) * q + rr);
        assert(c == frac[9]);
        assert(is_digit(frac[9]));
        let dc = digit_value(c);
        lemma_pow10_add(9, (k - 9) as nat);
        assert(pk == p9 * big_p);
        let up: nat = if dc >= 5 {
            1
        } else {
            0
        };
        assert(fnanos == d9 + up);
        assert(fnanos * pk == (d9 * big_p + up * big_p) * p9) by (nonlinear_arith)
            requires
                fnanos == d9 + up,
                pk == p9 * big_p,
        ;
        assert(fv * p9 == (d9 * big_p + r) * p9);
        if dc >= 5 {
            assert(2 * (big_p - r) <= big_p) by (nonlinear_arith)
                requires
                    r == dc * q + rr,
                    rr < q,
                    big_p == 10 * q,
                    5 <= dc <= 9,
            ;
            assert(r <= big_p) by (nonlinear_arith)
                requires
                    r == dc * q + rr,
                    rr < q,
                    big_p == 10 * q,
                    dc <= 9,
            ;
            assert(2 * ((big_p - r) * p9) <= big_p * p9) by (nonlinear_arith)
                requires
                    2 * (big_p - r) <= big_p,
                    r <= big_p,
            ;
            assert((d9 * big_p + 1 * big_p) * p9 - (d9 * big_p + r) * p9 == (big_p - r) * p9)
                by (nonlinear_arith)
                requires
                    r <= big_p,
            ;
        } else {
            assert(2 * r <= big_p) by (nonlinear_arith)
                requires
                    r == dc * q + rr,
                    rr < q,
                    big_p == 10 * q,
                    dc <= 4,
            ;
            assert(2 * (r * p9) <= big_p * p9) by (nonlinear_arith)
                requires
                    2 * r <= big_p,
            ;
            assert((d9 * big_p + r) * p9 - (d9 * big_p + 0 * big_p) * p9 == r * p9)
                by (nonlinear_arith);
        }
        assert(big_p * p9 == pk) by (nonlinear_arith)
            requires
                pk == p9 * big_p,
        ;
    }
}

/// The distance between two naturals.
pub open spec fn abs_diff(a: nat, b: nat) -> nat {
    if a >= b {
        (a - b) as nat
    } else {
        (b - a) as nat
    }
}

} // verus!
