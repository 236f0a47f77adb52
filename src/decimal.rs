//! Natural numbers of any size as decimal digits, least significant first:
//! what the size parser needs to compare byte counts exactly.
use vstd::prelude::*;
use crate::progress::pow10;

verus! {

/// The `i`-th digit of `s`, zero past its end.
pub open spec fn digit_at(s: Seq<u8>, i: int) -> nat {
    if 0 <= i < s.len() {
        s[i] as nat
    } else {
        0
    }
}

/// The value of the first `n` digits of `s`.
pub open spec fn val_upto(s: Seq<u8>, n: nat) -> nat
    decreases n,
{
    if n == 0 {
        0
    } else {
        val_upto(s, (n - 1) as nat) + digit_at(s, n - 1) * pow10((n - 1) as nat)
    }
}

/// The number that the digits of `s` write, least significant first.
pub open spec fn le_val(s: Seq<u8>) -> nat {
    val_upto(s, s.len())
}

/// Every element of `s` is a decimal digit.
pub open spec fn digits_ok(s: Seq<u8>) -> bool {
    forall|i: int| 0 <= i < s.len() ==> #[trigger] s[i] < 10
}

/// The largest factor `mul_small` takes.
pub const MAX_FACTOR: u64 = 4_503_599_627_370_496;

proof fn lemma_val_past_end(s: Seq<u8>, n: nat)
    requires
        n >= s.len(),
    ensures
        val_upto(s, n) == le_val(s),
    decreases n,
{
    if n > s.len() {
        lemma_val_past_end(s, (n - 1) as nat);
    }
}

proof fn lemma_val_push(s: Seq<u8>, x: u8, n: nat)
    requires
        n <= s.len(),
    ensures
        val_upto(s.push(x), n) == val_upto(s, n),
    decreases n,
{
    if n > 0 {
        lemma_val_push(s, x, (n - 1) as nat);
    }
}

proof fn lemma_pow10_succ(n: nat)
    ensures
        pow10(n + 1) == 10 * pow10(n),
        pow10(n) >= 1,
    decreases n,
{
    if n > 0 {
        lemma_pow10_succ((n - 1) as nat);
    }
}

#[verifier::nonlinear]
proof fn lemma_mul_step(w: int, v: int, p: int, ai: int, m: int, carry: int, c2: int, d: int)
    requires
        w + carry * p == m * v,
        ai * m + carry == 10 * c2 + d,
    ensures
        w + d * p + c2 * (10 * p) == m * (v + ai * p),
{
}

/// `a` times `m`.
pub fn mul_small(a: &Vec<u8>, m: u64) -> (r: Vec<u8>)
    requires
        digits_ok(a@),
        m <= MAX_FACTOR,
    ensures
        digits_ok(r@),
        le_val(r@) == le_val(a@) * m,
{
    let mut out: Vec<u8> = Vec::new();
    let mut carry: u64 = 0;
    let mut i: usize = 0;
    assert(val_upto(a@, 0) == 0 && val_upto(out@, 0) == 0);
    assert(m * val_upto(a@, 0) == 0) by (nonlinear_arith)
        requires
            val_upto(a@, 0) == 0,
    ;
    while i < a.len()
        invariant
            digits_ok(a@),
            digits_ok(out@),
            m <= MAX_FACTOR,
            i <= a@.len(),
            out@.len() == i,
            carry <= m,
            val_upto(out@, i as nat) + carry * pow10(i as nat) == m * val_upto(a@, i as nat),
        decreases a@.len() - i,
    {
        let ai = a[i] as u64;
        assert(ai < 10);
        assert(ai * m <= 9 * m) by (nonlinear_arith)
            requires
                ai < 10,
        ;
        let t = ai * m + carry;
        let d = t % 10;
        let c2 = t / 10;
        assert(c2 <= m);
        let ghost prev = out@;
        out.push(d as u8);
        proof {
            lemma_val_push(prev, d as u8, i as nat);
            lemma_pow10_succ(i as nat);
            assert(digit_at(out@, i as int) == d);
            assert(digit_at(a@, i as int) == ai);
            lemma_mul_step(
                val_upto(prev, i as nat) as int,
                val_upto(a@, i as nat) as int,
                pow10(i as nat) as int,
                ai as int,
                m as int,
                carry as int,
                c2 as int,
                d as int,
            );
        }
        carry = c2;
        i = i + 1;
    }
    let ghost mut gi: nat = i as nat;
    while carry > 0
        invariant
            digits_ok(a@),
            digits_ok(out@),
            gi >= a@.len(),
            out@.len() == gi,
            val_upto(out@, gi) + carry * pow10(gi) == m * val_upto(a@, gi),
        decreases carry,
    {
        let d = carry % 10;
        let c2 = carry / 10;
        let ghost prev = out@;
        out.push(d as u8);
        proof {
            lemma_val_push(prev, d as u8, gi);
            lemma_pow10_succ(gi);
            assert(digit_at(out@, gi as int) == d);
            assert(digit_at(a@, gi as int) == 0);
            lemma_mul_step(
                val_upto(prev, gi) as int,
                val_upto(a@, gi) as int,
                pow10(gi) as int,
                0,
                m as int,
                carry as int,
                c2 as int,
                d as int,
            );
        }
        carry = c2;
        proof {
            gi = gi + 1;
        }
    }
    proof {
        lemma_val_past_end(a@, gi);
        assert(m * le_val(a@) == le_val(a@) * m);
    }
    out
}

/// `a` times `10^k`.
pub fn mul_pow10(a: &Vec<u8>, k: usize) -> (r: Vec<u8>)
    requires
        digits_ok(a@),
    ensures
        digits_ok(r@),
        le_val(r@) == le_val(a@) * pow10(k as nat),
{
    let mut acc: Vec<u8> = mul_small(a, 1);
    let mut j: usize = 0;
    while j < k
        invariant
            j <= k,
            digits_ok(acc@),
            le_val(acc@) == le_val(a@) * pow10(j as nat),
        decreases k - j,
    {
        acc = mul_small(&acc, 10);
        proof {
            lemma_pow10_succ(j as nat);
            assert(le_val(a@) * pow10(j as nat) * 10 == le_val(a@) * pow10((j + 1) as nat))
                by (nonlinear_arith)
                requires
                    pow10((j + 1) as nat) == 10 * pow10(j as nat),
            ;
        }
        j = j + 1;
    }
    acc
}

#[verifier::nonlinear]
proof fn lemma_cmp_step(old: int, p: int, e: int)
    requires
        0 <= old < p,
        0 <= e <= 9,
    ensures
        0 <= old + e * p < 10 * p,
{
}

/// Whether `a` is at most `b`.
pub fn le_cmp(a: &Vec<u8>, b: &Vec<u8>) -> (r: bool)
    requires
        digits_ok(a@),
        digits_ok(b@),
    ensures
        r == (le_val(a@) <= le_val(b@)),
{
    let n = if a.len() > b.len() {
        a.len()
    } else {
        b.len()
    };
    let mut borrow: i64 = 0;
    let mut i: usize = 0;
    while i < n
        invariant
            digits_ok(a@),
            digits_ok(b@),
            n >= a@.len(),
            n >= b@.len(),
            i <= n,
            0 <= borrow <= 1,
            0 <= val_upto(b@, i as nat) - val_upto(a@, i as nat) + borrow * pow10(i as nat)
                < pow10(i as nat),
        decreases n - i,
    {
        let ai: i64 = if i < a.len() {
            a[i] as i64
        } else {
            0
        };
        let bi: i64 = if i < b.len() {
            b[i] as i64
        } else {
            0
        };
        let t = bi - ai - borrow;
        let next: i64 = if t < 0 {
            1
        } else {
            0
        };
        proof {
            lemma_pow10_succ(i as nat);
            let p = pow10(i as nat) as int;
            let old_v = val_upto(b@, i as nat) - val_upto(a@, i as nat) + borrow * p;
            assert(digit_at(a@, i as int) == ai && digit_at(b@, i as int) == bi);
            lemma_cmp_step(old_v, p, t + 10 * next);
            assert(val_upto(b@, (i + 1) as nat) - val_upto(a@, (i + 1) as nat) + next * pow10(
                (i + 1) as nat,
            ) == old_v + (t + 10 * next) * p) by (nonlinear_arith)
                requires
                    val_upto(b@, (i + 1) as nat) == val_upto(b@, i as nat) + bi * p,
                    val_upto(a@, (i + 1) as nat) == val_upto(a@, i as nat) + ai * p,
                    pow10((i + 1) as nat) == 10 * p,
                    old_v == val_upto(b@, i as nat) - val_upto(a@, i as nat) + borrow * p,
                    t == bi - ai - borrow,
            ;
        }
        borrow = next;
        i = i + 1;
    }
    proof {
        lemma_val_past_end(a@, n as nat);
        lemma_val_past_end(b@, n as nat);
    }
    borrow == 0
}

} // verus!
