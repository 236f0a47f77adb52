//! Pull-progress extraction: turns one line of `pull` output into a short
//! progress label (a percentage, a size ratio or a phase keyword).
use vstd::prelude::*;
use vstd::string::*;
use crate::decimal::{digit_at, digits_ok, le_cmp, le_val, mul_pow10, mul_small, val_upto};
use crate::text::{
    ascii_lower, chars_of, contains, contains_exec, decimal, ends_with, ends_with_exec, index_of,
    index_of_exec, is_ascii_digit, lower_char_exec, push_decimal, push_str,
    slice_chars, split_tokens, string_of, tokens, trim, trim_by, trim_chars, views, CharClass,
};

verus! {

/// `10` to the power `n`.
pub open spec fn pow10(n: nat) -> nat
    decreases n,
{
    if n == 0 {
        1
    } else {
        10 * pow10((n - 1) as nat)
    }
}

/// The number of `c` in `s`.
pub open spec fn count_of(s: Seq<char>, c: char) -> nat
    decreases s.len(),
{
    if s.len() == 0 {
        0
    } else {
        count_of(s.drop_last(), c) + if s.last() == c {
            1nat
        } else {
            0nat
        }
    }
}

/// The number of ASCII digits in `s`.
pub open spec fn count_digits(s: Seq<char>) -> nat
    decreases s.len(),
{
    if s.len() == 0 {
        0
    } else {
        count_digits(s.drop_last()) + if is_ascii_digit(s.last()) {
            1nat
        } else {
            0nat
        }
    }
}

/// The digits of `s` read as one decimal integer, the dot skipped.
pub open spec fn digits_value(s: Seq<char>) -> nat
    decreases s.len(),
{
    if s.len() == 0 {
        0
    } else if s.last() == '.' {
        digits_value(s.drop_last())
    } else {
        digits_value(s.drop_last()) * 10 + ((s.last() as u32) - ('0' as u32)) as nat
    }
}

/// The number of digits after the first dot of `s`.
pub open spec fn fraction_digits(s: Seq<char>) -> nat
    decreases s.len(),
{
    if s.len() == 0 || s.last() == '.' {
        0
    } else if count_of(s.drop_last(), '.') > 0 {
        fraction_digits(s.drop_last()) + 1
    } else {
        0
    }
}

/// A size read from pull output: the number `digits / 10^scale` (its
/// decimal digits least significant first, the dot dropped), in units of
/// `unit` bytes.
#[derive(Clone, Debug)]
pub struct ByteSize {
    pub digits: Vec<u8>,
    pub scale: usize,
    pub unit: u64,
}

/// The digits, the scale and the unit of a size.
pub open spec fn size_view(b: ByteSize) -> (Seq<u8>, nat, nat) {
    (b.digits@, b.scale as nat, b.unit as nat)
}

/// A size is `size_numer / size_denom` bytes.
pub open spec fn size_numer(v: (Seq<u8>, nat, nat)) -> nat {
    le_val(v.0) * v.2
}

pub open spec fn size_denom(v: (Seq<u8>, nat, nat)) -> nat {
    pow10(v.1)
}

pub const UNIT_TIB: u64 = 1_099_511_627_776;

/// The digits of `s` (dots skipped), least significant first.
pub open spec fn le_digits(s: Seq<char>) -> Seq<u8>
    decreases s.len(),
{
    if s.len() == 0 {
        seq![]
    } else if s.last() == '.' {
        le_digits(s.drop_last())
    } else {
        seq![((s.last() as u32) - ('0' as u32)) as u8] + le_digits(s.drop_last())
    }
}

/// The bytes in one unit of the (lower-case) unit suffix `u`, if it is one.
pub open spec fn unit_multiplier(u: Seq<char>) -> Option<nat> {
    if u.len() == 0 || u =~= seq!['b'] {
        Some(1)
    } else if u =~= seq!['k', 'b'] {
        Some(1_000)
    } else if u =~= seq!['m', 'b'] {
        Some(1_000_000)
    } else if u =~= seq!['g', 'b'] {
        Some(1_000_000_000)
    } else if u =~= seq!['t', 'b'] {
        Some(1_000_000_000_000)
    } else if u =~= seq!['k', 'i', 'b'] {
        Some(1_024)
    } else if u =~= seq!['m', 'i', 'b'] {
        Some(1_048_576)
    } else if u =~= seq!['g', 'i', 'b'] {
        Some(1_073_741_824)
    } else if u =~= seq!['t', 'i', 'b'] {
        Some(UNIT_TIB as nat)
    } else {
        None
    }
}

/// The number of leading characters of `s` that are digits or dots.
pub open spec fn number_len(s: Seq<char>) -> nat
    decreases s.len(),
{
    if s.len() > 0 && (is_ascii_digit(s[0]) || s[0] == '.') {
        1 + number_len(s.drop_first())
    } else {
        0
    }
}

/// A run of digits with at most one dot and at least one digit, read as
/// `(digits, scale)`.
pub open spec fn parse_decimal(s: Seq<char>) -> Option<(Seq<u8>, nat)> {
    if count_digits(s) == 0 || count_of(s, '.') > 1 {
        None
    } else {
        Some((le_digits(s), fraction_digits(s)))
    }
}

/// A size token such as `12.5MB` or `1KiB`: the number, then a unit of
/// decimal (`kb` to `tb`) or binary (`kib` to `tib`) multiples, letter case
/// ignored, the surrounding punctuation dropped.
pub open spec fn parse_size(token: Seq<char>) -> Option<(Seq<u8>, nat, nat)> {
    let c = trim_by(token, CharClass::SizeJunk);
    let k = number_len(c) as int;
    if c.len() == 0 {
        None
    } else {
        match (
            parse_decimal(c.subrange(0, k)),
            unit_multiplier(ascii_lower(c.subrange(k, c.len() as int))),
        ) {
            (Some((d, sc)), Some(u)) => Some((d, sc, u)),
            _ => None,
        }
    }
}

pub open spec fn size_ok(b: ByteSize) -> bool {
    digits_ok(b.digits@) && 1 <= b.unit <= UNIT_TIB
}

proof fn lemma_prepend_digit(d: u8, t: Seq<u8>, n: nat)
    ensures
        val_upto(seq![d] + t, n + 1) == d + 10 * val_upto(t, n),
    decreases n,
{
    let s = seq![d] + t;
    if n > 0 {
        lemma_prepend_digit(d, t, (n - 1) as nat);
        assert(digit_at(s, n as int) == digit_at(t, n - 1));
        assert(digit_at(s, n as int) * pow10(n) == 10 * (digit_at(t, n - 1) * pow10(
            (n - 1) as nat,
        ))) by (nonlinear_arith)
            requires
                pow10(n) == 10 * pow10((n - 1) as nat),
                digit_at(s, n as int) == digit_at(t, n - 1),
        ;
        assert(val_upto(s, n + 1) == val_upto(s, n) + digit_at(s, n as int) * pow10(n));
        assert(val_upto(t, n) == val_upto(t, (n - 1) as nat) + digit_at(t, n - 1) * pow10(
            (n - 1) as nat,
        ));
        assert(val_upto(s, n) == d + 10 * val_upto(t, (n - 1) as nat));
    } else {
        assert(digit_at(s, 0) == d);
        assert(pow10(0) == 1);
        assert(val_upto(s, 1) == val_upto(s, 0) + digit_at(s, 0) * pow10(0));
        assert(val_upto(t, 0) == 0);
    }
}

/// The digits of a number, least significant first, write the number that
/// its characters read, the dot skipped.
pub proof fn lemma_le_digits_value(s: Seq<char>)
    requires
        forall|i: int| 0 <= i < s.len() ==> is_ascii_digit(#[trigger] s[i]) || s[i] == '.',
    ensures
        le_val(le_digits(s)) == digits_value(s),
    decreases s.len(),
{
    if s.len() > 0 {
        let p = s.drop_last();
        assert forall|i: int| 0 <= i < p.len() implies is_ascii_digit(#[trigger] p[i]) || p[i]
            == '.' by {
            assert(p[i] == s[i]);
        }
        lemma_le_digits_value(p);
        if s.last() != '.' {
            let d = ((s.last() as u32) - ('0' as u32)) as u8;
            lemma_prepend_digit(d, le_digits(p), le_digits(p).len());
            assert((seq![d] + le_digits(p)).len() == le_digits(p).len() + 1);
        }
    }
}

/// Reads `s`, which holds only digits and dots.
fn parse_decimal_exec(s: &Vec<char>) -> (r: Option<(Vec<u8>, usize)>)
    requires
        forall|i: int| 0 <= i < s@.len() ==> is_ascii_digit(#[trigger] s@[i]) || s@[i] == '.',
    ensures
        match (r, parse_decimal(s@)) {
            (Some((d, sc)), Some((dd, ss))) => d@ == dd && sc == ss && digits_ok(d@),
            (None, None) => true,
            _ => false,
        },
{
    let mut ndigits: usize = 0;
    let mut ndots: usize = 0;
    let mut scale: usize = 0;
    let mut i: usize = 0;
    while i < s.len()
        invariant
            forall|i: int| 0 <= i < s@.len() ==> is_ascii_digit(#[trigger] s@[i]) || s@[i] == '.',
            i <= s@.len(),
            ndots <= 1,
            scale <= ndigits <= i,
            ndots == 0 ==> scale == 0,
            ndigits == count_digits(s@.subrange(0, i as int)),
            ndots == count_of(s@.subrange(0, i as int), '.'),
            scale == fraction_digits(s@.subrange(0, i as int)),
        decreases s@.len() - i,
    {
        let c = s[i];
        let ghost pre = s@.subrange(0, i as int);
        let ghost next = s@.subrange(0, i as int + 1);
        assert(next.drop_last() =~= pre);
        if c == '.' {
            if ndots == 1 {
                proof {
                    lemma_count_prefix(s@, '.', i as int + 1);
                }
                return None;
            }
            ndots = 1;
        } else {
            ndigits = ndigits + 1;
            if ndots == 1 {
                scale = scale + 1;
            }
        }
        i = i + 1;
    }
    assert(s@.subrange(0, i as int) =~= s@);
    if ndigits == 0 {
        return None;
    }
    let mut out: Vec<u8> = Vec::new();
    let mut j: usize = s.len();
    while j > 0
        invariant
            forall|i: int| 0 <= i < s@.len() ==> is_ascii_digit(#[trigger] s@[i]) || s@[i] == '.',
            j <= s@.len(),
            digits_ok(out@),
            le_digits(s@) == out@ + le_digits(s@.subrange(0, j as int)),
        decreases j,
    {
        let c = s[j - 1];
        let ghost sub = s@.subrange(0, j as int);
        assert(sub.drop_last() =~= s@.subrange(0, j as int - 1));
        assert(sub.last() == c);
        if c != '.' {
            let d = (c as u32 - '0' as u32) as u8;
            let ghost prev = out@;
            out.push(d);
            assert(prev + (seq![d] + le_digits(s@.subrange(0, j as int - 1))) =~= out@
                + le_digits(s@.subrange(0, j as int - 1)));
        }
        j = j - 1;
    }
    assert(s@.subrange(0, 0) =~= Seq::<char>::empty());
    assert(out@ + Seq::<u8>::empty() =~= out@);
    Some((out, scale))
}

proof fn lemma_count_prefix(s: Seq<char>, c: char, k: int)
    requires
        0 <= k <= s.len(),
    ensures
        count_of(s.subrange(0, k), c) <= count_of(s, c),
    decreases s.len() - k,
{
    if k < s.len() {
        lemma_count_prefix(s, c, k + 1);
        assert(s.subrange(0, k + 1).drop_last() =~= s.subrange(0, k));
    } else {
        assert(s.subrange(0, k) =~= s);
    }
}

/// `s` with its ASCII letters in lower case.
fn lower_chars(s: &Vec<char>) -> (r: Vec<char>)
    ensures
        r@ == ascii_lower(s@),
{
    let mut out: Vec<char> = Vec::new();
    let mut i: usize = 0;
    while i < s.len()
        invariant
            i <= s@.len(),
            out@ == ascii_lower(s@.subrange(0, i as int)),
        decreases s@.len() - i,
    {
        out.push(lower_char_exec(s[i]));
        i = i + 1;
        assert(out@ =~= ascii_lower(s@.subrange(0, i as int)));
    }
    assert(s@.subrange(0, i as int) =~= s@);
    out
}

fn unit_multiplier_exec(u: &Vec<char>) -> (r: Option<u64>)
    ensures
        match r {
            Some(m) => unit_multiplier(u@) == Some(m as nat) && 1 <= m <= UNIT_TIB,
            None => unit_multiplier(u@) is None,
        },
{
    let n = u.len();
    if n == 0 || (n == 1 && u[0] == 'b') {
        proof {
            if n == 1 {
                assert(u@ =~= seq!['b']);
            }
        }
        return Some(1);
    }
    if n == 2 && u[1] == 'b' {
        let c = u[0];
        proof {
            assert(u@ =~= seq![c, 'b']);
        }
        if c == 'k' {
            return Some(1_000);
        } else if c == 'm' {
            return Some(1_000_000);
        } else if c == 'g' {
            return Some(1_000_000_000);
        } else if c == 't' {
            return Some(1_000_000_000_000);
        }
        return None;
    }
    if n == 3 && u[1] == 'i' && u[2] == 'b' {
        let c = u[0];
        proof {
            assert(u@ =~= seq![c, 'i', 'b']);
        }
        if c == 'k' {
            return Some(1_024);
        } else if c == 'm' {
            return Some(1_048_576);
        } else if c == 'g' {
            return Some(1_073_741_824);
        } else if c == 't' {
            return Some(UNIT_TIB);
        }
        return None;
    }
    proof {
        if n == 1 {
            assert(u@ != seq!['b']) by {
                assert(seq!['b'][0] == 'b');
            }
        }
        if n == 2 {
            assert(!(u@ =~= seq!['k', 'b']) && !(u@ =~= seq!['m', 'b']) && !(u@ =~= seq!['g', 'b'])
                && !(u@ =~= seq!['t', 'b'])) by {
                assert(u@[1] != 'b');
            }
        }
        if n == 3 {
            assert(!(u@ =~= seq!['k', 'i', 'b']) && !(u@ =~= seq!['m', 'i', 'b']) && !(u@
                =~= seq!['g', 'i', 'b']) && !(u@ =~= seq!['t', 'i', 'b'])) by {
                assert(u@[1] != 'i' || u@[2] != 'b');
            }
        }
    }
    None
}

/// Reads one size token (see `parse_size`).
pub fn parse_size_to_bytes(token: &Vec<char>) -> (r: Option<ByteSize>)
    ensures
        match (r, parse_size(token@)) {
            (Some(b), Some(v)) => size_view(b) == v && size_ok(b),
            (None, None) => true,
            _ => false,
        },
{
    let c = trim_chars(token, CharClass::SizeJunk);
    let n = c.len();
    if n == 0 {
        return None;
    }
    let mut k: usize = 0;
    assert(c@.subrange(0, n as int) =~= c@);
    while k < n && (('0' <= c[k] && c[k] <= '9') || c[k] == '.')
        invariant
            n == c@.len(),
            k <= n,
            number_len(c@) == k + number_len(c@.subrange(k as int, n as int)),
            forall|i: int| 0 <= i < k ==> is_ascii_digit(#[trigger] c@[i]) || c@[i] == '.',
        decreases n - k,
    {
        assert(c@.subrange(k as int, n as int).drop_first() =~= c@.subrange(k as int + 1, n as int));
        k = k + 1;
    }
    assert(number_len(c@) == k);
    let num = slice_chars(&c, 0, k);
    let unit = lower_chars(&slice_chars(&c, k, n));
    match (parse_decimal_exec(&num), unit_multiplier_exec(&unit)) {
        (Some((d, sc)), Some(u)) => Some(ByteSize { digits: d, scale: sc, unit: u }),
        _ => None,
    }
}

/// The first token from `i` on that, trimmed of surrounding punctuation,
/// holds a `/`; trimmed.
pub open spec fn ratio_token_from(toks: Seq<Seq<char>>, i: int) -> Option<Seq<char>>
    decreases toks.len() - i,
{
    if i < 0 || i >= toks.len() {
        None
    } else if index_of(trim_by(toks[i], CharClass::RatioJunk), '/') >= 0 {
        Some(trim_by(toks[i], CharClass::RatioJunk))
    } else {
        ratio_token_from(toks, i + 1)
    }
}

/// The `done/total` pair of the first token that holds a `/`, when both
/// sides read as sizes.
pub open spec fn size_ratio(toks: Seq<Seq<char>>) -> Option<
    ((Seq<u8>, nat, nat), (Seq<u8>, nat, nat)),
> {
    match ratio_token_from(toks, 0) {
        Some(c) => {
            let k = index_of(c, '/');
            match (parse_size(c.subrange(0, k)), parse_size(c.subrange(k + 1, c.len() as int))) {
                (Some(a), Some(b)) => Some((a, b)),
                _ => None,
            }
        },
        None => None,
    }
}

/// Reads the first `done/total` size pair among `toks`.
pub fn extract_size_ratio(toks: &Vec<Vec<char>>) -> (r: Option<(ByteSize, ByteSize)>)
    ensures
        match (r, size_ratio(views(toks@))) {
            (Some((a, b)), Some((va, vb))) => size_view(a) == va && size_view(b) == vb
                && size_ok(a) && size_ok(b),
            (None, None) => true,
            _ => false,
        },
{
    let ghost vs = views(toks@);
    let mut i: usize = 0;
    while i < toks.len()
        invariant
            vs == views(toks@),
            i <= toks@.len(),
            ratio_token_from(vs, 0) == ratio_token_from(vs, i as int),
        decreases toks@.len() - i,
    {
        let c = trim_chars(&toks[i], CharClass::RatioJunk);
        assert(vs[i as int] == toks@[i as int]@);
        match index_of_exec(&c, '/') {
            Some(k) => {
                let left = slice_chars(&c, 0, k);
                let right = slice_chars(&c, k + 1, c.len());
                return match (parse_size_to_bytes(&left), parse_size_to_bytes(&right)) {
                    (Some(a), Some(b)) => Some((a, b)),
                    _ => None,
                };
            },
            None => {},
        }
        i = i + 1;
    }
    None
}

/// `done/total` as a whole percentage, rounded half up, at most 100.
pub open spec fn ratio_percent(done: (Seq<u8>, nat, nat), total: (Seq<u8>, nat, nat)) -> nat {
    let n = 100 * size_numer(done) * size_denom(total);
    let d = size_numer(total) * size_denom(done);
    let r = (2 * n + d) / (2 * d);
    if r > 100 {
        100
    } else {
        r
    }
}

#[verifier::nonlinear]
proof fn lemma_round_test(p: int, x: int, y: int, q: int, rem: int)
    requires
        y > 0,
        p >= 1,
        x >= 0,
        200 * x + y == (2 * y) * q + rem,
        0 <= rem < 2 * y,
    ensures
        ((2 * p - 1) * y <= 200 * x) == (p <= q),
{
    if p <= q {
        assert(2 * p * y <= 2 * y * q);
    } else {
        assert(p >= q + 1);
        assert(2 * p * y >= 2 * y * q + 2 * y);
    }
}

/// The percentage that `done` is of `total`, unless `total` is zero.
pub fn size_ratio_percent(done: &ByteSize, total: &ByteSize) -> (r: Option<u64>)
    requires
        size_ok(*done),
        size_ok(*total),
    ensures
        match r {
            Some(p) => size_numer(size_view(*total)) > 0 && p == ratio_percent(
                size_view(*done),
                size_view(*total),
            ) && p <= 100,
            None => size_numer(size_view(*total)) == 0,
        },
{
    let ghost dv = size_view(*done);
    let ghost tv = size_view(*total);
    let x = mul_pow10(&mul_small(&done.digits, done.unit), total.scale);
    let y = mul_pow10(&mul_small(&total.digits, total.unit), done.scale);
    let zero: Vec<u8> = Vec::new();
    proof {
        lemma_pow10_pos(dv.1);
        lemma_pow10_pos(tv.1);
        assert(le_val(zero@) == 0);
        assert(le_val(y@) == size_numer(tv) * size_denom(dv));
        assert(le_val(x@) == size_numer(dv) * size_denom(tv));
    }
    if le_cmp(&y, &zero) {
        proof {
            assert(size_numer(tv) == 0) by (nonlinear_arith)
                requires
                    size_numer(tv) * size_denom(dv) == 0,
                    size_denom(dv) >= 1,
            ;
        }
        return None;
    }
    let x200 = mul_small(&x, 200);
    let ghost xv = le_val(x@) as int;
    let ghost yv = le_val(y@) as int;
    let ghost q = (200 * xv + yv) / (2 * yv);
    proof {
        assert(size_numer(tv) > 0) by (nonlinear_arith)
            requires
                size_numer(tv) * size_denom(dv) > 0,
        ;
        vstd::arithmetic::div_mod::lemma_fundamental_div_mod(200 * xv + yv, 2 * yv);
        vstd::arithmetic::div_mod::lemma_mod_bound(200 * xv + yv, 2 * yv);
        assert(2 * (100 * size_numer(dv) * size_denom(tv)) + size_numer(tv) * size_denom(dv)
            == 200 * xv + yv) by (nonlinear_arith)
            requires
                xv == size_numer(dv) * size_denom(tv),
                yv == size_numer(tv) * size_denom(dv),
        ;
    }
    let mut p: u64 = 1;
    while p <= 100 && le_cmp(&mul_small(&y, 2 * p - 1), &x200)
        invariant
            1 <= p <= 101,
            digits_ok(y@),
            digits_ok(x200@),
            le_val(y@) == yv,
            le_val(x200@) == 200 * xv,
            yv > 0,
            xv >= 0,
            200 * xv + yv == (2 * yv) * q + (200 * xv + yv) % (2 * yv),
            0 <= (200 * xv + yv) % (2 * yv) < 2 * yv,
            p - 1 <= q,
        decreases 101 - p,
    {
        proof {
            lemma_round_test(p as int, xv, yv, q, (200 * xv + yv) % (2 * yv));
            assert(yv * (2 * p - 1) == (2 * p - 1) * yv) by (nonlinear_arith);
        }
        p = p + 1;
    }
    proof {
        if p <= 100 {
            lemma_round_test(p as int, xv, yv, q, (200 * xv + yv) % (2 * yv));
            assert(yv * (2 * p - 1) == (2 * p - 1) * yv) by (nonlinear_arith);
        }
    }
    Some(p - 1)
}

proof fn lemma_pow10_pos(n: nat)
    ensures
        pow10(n) >= 1,
    decreases n,
{
    if n > 0 {
        lemma_pow10_pos((n - 1) as nat);
    }
}

/// The index of the first `": "` in `s` at or after `i`, or -1.
pub open spec fn label_end_from(s: Seq<char>, i: int) -> int
    decreases s.len() - i,
{
    if i < 0 || i + 1 >= s.len() {
        -1
    } else if s[i] == ':' && s[i + 1] == ' ' {
        i
    } else {
        label_end_from(s, i + 1)
    }
}

/// What follows the first `": "` of `s`, or all of `s` when it has none.
pub open spec fn after_label(s: Seq<char>) -> Seq<char> {
    let k = label_end_from(s, 0);
    if k < 0 {
        s
    } else {
        s.subrange(k + 2, s.len() as int)
    }
}

fn after_label_exec(s: &Vec<char>) -> (r: Vec<char>)
    ensures
        r@ == after_label(s@),
{
    let mut i: usize = 0;
    while s.len() > 0 && i < s.len() - 1
        invariant
            i <= s@.len(),
            label_end_from(s@, 0) == label_end_from(s@, i as int),
        decreases s@.len() - i,
    {
        if s[i] == ':' && s[i + 1] == ' ' {
            return slice_chars(s, i + 2, s.len());
        }
        i = i + 1;
    }
    slice_chars(s, 0, s.len())
}

/// The first token from `i` on that ends with `%`.
pub open spec fn percent_token_from(toks: Seq<Seq<char>>, i: int) -> Option<Seq<char>>
    decreases toks.len() - i,
{
    if i < 0 || i >= toks.len() {
        None
    } else if ends_with(toks[i], seq!['%']) {
        Some(toks[i])
    } else {
        percent_token_from(toks, i + 1)
    }
}

/// The phase keywords that a pull line may carry, in the order they are tried.
pub open spec fn phase_keyword(rhs: Seq<char>) -> Option<Seq<char>> {
    if contains(rhs, "Waiting"@) {
        Some("Waiting"@)
    } else if contains(rhs, "Pulling fs layer"@) {
        Some("Pulling fs layer"@)
    } else if contains(rhs, "Downloading"@) {
        Some("Downloading"@)
    } else if contains(rhs, "Extracting"@) {
        Some("Extracting"@)
    } else if contains(rhs, "Download complete"@) {
        Some("Download complete"@)
    } else if contains(rhs, "Pull complete"@) {
        Some("Pull complete"@)
    } else if contains(rhs, "Already exists"@) {
        Some("Already exists"@)
    } else {
        None
    }
}

/// `Extracting NN%` when the line speaks of extracting, else `Downloading NN%`.
pub open spec fn ratio_label(rhs: Seq<char>, percent: nat) -> Seq<char> {
    (if contains(rhs, "Extracting"@) {
        "Extracting"@
    } else {
        "Downloading"@
    }) + seq![' '] + decimal(percent) + seq!['%']
}

/// The progress label of one line of pull output: after the first `": "`,
/// the first token ending in `%`; else the rounded share of the first
/// `done/total` size pair; else the first phase keyword found; else none.
pub open spec fn pull_progress(line: Seq<char>) -> Option<Seq<char>> {
    let t = trim(line);
    let rhs = after_label(t);
    let toks = tokens(rhs);
    if t.len() == 0 {
        None
    } else if percent_token_from(toks, 0) is Some {
        percent_token_from(toks, 0)
    } else {
        match size_ratio(toks) {
            Some((done, total)) if size_numer(total) > 0 => Some(
                ratio_label(rhs, ratio_percent(done, total)),
            ),
            _ => phase_keyword(rhs),
        }
    }
}

pub open spec fn opt_view(r: Option<String>) -> Option<Seq<char>> {
    match r {
        Some(s) => Some(s@),
        None => None,
    }
}

fn has(rhs: &Vec<char>, word: &str) -> (r: bool)
    ensures
        r == contains(rhs@, word@),
{
    contains_exec(rhs, &chars_of(word))
}

fn phase_keyword_exec(rhs: &Vec<char>) -> (r: Option<String>)
    ensures
        opt_view(r) == phase_keyword(rhs@),
{
    if has(rhs, "Waiting") {
        Some(String::from_str("Waiting"))
    } else if has(rhs, "Pulling fs layer") {
        Some(String::from_str("Pulling fs layer"))
    } else if has(rhs, "Downloading") {
        Some(String::from_str("Downloading"))
    } else if has(rhs, "Extracting") {
        Some(String::from_str("Extracting"))
    } else if has(rhs, "Download complete") {
        Some(String::from_str("Download complete"))
    } else if has(rhs, "Pull complete") {
        Some(String::from_str("Pull complete"))
    } else if has(rhs, "Already exists") {
        Some(String::from_str("Already exists"))
    } else {
        None
    }
}

/// The progress label that one line of pull output gives, if any.
pub fn extract_pull_progress(line: &str) -> (r: Option<String>)
    ensures
        opt_view(r) == pull_progress(line@),
{
    let t = trim_chars(&chars_of(line), CharClass::Space);
    if t.len() == 0 {
        return None;
    }
    let rhs = after_label_exec(&t);
    let toks = split_tokens(&rhs);
    let ghost vs = views(toks@);
    let pct = chars_of("%");
    proof {
        reveal_strlit("%");
        assert(pct@ =~= seq!['%']);
    }
    let mut i: usize = 0;
    while i < toks.len()
        invariant
            vs == views(toks@),
            t@ == trim(line@),
            t@.len() > 0,
            rhs@ == after_label(t@),
            vs == tokens(rhs@),
            pct@ == seq!['%'],
            i <= toks@.len(),
            percent_token_from(vs, 0) == percent_token_from(vs, i as int),
        decreases toks@.len() - i,
    {
        assert(vs[i as int] == toks@[i as int]@);
        if ends_with_exec(&toks[i], &pct) {
            let r = string_of(&toks[i]);
            assert(percent_token_from(vs, i as int) == Some(vs[i as int]));
            assert(pull_progress(line@) == Some(vs[i as int]));
            return Some(r);
        }
        i = i + 1;
    }
    match extract_size_ratio(&toks) {
        Some((done, total)) => {
            match size_ratio_percent(&done, &total) {
                Some(p) => {
                    let mut out: Vec<char> = Vec::new();
                    if has(&rhs, "Extracting") {
                        push_str(&mut out, "Extracting");
                    } else {
                        push_str(&mut out, "Downloading");
                    }
                    out.push(' ');
                    push_decimal(&mut out, p);
                    out.push('%');
                    proof {
                        assert(out@ =~= ratio_label(rhs@, p as nat));
                    }
                    return Some(string_of(&out));
                },
                None => {},
            }
        },
        None => {},
    }
    phase_keyword_exec(&rhs)
}

} // verus!
