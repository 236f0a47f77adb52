//! Character-level helpers shared by the parsers: trimming, splitting on
//! whitespace, searching and decimal rendering, each stated over `Seq<char>`.
use vstd::prelude::*;
use vstd::string::*;

verus! {

/// The Unicode `White_Space` property, which `char::is_whitespace` tests.
pub open spec fn is_space(c: char) -> bool {
    let u = c as u32;
    u == 0x20 || (0x09 <= u && u <= 0x0D) || u == 0x85 || u == 0xA0 || u == 0x1680 || (0x2000
        <= u && u <= 0x200A) || u == 0x2028 || u == 0x2029 || u == 0x202F || u == 0x205F || u
        == 0x3000
}

pub open spec fn is_ascii_digit(c: char) -> bool {
    '0' <= c && c <= '9'
}

pub open spec fn is_ascii_alnum(c: char) -> bool {
    is_ascii_digit(c) || ('a' <= c && c <= 'z') || ('A' <= c && c <= 'Z')
}

/// The characters that a trim removes, one class per use.
#[derive(Clone, Copy, Debug, PartialEq, Eq, Structural)]
pub enum CharClass {
    /// Whitespace.
    Space,
    /// Anything but an ASCII letter or digit, `.` or `/`.
    RatioJunk,
    /// Anything but an ASCII letter or digit or `.`.
    SizeJunk,
}

pub open spec fn in_class(c: char, k: CharClass) -> bool {
    match k {
        CharClass::Space => is_space(c),
        CharClass::RatioJunk => !(is_ascii_alnum(c) || c == '.' || c == '/'),
        CharClass::SizeJunk => !(is_ascii_alnum(c) || c == '.'),
    }
}

pub fn is_space_char(c: char) -> (r: bool)
    ensures
        r == is_space(c),
{
    let u = c as u32;
    u == 0x20 || (0x09 <= u && u <= 0x0D) || u == 0x85 || u == 0xA0 || u == 0x1680 || (0x2000
        <= u && u <= 0x200A) || u == 0x2028 || u == 0x2029 || u == 0x202F || u == 0x205F || u
        == 0x3000
}

pub fn in_class_char(c: char, k: CharClass) -> (r: bool)
    ensures
        r == in_class(c, k),
{
    let alnum = ('0' <= c && c <= '9') || ('a' <= c && c <= 'z') || ('A' <= c && c <= 'Z');
    match k {
        CharClass::Space => is_space_char(c),
        CharClass::RatioJunk => !(alnum || c == '.' || c == '/'),
        CharClass::SizeJunk => !(alnum || c == '.'),
    }
}

/// `s` without the leading characters of class `k`.
pub open spec fn trim_start_by(s: Seq<char>, k: CharClass) -> Seq<char>
    decreases s.len(),
{
    if s.len() > 0 && in_class(s[0], k) {
        trim_start_by(s.drop_first(), k)
    } else {
        s
    }
}

/// `s` without the trailing characters of class `k`.
pub open spec fn trim_end_by(s: Seq<char>, k: CharClass) -> Seq<char>
    decreases s.len(),
{
    if s.len() > 0 && in_class(s.last(), k) {
        trim_end_by(s.drop_last(), k)
    } else {
        s
    }
}

/// `s` without the characters of class `k` at either end.
pub open spec fn trim_by(s: Seq<char>, k: CharClass) -> Seq<char> {
    trim_end_by(trim_start_by(s, k), k)
}

/// `s` without whitespace at either end, as `str::trim` gives it.
pub open spec fn trim(s: Seq<char>) -> Seq<char> {
    trim_by(s, CharClass::Space)
}

/// The characters of a string, in order.
pub fn chars_of(s: &str) -> (r: Vec<char>)
    ensures
        r@ == s@,
{
    let n = s.unicode_len();
    let mut out: Vec<char> = Vec::new();
    let mut i: usize = 0;
    while i < n
        invariant
            n == s@.len(),
            i <= n,
            out@ == s@.subrange(0, i as int),
        decreases n - i,
    {
        let c = s.get_char(i);
        out.push(c);
        i = i + 1;
        assert(out@ =~= s@.subrange(0, i as int));
    }
    assert(out@ =~= s@);
    out
}

/// Relies on `String::from_iter` over `char`s: the string holds exactly those
/// characters, in order.
#[verifier::external_body]
pub(crate) fn string_of(v: &Vec<char>) -> (r: String)
    ensures
        r@ == v@,
{
    String::from_iter(v.iter())
}

/// The characters of `s` from `from` up to, not including, `to`.
pub fn slice_chars(s: &Vec<char>, from: usize, to: usize) -> (r: Vec<char>)
    requires
        from <= to <= s@.len(),
    ensures
        r@ == s@.subrange(from as int, to as int),
{
    let mut out: Vec<char> = Vec::new();
    let mut i: usize = from;
    while i < to
        invariant
            from <= i <= to <= s@.len(),
            out@ == s@.subrange(from as int, i as int),
        decreases to - i,
    {
        out.push(s[i]);
        i = i + 1;
        assert(out@ =~= s@.subrange(from as int, i as int));
    }
    out
}

/// The characters of `s` without those of class `k` at either end.
pub fn trim_chars(s: &Vec<char>, k: CharClass) -> (r: Vec<char>)
    ensures
        r@ == trim_by(s@, k),
{
    let n = s.len();
    let mut i: usize = 0;
    assert(s@.subrange(0, n as int) =~= s@);
    while i < n && in_class_char(s[i], k)
        invariant
            n == s@.len(),
            i <= n,
            trim_start_by(s@, k) == trim_start_by(s@.subrange(i as int, n as int), k),
        decreases n - i,
    {
        assert(s@.subrange(i as int, n as int).drop_first() =~= s@.subrange(
            i as int + 1,
            n as int,
        ));
        i = i + 1;
    }
    assert(trim_start_by(s@, k) == s@.subrange(i as int, n as int));
    let mut j: usize = n;
    while j > i && in_class_char(s[j - 1], k)
        invariant
            n == s@.len(),
            i <= j <= n,
            trim_by(s@, k) == trim_end_by(s@.subrange(i as int, j as int), k),
        decreases j - i,
    {
        assert(s@.subrange(i as int, j as int).drop_last() =~= s@.subrange(
            i as int,
            j as int - 1,
        ));
        j = j - 1;
    }
    slice_chars(s, i, j)
}

/// The whitespace-separated tokens of `s[i..]`, `cur` being the part of a
/// token already read before `i`.
pub open spec fn tokens_from(s: Seq<char>, i: int, cur: Seq<char>) -> Seq<Seq<char>>
    decreases s.len() - i,
{
    if i >= s.len() || i < 0 {
        if cur.len() > 0 {
            seq![cur]
        } else {
            seq![]
        }
    } else if is_space(s[i]) {
        (if cur.len() > 0 {
            seq![cur]
        } else {
            seq![]
        }) + tokens_from(s, i + 1, seq![])
    } else {
        tokens_from(s, i + 1, cur.push(s[i]))
    }
}

/// The maximal runs of non-whitespace characters of `s`, in order, as
/// `str::split_whitespace` yields them.
pub open spec fn tokens(s: Seq<char>) -> Seq<Seq<char>> {
    tokens_from(s, 0, seq![])
}

pub open spec fn views(v: Seq<Vec<char>>) -> Seq<Seq<char>> {
    v.map_values(|t: Vec<char>| t@)
}

/// Splits `s` on whitespace.
pub fn split_tokens(s: &Vec<char>) -> (r: Vec<Vec<char>>)
    ensures
        views(r@) == tokens(s@),
{
    let n = s.len();
    let mut out: Vec<Vec<char>> = Vec::new();
    let mut cur: Vec<char> = Vec::new();
    let mut i: usize = 0;
    while i < n
        invariant
            n == s@.len(),
            i <= n,
            tokens(s@) == views(out@) + tokens_from(s@, i as int, cur@),
        decreases n - i,
    {
        let c = s[i];
        if is_space_char(c) {
            if cur.len() > 0 {
                let t = cur;
                proof {
                    assert(views(out@.push(t)) =~= views(out@) + seq![t@]);
                }
                out.push(t);
                cur = Vec::new();
                assert(tokens(s@) == views(out@) + tokens_from(s@, i as int + 1, cur@)) by {
                    assert(cur@ =~= seq![]);
                }
            } else {
                assert(cur@ =~= seq![]);
                assert(seq![] + tokens_from(s@, i as int + 1, seq![]) =~= tokens_from(
                    s@,
                    i as int + 1,
                    seq![],
                ));
            }
        } else {
            cur.push(c);
        }
        i = i + 1;
    }
    if cur.len() > 0 {
        proof {
            assert(views(out@.push(cur)) =~= views(out@) + seq![cur@]);
        }
        out.push(cur);
    } else {
        assert(views(out@) + seq![] =~= views(out@));
    }
    out
}

/// `p` occurs in `s` starting at `i`.
pub open spec fn occurs_at(s: Seq<char>, p: Seq<char>, i: int) -> bool {
    0 <= i && i + p.len() <= s.len() && s.subrange(i, i + p.len()) == p
}

/// `p` occurs somewhere in `s`.
pub open spec fn contains(s: Seq<char>, p: Seq<char>) -> bool {
    exists|i: int| occurs_at(s, p, i)
}

pub open spec fn starts_with(s: Seq<char>, p: Seq<char>) -> bool {
    occurs_at(s, p, 0)
}

pub open spec fn ends_with(s: Seq<char>, p: Seq<char>) -> bool {
    occurs_at(s, p, s.len() - p.len())
}

/// Whether `p` occurs in `s` at `i`.
pub fn occurs_at_exec(s: &Vec<char>, p: &Vec<char>, i: usize) -> (r: bool)
    ensures
        r == occurs_at(s@, p@, i as int),
{
    if i > s.len() || p.len() > s.len() - i {
        return false;
    }
    let mut k: usize = 0;
    while k < p.len()
        invariant
            i + p@.len() <= s@.len(),
            s@.len() == s.len(),
            k <= p@.len(),
            s@.subrange(i as int, i + k) == p@.subrange(0, k as int),
        decreases p@.len() - k,
    {
        if s[i + k] != p[k] {
            assert(s@.subrange(i as int, i + p@.len())[k as int] != p@[k as int]);
            return false;
        }
        k = k + 1;
        assert(s@.subrange(i as int, i + k) =~= p@.subrange(0, k as int));
    }
    assert(p@.subrange(0, k as int) =~= p@);
    true
}

/// Whether `p` occurs anywhere in `s`.
pub fn contains_exec(s: &Vec<char>, p: &Vec<char>) -> (r: bool)
    ensures
        r == contains(s@, p@),
{
    if p.len() > s.len() {
        return false;
    }
    if p.len() == 0 {
        assert(s@.subrange(0, 0) =~= p@);
        assert(occurs_at(s@, p@, 0));
        return true;
    }
    let last = s.len() - p.len();
    let mut i: usize = 0;
    while i <= last
        invariant
            last + p@.len() == s@.len(),
            p@.len() > 0,
            s@.len() == s.len(),
            i <= last + 1,
            forall|j: int| 0 <= j < i ==> !occurs_at(s@, p@, j),
        decreases last + 1 - i,
    {
        if occurs_at_exec(s, p, i) {
            return true;
        }
        i = i + 1;
    }
    assert forall|j: int| !occurs_at(s@, p@, j) by {
        if 0 <= j < i {
        }
    }
    false
}

/// Whether `s` ends with `p`.
pub fn ends_with_exec(s: &Vec<char>, p: &Vec<char>) -> (r: bool)
    ensures
        r == ends_with(s@, p@),
{
    if p.len() > s.len() {
        return false;
    }
    occurs_at_exec(s, p, s.len() - p.len())
}

/// Whether `s` starts with `p`.
pub fn starts_with_exec(s: &Vec<char>, p: &Vec<char>) -> (r: bool)
    ensures
        r == starts_with(s@, p@),
{
    occurs_at_exec(s, p, 0)
}

/// The decimal digit for `d`.
pub open spec fn digit(d: nat) -> char {
    if d == 0 {
        '0'
    } else if d == 1 {
        '1'
    } else if d == 2 {
        '2'
    } else if d == 3 {
        '3'
    } else if d == 4 {
        '4'
    } else if d == 5 {
        '5'
    } else if d == 6 {
        '6'
    } else if d == 7 {
        '7'
    } else if d == 8 {
        '8'
    } else {
        '9'
    }
}

/// `n` written in decimal, without leading zeros.
pub open spec fn decimal(n: nat) -> Seq<char>
    decreases n,
{
    if n < 10 {
        seq![digit(n)]
    } else {
        decimal(n / 10).push(digit(n % 10))
    }
}

pub fn digit_char(d: u64) -> (r: char)
    requires
        d < 10,
    ensures
        r == digit(d as nat),
{
    if d == 0 {
        '0'
    } else if d == 1 {
        '1'
    } else if d == 2 {
        '2'
    } else if d == 3 {
        '3'
    } else if d == 4 {
        '4'
    } else if d == 5 {
        '5'
    } else if d == 6 {
        '6'
    } else if d == 7 {
        '7'
    } else if d == 8 {
        '8'
    } else {
        '9'
    }
}

/// Appends `n` in decimal to `out`.
pub fn push_decimal(out: &mut Vec<char>, n: u64)
    ensures
        final(out)@ == old(out)@ + decimal(n as nat),
    decreases n,
{
    if n >= 10 {
        push_decimal(out, n / 10);
    }
    out.push(digit_char(n % 10));
    assert(final(out)@ =~= old(out)@ + decimal(n as nat));
}

/// Appends the characters of `s` to `out`.
pub fn push_str(out: &mut Vec<char>, s: &str)
    ensures
        final(out)@ == old(out)@ + s@,
{
    let n = s.unicode_len();
    let mut i: usize = 0;
    while i < n
        invariant
            n == s@.len(),
            i <= n,
            out@ == old(out)@ + s@.subrange(0, i as int),
        decreases n - i,
    {
        out.push(s.get_char(i));
        i = i + 1;
        assert(out@ =~= old(out)@ + s@.subrange(0, i as int));
    }
    assert(s@.subrange(0, n as int) =~= s@);
}

/// Appends the characters of `s` to `out`.
pub fn push_chars(out: &mut Vec<char>, s: &Vec<char>)
    ensures
        final(out)@ == old(out)@ + s@,
{
    let mut i: usize = 0;
    while i < s.len()
        invariant
            i <= s@.len(),
            out@ == old(out)@ + s@.subrange(0, i as int),
        decreases s@.len() - i,
    {
        out.push(s[i]);
        i = i + 1;
        assert(out@ =~= old(out)@ + s@.subrange(0, i as int));
    }
    assert(s@.subrange(0, s@.len() as int) =~= s@);
}

/// The index of the first `c` in `s` at or after `i`, or -1.
pub open spec fn index_of_from(s: Seq<char>, c: char, i: int) -> int
    decreases s.len() - i,
{
    if i < 0 || i >= s.len() {
        -1
    } else if s[i] == c {
        i
    } else {
        index_of_from(s, c, i + 1)
    }
}

/// The index of the first `c` in `s`, or -1.
pub open spec fn index_of(s: Seq<char>, c: char) -> int {
    index_of_from(s, c, 0)
}

/// The index of the first `c` in `s`.
pub fn index_of_exec(s: &Vec<char>, c: char) -> (r: Option<usize>)
    ensures
        match r {
            Some(k) => index_of(s@, c) == k as int && k < s@.len() && s@[k as int] == c,
            None => index_of(s@, c) == -1,
        },
{
    let mut i: usize = 0;
    while i < s.len()
        invariant
            i <= s@.len(),
            index_of(s@, c) == index_of_from(s@, c, i as int),
        decreases s@.len() - i,
    {
        if s[i] == c {
            return Some(i);
        }
        i = i + 1;
    }
    None
}

/// ASCII letters in lower case, other characters as they are.
pub open spec fn lower_char(c: char) -> char {
    if 'A' <= c && c <= 'Z' {
        ((c as u32) + 32) as char
    } else {
        c
    }
}

pub open spec fn ascii_lower(s: Seq<char>) -> Seq<char> {
    s.map_values(|c: char| lower_char(c))
}

pub fn lower_char_exec(c: char) -> (r: char)
    ensures
        r == lower_char(c),
{
    if 'A' <= c && c <= 'Z' {
        ((c as u32 + 32) as u8) as char
    } else {
        c
    }
}

/// The pieces of `s[i..]` between separators `sep`, `cur` being the piece
/// read so far; after `left` more separators the rest is one piece.
pub open spec fn split_from(s: Seq<char>, sep: char, i: int, cur: Seq<char>, left: nat) -> Seq<
    Seq<char>,
>
    decreases s.len() - i,
{
    if i >= s.len() || i < 0 {
        seq![cur]
    } else if s[i] == sep && left > 0 {
        seq![cur] + split_from(s, sep, i + 1, seq![], (left - 1) as nat)
    } else {
        split_from(s, sep, i + 1, cur.push(s[i]), left)
    }
}

/// `s` cut at each `sep` into at most `n` pieces, as `str::splitn` does.
pub open spec fn split_n(s: Seq<char>, sep: char, n: nat) -> Seq<Seq<char>> {
    split_from(s, sep, 0, seq![], if n == 0 {
        0
    } else {
        (n - 1) as nat
    })
}

/// `s` cut at every `sep`, as `str::split` does.
pub open spec fn split_all(s: Seq<char>, sep: char) -> Seq<Seq<char>> {
    split_from(s, sep, 0, seq![], s.len())
}

/// Cuts `s` at the first `left` separators `sep`.
fn split_chars_left(s: &Vec<char>, sep: char, left0: usize) -> (r: Vec<Vec<char>>)
    ensures
        views(r@) == split_from(s@, sep, 0, seq![], left0 as nat),
{
    let mut out: Vec<Vec<char>> = Vec::new();
    let mut cur: Vec<char> = Vec::new();
    let mut left: usize = left0;
    let mut i: usize = 0;
    while i < s.len()
        invariant
            i <= s@.len(),
            split_from(s@, sep, 0, seq![], left0 as nat) == views(out@) + split_from(
                s@,
                sep,
                i as int,
                cur@,
                left as nat,
            ),
        decreases s@.len() - i,
    {
        let c = s[i];
        if c == sep && left > 0 {
            let t = cur;
            proof {
                assert(views(out@.push(t)) =~= views(out@) + seq![t@]);
            }
            out.push(t);
            cur = Vec::new();
            left = left - 1;
            assert(cur@ =~= seq![]);
        } else {
            cur.push(c);
        }
        i = i + 1;
    }
    proof {
        assert(views(out@.push(cur)) =~= views(out@) + seq![cur@]);
    }
    out.push(cur);
    out
}

/// Cuts `s` at each `sep` into at most `n` pieces (`n > 0`).
pub fn split_chars_n(s: &Vec<char>, sep: char, n: usize) -> (r: Vec<Vec<char>>)
    requires
        n > 0,
    ensures
        views(r@) == split_n(s@, sep, n as nat),
{
    split_chars_left(s, sep, n - 1)
}

/// Cuts `s` at every `sep`.
pub fn split_chars(s: &Vec<char>, sep: char) -> (r: Vec<Vec<char>>)
    ensures
        views(r@) == split_all(s@, sep),
{
    split_chars_left(s, sep, s.len())
}

/// Whether `a` and `b` hold the same characters.
pub fn eq_chars(a: &Vec<char>, b: &Vec<char>) -> (r: bool)
    ensures
        r == (a@ == b@),
{
    if a.len() != b.len() {
        return false;
    }
    let mut i: usize = 0;
    while i < a.len()
        invariant
            a@.len() == b@.len(),
            i <= a@.len(),
            forall|j: int| 0 <= j < i ==> a@[j] == b@[j],
        decreases a@.len() - i,
    {
        if a[i] != b[i] {
            return false;
        }
        i = i + 1;
    }
    assert(a@ =~= b@);
    true
}

} // verus!
