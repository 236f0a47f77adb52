//! What the dashboard shows and how the operator moves through it: focus,
//! log tabs, the daemon menu, layout sizes and the progress bar.
use vstd::prelude::*;
use vstd::string::*;
use crate::daemon::DaemonAction;
use crate::progress::digits_value;
use crate::daemon::{lex_le, lex_lt_exec, lemma_lex_total, lemma_lex_trans, string_seq_views};
use crate::text::{
    chars_of, index_of, index_of_exec, is_ascii_digit, starts_with, starts_with_exec, string_of,
};

verus! {

/// The pane that takes the keys.
#[derive(Clone, Copy, Debug, PartialEq, Eq, Structural)]
pub enum Focus {
    Services,
    Logs,
}

/// The log shown for the selected project.
#[derive(Clone, Copy, Debug, PartialEq, Eq, Structural)]
pub enum LogTab {
    Events,
    LiveLogs,
}

impl LogTab {
    /// The other tab.
    pub fn switched(&self) -> (r: LogTab)
        ensures
            r != *self,
    {
        match self {
            LogTab::Events => LogTab::LiveLogs,
            LogTab::LiveLogs => LogTab::Events,
        }
    }
}

impl DaemonAction {
    /// The entry below in the daemon menu, wrapping around.
    pub fn next(&self) -> (r: DaemonAction)
        ensures
            r == match *self {
                DaemonAction::Start => DaemonAction::Stop,
                DaemonAction::Stop => DaemonAction::Restart,
                DaemonAction::Restart => DaemonAction::Start,
            },
    {
        match self {
            DaemonAction::Start => DaemonAction::Stop,
            DaemonAction::Stop => DaemonAction::Restart,
            DaemonAction::Restart => DaemonAction::Start,
        }
    }

    /// The entry above in the daemon menu, wrapping around.
    pub fn previous(&self) -> (r: DaemonAction)
        ensures
            r == match *self {
                DaemonAction::Start => DaemonAction::Restart,
                DaemonAction::Stop => DaemonAction::Start,
                DaemonAction::Restart => DaemonAction::Stop,
            },
    {
        match self {
            DaemonAction::Start => DaemonAction::Restart,
            DaemonAction::Stop => DaemonAction::Start,
            DaemonAction::Restart => DaemonAction::Stop,
        }
    }
}

/// Rows of the key-help pane for a terminal `frame_height` rows high.
pub fn controls_height(frame_height: u16) -> (r: u16)
    ensures
        r == (if frame_height < 20 {
            2u16
        } else if frame_height < 30 {
            3u16
        } else {
            4u16
        }),
{
    if frame_height < 20 {
        2
    } else if frame_height < 30 {
        3
    } else {
        4
    }
}

/// Share, in percent, of the width given to the project list.
pub fn services_width_percentage(frame_width: u16) -> (r: u16)
    ensures
        r == (if frame_width < 80 {
            25u16
        } else if frame_width < 120 {
            30u16
        } else {
            35u16
        }),
{
    if frame_width < 80 {
        25
    } else if frame_width < 120 {
        30
    } else {
        35
    }
}

/// The number of digits that end `s[..k]`.
pub open spec fn digit_run(s: Seq<char>, k: int) -> nat
    decreases k,
{
    if k <= 0 || k > s.len() || !is_ascii_digit(s[k - 1]) {
        0
    } else {
        1 + digit_run(s, k - 1)
    }
}

/// The percentage in a progress label: the digits right before its first
/// `%`, read as a number up to 255 and capped at 100.
pub open spec fn progress_percent(s: Seq<char>) -> Option<nat> {
    let k = index_of(s, '%');
    let n = digit_run(s, k);
    let v = digits_value(s.subrange(k - n, k));
    if k < 0 || n == 0 || v > 255 {
        None
    } else if v > 100 {
        Some(100)
    } else {
        Some(v)
    }
}

/// The percentage that a progress label shows, if any.
pub fn parse_progress_percent(progress: &str) -> (r: Option<u8>)
    ensures
        match (r, progress_percent(progress@)) {
            (Some(p), Some(q)) => p == q,
            (None, None) => true,
            _ => false,
        },
{
    let s = crate::text::chars_of(progress);
    let k = match index_of_exec(&s, '%') {
        Some(k) => k,
        None => return None,
    };
    let mut start: usize = k;
    while start > 0 && '0' <= s[start - 1] && s[start - 1] <= '9'
        invariant
            start <= k < s@.len(),
            k as int == index_of(s@, '%'),
            s@ == progress@,
            digit_run(s@, k as int) == (k - start) + digit_run(s@, start as int),
            forall|j: int| start <= j < k ==> is_ascii_digit(#[trigger] s@[j]),
        decreases start,
    {
        start = start - 1;
    }
    assert(digit_run(s@, start as int) == 0);
    if start == k {
        return None;
    }
    let mut v: u64 = 0;
    let mut i: usize = start;
    while i < k
        invariant
            start <= i <= k < s@.len(),
            forall|j: int| start <= j < k ==> is_ascii_digit(#[trigger] s@[j]),
            v == digits_value(s@.subrange(start as int, i as int)),
            v <= 255,
            k as int == index_of(s@, '%'),
            s@ == progress@,
            digit_run(s@, k as int) == k - start,
        decreases k - i,
    {
        let ghost pre = s@.subrange(start as int, i as int);
        let ghost next = s@.subrange(start as int, i as int + 1);
        assert(next.drop_last() =~= pre);
        assert(is_ascii_digit(s@[i as int]));
        v = v * 10 + (s[i] as u64 - '0' as u64);
        assert(v == digits_value(next));
        if v > 255 {
            proof {
                assert(k as int - digit_run(s@, k as int) == start as int);
                crate::view::lemma_digits_grow(s@, start as int, i as int + 1, k as int);
            }
            return None;
        }
        i = i + 1;
    }
    if v > 100 {
        Some(100)
    } else {
        Some(v as u8)
    }
}

/// The digits of `s[a..c]` read as a number are at least those of `s[a..b]`.
proof fn lemma_digits_grow(s: Seq<char>, a: int, b: int, c: int)
    requires
        0 <= a <= b <= c <= s.len(),
        forall|j: int| a <= j < c ==> is_ascii_digit(#[trigger] s[j]),
    ensures
        digits_value(s.subrange(a, b)) <= digits_value(s.subrange(a, c)),
    decreases c - b,
{
    if b < c {
        lemma_digits_grow(s, a, b, c - 1);
        let x = s.subrange(a, c);
        assert(x.drop_last() =~= s.subrange(a, c - 1));
        assert(is_ascii_digit(s[c - 1]));
    }
}

/// Width of the progress bar, in characters.
pub const BAR_WIDTH: usize = 24;

/// Width of the marker that sweeps an indeterminate bar.
pub const MARKER_WIDTH: usize = 5;

/// The `i`-th character of the progress bar.
pub open spec fn bar_char(i: int, tick: u64, percent: Option<u8>) -> char {
    match percent {
        Some(p) => if i < (p as int) * (BAR_WIDTH as int) / 100 {
            '#'
        } else {
            '-'
        },
        None => {
            let offset = (tick as int) % ((BAR_WIDTH + MARKER_WIDTH) as int);
            if offset <= i < offset + MARKER_WIDTH as int {
                '#'
            } else {
                '-'
            }
        },
    }
}

/// A bar for a known percentage (filled in proportion), or a sweeping
/// marker that moves with `tick` while the percentage is unknown.
pub fn progress_bar(tick: u64, percent: Option<u8>) -> (r: String)
    requires
        percent matches Some(p) ==> p <= 100,
    ensures
        r@.len() == BAR_WIDTH,
        forall|i: int| 0 <= i < BAR_WIDTH ==> r@[i] == bar_char(i, tick, percent),
{
    let mut bar: Vec<char> = Vec::new();
    let offset: u64 = tick % ((BAR_WIDTH + MARKER_WIDTH) as u64);
    let filled: usize = match percent {
        Some(p) => (p as usize) * BAR_WIDTH / 100,
        None => 0,
    };
    let mut i: usize = 0;
    while i < BAR_WIDTH
        invariant
            i <= BAR_WIDTH,
            bar@.len() == i,
            offset == (tick as int) % ((BAR_WIDTH + MARKER_WIDTH) as int),
            percent matches Some(p) ==> filled == (p as int) * (BAR_WIDTH as int) / 100,
            forall|j: int| 0 <= j < i ==> bar@[j] == bar_char(j, tick, percent),
        decreases BAR_WIDTH - i,
    {
        let c = match percent {
            Some(_) => if i < filled {
                '#'
            } else {
                '-'
            },
            None => if offset as usize <= i && i < offset as usize + MARKER_WIDTH {
                '#'
            } else {
                '-'
            },
        };
        bar.push(c);
        i = i + 1;
    }
    string_of(&bar)
}

/// The lower-case form of a text, as `str::to_lowercase` gives it.
pub uninterp spec fn lower_of(s: Seq<char>) -> Seq<char>;

/// Relies on `str::to_lowercase`: the result depends on the characters of
/// `s` alone.
#[verifier::external_body]
fn lowercase(s: &str) -> (r: String)
    ensures
        r@ == lower_of(s@),
{
    s.to_lowercase()
}

/// The index of the first of `names` that starts with `query`.
pub open spec fn first_with_prefix(names: Seq<Seq<char>>, query: Seq<char>) -> Option<int> {
    if exists|i: int| 0 <= i < names.len() && starts_with(#[trigger] names[i], query) {
        Some(
            choose|i: int|
                0 <= i < names.len() && starts_with(#[trigger] names[i], query) && forall|j: int|
                    0 <= j < i ==> !starts_with(#[trigger] names[j], query),
        )
    } else {
        None
    }
}

/// The index of the first of `names` that starts with `query`, all of them
/// already folded to lower case.
pub fn find_prefix_folded(names: &Vec<String>, query: &str) -> (r: Option<usize>)
    ensures
        match r {
            Some(i) => i < names@.len() && starts_with(names@[i as int]@, query@) && forall|j: int|
                0 <= j < i ==> !starts_with(#[trigger] names@[j]@, query@),
            None => forall|j: int| 0 <= j < names@.len() ==> !starts_with(#[trigger] names@[j]@, query@),
        },
        r matches Some(i) ==> first_with_prefix(string_seq_views(names@), query@) == Some(i as int),
        r is None ==> first_with_prefix(string_seq_views(names@), query@) is None,
{
    let q = chars_of(query);
    let ghost vs = string_seq_views(names@);
    let mut i: usize = 0;
    while i < names.len()
        invariant
            q@ == query@,
            vs == string_seq_views(names@),
            i <= names@.len(),
            forall|j: int| 0 <= j < i ==> !starts_with(#[trigger] names@[j]@, query@),
        decreases names@.len() - i,
    {
        if starts_with_exec(&chars_of(names[i].as_str()), &q) {
            proof {
                assert(vs[i as int] == names@[i as int]@);
                assert forall|j: int| 0 <= j < i implies !starts_with(#[trigger] vs[j], query@) by {
                    assert(vs[j] == names@[j]@);
                }
                let w = choose|w: int|
                    0 <= w < vs.len() && starts_with(#[trigger] vs[w], query@) && forall|j: int|
                        0 <= j < w ==> !starts_with(#[trigger] vs[j], query@);
                if w < i {
                    assert(vs[w] == names@[w]@);
                }
                if w > i {
                    assert(!starts_with(vs[i as int], query@));
                }
            }
            return Some(i);
        }
        i = i + 1;
    }
    proof {
        assert forall|j: int| 0 <= j < vs.len() implies !starts_with(#[trigger] vs[j], query@) by {
            assert(vs[j] == names@[j]@);
        }
    }
    None
}

pub open spec fn lowered(names: Seq<String>) -> Seq<Seq<char>> {
    names.map_values(|s: String| lower_of(s@))
}

/// The index of the first of `names` that starts with `query`, letter case
/// ignored: what a search jumps to.
pub fn find_by_prefix(names: &Vec<String>, query: &str) -> (r: Option<usize>)
    ensures
        match r {
            Some(i) => first_with_prefix(lowered(names@), lower_of(query@)) == Some(i as int),
            None => first_with_prefix(lowered(names@), lower_of(query@)) is None,
        },
{
    let mut folded: Vec<String> = Vec::new();
    let mut i: usize = 0;
    while i < names.len()
        invariant
            i <= names@.len(),
            string_seq_views(folded@) == lowered(names@).subrange(0, i as int),
        decreases names@.len() - i,
    {
        let ghost prev = folded@;
        let l = lowercase(names[i].as_str());
        folded.push(l);
        assert(string_seq_views(folded@) =~= lowered(names@).subrange(0, i as int + 1)) by {
            assert(folded@ == prev.push(l));
            assert(string_seq_views(prev).len() == i);
        }
        i = i + 1;
    }
    assert(lowered(names@).subrange(0, i as int) =~= lowered(names@));
    let q = lowercase(query);
    find_prefix_folded(&folded, q.as_str())
}

/// `v` is in order of its keys.
pub open spec fn keys_sorted(v: Seq<(Seq<char>, Seq<char>)>) -> bool {
    forall|i: int, j: int| 0 <= i < j < v.len() ==> lex_le(v[i].0, v[j].0)
}

pub open spec fn pair_views(v: Seq<(Vec<char>, String)>) -> Seq<(Seq<char>, Seq<char>)> {
    v.map_values(|p: (Vec<char>, String)| (p.0@, p.1@))
}

/// Inserts `(k, s)` after every entry whose key is not above `k`.
fn insert_by_key(v: &mut Vec<(Vec<char>, String)>, k: Vec<char>, s: String) -> (at: usize)
    requires
        keys_sorted(pair_views(old(v)@)),
    ensures
        keys_sorted(pair_views(final(v)@)),
        pair_views(final(v)@).to_multiset() == pair_views(old(v)@).to_multiset().insert((k@, s@)),
        at <= old(v)@.len(),
        pair_views(final(v)@) == pair_views(old(v)@).insert(at as int, (k@, s@)),
        forall|j: int|
            at <= j < old(v)@.len() ==> (#[trigger] pair_views(old(v)@)[j]).0 != k@,
{
    let ghost vs = pair_views(v@);
    let mut at: usize = 0;
    while at < v.len() && !lex_lt_exec(&k, &v[at].0)
        invariant
            vs == pair_views(v@),
            at <= v@.len(),
            forall|j: int| 0 <= j < at ==> lex_le(#[trigger] vs[j].0, k@),
        decreases v@.len() - at,
    {
        assert(vs[at as int].0 == v@[at as int].0@);
        proof {
            lemma_lex_total(k@, vs[at as int].0);
        }
        at = at + 1;
    }
    proof {
        if at < v@.len() {
            assert(vs[at as int].0 == v@[at as int].0@);
            lemma_lex_total(k@, vs[at as int].0);
        }
    }
    let ghost x = (k@, s@);
    v.insert(at, (k, s));
    proof {
        broadcast use vstd::multiset::group_multiset_axioms;

        let ws = pair_views(v@);
        assert(ws =~= vs.insert(at as int, x));
        assert forall|i: int, j: int| 0 <= i < j < ws.len() implies lex_le(ws[i].0, ws[j].0) by {
            if j < at {
                assert(ws[i] == vs[i] && ws[j] == vs[j]);
            } else if j == at {
                assert(ws[i] == vs[i]);
            } else if i == at {
                assert(ws[j] == vs[j - 1]);
                if j - 1 > at {
                    lemma_lex_trans(x.0, vs[at as int].0, vs[j - 1].0);
                }
            } else if i < at {
                assert(ws[i] == vs[i] && ws[j] == vs[j - 1]);
            } else {
                assert(ws[i] == vs[i - 1] && ws[j] == vs[j - 1]);
            }
        }
        assert(ws.remove(at as int) =~= vs);
        ws.to_multiset_ensures();
        assert(ws[at as int] == x);
        assert(ws.contains(x));
        assert(ws.to_multiset() =~= vs.to_multiset().insert(x));
        assert forall|j: int| at <= j < vs.len() implies (#[trigger] vs[j]).0 != x.0 by {
            lemma_lex_total(x.0, vs[at as int].0);
            lemma_lex_total(x.0, x.0);
            if j > at && vs[j].0 == x.0 {
                assert(lex_le(vs[at as int].0, vs[j].0));
            }
        }
    }
    at
}

/// Entries whose key is `k`.
pub open spec fn key_is(k: Seq<char>) -> spec_fn((Seq<char>, Seq<char>)) -> bool {
    |e: (Seq<char>, Seq<char>)| e.0 == k
}

/// Inserting an entry ahead of all entries of other keys adds it last among
/// the entries of its key.
proof fn lemma_filter_insert(
    vs: Seq<(Seq<char>, Seq<char>)>,
    at: int,
    x: (Seq<char>, Seq<char>),
    k: Seq<char>,
)
    requires
        0 <= at <= vs.len(),
        forall|j: int| at <= j < vs.len() ==> (#[trigger] vs[j]).0 != x.0,
    ensures
        vs.insert(at, x).filter(key_is(k)) == (if x.0 == k {
            vs.filter(key_is(k)).push(x)
        } else {
            vs.filter(key_is(k))
        }),
{
    let f = key_is(k);
    let a = vs.subrange(0, at);
    let b = vs.subrange(at, vs.len() as int);
    assert(vs =~= a + b);
    assert(vs.insert(at, x) =~= a.push(x) + b);
    Seq::filter_distributes_over_add(a, b, f);
    Seq::filter_distributes_over_add(a.push(x), b, f);
    a.lemma_filter_push(x, f);
    if x.0 == k {
        assert(b.all(|y: (Seq<char>, Seq<char>)| !f(y))) by {
            assert forall|i: int| 0 <= i < b.len() implies !f(#[trigger] b[i]) by {
                assert(b[i] == vs[at + i]);
            }
        }
        b.lemma_all_neg_filter_empty(f);
        assert(b.filter(f) =~= seq![]);
        assert(a.filter(f).push(x) + b.filter(f) =~= (a.filter(f) + b.filter(f)).push(x));
    } else {
        assert(a.filter(f) + b.filter(f) =~= a.filter(f) + b.filter(f));
    }
}

proof fn lemma_empty_multiset<A>(s: Seq<A>)
    requires
        s.len() == 0,
    ensures
        s.to_multiset() =~= vstd::multiset::Multiset::empty(),
{
    s.to_multiset_ensures();
    vstd::multiset::lemma_multiset_empty_len(s.to_multiset());
}

/// `entries` ordered by their keys; entries with the same key keep their
/// order.
pub fn sort_by_keys(entries: Vec<(Vec<char>, String)>) -> (r: Vec<(Vec<char>, String)>)
    ensures
        keys_sorted(pair_views(r@)),
        pair_views(r@).to_multiset() == pair_views(entries@).to_multiset(),
        forall|k: Seq<char>|
            #[trigger] pair_views(r@).filter(key_is(k)) == pair_views(entries@).filter(key_is(k)),
{
    let ghost src = pair_views(entries@);
    let mut out: Vec<(Vec<char>, String)> = Vec::new();
    let mut rest = entries;
    let ghost mut i: int = 0;
    proof {
        assert(pair_views(out@) =~= src.subrange(0, 0));
        assert(pair_views(rest@) =~= src.subrange(0, src.len() as int));
    }
    while rest.len() > 0
        invariant
            0 <= i <= src.len(),
            pair_views(rest@) == src.subrange(i, src.len() as int),
            pair_views(out@).len() == i,
            keys_sorted(pair_views(out@)),
            pair_views(out@).to_multiset() == src.subrange(0, i).to_multiset(),
            forall|k: Seq<char>|
                #[trigger] pair_views(out@).filter(key_is(k)) == src.subrange(0, i).filter(
                    key_is(k),
                ),
        decreases rest@.len(),
    {
        let ghost before = pair_views(out@);
        let ghost pre = src.subrange(0, i);
        let ghost old_rest = rest@;
        assert(pair_views(old_rest).len() == old_rest.len());
        assert(pair_views(old_rest)[0] == src[i]);
        let (k, n) = rest.remove(0);
        let ghost x = (k@, n@);
        proof {
            assert(rest@ == old_rest.remove(0));
            assert(x == pair_views(old_rest)[0]);
            assert(x == src[i]);
            assert forall|j: int| 0 <= j < rest@.len() implies pair_views(rest@)[j]
                == src.subrange(i + 1, src.len() as int)[j] by {
                assert(rest@[j] == old_rest[j + 1]);
                assert(pair_views(old_rest)[j + 1] == src.subrange(i, src.len() as int)[j + 1]);
            }
            assert(pair_views(rest@) =~= src.subrange(i + 1, src.len() as int));
            assert(src.subrange(0, i + 1) =~= pre.push(x));
            pre.to_multiset_ensures();
        }
        let at = insert_by_key(&mut out, k, n);
        proof {
            assert forall|kk: Seq<char>|
                #[trigger] pair_views(out@).filter(key_is(kk)) == src.subrange(0, i + 1).filter(
                    key_is(kk),
                ) by {
                lemma_filter_insert(before, at as int, x, kk);
                pre.lemma_filter_push(x, key_is(kk));
            }
            i = i + 1;
        }
    }
    proof {
        assert(src.subrange(0, i) =~= src);
    }
    out
}

/// `names` ordered by their lower-case forms, names with the same form in
/// their first order; each with the form it was sorted by.
pub fn sort_by_lowercase(names: &Vec<String>) -> (r: Vec<(Vec<char>, String)>)
    ensures
        keys_sorted(pair_views(r@)),
        pair_views(r@).to_multiset() == names@.map_values(
            |s: String| (lower_of(s@), s@),
        ).to_multiset(),
        forall|k: Seq<char>|
            #[trigger] pair_views(r@).filter(key_is(k)) == names@.map_values(
                |s: String| (lower_of(s@), s@),
            ).filter(key_is(k)),
{
    let ghost src = names@.map_values(|s: String| (lower_of(s@), s@));
    let mut entries: Vec<(Vec<char>, String)> = Vec::new();
    let mut i: usize = 0;
    while i < names.len()
        invariant
            i <= names@.len(),
            src == names@.map_values(|s: String| (lower_of(s@), s@)),
            pair_views(entries@) == src.subrange(0, i as int),
        decreases names@.len() - i,
    {
        let l = lowercase(names[i].as_str());
        let k = chars_of(l.as_str());
        let n = names[i].clone();
        let ghost prev = entries@;
        entries.push((k, n));
        assert(pair_views(entries@) =~= src.subrange(0, i as int + 1)) by {
            assert(entries@ == prev.push((k, n)));
            assert(pair_views(prev).len() == i);
        }
        i = i + 1;
    }
    assert(src.subrange(0, i as int) =~= src);
    sort_by_keys(entries)
}
} // verus!
