//! The least period of a text: the measure of repetition that the acceptance
//! rule uses.

use crate::text::chars_of;
use vstd::prelude::*;

verus! {

/// `d` is a period of `s`: every place from `d` on holds the character that
/// stands `d` places before it.
pub open spec fn is_period(s: Seq<char>, d: int) -> bool {
    &&& 1 <= d
    &&& forall|j: int| d <= j < s.len() ==> #[trigger] s[j] == s[j - d]
}

/// `d` is the least period of `s`. The length of `s` is always a period, so a
/// text of one character or more has exactly one least period, and it lies
/// between 1 and the length.
pub open spec fn is_min_period(s: Seq<char>, d: int) -> bool {
    &&& 1 <= d <= s.len()
    &&& is_period(s, d)
    &&& forall|e: int| 1 <= e < d ==> !#[trigger] is_period(s, e)
}

/// The least period of `s`; meaningful where `s` is not empty.
pub open spec fn min_period(s: Seq<char>) -> int {
    choose|d: int| is_min_period(s, d)
}

/// `ds` lists, in rising order, exactly the periods of `p` that lie from 1 up
/// to, but not at, `limit`.
spec fn lists_periods_below(p: Seq<char>, ds: Seq<usize>, limit: int) -> bool {
    &&& forall|a: int, b: int| 0 <= a < b < ds.len() ==> ds[a] < ds[b]
    &&& forall|k: int|
        0 <= k < ds.len() ==> 1 <= #[trigger] ds[k] < limit && is_period(p, ds[k] as int)
    &&& forall|d: int|
        1 <= d < limit && #[trigger] is_period(p, d) ==> exists|k: int|
            0 <= k < ds.len() && #[trigger] ds[k] == d
}

/// `ds` lists, in rising order, exactly the periods of `p` from 1 to its length.
spec fn lists_periods(p: Seq<char>, ds: Seq<usize>) -> bool {
    lists_periods_below(p, ds, p.len() as int + 1)
}

/// The delay at place `k` of `ds`, or `n + 1` where `ds` has no such place.
spec fn delay_or_end(ds: Seq<usize>, k: int, n: int) -> int {
    if 0 <= k < ds.len() {
        ds[k] as int
    } else {
        n + 1
    }
}

/// A period of a text stays one when a character is added exactly if the new
/// character repeats the one `d` places before it.
pub proof fn period_extends(p: Seq<char>, c: char, d: int)
    requires
        1 <= d <= p.len(),
    ensures
        is_period(p.push(c), d) <==> is_period(p, d) && p[p.len() - d] == c,
{
    let q = p.push(c);
    if is_period(q, d) {
        assert forall|j: int| d <= j < p.len() implies #[trigger] p[j] == p[j - d] by {
            assert(q[j] == q[j - d]);
        }
        assert(q[p.len() as int] == q[p.len() - d]);
    }
    if is_period(p, d) && p[p.len() - d] == c {
        assert forall|j: int| d <= j < q.len() implies #[trigger] q[j] == q[j - d] by {
            if j < p.len() {
                assert(p[j] == p[j - d]);
            }
        }
    }
}

/// A text with a period has a least period, which is no greater.
proof fn min_period_exists(s: Seq<char>, d: int)
    requires
        1 <= d <= s.len(),
        is_period(s, d),
    ensures
        exists|m: int| is_min_period(s, m),
    decreases d,
{
    if forall|e: int| 1 <= e < d ==> !#[trigger] is_period(s, e) {
        assert(is_min_period(s, d));
    } else {
        let e = choose|e: int| 1 <= e < d && #[trigger] is_period(s, e);
        min_period_exists(s, e);
    }
}

/// The least period of a text that is not empty is at most its length, the
/// text repeats itself at that distance, and it does so at no shorter one.
pub proof fn min_period_is_least(s: Seq<char>)
    requires
        s.len() >= 1,
    ensures
        1 <= min_period(s) <= s.len(),
        forall|j: int| min_period(s) <= j < s.len() ==> #[trigger] s[j] == s[j - min_period(s)],
        forall|e: int| 1 <= e < min_period(s) ==> !#[trigger] is_period(s, e),
        is_min_period(s, min_period(s)),
{
    assert(is_period(s, s.len() as int));
    min_period_exists(s, s.len() as int);
}

/// No text has two least periods.
pub proof fn min_period_is_unique(s: Seq<char>, d: int)
    requires
        is_min_period(s, d),
    ensures
        d == min_period(s),
{
    let m = min_period(s);
    assert(is_min_period(s, m));
    if m < d {
        assert(!is_period(s, m));
    }
    if d < m {
        assert(!is_period(s, d));
    }
}

/// A text with one character more has no period below the first period of
/// the shorter text.
proof fn no_period_before_first(p: Seq<char>, c: char, delays: Seq<usize>)
    requires
        lists_periods(p, delays),
    ensures
        lists_periods_below(p.push(c), Seq::<usize>::empty(), delay_or_end(delays, 0, p.len() as int)),
{
    let q = p.push(c);
    let limit = delay_or_end(delays, 0, p.len() as int);
    assert forall|d: int| 1 <= d < limit implies !#[trigger] is_period(q, d) by {
        if is_period(q, d) {
            period_extends(p, c, d);
            let k = choose|k: int| 0 <= k < delays.len() && delays[k] == d;
            assert(k == 0 || delays[0] < delays[k]);
        }
    }
}

/// One step of the sweep over the delays of the shorter text: the delay at
/// place `k` stays exactly if the new character repeats at that distance.
proof fn delay_step(p: Seq<char>, c: char, delays: Seq<usize>, k: int, kept: Seq<usize>)
    requires
        lists_periods(p, delays),
        0 <= k < delays.len(),
        lists_periods_below(p.push(c), kept, delays[k] as int),
    ensures
        1 <= delays[k] <= p.len(),
        p[p.len() - delays[k]] == c ==> lists_periods_below(
            p.push(c),
            kept.push(delays[k]),
            delay_or_end(delays, k + 1, p.len() as int),
        ),
        p[p.len() - delays[k]] != c ==> lists_periods_below(
            p.push(c),
            kept,
            delay_or_end(delays, k + 1, p.len() as int),
        ),
{
    let q = p.push(c);
    let d = delays[k];
    let limit = delay_or_end(delays, k + 1, p.len() as int);
    assert(1 <= d <= p.len());
    assert(d < limit) by {
        if k + 1 < delays.len() {
            assert(delays[k] < delays[k + 1]);
        }
    }
    period_extends(p, c, d as int);
    // No period of the longer text lies strictly between this delay and the next.
    assert forall|e: int| d < e < limit implies !#[trigger] is_period(q, e) by {
        if is_period(q, e) {
            period_extends(p, c, e);
            let j = choose|j: int| 0 <= j < delays.len() && delays[j] == e;
            if j <= k {
                assert(j == k || delays[j] < delays[k]);
            } else {
                assert(j == k + 1 || delays[k + 1] < delays[j]);
            }
        }
    }
    if p[p.len() - d] == c {
        let next = kept.push(d);
        assert forall|a: int, b: int| 0 <= a < b < next.len() implies next[a] < next[b] by {
            if b < kept.len() {
                assert(kept[a] < kept[b]);
            } else {
                assert(kept[a] < d);
            }
        }
        assert forall|e: int| 1 <= e < limit && #[trigger] is_period(q, e) implies exists|
            a: int,
        |
            0 <= a < next.len() && #[trigger] next[a] == e by {
            if e < d {
                let a = choose|a: int| 0 <= a < kept.len() && kept[a] == e;
                assert(next[a] == e);
            } else {
                assert(next[kept.len() as int] == e);
            }
        }
        assert(lists_periods_below(q, next, limit));
    } else {
        assert forall|e: int| 1 <= e < limit && #[trigger] is_period(q, e) implies exists|
            a: int,
        |
            0 <= a < kept.len() && #[trigger] kept[a] == e by {
            assert(e < d);
        }
        assert(lists_periods_below(q, kept, limit));
    }
}

/// The length of a text is the last of its periods.
proof fn length_is_last_period(q: Seq<char>, kept: Seq<usize>, n: usize)
    requires
        q.len() == n >= 1,
        lists_periods_below(q, kept, n as int),
    ensures
        lists_periods(q, kept.push(n)),
{
    let next = kept.push(n);
    assert(is_period(q, n as int));
    assert forall|a: int, b: int| 0 <= a < b < next.len() implies next[a] < next[b] by {
        if b < kept.len() {
            assert(kept[a] < kept[b]);
        } else {
            assert(kept[a] < n);
        }
    }
    assert forall|e: int| 1 <= e < n + 1 && #[trigger] is_period(q, e) implies exists|a: int|
        0 <= a < next.len() && #[trigger] next[a] == e by {
        if e < n {
            let a = choose|a: int| 0 <= a < kept.len() && kept[a] == e;
            assert(next[a] == e);
        } else {
            assert(next[kept.len() as int] == e);
        }
    }
}

/// Drops from `delays` every delay at which the character at place `i` does
/// not repeat, and then adds the delay `i + 1`.
fn advance_delays(s: &Vec<char>, delays: &Vec<usize>, i: usize) -> (next: Vec<usize>)
    requires
        i < s.len(),
        lists_periods(s@.take(i as int), delays@),
    ensures
        lists_periods(s@.take(i + 1), next@),
{
    let ghost p = s@.take(i as int);
    let c = s[i];
    let ghost q = p.push(c);
    let mut next: Vec<usize> = Vec::new();
    let mut k: usize = 0;
    proof {
        assert(s@.take(i + 1) == q);
        assert(next@ == Seq::<usize>::empty());
        no_period_before_first(p, c, delays@);
    }
    while k < delays.len()
        invariant
            i < s.len(),
            c == s@[i as int],
            p == s@.take(i as int),
            q == p.push(c),
            k <= delays.len(),
            lists_periods(p, delays@),
            lists_periods_below(q, next@, delay_or_end(delays@, k as int, i as int)),
        decreases delays.len() - k,
    {
        let d = delays[k];
        proof {
            delay_step(p, c, delays@, k as int, next@);
        }
        if s[i - d] == c {
            next.push(d);
        }
        k += 1;
    }
    proof {
        length_is_last_period(q, next@, (i + 1) as usize);
    }
    next.push(i + 1);
    next
}

/// The least period of `s`.
///
/// The candidates are the delays at which the text has so far repeated
/// itself. Each character drops the delays that it breaks and adds its own
/// place as a new one; the least delay left at the end is the answer.
pub fn check_period(s: &Vec<char>) -> (d: usize)
    requires
        s.len() >= 1,
    ensures
        is_min_period(s@, d as int),
        d == min_period(s@),
{
    let mut delays: Vec<usize> = Vec::new();
    let mut i: usize = 0;
    while i < s.len()
        invariant
            i <= s.len(),
            lists_periods(s@.take(i as int), delays@),
        decreases s.len() - i,
    {
        delays = advance_delays(s, &delays, i);
        i += 1;
    }
    proof {
        assert(s@.take(s.len() as int) == s@);
        assert(is_period(s@, s.len() as int));
        let k = choose|k: int| 0 <= k < delays.len() && delays[k] == s.len();
        assert forall|e: int| 1 <= e < delays[0] implies !#[trigger] is_period(s@, e) by {
            if is_period(s@, e) {
                let a = choose|a: int| 0 <= a < delays.len() && delays[a] == e;
                assert(a == 0 || delays[0] < delays[a]);
            }
        }
        min_period_is_unique(s@, delays[0] as int);
    }
    delays[0]
}

/// The least period of the text `s`, counted in characters.
pub fn check_repeats(s: &str) -> (d: usize)
    requires
        s@.len() >= 1,
    ensures
        is_min_period(s@, d as int),
        d == min_period(s@),
{
    let chars = chars_of(s);
    check_period(&chars)
}

} // verus!
