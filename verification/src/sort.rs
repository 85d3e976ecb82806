//! Ordering results by their scores.
use crate::common::PingData;
use crate::single::Single;
use vstd::prelude::*;

verus! {

/// `order` lists each of the places `0..n` once.
pub open spec fn is_order(order: Seq<int>, n: nat) -> bool {
    &&& order.len() == n
    &&& forall|i: int| 0 <= i < n ==> 0 <= #[trigger] order[i] < n
    &&& forall|i: int, j: int| 0 <= i < j < n ==> order[i] != order[j]
}

/// Every score is a number.
pub open spec fn all_numbers(scores: Seq<Single>) -> bool {
    forall|i: int| 0 <= i < scores.len() ==> !(#[trigger] scores[i]).is_nan()
}

/// Along `order`, the scores never rise.
pub open spec fn falling(scores: Seq<Single>, order: Seq<int>) -> bool {
    forall|i: int, j: int|
        0 <= i < j < order.len() ==> (#[trigger] scores[order[i]]).number() >= (
        #[trigger] scores[order[j]]).number()
}

/// `sorted` holds the items of `results` in some order in which their scores never rise; where a
/// score is not a number, any order will do.
pub open spec fn sorted_by_score(
    results: Seq<PingData>,
    scores: Seq<Single>,
    sorted: Seq<PingData>,
) -> bool {
    exists|order: Seq<int>| #[trigger]
        is_order(order, results.len()) && sorted == order.map_values(|k: int| results[k]) && (
        all_numbers(scores) ==> falling(scores, order))
}

/// Distinct places below `m` are at most `m` many.
proof fn places_are_limited(order: Seq<int>, m: nat)
    requires
        forall|i: int| 0 <= i < order.len() ==> 0 <= #[trigger] order[i] < m,
        forall|i: int, j: int| 0 <= i < j < order.len() ==> order[i] != order[j],
    ensures
        order.len() <= m,
    decreases m,
{
    if order.len() > 0 {
        assert(0 <= order[0] < m);
        if exists|k: int| 0 <= k < order.len() && order[k] == m - 1 {
            let k = choose|k: int| 0 <= k < order.len() && order[k] == m - 1;
            places_are_limited(order.remove(k), (m - 1) as nat);
        } else {
            places_are_limited(order, (m - 1) as nat);
        }
    }
}

proof fn ordering_keeps_every_item(items: Seq<PingData>, order: Seq<int>)
    requires
        is_order(order, items.len()),
    ensures
        order.map_values(|k: int| items[k]).to_multiset() == items.to_multiset(),
    decreases items.len(),
{
    let f = |k: int| items[k];
    let arranged = order.map_values(f);
    if items.len() == 0 {
        assert(arranged == items);
    } else {
        let n = items.len();
        if forall|k: int| 0 <= k < n ==> order[k] != n - 1 {
            places_are_limited(order, (n - 1) as nat);
        }
        let k = choose|k: int| 0 <= k < n && order[k] == n - 1;
        let rest = order.remove(k);
        let front = items.drop_last();
        let g = |k: int| front[k];
        ordering_keeps_every_item(front, rest);
        assert(rest.map_values(g) == arranged.remove(k));
        arranged.to_multiset_ensures();
        items.to_multiset_ensures();
        assert(items.remove(n - 1) == front);
        assert(arranged[k] == items[n - 1]);
        assert(arranged.contains(arranged[k]));
        assert(items.contains(items[n - 1]));
        let a = arranged.to_multiset();
        let b = items.to_multiset();
        assert(a.remove(arranged[k]) == b.remove(items[n - 1]));
        assert(a.remove(arranged[k]).insert(arranged[k]) == a);
        assert(b.remove(items[n - 1]).insert(items[n - 1]) == b);
    }
}

/// Sorting loses no result, adds none and changes none.
pub proof fn sorting_keeps_every_result(
    results: Seq<PingData>,
    scores: Seq<Single>,
    sorted: Seq<PingData>,
)
    requires
        sorted_by_score(results, scores, sorted),
    ensures
        sorted.len() == results.len(),
        sorted.to_multiset() == results.to_multiset(),
{
    let order = choose|order: Seq<int>| #[trigger]
        is_order(order, results.len()) && sorted == order.map_values(|k: int| results[k]) && (
        all_numbers(scores) ==> falling(scores, order));
    ordering_keeps_every_item(results, order);
}

/// After sorting, a result stands before another only if its score, as a number, is not less:
/// each place holds a result of its own together with its score, and the scores never rise.
pub proof fn higher_scores_come_first(
    results: Seq<PingData>,
    scores: Seq<Single>,
    sorted: Seq<PingData>,
)
    requires
        results.len() == scores.len(),
        sorted_by_score(results, scores, sorted),
        forall|i: int| 0 <= i < scores.len() ==> !(#[trigger] scores[i]).is_nan(),
    ensures
        sorted.len() == results.len(),
        exists|from: Seq<int>|
            from.len() == results.len() && (forall|i: int|
                0 <= i < from.len() ==> 0 <= #[trigger] from[i] < results.len() && sorted[i]
                    == results[from[i]]) && (forall|i: int, j: int|
                0 <= i < j < from.len() ==> #[trigger] from[i] != #[trigger] from[j]
                    && scores[from[i]].number() >= scores[from[j]].number()),
{
    let order = choose|order: Seq<int>| #[trigger]
        is_order(order, results.len()) && sorted == order.map_values(|k: int| results[k]) && (
        all_numbers(scores) ==> falling(scores, order));
    assert forall|i: int| 0 <= i < order.len() implies 0 <= #[trigger] order[i] < results.len()
        && sorted[i] == results[order[i]] by {}
    assert forall|i: int, j: int| 0 <= i < j < order.len() implies #[trigger] order[i]
        != #[trigger] order[j] && scores[order[i]].number() >= scores[order[j]].number() by {}
}

/// The places of a list, as integers.
spec fn places(v: Seq<usize>) -> Seq<int> {
    v.map_values(|k: usize| k as int)
}

/// `v` lists places in `lo..hi`, none of them twice, and their scores never rise.
spec fn run_of(scores: Seq<Single>, v: Seq<usize>, lo: int, hi: int) -> bool {
    &&& forall|i: int| 0 <= i < v.len() ==> lo <= #[trigger] v[i] < hi
    &&& forall|i: int, j: int| 0 <= i < j < v.len() ==> v[i] != v[j]
    &&& all_numbers(scores) ==> forall|i: int, j: int|
        0 <= i < j < v.len() ==> (#[trigger] scores[v[i] as int]).number() >= (
        #[trigger] scores[v[j] as int]).number()
}

/// Merges the places below `mid` with those from `mid` on.
fn merge(scores: &[Single], a: &Vec<usize>, b: &Vec<usize>, lo: usize, mid: usize, hi: usize) -> (r:
    Vec<usize>)
    requires
        lo <= mid <= hi <= scores.len(),
        a.len() + b.len() <= usize::MAX,
        run_of(scores@, a@, lo as int, mid as int),
        run_of(scores@, b@, mid as int, hi as int),
    ensures
        r.len() == a.len() + b.len(),
        run_of(scores@, r@, lo as int, hi as int),
{
    let mut r: Vec<usize> = Vec::new();
    let mut i: usize = 0;
    let mut j: usize = 0;
    while i < a.len() || j < b.len()
        invariant
            lo <= mid <= hi <= scores.len(),
            a.len() + b.len() <= usize::MAX,
            i <= a.len(),
            j <= b.len(),
            r.len() == i + j,
            run_of(scores@, a@, lo as int, mid as int),
            run_of(scores@, b@, mid as int, hi as int),
            run_of(scores@, r@, lo as int, hi as int),
            forall|k: int, p: int| 0 <= k < r.len() && i <= p < a.len() ==> r[k] != a[p],
            forall|k: int, q: int| 0 <= k < r.len() && j <= q < b.len() ==> r[k] != b[q],
            all_numbers(scores@) ==> forall|k: int, p: int|
                0 <= k < r.len() && i <= p < a.len() ==> (#[trigger] scores@[r[k] as int]).number() >= (
                #[trigger] scores@[a[p] as int]).number(),
            all_numbers(scores@) ==> forall|k: int, q: int|
                0 <= k < r.len() && j <= q < b.len() ==> (#[trigger] scores@[r[k] as int]).number() >= (
                #[trigger] scores@[b[q] as int]).number(),
        decreases a.len() + b.len() - i - j,
    {
        let from_b = i == a.len() || (j < b.len() && scores[b[j]].gt(scores[a[i]]));
        if from_b {
            r.push(b[j]);
            j = j + 1;
        } else {
            r.push(a[i]);
            i = i + 1;
        }
    }
    r
}

/// Lists the places `lo..hi` by falling score.
fn ranked(scores: &[Single], lo: usize, hi: usize) -> (r: Vec<usize>)
    requires
        lo <= hi <= scores.len(),
    ensures
        r.len() == hi - lo,
        run_of(scores@, r@, lo as int, hi as int),
    decreases hi - lo,
{
    if lo == hi {
        return Vec::new();
    }
    if hi - lo == 1 {
        let mut r: Vec<usize> = Vec::new();
        r.push(lo);
        return r;
    }
    let mid: usize = lo + (hi - lo) / 2;
    let a = ranked(scores, lo, mid);
    let b = ranked(scores, mid, hi);
    merge(scores, &a, &b, lo, mid, hi)
}

/// Puts the items into the given order.
fn arrange(results: Vec<PingData>, order: &Vec<usize>) -> (r: Vec<PingData>)
    requires
        is_order(places(order@), results@.len()),
    ensures
        r@ == places(order@).map_values(|k: int| results@[k]),
{
    let ghost items = results@;
    let n = results.len();
    let mut rest = results;
    let mut slots: Vec<Option<PingData>> = Vec::new();
    while rest.len() > 0
        invariant
            rest.len() + slots.len() == n,
            n == items.len(),
            rest@ == items.take(rest.len() as int),
            forall|k: int| 0 <= k < slots.len() ==> slots[k] == Some(items[n - 1 - k]),
        decreases rest.len(),
    {
        let item = rest.pop();
        slots.push(item);
    }
    let mut r: Vec<PingData> = Vec::new();
    let mut k: usize = 0;
    while k < n
        invariant
            k <= n,
            n == items.len(),
            slots.len() == n,
            is_order(places(order@), n as nat),
            r@ == places(order@).take(k as int).map_values(|p: int| items[p]),
            forall|p: int|
                k <= p < n ==> #[trigger] slots[n - 1 - places(order@)[p]] == Some(
                    items[places(order@)[p]],
                ),
        decreases n - k,
    {
        let ghost before = slots@;
        assert(places(order@)[k as int] == order[k as int]);
        let slot = n - 1 - order[k];
        let item = slots[slot].take();
        assert(item == Some(items[order[k as int] as int]));
        if let Some(data) = item {
            r.push(data);
        }
        k = k + 1;
    }
    assert(places(order@).take(n as int) == places(order@));
    r
}

/// A download speed is known of some result.
pub open spec fn any_speed(results: Seq<PingData>) -> bool {
    exists|i: int| 0 <= i < results.len() && (#[trigger] results[i]).download_speed is Some
}

/// A speed is known of some results and one more if it is known of them or of that one; of no
/// results none is known.
pub proof fn one_speed_is_enough(results: Seq<PingData>, data: PingData)
    ensures
        any_speed(results.push(data)) <==> any_speed(results) || data.download_speed is Some,
        !any_speed(Seq::empty()),
{
    let more = results.push(data);
    assert(more[results.len() as int] == data);
    if any_speed(results) {
        let i = choose|i: int|
            0 <= i < results.len() && (#[trigger] results[i]).download_speed is Some;
        assert(more[i] == results[i]);
    }
    if any_speed(more) {
        let i = choose|i: int| 0 <= i < more.len() && (#[trigger] more[i]).download_speed is Some;
        if i < results.len() {
            assert(more[i] == results[i]);
        }
    }
}

/// Whether a download speed is known of any result.
pub fn has_speed(results: &[PingData]) -> (r: bool)
    ensures
        r == any_speed(results@),
        r == exists|i: int|
            0 <= i < results@.len() && (#[trigger] results@[i]).download_speed is Some,
{
    let mut i: usize = 0;
    while i < results.len()
        invariant
            i <= results.len(),
            forall|j: int| 0 <= j < i ==> (#[trigger] results@[j]).download_speed is None,
        decreases results.len() - i,
    {
        if results[i].download_speed.is_some() {
            return true;
        }
        i = i + 1;
    }
    false
}

/// Puts the results with the highest scores first; `scores` holds the score of each result.
pub fn sort_results(results: &mut Vec<PingData>, scores: &[Single])
    requires
        old(results)@.len() == scores@.len(),
    ensures
        sorted_by_score(old(results)@, scores@, final(results)@),
{
    let mut items: Vec<PingData> = Vec::new();
    std::mem::swap(results, &mut items);
    let order = ranked(scores, 0, scores.len());
    assert(is_order(places(order@), items@.len()));
    assert(falling(scores@, places(order@)) || !all_numbers(scores@));
    *results = arrange(items, &order);
}

} // verus!
