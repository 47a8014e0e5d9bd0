use vstd::prelude::*;

use crate::errors::ErrorCode;
use crate::math::fits_i64;
use crate::state::{equity_of, Key, Leaderboard, Participant};

verus! {

/// One ranked entry: a participant's identity and score.
pub type Entry = (Key, i64);

/// The entries that two parallel vectors describe: one per index that both
/// cover.
pub open spec fn paired(keys: Seq<Key>, scores: Seq<i64>) -> Seq<Entry> {
    let n = if keys.len() <= scores.len() { keys.len() } else { scores.len() };
    Seq::new(n, |i: int| (keys[i], scores[i]))
}

pub open spec fn keys_of(s: Seq<Entry>) -> Seq<Key> {
    s.map_values(|e: Entry| e.0)
}

pub open spec fn scores_of(s: Seq<Entry>) -> Seq<i64> {
    s.map_values(|e: Entry| e.1)
}

/// `i` is the first index of `s` that holds `key`.
pub open spec fn is_first_key(s: Seq<Entry>, key: Key, i: int) -> bool {
    &&& 0 <= i < s.len()
    &&& s[i].0 == key
    &&& forall|j: int| 0 <= j < i ==> s[j].0 != key
}

/// Replaces the score of the first entry for `key`, or appends a new entry.
pub open spec fn upsert(s: Seq<Entry>, key: Key, score: i64) -> Seq<Entry> {
    if exists|i: int| is_first_key(s, key, i) {
        s.update(choose|i: int| is_first_key(s, key, i), (key, score))
    } else {
        s.push((key, score))
    }
}

/// `j` is where a new entry of `score` goes: after every entry scored at
/// least as high, before the first one scored lower.
pub open spec fn is_insert_point(s: Seq<Entry>, score: i64, j: int) -> bool {
    &&& 0 <= j <= s.len()
    &&& forall|i: int| 0 <= i < j ==> s[i].1 >= score
    &&& j < s.len() ==> s[j].1 < score
}

pub open spec fn insert_point(s: Seq<Entry>, score: i64) -> int {
    choose|j: int| is_insert_point(s, score, j)
}

/// Stable sort by score, highest first: entries of equal score keep their
/// relative order.
pub open spec fn sort_desc(s: Seq<Entry>) -> Seq<Entry>
    decreases s.len(),
{
    if s.len() == 0 {
        s
    } else {
        let r = sort_desc(s.drop_last());
        r.insert(insert_point(r, s.last().1), s.last())
    }
}

pub open spec fn truncate(s: Seq<Entry>, k: nat) -> Seq<Entry> {
    if s.len() <= k {
        s
    } else {
        s.take(k as int)
    }
}

/// The ranked list after `key` reports `score`, with room for `k` entries.
pub open spec fn ranking_after(s: Seq<Entry>, key: Key, score: i64, k: nat) -> Seq<Entry> {
    if k == 0 {
        s
    } else {
        truncate(sort_desc(upsert(s, key, score)), k)
    }
}

pub open spec fn descending(s: Seq<Entry>) -> bool {
    forall|i: int, j: int| 0 <= i < j < s.len() ==> s[i].1 >= s[j].1
}

pub open spec fn strictly_descending(s: Seq<Entry>) -> bool {
    forall|i: int, j: int| 0 <= i < j < s.len() ==> s[i].1 > s[j].1
}

pub open spec fn distinct_keys(s: Seq<Entry>) -> bool {
    forall|i: int, j: int| 0 <= i < j < s.len() ==> s[i].0 != s[j].0
}

pub open spec fn distinct_scores(s: Seq<Entry>) -> bool {
    forall|i: int, j: int| 0 <= i < j < s.len() ==> s[i].1 != s[j].1
}

/// A well-formed ranked list of capacity `k`.
pub open spec fn ranking_valid(s: Seq<Entry>, k: nat) -> bool {
    &&& s.len() <= k
    &&& descending(s)
    &&& distinct_keys(s)
}

proof fn lemma_insert_point_exists(s: Seq<Entry>, score: i64)
    ensures
        is_insert_point(s, score, insert_point(s, score)),
        forall|j: int| is_insert_point(s, score, j) ==> j == insert_point(s, score),
    decreases s.len(),
{
    if s.len() == 0 {
        assert(is_insert_point(s, score, 0));
    } else {
        let t = s.drop_last();
        lemma_insert_point_exists(t, score);
        let j = insert_point(t, score);
        assert(forall|i: int| 0 <= i < t.len() ==> t[i] == s[i]);
        if j < t.len() {
            assert(is_insert_point(s, score, j));
        } else if s.last().1 < score {
            assert(is_insert_point(s, score, t.len() as int));
        } else {
            assert(is_insert_point(s, score, s.len() as int));
        }
    }
    let w = insert_point(s, score);
    assert forall|j: int| is_insert_point(s, score, j) implies j == w by {
        if j < w {
            assert(s[j].1 >= score);
        } else if w < j {
            assert(s[w].1 >= score);
        }
    }
}

/// Sorting keeps the entries, and puts them highest score first.
pub proof fn lemma_sort_desc(s: Seq<Entry>)
    ensures
        sort_desc(s).len() == s.len(),
        descending(sort_desc(s)),
        forall|x: Entry| sort_desc(s).contains(x) <==> s.contains(x),
        distinct_keys(s) ==> distinct_keys(sort_desc(s)),
        distinct_scores(s) ==> distinct_scores(sort_desc(s)),
    decreases s.len(),
{
    if s.len() > 0 {
        let t = s.drop_last();
        let e = s.last();
        lemma_sort_desc(t);
        let r = sort_desc(t);
        lemma_insert_point_exists(r, e.1);
        let p = insert_point(r, e.1);
        let out = r.insert(p, e);
        r.insert_ensures(p, e);
        assert(forall|i: int| 0 <= i < t.len() ==> t[i] == s[i]);
        assert(out == sort_desc(s));
        assert forall|i: int, j: int| 0 <= i < j < out.len() implies out[i].1 >= out[j].1 by {
            if j < p {
            } else if j == p {
            } else if i < p {
                if p < r.len() {
                    assert(r[i].1 >= r[p].1);
                }
            } else if i == p {
                assert(r[p].1 < e.1);
            } else {
            }
        }
        assert forall|x: Entry| out.contains(x) <==> s.contains(x) by {
            if out.contains(x) {
                let i = choose|i: int| 0 <= i < out.len() && out[i] == x;
                if i == p {
                    assert(s[s.len() - 1] == x);
                } else {
                    let ri = if i < p { i } else { i - 1 };
                    assert(out[i] == r[ri]);
                    assert(r.contains(r[ri]));
                    assert(t.contains(r[ri]));
                    let m = choose|m: int| 0 <= m < t.len() && t[m] == r[ri];
                    assert(s[m] == x);
                }
            }
            if s.contains(x) {
                let i = choose|i: int| 0 <= i < s.len() && s[i] == x;
                if i == s.len() - 1 {
                    assert(out[p] == x);
                } else {
                    assert(t[i] == x);
                    assert(t.contains(x));
                    let m = choose|m: int| 0 <= m < r.len() && r[m] == x;
                    if m < p {
                        assert(out[m] == x);
                    } else {
                        assert(out[m + 1] == x);
                    }
                }
            }
        }
        if distinct_keys(s) {
            assert(distinct_keys(t));
            assert forall|m: int| 0 <= m < r.len() implies r[m].0 != e.0 by {
                assert(r.contains(r[m]));
                assert(t.contains(r[m]));
                let q = choose|q: int| 0 <= q < t.len() && t[q] == r[m];
                assert(s[q].0 != s[s.len() - 1].0);
            }
            assert forall|i: int, j: int| 0 <= i < j < out.len() implies out[i].0 != out[j].0 by {
                if i < p && j < p {
                } else if i < p && j == p {
                } else if i < p {
                    assert(r[i].0 != r[j - 1].0);
                } else if i == p {
                    assert(r[j - 1].0 != e.0);
                } else {
                    assert(r[i - 1].0 != r[j - 1].0);
                }
            }
        }
        if distinct_scores(s) {
            assert(distinct_scores(t));
            assert forall|m: int| 0 <= m < r.len() implies r[m].1 != e.1 by {
                assert(r.contains(r[m]));
                assert(t.contains(r[m]));
                let q = choose|q: int| 0 <= q < t.len() && t[q] == r[m];
                assert(s[q].1 != s[s.len() - 1].1);
            }
            assert forall|i: int, j: int| 0 <= i < j < out.len() implies out[i].1 != out[j].1 by {
                if i < p && j < p {
                } else if i < p && j == p {
                } else if i < p {
                    assert(r[i].1 != r[j - 1].1);
                } else if i == p {
                    assert(r[j - 1].1 != e.1);
                } else {
                    assert(r[i - 1].1 != r[j - 1].1);
                }
            }
        }
    }
}

/// Sorting a list that is already in order leaves it as it is.
pub proof fn lemma_sort_desc_of_sorted(s: Seq<Entry>)
    requires
        descending(s),
    ensures
        sort_desc(s) == s,
    decreases s.len(),
{
    if s.len() > 0 {
        let t = s.drop_last();
        lemma_sort_desc_of_sorted(t);
        lemma_insert_point_exists(t, s.last().1);
        assert(forall|i: int| 0 <= i < t.len() ==> t[i] == s[i]);
        assert(is_insert_point(t, s.last().1, t.len() as int));
        assert(t.insert(t.len() as int, s.last()) =~= s);
    }
}

proof fn lemma_upsert(s: Seq<Entry>, key: Key, score: i64)
    ensures
        upsert(s, key, score).contains((key, score)),
        distinct_keys(s) ==> distinct_keys(upsert(s, key, score)),
        forall|x: Entry| upsert(s, key, score).contains(x) ==> x == (key, score) || s.contains(x),
{
    let u = upsert(s, key, score);
    if exists|i: int| is_first_key(s, key, i) {
        let i = choose|i: int| is_first_key(s, key, i);
        assert(u[i] == (key, score));
        if distinct_keys(s) {
            assert forall|a: int, b: int| 0 <= a < b < u.len() implies u[a].0 != u[b].0 by {
                if a != i && b != i {
                    assert(s[a].0 != s[b].0);
                } else if a == i {
                    assert(s[i].0 != s[b].0);
                } else {
                    assert(s[a].0 != s[i].0);
                }
            }
        }
        assert forall|x: Entry| u.contains(x) implies x == (key, score) || s.contains(x) by {
            let m = choose|m: int| 0 <= m < u.len() && u[m] == x;
            if m != i {
                assert(s[m] == x);
            }
        }
    } else {
        assert(u[s.len() as int] == (key, score));
        if distinct_keys(s) {
            assert forall|a: int, b: int| 0 <= a < b < u.len() implies u[a].0 != u[b].0 by {
                if b == s.len() {
                    if s[a].0 == key {
                        assert(false) by {
                            lemma_first_key_exists(s, key, a);
                        }
                    }
                }
            }
        }
        assert forall|x: Entry| u.contains(x) implies x == (key, score) || s.contains(x) by {
            let m = choose|m: int| 0 <= m < u.len() && u[m] == x;
            if m < s.len() {
                assert(s[m] == x);
            }
        }
    }
}

proof fn lemma_first_key_exists(s: Seq<Entry>, key: Key, a: int)
    requires
        0 <= a < s.len(),
        s[a].0 == key,
    ensures
        exists|i: int| is_first_key(s, key, i),
    decreases a,
{
    if exists|j: int| 0 <= j < a && s[j].0 == key {
        let j = choose|j: int| 0 <= j < a && s[j].0 == key;
        lemma_first_key_exists(s, key, j);
    } else {
        assert(is_first_key(s, key, a));
    }
}

/// Whatever the list held before, an update leaves at most `k` entries, highest
/// score first; keys stay unique where they were, and the order is strict
/// where all scores differ.
pub proof fn lemma_update_keeps_ranking_valid(s: Seq<Entry>, key: Key, score: i64, k: nat)
    requires
        k > 0,
    ensures
        ranking_after(s, key, score, k).len() <= k,
        descending(ranking_after(s, key, score, k)),
        distinct_keys(s) ==> distinct_keys(ranking_after(s, key, score, k)),
        distinct_scores(upsert(s, key, score)) ==> strictly_descending(ranking_after(s, key, score, k)),
{
    let u = upsert(s, key, score);
    lemma_upsert(s, key, score);
    lemma_sort_desc(u);
    let r = ranking_after(s, key, score, k);
    if distinct_scores(u) {
        assert forall|i: int, j: int| 0 <= i < j < r.len() implies r[i].1 > r[j].1 by {
            assert(sort_desc(u)[i].1 != sort_desc(u)[j].1);
        }
    }
}

/// A ranked list that is valid stays valid under any update.
pub proof fn lemma_ranking_invariant(s: Seq<Entry>, key: Key, score: i64, k: nat)
    requires
        ranking_valid(s, k),
    ensures
        ranking_valid(ranking_after(s, key, score, k), k),
{
    if k > 0 {
        lemma_update_keeps_ranking_valid(s, key, score, k);
    }
}

/// Reporting the same score for the same key twice ranks as reporting it once.
pub proof fn lemma_update_idempotent(s: Seq<Entry>, key: Key, score: i64, k: nat)
    requires
        distinct_keys(s),
    ensures
        ranking_after(ranking_after(s, key, score, k), key, score, k) == ranking_after(s, key, score, k),
{
    if k > 0 {
        let u = upsert(s, key, score);
        lemma_upsert(s, key, score);
        lemma_sort_desc(u);
        let sorted = sort_desc(u);
        let l1 = truncate(sorted, k);
        assert(sorted.contains((key, score)));
        let q = choose|q: int| 0 <= q < sorted.len() && sorted[q] == (key, score);
        assert(descending(l1));
        assert(distinct_keys(l1));
        if q < l1.len() {
            assert(l1[q] == (key, score));
            assert(is_first_key(l1, key, q));
            let f = choose|i: int| is_first_key(l1, key, i);
            assert(f == q) by {
                if f < q {
                    assert(l1[f].0 != l1[q].0);
                } else if q < f {
                }
            }
            assert(upsert(l1, key, score) =~= l1);
            lemma_sort_desc_of_sorted(l1);
        } else {
            assert forall|i: int| 0 <= i < l1.len() implies l1[i].0 != key by {
                assert(sorted[i].0 != sorted[q].0);
            }
            assert(!exists|i: int| is_first_key(l1, key, i));
            let e = (key, score);
            let u2 = l1.push(e);
            assert(upsert(l1, key, score) == u2);
            assert(u2.drop_last() =~= l1);
            lemma_sort_desc_of_sorted(l1);
            lemma_insert_point_exists(l1, score);
            assert forall|i: int| 0 <= i < l1.len() implies l1[i].1 >= score by {
                assert(sorted[i].1 >= sorted[q].1);
            }
            assert(is_insert_point(l1, score, l1.len() as int));
            assert(u2.last() == e);
            assert(sort_desc(u2) == l1.insert(l1.len() as int, e));
            assert(l1.insert(l1.len() as int, e) =~= u2);
            assert(l1.len() == k);
            assert(u2.take(k as int) =~= l1);
        }
    }
}

fn first_index_of(entries: &Vec<Entry>, key: Key) -> (r: usize)
    ensures
        r <= entries.len(),
        r < entries.len() ==> is_first_key(entries@, key, r as int),
        r == entries.len() ==> !exists|i: int| is_first_key(entries@, key, i),
{
    let mut j: usize = 0;
    while j < entries.len()
        invariant
            j <= entries.len(),
            forall|i: int| 0 <= i < j ==> entries@[i].0 != key,
        decreases entries.len() - j,
    {
        if entries[j].0 == key {
            return j;
        }
        j = j + 1;
    }
    j
}

fn insert_index(sorted: &Vec<Entry>, score: i64) -> (r: usize)
    ensures
        r <= sorted.len(),
        r as int == insert_point(sorted@, score),
{
    let mut j: usize = 0;
    while j < sorted.len() && sorted[j].1 >= score
        invariant
            j <= sorted.len(),
            forall|i: int| 0 <= i < j ==> sorted@[i].1 >= score,
        decreases sorted.len() - j,
    {
        j = j + 1;
    }
    proof {
        lemma_insert_point_exists(sorted@, score);
        assert(is_insert_point(sorted@, score, j as int));
    }
    j
}

/// Records `score` for `key` in a ranked list of capacity `k`: the key's entry
/// is replaced or appended, the list is re-sorted highest score first (ties
/// keep their order) and cut to `k` entries. With `k == 0` nothing changes.
pub fn update_topk_list(
    list: &mut Vec<Key>,
    scores: &mut Vec<i64>,
    key: Key,
    score: i64,
    k: u16,
) -> (r: Result<(), ErrorCode>)
    ensures
        r is Ok,
        k == 0 ==> final(list)@ == old(list)@ && final(scores)@ == old(scores)@,
        k > 0 ==> final(list)@ == keys_of(ranking_after(paired(old(list)@, old(scores)@), key, score, k as nat)),
        k > 0 ==> final(scores)@ == scores_of(ranking_after(paired(old(list)@, old(scores)@), key, score, k as nat)),
{
    if k == 0 {
        return Ok(());
    }
    let ghost before = paired(list@, scores@);
    let n: usize = if list.len() <= scores.len() { list.len() } else { scores.len() };
    let mut combined: Vec<Entry> = Vec::new();
    let mut i: usize = 0;
    while i < n
        invariant
            i <= n,
            n == before.len(),
            before == paired(list@, scores@),
            combined@ == before.take(i as int),
        decreases n - i,
    {
        combined.push((list[i], scores[i]));
        i = i + 1;
        assert(combined@ =~= before.take(i as int));
    }
    assert(combined@ =~= before);
    let pos = first_index_of(&combined, key);
    if pos < combined.len() {
        combined.set(pos, (key, score));
    } else {
        combined.push((key, score));
    }
    let ghost u = upsert(before, key, score);
    assert(combined@ == u);
    let mut sorted: Vec<Entry> = Vec::new();
    let mut i: usize = 0;
    while i < combined.len()
        invariant
            i <= combined.len(),
            combined@ == u,
            sorted@ == sort_desc(u.take(i as int)),
        decreases combined.len() - i,
    {
        let e = combined[i];
        let at = insert_index(&sorted, e.1);
        sorted.insert(at, e);
        proof {
            assert(u.take(i + 1).drop_last() =~= u.take(i as int));
        }
        i = i + 1;
    }
    assert(u.take(u.len() as int) =~= u);
    let ghost ranked = ranking_after(before, key, score, k as nat);
    let m: usize = if sorted.len() <= k as usize { sorted.len() } else { k as usize };
    assert(ranked =~= sorted@.take(m as int));
    list.clear();
    scores.clear();
    let mut i: usize = 0;
    while i < m
        invariant
            i <= m <= sorted.len(),
            ranked == sorted@.take(m as int),
            list@ == keys_of(ranked.take(i as int)),
            scores@ == scores_of(ranked.take(i as int)),
        decreases m - i,
    {
        list.push(sorted[i].0);
        scores.push(sorted[i].1);
        i = i + 1;
        assert(list@ =~= keys_of(ranked.take(i as int)));
        assert(scores@ =~= scores_of(ranked.take(i as int)));
    }
    assert(ranked.take(m as int) =~= ranked);
    Ok(())
}

pub fn update_topk_equity(leaderboard: &mut Leaderboard, key: Key, score: i64) -> (r: Result<(), ErrorCode>)
    ensures
        r is Ok,
        final(leaderboard).topk_equity@ == (if old(leaderboard).k == 0 { old(leaderboard).topk_equity@ } else {
            keys_of(ranking_after(paired(old(leaderboard).topk_equity@, old(leaderboard).topk_equity_scores@), key, score, old(leaderboard).k as nat))
        }),
        final(leaderboard).topk_equity_scores@ == (if old(leaderboard).k == 0 { old(leaderboard).topk_equity_scores@ } else {
            scores_of(ranking_after(paired(old(leaderboard).topk_equity@, old(leaderboard).topk_equity_scores@), key, score, old(leaderboard).k as nat))
        }),
        final(leaderboard).topk_volume@ == old(leaderboard).topk_volume@,
        final(leaderboard).topk_volume_scores@ == old(leaderboard).topk_volume_scores@,
        final(leaderboard).k == old(leaderboard).k,
        final(leaderboard).league == old(leaderboard).league,
        final(leaderboard).last_updated == old(leaderboard).last_updated,
        final(leaderboard).bump == old(leaderboard).bump,
{
    let k = leaderboard.k;
    update_topk_list(&mut leaderboard.topk_equity, &mut leaderboard.topk_equity_scores, key, score, k)
}

pub fn update_topk_volume(leaderboard: &mut Leaderboard, key: Key, score: i64) -> (r: Result<(), ErrorCode>)
    ensures
        r is Ok,
        final(leaderboard).topk_volume@ == (if old(leaderboard).k == 0 { old(leaderboard).topk_volume@ } else {
            keys_of(ranking_after(paired(old(leaderboard).topk_volume@, old(leaderboard).topk_volume_scores@), key, score, old(leaderboard).k as nat))
        }),
        final(leaderboard).topk_volume_scores@ == (if old(leaderboard).k == 0 { old(leaderboard).topk_volume_scores@ } else {
            scores_of(ranking_after(paired(old(leaderboard).topk_volume@, old(leaderboard).topk_volume_scores@), key, score, old(leaderboard).k as nat))
        }),
        final(leaderboard).topk_equity@ == old(leaderboard).topk_equity@,
        final(leaderboard).topk_equity_scores@ == old(leaderboard).topk_equity_scores@,
        final(leaderboard).k == old(leaderboard).k,
        final(leaderboard).league == old(leaderboard).league,
        final(leaderboard).last_updated == old(leaderboard).last_updated,
        final(leaderboard).bump == old(leaderboard).bump,
{
    let k = leaderboard.k;
    update_topk_list(&mut leaderboard.topk_volume, &mut leaderboard.topk_volume_scores, key, score, k)
}

/// Ranks `participant` on both lists of `leaderboard`: by equity
/// (`virtual_balance + unrealized_pnl`) and by total volume, under its user
/// identity, and stamps the update time. An equity beyond `i64` is refused
/// and nothing changes.
pub fn update_leaderboard_with_participant(
    leaderboard: &mut Leaderboard,
    participant: &Participant,
    now: i64,
) -> (r: Result<(), ErrorCode>)
    ensures
        !fits_i64(equity_of(*participant)) ==> r == Err::<(), ErrorCode>(ErrorCode::MathOverflow)
            && *final(leaderboard) == *old(leaderboard),
        fits_i64(equity_of(*participant)) ==> {
            let lb = *old(leaderboard);
            let k = lb.k as nat;
            &&& r is Ok
            &&& final(leaderboard).topk_equity@ == (if k == 0 { lb.topk_equity@ } else {
                keys_of(ranking_after(paired(lb.topk_equity@, lb.topk_equity_scores@), participant.user, equity_of(*participant) as i64, k))
            })
            &&& final(leaderboard).topk_equity_scores@ == (if k == 0 { lb.topk_equity_scores@ } else {
                scores_of(ranking_after(paired(lb.topk_equity@, lb.topk_equity_scores@), participant.user, equity_of(*participant) as i64, k))
            })
            &&& final(leaderboard).topk_volume@ == (if k == 0 { lb.topk_volume@ } else {
                keys_of(ranking_after(paired(lb.topk_volume@, lb.topk_volume_scores@), participant.user, participant.total_volume, k))
            })
            &&& final(leaderboard).topk_volume_scores@ == (if k == 0 { lb.topk_volume_scores@ } else {
                scores_of(ranking_after(paired(lb.topk_volume@, lb.topk_volume_scores@), participant.user, participant.total_volume, k))
            })
            &&& final(leaderboard).last_updated == now
            &&& final(leaderboard).k == lb.k
            &&& final(leaderboard).league == lb.league
            &&& final(leaderboard).bump == lb.bump
        },
{
    let wide = participant.virtual_balance as i128 + participant.unrealized_pnl as i128;
    if wide < i64::MIN as i128 || wide > i64::MAX as i128 {
        return Err(ErrorCode::MathOverflow);
    }
    let equity = participant.equity();
    let _ = update_topk_equity(leaderboard, participant.user, equity);
    let _ = update_topk_volume(leaderboard, participant.user, participant.total_volume);
    leaderboard.last_updated = now;
    Ok(())
}

} // verus!
