//! The aggregation engine: turns a flat sequence of keyed ledger rows into
//! per-key buckets carrying a count and a sum, together with the grand
//! total. Averages and percentages are derived, never stored, and are
//! explicit `None` instead of a division by zero when no rows back them.

use vstd::prelude::*;

verus! {

/// Largest magnitude, in cents, that a single row's amount may carry when it
/// enters an aggregation. Chosen so that `MAX_GROUP_ROWS` such amounts sum
/// without overflowing an `i64`.
pub const MAX_AMOUNT_CENTS: i64 = 0x2000_0000_0000;

/// Largest number of rows one aggregation accepts.
pub const MAX_GROUP_ROWS: usize = 0x10000;

/// One ledger row reduced to what aggregation needs: the grouping key
/// (a tag, company or category id) and the amount in cents.
#[derive(Clone, Copy, Debug, PartialEq, Eq, Structural)]
pub struct KeyedAmount {
    pub key: i32,
    pub amount: i64,
}

/// A group of rows sharing one key: how many rows were seen and what their
/// amounts sum to. The average is derived by [`Bucket::avg`].
#[derive(Clone, Copy, Debug, PartialEq, Eq, Structural)]
pub struct Bucket {
    pub key: i32,
    pub count: usize,
    pub sum: i64,
}

/// Sum of all amounts in the sequence; 0 for an empty sequence.
pub open spec fn total_of(s: Seq<KeyedAmount>) -> int
    decreases s.len(),
{
    if s.len() == 0 {
        0
    } else {
        total_of(s.drop_last()) + s.last().amount
    }
}

/// Number of rows in `s` whose key is `k`.
pub open spec fn key_count(s: Seq<KeyedAmount>, k: i32) -> int
    decreases s.len(),
{
    if s.len() == 0 {
        0
    } else {
        key_count(s.drop_last(), k) + if s.last().key == k {
            1int
        } else {
            0int
        }
    }
}

/// Sum of the amounts of the rows in `s` whose key is `k`.
pub open spec fn key_sum(s: Seq<KeyedAmount>, k: i32) -> int
    decreases s.len(),
{
    if s.len() == 0 {
        0
    } else {
        key_sum(s.drop_last(), k) + if s.last().key == k {
            s.last().amount as int
        } else {
            0int
        }
    }
}

/// Some row of `s` carries key `k`.
pub open spec fn has_key(s: Seq<KeyedAmount>, k: i32) -> bool {
    exists|i: int| 0 <= i < s.len() && s[i].key == k
}

/// Every amount in `s` is at most `m` in magnitude.
pub open spec fn amounts_bounded(s: Seq<KeyedAmount>, m: int) -> bool {
    forall|i: int| 0 <= i < s.len() ==> -m <= #[trigger] s[i].amount <= m
}

/// The buckets' keys are strictly increasing, so each key appears at most
/// once and the rendering order is deterministic.
pub open spec fn buckets_sorted(b: Seq<Bucket>) -> bool {
    forall|i: int, j: int| 0 <= i < j < b.len() ==> #[trigger] b[i].key < #[trigger] b[j].key
}

/// The buckets are exactly the statistics of `s`: one bucket per key that
/// occurs in `s`, carrying that key's row count and amount sum.
pub open spec fn buckets_match(s: Seq<KeyedAmount>, b: Seq<Bucket>) -> bool {
    &&& forall|i: int|
        0 <= i < b.len() ==> {
            &&& (#[trigger] b[i]).count == key_count(s, b[i].key)
            &&& b[i].sum == key_sum(s, b[i].key)
            &&& b[i].count > 0
        }
    &&& forall|k: i32| #[trigger] has_key(s, k) <==> exists|i: int| 0 <= i < b.len() && (#[trigger] b[i]).key == k
}

/// Sum of the buckets' sums.
pub open spec fn buckets_sum(b: Seq<Bucket>) -> int
    decreases b.len(),
{
    if b.len() == 0 {
        0
    } else {
        buckets_sum(b.drop_last()) + b.last().sum
    }
}

/// Sum of the buckets' counts.
pub open spec fn buckets_count(b: Seq<Bucket>) -> int
    decreases b.len(),
{
    if b.len() == 0 {
        0
    } else {
        buckets_count(b.drop_last()) + b.last().count
    }
}

/// Integer division rounding toward zero, the rounding that the derived
/// statistics (average, percentage) use.
pub open spec fn div_toward_zero(a: int, b: int) -> int {
    if a >= 0 {
        a / b
    } else {
        -((-a) / b)
    }
}

proof fn lemma_push_row(s: Seq<KeyedAmount>, x: KeyedAmount, k: i32)
    ensures
        total_of(s.push(x)) == total_of(s) + x.amount,
        key_count(s.push(x), k) == key_count(s, k) + if x.key == k {
            1int
        } else {
            0int
        },
        key_sum(s.push(x), k) == key_sum(s, k) + if x.key == k {
            x.amount as int
        } else {
            0int
        },
{
    assert(s.push(x).drop_last() =~= s);
    assert(s.push(x).last() == x);
}

proof fn lemma_has_key_push(s: Seq<KeyedAmount>, x: KeyedAmount, k: i32)
    ensures
        has_key(s.push(x), k) <==> (has_key(s, k) || x.key == k),
{
    if has_key(s, k) {
        let i = choose|i: int| 0 <= i < s.len() && s[i].key == k;
        assert(s.push(x)[i].key == k);
    }
    if x.key == k {
        assert(s.push(x)[s.len() as int].key == k);
    }
    if has_key(s.push(x), k) {
        let i = choose|i: int| 0 <= i < s.push(x).len() && s.push(x)[i].key == k;
        if i < s.len() {
            assert(s[i].key == k);
        }
    }
}

proof fn lemma_key_count_le_len(s: Seq<KeyedAmount>, k: i32)
    ensures
        0 <= key_count(s, k) <= s.len(),
    decreases s.len(),
{
    if s.len() > 0 {
        lemma_key_count_le_len(s.drop_last(), k);
    }
}

proof fn lemma_key_sum_bounded(s: Seq<KeyedAmount>, k: i32, m: int)
    requires
        m >= 0,
        amounts_bounded(s, m),
    ensures
        -(key_count(s, k) * m) <= key_sum(s, k) <= key_count(s, k) * m,
    decreases s.len(),
{
    if s.len() > 0 {
        assert(amounts_bounded(s.drop_last(), m)) by {
            assert(forall|i: int|
                0 <= i < s.drop_last().len() ==> #[trigger] s.drop_last()[i] == s[i]);
        }
        lemma_key_sum_bounded(s.drop_last(), k, m);
        let c = key_count(s.drop_last(), k);
        assert(-m <= s[s.len() - 1].amount <= m);
        if s.last().key == k {
            assert((c + 1) * m == c * m + m) by (nonlinear_arith);
            lemma_key_count_le_len(s.drop_last(), k);
        }
        assert(key_sum(s, k) <= key_count(s, k) * m);
        assert(-(key_count(s, k) * m) <= key_sum(s, k));
    }
}

proof fn lemma_buckets_sum_update(b: Seq<Bucket>, i: int, nb: Bucket)
    requires
        0 <= i < b.len(),
    ensures
        buckets_sum(b.update(i, nb)) == buckets_sum(b) - b[i].sum + nb.sum,
        buckets_count(b.update(i, nb)) == buckets_count(b) - b[i].count + nb.count,
    decreases b.len(),
{
    if i == b.len() - 1 {
        assert(b.update(i, nb).drop_last() =~= b.drop_last());
        assert(b.update(i, nb).last() == nb);
    } else {
        assert(b.update(i, nb).drop_last() =~= b.drop_last().update(i, nb));
        assert(b.update(i, nb).last() == b.last());
        lemma_buckets_sum_update(b.drop_last(), i, nb);
    }
}

proof fn lemma_buckets_sum_insert(b: Seq<Bucket>, i: int, nb: Bucket)
    requires
        0 <= i <= b.len(),
    ensures
        buckets_sum(b.insert(i, nb)) == buckets_sum(b) + nb.sum,
        buckets_count(b.insert(i, nb)) == buckets_count(b) + nb.count,
    decreases b.len(),
{
    if i == b.len() {
        assert(b.insert(i, nb).drop_last() =~= b);
        assert(b.insert(i, nb).last() == nb);
    } else {
        assert(b.insert(i, nb).drop_last() =~= b.drop_last().insert(i, nb));
        assert(b.insert(i, nb).last() == b.last());
        lemma_buckets_sum_insert(b.drop_last(), i, nb);
    }
}

/// Group the rows by key. The result holds one bucket per distinct key, in
/// strictly increasing key order; each bucket carries the number of rows with
/// that key and the sum of their amounts. The bucket sums partition the grand
/// total and the bucket counts partition the row count.
pub fn aggregate_pairs(rows: &Vec<KeyedAmount>) -> (r: Vec<Bucket>)
    requires
        rows@.len() <= MAX_GROUP_ROWS,
        amounts_bounded(rows@, MAX_AMOUNT_CENTS as int),
    ensures
        buckets_sorted(r@),
        buckets_match(rows@, r@),
        buckets_sum(r@) == total_of(rows@),
        buckets_count(r@) == rows@.len(),
{
    let ghost all = rows@;
    let mut buckets: Vec<Bucket> = Vec::new();
    let n = rows.len();
    for i in 0..n
        invariant
            n == all.len() <= MAX_GROUP_ROWS,
            rows@ == all,
            amounts_bounded(all, MAX_AMOUNT_CENTS as int),
            buckets_sorted(buckets@),
            buckets_match(all.take(i as int), buckets@),
            buckets_sum(buckets@) == total_of(all.take(i as int)),
            buckets_count(buckets@) == i,
    {
        let ghost prefix = all.take(i as int);
        let k = rows[i].key;
        let a = rows[i].amount;
        proof {
            assert(all.take(i + 1) =~= prefix.push(all[i as int]));
            lemma_push_row(prefix, all[i as int], k);
        }
        let mut j: usize = 0;
        while j < buckets.len() && buckets[j].key < k
            invariant
                j <= buckets@.len(),
                forall|m: int| 0 <= m < j ==> #[trigger] buckets@[m].key < k,
                buckets_sorted(buckets@),
            decreases buckets@.len() - j,
        {
            j += 1;
        }
        if j < buckets.len() && buckets[j].key == k {
            proof {
                lemma_key_count_le_len(prefix, k);
                lemma_key_sum_bounded(prefix, k, MAX_AMOUNT_CENTS as int);
                assert(-0x2000_0000_0000_0000int <= key_sum(prefix, k)
                    <= 0x2000_0000_0000_0000int) by (nonlinear_arith)
                    requires
                        -(key_count(prefix, k) * (MAX_AMOUNT_CENTS as int)) <= key_sum(prefix, k)
                            <= key_count(prefix, k) * (MAX_AMOUNT_CENTS as int),
                        0 <= key_count(prefix, k) <= 0x10000,
                        MAX_AMOUNT_CENTS == 0x2000_0000_0000,
                ;
            }
            let nb = Bucket { key: k, count: buckets[j].count + 1, sum: buckets[j].sum + a };
            let ghost prev = buckets@;
            proof {
                lemma_buckets_sum_update(prev, j as int, nb);
            }
            buckets[j] = nb;
            proof {
                let snew = all.take(i + 1);
                assert(buckets@ =~= prev.update(j as int, nb));
                assert(forall|m: int|
                    0 <= m < buckets@.len() ==> (#[trigger] buckets@[m]).key == prev[m].key);
                assert forall|idx: int| 0 <= idx < buckets@.len() implies {
                    &&& (#[trigger] buckets@[idx]).count == key_count(snew, buckets@[idx].key)
                    &&& buckets@[idx].sum == key_sum(snew, buckets@[idx].key)
                    &&& buckets@[idx].count > 0
                } by {
                    lemma_push_row(prefix, all[i as int], buckets@[idx].key);
                    if idx != j {
                        assert(prev[idx].key != k);
                    }
                }
                assert forall|k2: i32| #[trigger] has_key(snew, k2) implies exists|m: int|
                    0 <= m < buckets@.len() && (#[trigger] buckets@[m]).key == k2 by {
                    lemma_has_key_push(prefix, all[i as int], k2);
                    if k2 == k {
                        assert(buckets@[j as int].key == k2);
                    } else {
                        let m = choose|m: int| 0 <= m < prev.len() && (#[trigger] prev[m]).key == k2;
                        assert(buckets@[m].key == k2);
                    }
                }
                assert forall|k2: i32|
                    (exists|m: int| 0 <= m < buckets@.len() && (#[trigger] buckets@[m]).key == k2)
                    implies #[trigger] has_key(snew, k2) by {
                    lemma_has_key_push(prefix, all[i as int], k2);
                    let m = choose|m: int|
                        0 <= m < buckets@.len() && (#[trigger] buckets@[m]).key == k2;
                    assert(prev[m].key == k2);
                }
            }
        } else {
            let nb = Bucket { key: k, count: 1, sum: a };
            proof {
                lemma_buckets_sum_insert(buckets@, j as int, nb);
                lemma_key_count_le_len(prefix, k);
                if has_key(prefix, k) {
                    let m = choose|m: int| 0 <= m < prefix.len() && prefix[m].key == k;
                    assert(exists|idx: int|
                        0 <= idx < buckets@.len() && (#[trigger] buckets@[idx]).key == k);
                    let idx = choose|idx: int|
                        0 <= idx < buckets@.len() && (#[trigger] buckets@[idx]).key == k;
                    assert(idx >= j);
                    assert(buckets@[idx].key >= k || idx < j);
                    assert(false);
                }
                assert(key_count(prefix, k) == 0 && key_sum(prefix, k) == 0) by {
                    lemma_no_key_no_stats(prefix, k);
                }
            }
            let ghost prev = buckets@;
            buckets.insert(j, nb);
            proof {
                let snew = all.take(i + 1);
                assert(buckets@ =~= prev.insert(j as int, nb));
                prev.insert_ensures(j as int, nb);
                assert forall|i1: int, i2: int| 0 <= i1 < i2 < buckets@.len() implies
                    #[trigger] buckets@[i1].key < #[trigger] buckets@[i2].key by {
                    if i1 < j && i2 == j {
                        assert(buckets@[i1] == prev[i1]);
                    } else if i1 == j && i2 > j {
                        assert(buckets@[i2] == prev[i2 - 1]);
                        assert(prev[i2 - 1].key > k);
                    } else if i1 < j && i2 > j {
                        assert(buckets@[i1] == prev[i1]);
                        assert(buckets@[i2] == prev[i2 - 1]);
                    } else if i1 > j {
                        assert(buckets@[i1] == prev[i1 - 1]);
                        assert(buckets@[i2] == prev[i2 - 1]);
                    }
                }
                assert forall|idx: int| 0 <= idx < buckets@.len() implies {
                    &&& (#[trigger] buckets@[idx]).count == key_count(snew, buckets@[idx].key)
                    &&& buckets@[idx].sum == key_sum(snew, buckets@[idx].key)
                    &&& buckets@[idx].count > 0
                } by {
                    lemma_push_row(prefix, all[i as int], buckets@[idx].key);
                    if idx < j {
                        assert(buckets@[idx] == prev[idx]);
                        assert(prev[idx].key < k);
                    } else if idx > j {
                        assert(buckets@[idx] == prev[idx - 1]);
                        assert(prev[idx - 1].key > k);
                    }
                }
                assert forall|k2: i32| #[trigger] has_key(snew, k2) implies exists|m: int|
                    0 <= m < buckets@.len() && (#[trigger] buckets@[m]).key == k2 by {
                    lemma_has_key_push(prefix, all[i as int], k2);
                    if k2 == k {
                        assert(buckets@[j as int].key == k2);
                    } else {
                        let m = choose|m: int| 0 <= m < prev.len() && (#[trigger] prev[m]).key == k2;
                        if m < j {
                            assert(buckets@[m].key == k2);
                        } else {
                            assert(buckets@[m + 1].key == k2);
                        }
                    }
                }
                assert forall|k2: i32|
                    (exists|m: int| 0 <= m < buckets@.len() && (#[trigger] buckets@[m]).key == k2)
                    implies #[trigger] has_key(snew, k2) by {
                    lemma_has_key_push(prefix, all[i as int], k2);
                    let m = choose|m: int|
                        0 <= m < buckets@.len() && (#[trigger] buckets@[m]).key == k2;
                    if m < j {
                        assert(prev[m].key == k2);
                    } else if m > j {
                        assert(prev[m - 1].key == k2);
                    }
                }
            }
        }
    }
    proof {
        assert(all.take(n as int) =~= all);
    }
    buckets
}

proof fn lemma_no_key_no_stats(s: Seq<KeyedAmount>, k: i32)
    requires
        !has_key(s, k),
    ensures
        key_count(s, k) == 0,
        key_sum(s, k) == 0,
    decreases s.len(),
{
    if s.len() > 0 {
        assert(!has_key(s.drop_last(), k)) by {
            if has_key(s.drop_last(), k) {
                let i = choose|i: int| 0 <= i < s.drop_last().len() && s.drop_last()[i].key == k;
                assert(s[i].key == k);
            }
        }
        assert(s.last().key != k) by {
            if s.last().key == k {
                assert(s[s.len() - 1].key == k);
            }
        }
        lemma_no_key_no_stats(s.drop_last(), k);
    }
}

/// Some bucket of `b` carries key `k`.
pub open spec fn buckets_have_key(b: Seq<Bucket>, k: i32) -> bool {
    exists|i: int| 0 <= i < b.len() && (#[trigger] b[i]).key == k
}

proof fn lemma_sorted_same_keys(b1: Seq<Bucket>, b2: Seq<Bucket>)
    requires
        buckets_sorted(b1),
        buckets_sorted(b2),
        forall|k: i32| #[trigger] buckets_have_key(b1, k) <==> buckets_have_key(b2, k),
    ensures
        b1.len() == b2.len(),
        forall|i: int| 0 <= i < b1.len() ==> (#[trigger] b1[i]).key == b2[i].key,
    decreases b1.len(),
{
    if b1.len() == 0 {
        if b2.len() > 0 {
            assert(buckets_have_key(b2, b2[0].key));
            assert(buckets_have_key(b1, b2[0].key));
            assert(false);
        }
    } else if b2.len() == 0 {
        assert(buckets_have_key(b1, b1[0].key));
        assert(buckets_have_key(b2, b1[0].key));
        assert(false);
    } else {
        assert(b1[0].key == b2[0].key) by {
            assert(buckets_have_key(b1, b1[0].key));
            assert(buckets_have_key(b2, b1[0].key));
            let j = choose|j: int| 0 <= j < b2.len() && (#[trigger] b2[j]).key == b1[0].key;
            assert(b2[0].key <= b1[0].key);
            assert(buckets_have_key(b2, b2[0].key));
            assert(buckets_have_key(b1, b2[0].key));
            let j1 = choose|j1: int| 0 <= j1 < b1.len() && (#[trigger] b1[j1]).key == b2[0].key;
            assert(b1[0].key <= b2[0].key);
        }
        let t1 = b1.subrange(1, b1.len() as int);
        let t2 = b2.subrange(1, b2.len() as int);
        assert(buckets_sorted(t1) && buckets_sorted(t2));
        assert forall|k: i32| #[trigger] buckets_have_key(t1, k) <==> buckets_have_key(t2, k) by {
            if buckets_have_key(t1, k) {
                let i = choose|i: int| 0 <= i < t1.len() && (#[trigger] t1[i]).key == k;
                assert(b1[i + 1].key == k);
                assert(buckets_have_key(b1, k));
                assert(k > b1[0].key);
                assert(buckets_have_key(b2, k));
                let j = choose|j: int| 0 <= j < b2.len() && (#[trigger] b2[j]).key == k;
                assert(j > 0);
                assert(t2[j - 1].key == k);
                assert(buckets_have_key(t2, k));
            }
            if buckets_have_key(t2, k) {
                let i = choose|i: int| 0 <= i < t2.len() && (#[trigger] t2[i]).key == k;
                assert(b2[i + 1].key == k);
                assert(buckets_have_key(b2, k));
                assert(k > b2[0].key);
                assert(buckets_have_key(b1, k));
                let j = choose|j: int| 0 <= j < b1.len() && (#[trigger] b1[j]).key == k;
                assert(j > 0);
                assert(t1[j - 1].key == k);
                assert(buckets_have_key(t1, k));
            }
        }
        lemma_sorted_same_keys(t1, t2);
        assert forall|i: int| 0 <= i < b1.len() implies (#[trigger] b1[i]).key == b2[i].key by {
            if i > 0 {
                assert(t1[i - 1].key == t2[i - 1].key);
            }
        }
    }
}

/// Grouping is a true partition: every key that occurs in the rows maps to
/// exactly one bucket of a matching, sorted bucket sequence.
pub proof fn lemma_key_in_exactly_one_bucket(s: Seq<KeyedAmount>, b: Seq<Bucket>, k: i32)
    requires
        buckets_sorted(b),
        buckets_match(s, b),
        has_key(s, k),
    ensures
        exists|i: int| 0 <= i < b.len() && (#[trigger] b[i]).key == k,
        forall|i: int, j: int|
            (0 <= i < b.len() && 0 <= j < b.len() && b[i].key == k && b[j].key == k) ==> i == j,
{
    assert forall|i: int, j: int|
        (0 <= i < b.len() && 0 <= j < b.len() && b[i].key == k && b[j].key == k) implies i == j by {
        if i < j {
            assert(b[i].key < b[j].key);
        }
        if j < i {
            assert(b[j].key < b[i].key);
        }
    }
}

/// Aggregation is a function of its input alone: any two bucket sequences
/// that are sorted by key and carry exactly the statistics of the same row
/// sequence are equal. Re-running the aggregation on the same rows with the
/// same key therefore reproduces the same output, bucket for bucket.
pub proof fn lemma_aggregation_deterministic(s: Seq<KeyedAmount>, b1: Seq<Bucket>, b2: Seq<Bucket>)
    requires
        buckets_sorted(b1),
        buckets_match(s, b1),
        buckets_sorted(b2),
        buckets_match(s, b2),
    ensures
        b1 == b2,
{
    assert forall|k: i32| #[trigger] buckets_have_key(b1, k) <==> buckets_have_key(b2, k) by {
        if buckets_have_key(b1, k) {
            assert(has_key(s, k));
            assert(buckets_have_key(b2, k));
        }
        if buckets_have_key(b2, k) {
            assert(has_key(s, k));
            assert(buckets_have_key(b1, k));
        }
    }
    lemma_sorted_same_keys(b1, b2);
    assert forall|i: int| 0 <= i < b1.len() implies b1[i] == b2[i] by {
        assert(b1[i].key == b2[i].key);
        assert(b1[i].count == key_count(s, b1[i].key));
        assert(b2[i].count == key_count(s, b2[i].key));
        assert(b1[i].sum == key_sum(s, b1[i].key));
    }
    assert(b1 =~= b2);
}

/// A sum of bounded amounts is bounded by the row count times the bound.
pub proof fn lemma_total_bounded(s: Seq<KeyedAmount>, m: int)
    requires
        m >= 0,
        amounts_bounded(s, m),
    ensures
        -(s.len() * m) <= total_of(s) <= s.len() * m,
    decreases s.len(),
{
    if s.len() > 0 {
        assert(amounts_bounded(s.drop_last(), m)) by {
            assert(forall|i: int|
                0 <= i < s.drop_last().len() ==> #[trigger] s.drop_last()[i] == s[i]);
        }
        lemma_total_bounded(s.drop_last(), m);
        assert(-m <= s[s.len() - 1].amount <= m);
        let c = s.drop_last().len() as int;
        assert((c + 1) * m == c * m + m) by (nonlinear_arith);
    }
}

/// Plain summation of the amounts; the identity element 0 for empty input.
pub fn total(rows: &Vec<KeyedAmount>) -> (r: i64)
    requires
        rows@.len() <= MAX_GROUP_ROWS,
        amounts_bounded(rows@, MAX_AMOUNT_CENTS as int),
    ensures
        r == total_of(rows@),
{
    let mut sum: i64 = 0;
    let n = rows.len();
    let ghost all = rows@;
    for i in 0..n
        invariant
            n == all.len() <= MAX_GROUP_ROWS,
            rows@ == all,
            amounts_bounded(all, MAX_AMOUNT_CENTS as int),
            sum == total_of(all.take(i as int)),
            -(i as int) * MAX_AMOUNT_CENTS <= sum <= (i as int) * MAX_AMOUNT_CENTS,
    {
        proof {
            assert(all.take(i + 1) =~= all.take(i as int).push(all[i as int]));
            lemma_push_row(all.take(i as int), all[i as int], 0);
        }
        sum = sum + rows[i].amount;
    }
    proof {
        assert(all.take(n as int) =~= all);
    }
    sum
}

impl Bucket {
    /// The bucket's average amount: its sum divided by its count, rounded
    /// toward zero; `None` for a bucket no row backs, never a garbage value.
    pub fn avg(&self) -> (r: Option<i64>)
        ensures
            self.count == 0 ==> r is None,
            self.count > 0 ==> r == Some(
                div_toward_zero(self.sum as int, self.count as int) as i64,
            ),
    {
        average_cents(self.sum, self.count)
    }
}

/// `sum / count` rounded toward zero, or `None` when `count` is zero: an
/// average over no rows is an explicit absence, never a division by zero.
pub fn average_cents(sum: i64, count: usize) -> (r: Option<i64>)
    ensures
        count == 0 ==> r is None,
        count > 0 ==> r == Some(div_toward_zero(sum as int, count as int) as i64),
{
    if count == 0 {
        return None;
    }
    let s: i128 = sum as i128;
    let c: i128 = count as i128;
    let q: i128 = if s >= 0 {
        s / c
    } else {
        -((-s) / c)
    };
    proof {
        if s >= 0 {
            assert(0 <= q <= s) by (nonlinear_arith)
                requires
                    q as int == (s as int) / (c as int),
                    s >= 0,
                    c > 0,
            ;
        } else {
            assert(0 <= -q <= -s) by (nonlinear_arith)
                requires
                    (-q) as int == ((-s) as int) / (c as int),
                    s < 0,
                    c > 0,
                    s > i128::MIN,
            ;
        }
    }
    Some(q as i64)
}

/// The share, in hundredths of a percent, that `part` takes of `total`:
/// `part * 10000 / total` rounded toward zero. `None` when `total` is zero
/// or the share does not fit an `i64`.
pub fn percent_hundredths(part: i64, total: i64) -> (r: Option<i64>)
    ensures
        total == 0 ==> r is None,
        total != 0 ==> {
            let p = div_toward_zero(part * 10000, total as int);
            if i64::MIN <= p <= i64::MAX {
                r == Some(p as i64)
            } else {
                r is None
            }
        },
{
    if total == 0 {
        return None;
    }
    let scaled: i128 = (part as i128) * 10000;
    let t: i128 = total as i128;
    let (num, den): (i128, i128) = if t >= 0 {
        (scaled, t)
    } else {
        (-scaled, -t)
    };
    proof {
        assert(div_toward_zero(num as int, den as int) == div_toward_zero(
            part * 10000,
            total as int,
        )) by (nonlinear_arith)
            requires
                den > 0,
                num == if total >= 0 {
                    part * 10000int
                } else {
                    -(part * 10000)
                },
                den == if total >= 0 {
                    total as int
                } else {
                    -(total as int)
                },
                total != 0,
        ;
    }
    let q: i128 = if num >= 0 {
        num / den
    } else {
        -((-num) / den)
    };
    proof {
        if num >= 0 {
            assert(0 <= q <= num) by (nonlinear_arith)
                requires
                    q as int == (num as int) / (den as int),
                    num >= 0,
                    den > 0,
            ;
        } else {
            assert(0 <= -q <= -num) by (nonlinear_arith)
                requires
                    (-q) as int == ((-num) as int) / (den as int),
                    num < 0,
                    den > 0,
                    num > i128::MIN,
            ;
        }
    }
    if q >= i64::MIN as i128 && q <= i64::MAX as i128 {
        Some(q as i64)
    } else {
        None
    }
}

} // verus!
