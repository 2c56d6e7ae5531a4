//! Bucket histograms of hash values, and the exact spread of their counters.

use vstd::prelude::*;

verus! {

/// The bucket that `hash` falls into when there are `buckets` of them.
pub open spec fn bucket_of(hash: u64, buckets: nat) -> nat
    recommends
        buckets > 0,
{
    (hash as nat) % buckets
}

/// How many of `hashes` fall into `bucket`.
pub open spec fn occupancy(hashes: Seq<u64>, buckets: nat, bucket: nat) -> nat
    decreases hashes.len(),
{
    if hashes.len() == 0 {
        0
    } else {
        occupancy(hashes.drop_last(), buckets, bucket) + if bucket_of(hashes.last(), buckets)
            == bucket {
            1nat
        } else {
            0nat
        }
    }
}

/// The occupancy of every bucket, in bucket order.
pub open spec fn histogram(hashes: Seq<u64>, buckets: nat) -> Seq<nat> {
    Seq::new(buckets, |b: int| occupancy(hashes, buckets, b as nat))
}

/// The sum of all counters.
pub open spec fn total(counts: Seq<nat>) -> nat
    decreases counts.len(),
{
    if counts.len() == 0 {
        0
    } else {
        total(counts.drop_last()) + counts.last()
    }
}

/// A counter's distance from the mean, scaled by the number of buckets so
/// that it stays an integer: `buckets * count - keys`. It is negative for a
/// counter below the mean.
pub open spec fn scaled_deviation(count: nat, buckets: nat, keys: nat) -> int {
    buckets * count - keys
}

/// The sum over all counters of the squared scaled deviation. Divided by the
/// cube of the number of buckets it is the population variance of the
/// counters.
pub open spec fn deviation_square_sum(counts: Seq<nat>, buckets: nat, keys: nat) -> nat
    decreases counts.len(),
{
    if counts.len() == 0 {
        0
    } else {
        let d = scaled_deviation(counts.last(), buckets, keys);
        deviation_square_sum(counts.drop_last(), buckets, keys) + (d * d) as nat
    }
}

/// Whether the hashes land in pairwise different buckets.
pub open spec fn spreads_perfectly(hashes: Seq<u64>, buckets: nat) -> bool {
    forall|i: int, j: int|
        0 <= i < j < hashes.len() ==> bucket_of(#[trigger] hashes[i], buckets) != bucket_of(
            #[trigger] hashes[j],
            buckets,
        )
}

proof fn lemma_occupancy_bound(hashes: Seq<u64>, buckets: nat, bucket: nat)
    ensures
        occupancy(hashes, buckets, bucket) <= hashes.len(),
    decreases hashes.len(),
{
    if hashes.len() > 0 {
        lemma_occupancy_bound(hashes.drop_last(), buckets, bucket);
    }
}

proof fn lemma_total_update(counts: Seq<nat>, i: int, v: nat)
    requires
        0 <= i < counts.len(),
    ensures
        total(counts.update(i, v)) == total(counts) - counts[i] + v,
    decreases counts.len(),
{
    let updated = counts.update(i, v);
    if i == counts.len() - 1 {
        assert(updated.drop_last() =~= counts.drop_last());
    } else {
        assert(updated.drop_last() =~= counts.drop_last().update(i, v));
        lemma_total_update(counts.drop_last(), i, v);
    }
}

proof fn lemma_total_of_zeros(counts: Seq<nat>)
    requires
        forall|i: int| 0 <= i < counts.len() ==> counts[i] == 0,
    ensures
        total(counts) == 0,
    decreases counts.len(),
{
    if counts.len() > 0 {
        lemma_total_of_zeros(counts.drop_last());
    }
}

proof fn lemma_histogram_push(hashes: Seq<u64>, hash: u64, buckets: nat)
    requires
        buckets > 0,
    ensures
        bucket_of(hash, buckets) < buckets,
        histogram(hashes.push(hash), buckets) == histogram(hashes, buckets).update(
            bucket_of(hash, buckets) as int,
            histogram(hashes, buckets)[bucket_of(hash, buckets) as int] + 1,
        ),
{
    let longer = hashes.push(hash);
    assert(longer.drop_last() =~= hashes);
    assert(longer.last() == hash);
    assert(histogram(longer, buckets) =~= histogram(hashes, buckets).update(
        bucket_of(hash, buckets) as int,
        histogram(hashes, buckets)[bucket_of(hash, buckets) as int] + 1,
    ));
}

/// Every key is counted in exactly one bucket: the counters of a histogram
/// add up to the number of hashes it was built from.
pub proof fn lemma_histogram_total(hashes: Seq<u64>, buckets: nat)
    requires
        buckets > 0,
    ensures
        total(histogram(hashes, buckets)) == hashes.len(),
    decreases hashes.len(),
{
    if hashes.len() == 0 {
        lemma_total_of_zeros(histogram(hashes, buckets));
    } else {
        let shorter = hashes.drop_last();
        assert(shorter.push(hashes.last()) =~= hashes);
        lemma_histogram_total(shorter, buckets);
        lemma_histogram_push(shorter, hashes.last(), buckets);
        lemma_total_update(
            histogram(shorter, buckets),
            bucket_of(hashes.last(), buckets) as int,
            histogram(shorter, buckets)[bucket_of(hashes.last(), buckets) as int] + 1,
        );
    }
}

proof fn lemma_no_deviation_no_spread(counts: Seq<nat>, buckets: nat, keys: nat)
    requires
        forall|i: int| 0 <= i < counts.len() ==> scaled_deviation(#[trigger] counts[i], buckets, keys) == 0,
    ensures
        deviation_square_sum(counts, buckets, keys) == 0,
    decreases counts.len(),
{
    if counts.len() > 0 {
        lemma_no_deviation_no_spread(counts.drop_last(), buckets, keys);
        assert(scaled_deviation(counts.last(), buckets, keys) == 0);
    }
}

/// A histogram of no keys has only zero counters, and they have no spread.
pub proof fn lemma_empty_corpus_has_no_spread(buckets: nat)
    requires
        buckets > 0,
    ensures
        forall|b: int| 0 <= b < buckets ==> histogram(Seq::<u64>::empty(), buckets)[b] == 0,
        deviation_square_sum(histogram(Seq::<u64>::empty(), buckets), buckets, 0) == 0,
{
    let counts = histogram(Seq::<u64>::empty(), buckets);
    assert forall|i: int| 0 <= i < counts.len() implies scaled_deviation(
        #[trigger] counts[i],
        buckets,
        0,
    ) == 0 by {
        assert(counts[i] == 0);
        assert(buckets * 0 == 0) by (nonlinear_arith);
    }
    lemma_no_deviation_no_spread(counts, buckets, 0);
}

/// With a single bucket every key lands in it, and the counters have no
/// spread at all.
pub proof fn lemma_single_bucket_has_no_spread(hashes: Seq<u64>)
    ensures
        histogram(hashes, 1) == seq![hashes.len()],
        deviation_square_sum(histogram(hashes, 1), 1, hashes.len()) == 0,
{
    let counts = histogram(hashes, 1);
    lemma_histogram_total(hashes, 1);
    assert(counts.drop_last() =~= Seq::<nat>::empty());
    assert(total(counts.drop_last()) == 0);
    assert(counts.last() == hashes.len());
    assert(counts =~= seq![hashes.len()]);
    assert(scaled_deviation(counts[0], 1, hashes.len()) == 0);
    lemma_no_deviation_no_spread(counts, 1, hashes.len());
}

proof fn lemma_absent_bucket_is_empty(hashes: Seq<u64>, buckets: nat, bucket: nat)
    requires
        forall|i: int| 0 <= i < hashes.len() ==> bucket_of(#[trigger] hashes[i], buckets) != bucket,
    ensures
        occupancy(hashes, buckets, bucket) == 0,
    decreases hashes.len(),
{
    if hashes.len() > 0 {
        let shorter = hashes.drop_last();
        assert forall|i: int| 0 <= i < shorter.len() implies bucket_of(
            #[trigger] shorter[i],
            buckets,
        ) != bucket by {
            assert(shorter[i] == hashes[i]);
        }
        lemma_absent_bucket_is_empty(shorter, buckets, bucket);
    }
}

proof fn lemma_perfect_spread_occupancy(hashes: Seq<u64>, buckets: nat, bucket: nat)
    requires
        spreads_perfectly(hashes, buckets),
    ensures
        occupancy(hashes, buckets, bucket) <= 1,
    decreases hashes.len(),
{
    if hashes.len() > 0 {
        let shorter = hashes.drop_last();
        assert forall|i: int, j: int| 0 <= i < j < shorter.len() implies bucket_of(
            #[trigger] shorter[i],
            buckets,
        ) != bucket_of(#[trigger] shorter[j], buckets) by {
            assert(shorter[i] == hashes[i]);
            assert(shorter[j] == hashes[j]);
        }
        if bucket_of(hashes.last(), buckets) == bucket {
            assert forall|i: int| 0 <= i < shorter.len() implies bucket_of(
                #[trigger] shorter[i],
                buckets,
            ) != bucket by {
                assert(shorter[i] == hashes[i]);
                assert(hashes.last() == hashes[hashes.len() - 1]);
            }
            lemma_absent_bucket_is_empty(shorter, buckets, bucket);
        } else {
            lemma_perfect_spread_occupancy(shorter, buckets, bucket);
        }
    }
}

proof fn lemma_total_bound(counts: Seq<nat>)
    requires
        forall|i: int| 0 <= i < counts.len() ==> counts[i] <= 1,
    ensures
        total(counts) <= counts.len(),
    decreases counts.len(),
{
    if counts.len() > 0 {
        lemma_total_bound(counts.drop_last());
    }
}

proof fn lemma_full_total_fills_every_bucket(counts: Seq<nat>)
    requires
        forall|i: int| 0 <= i < counts.len() ==> counts[i] <= 1,
        total(counts) == counts.len(),
    ensures
        forall|i: int| 0 <= i < counts.len() ==> counts[i] == 1,
    decreases counts.len(),
{
    if counts.len() > 0 {
        let shorter = counts.drop_last();
        lemma_total_bound(shorter);
        lemma_full_total_fills_every_bucket(shorter);
        assert forall|i: int| 0 <= i < counts.len() implies counts[i] == 1 by {
            if i < shorter.len() {
                assert(shorter[i] == counts[i]);
            }
        }
    }
}

/// When there are as many buckets as keys and the hashes land in pairwise
/// different buckets, every bucket holds exactly one key and the counters
/// have no spread.
pub proof fn lemma_perfect_spread_has_no_spread(hashes: Seq<u64>)
    requires
        hashes.len() > 0,
        spreads_perfectly(hashes, hashes.len()),
    ensures
        forall|b: int| 0 <= b < hashes.len() ==> histogram(hashes, hashes.len())[b] == 1,
        deviation_square_sum(histogram(hashes, hashes.len()), hashes.len(), hashes.len()) == 0,
{
    let n = hashes.len();
    let counts = histogram(hashes, n);
    assert forall|b: int| 0 <= b < counts.len() implies counts[b] <= 1 by {
        lemma_perfect_spread_occupancy(hashes, n, b as nat);
    }
    lemma_histogram_total(hashes, n);
    lemma_full_total_fills_every_bucket(counts);
    assert forall|i: int| 0 <= i < counts.len() implies scaled_deviation(
        #[trigger] counts[i],
        n,
        n,
    ) == 0 by {
        assert(counts[i] == 1);
    }
    lemma_no_deviation_no_spread(counts, n, n);
}


proof fn lemma_deviation_square_sum_grows(counts: Seq<nat>, buckets: nat, keys: nat, i: int)
    requires
        0 <= i <= counts.len(),
    ensures
        deviation_square_sum(counts.take(i), buckets, keys) <= deviation_square_sum(
            counts,
            buckets,
            keys,
        ),
    decreases counts.len() - i,
{
    if i == counts.len() {
        assert(counts.take(i) =~= counts);
    } else {
        let d = scaled_deviation(counts[i], buckets, keys);
        assert(0 <= d * d) by (nonlinear_arith);
        assert(counts.take(i + 1).drop_last() =~= counts.take(i));
        assert(counts.take(i + 1).last() == counts[i]);
        lemma_deviation_square_sum_grows(counts, buckets, keys, i + 1);
    }
}

/// A fixed number of occupancy counters, one per bucket, together with the
/// number of keys that were counted.
#[derive(Debug)]
pub struct BucketHistogram {
    /// The counter of each bucket.
    pub counts: Vec<usize>,
    /// The number of keys counted.
    pub keys: usize,
}

impl View for BucketHistogram {
    type V = Seq<nat>;

    open spec fn view(&self) -> Seq<nat> {
        self.counts@.map_values(|c: usize| c as nat)
    }
}

impl BucketHistogram {
    /// A histogram has at least one bucket, and its counters add up to the
    /// number of keys.
    pub open spec fn wf(&self) -> bool {
        &&& self.counts@.len() > 0
        &&& total(self@) == self.keys
    }

    /// Counts, for each of `bucket_count` buckets, the hashes that fall into
    /// it: a hash falls into the bucket given by its remainder modulo
    /// `bucket_count`.
    pub fn from_hashes(hashes: &[u64], bucket_count: usize) -> (result: BucketHistogram)
        requires
            bucket_count > 0,
        ensures
            result.wf(),
            result@ == histogram(hashes@, bucket_count as nat),
            result.keys == hashes@.len(),
    {
        let mut counts: Vec<usize> = Vec::new();
        let mut b: usize = 0;
        while b < bucket_count
            invariant
                b <= bucket_count,
                counts@.len() == b,
                forall|k: int| 0 <= k < b ==> counts@[k] == 0,
            decreases bucket_count - b,
        {
            counts.push(0);
            b += 1;
        }
        assert(counts@.map_values(|c: usize| c as nat) =~= histogram(
            hashes@.take(0),
            bucket_count as nat,
        )) by {
            assert(hashes@.take(0).len() == 0);
        }
        let mut i: usize = 0;
        while i < hashes.len()
            invariant
                bucket_count > 0,
                i <= hashes@.len(),
                counts@.len() == bucket_count,
                counts@.map_values(|c: usize| c as nat) == histogram(
                    hashes@.take(i as int),
                    bucket_count as nat,
                ),
            decreases hashes@.len() - i,
        {
            let hash = hashes[i];
            let idx = (hash % (bucket_count as u64)) as usize;
            proof {
                let seen = hashes@.take(i as int);
                assert(hashes@.take(i + 1) =~= seen.push(hash));
                lemma_histogram_push(seen, hash, bucket_count as nat);
                lemma_occupancy_bound(seen, bucket_count as nat, idx as nat);
                assert(idx == bucket_of(hash, bucket_count as nat));
                assert(counts@.map_values(|c: usize| c as nat)[idx as int] == counts@[idx as int]);
            }
            let bumped = counts[idx] + 1;
            counts.set(idx, bumped);
            i += 1;
            assert(counts@.map_values(|c: usize| c as nat) =~= histogram(
                hashes@.take(i as int),
                bucket_count as nat,
            ));
        }
        proof {
            assert(hashes@.take(i as int) =~= hashes@);
            lemma_histogram_total(hashes@, bucket_count as nat);
        }
        BucketHistogram { counts, keys: hashes.len() }
    }

    /// The number of buckets.
    pub fn bucket_count(&self) -> (n: usize)
        ensures
            n == self@.len(),
    {
        self.counts.len()
    }

    /// The number of keys counted: the sum of all counters.
    pub fn key_count(&self) -> (n: usize)
        requires
            self.wf(),
        ensures
            n == total(self@),
    {
        self.keys
    }

    /// The sum of the squared scaled deviations of the counters, computed
    /// without rounding: the population variance of the counters is this
    /// number divided by the cube of the number of buckets. `None` exactly
    /// when the sum does not fit in 128 bits.
    pub fn deviation_square_sum(&self) -> (result: Option<u128>)
        ensures
            result == if deviation_square_sum(self@, self@.len(), self.keys as nat) <= u128::MAX {
                Some(deviation_square_sum(self@, self@.len(), self.keys as nat) as u128)
            } else {
                None
            },
    {
        let buckets = self.counts.len();
        let keys = self.keys;
        let ghost counts = self@;
        let mut sum: u128 = 0;
        let mut i: usize = 0;
        while i < buckets
            invariant
                counts == self@,
                buckets == self.counts@.len(),
                keys == self.keys,
                i <= buckets,
                sum == deviation_square_sum(counts.take(i as int), buckets as nat, keys as nat),
            decreases buckets - i,
        {
            let count = self.counts[i];
            let ghost d = scaled_deviation(count as nat, buckets as nat, keys as nat);
            proof {
                assert(counts.take(i + 1).drop_last() =~= counts.take(i as int));
                assert(counts.take(i + 1).last() == count as nat);
                lemma_deviation_square_sum_grows(counts, buckets as nat, keys as nat, i + 1);
                assert(buckets * count <= 0xffff_ffff_ffff_ffff * 0xffff_ffff_ffff_ffff)
                    by (nonlinear_arith)
                    requires
                        0 <= buckets <= 0xffff_ffff_ffff_ffff,
                        0 <= count <= 0xffff_ffff_ffff_ffff,
                ;
            }
            let scaled: u128 = (buckets as u128) * (count as u128);
            let distance: u128 = if scaled >= keys as u128 {
                scaled - keys as u128
            } else {
                keys as u128 - scaled
            };
            assert(distance * distance == d * d) by (nonlinear_arith)
                requires
                    distance == d || distance == -d,
            ;
            let square = match distance.checked_mul(distance) {
                Some(square) => square,
                None => {
                    return None;
                },
            };
            sum = match sum.checked_add(square) {
                Some(next) => next,
                None => {
                    return None;
                },
            };
            i += 1;
        }
        assert(counts.take(i as int) =~= counts);
        Some(sum)
    }
}

} // verus!
