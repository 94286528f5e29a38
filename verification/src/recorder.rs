//! A mergeable, compressed latency histogram with percentile queries.
//!
//! Durations are nanosecond counts. A recorder compresses each observation
//! into a power-of-two bucket: bucket `0` holds the value `0`, and bucket `i`
//! (for `i >= 1`) holds the values whose binary length is `i`, that is the
//! range `[2^(i-1), 2^i - 1]`; all values of binary length above the
//! configured cap share the top bucket. A percentile query returns the
//! midpoint of the bucket whose cumulative count first reaches the requested
//! fraction of all observations.

use vstd::prelude::*;
use vstd::arithmetic::power2::{pow2, lemma_pow2_strictly_increases, lemma2_to64, lemma2_to64_rest};
use vstd::arithmetic::mul::lemma_mul_inequality;
use vstd::arithmetic::div_mod::lemma_div_is_ordered;
use vstd::seq_lib::lemma_fold_right_permutation;
use vstd::seq_lib::commutative_foldr;

verus! {

/// Bucket-layout configuration of a histogram; every recorder of one run
/// must be built from the same value for merges to be accepted.
#[derive(Clone, Copy, PartialEq, Eq, Structural, Debug)]
pub struct HistogramConfig {
    /// Binary length at which compression saturates: values of binary length
    /// `max_value_power` or more share the top bucket. Must lie in `1..=64`.
    pub max_value_power: u32,
}

impl HistogramConfig {
    pub open spec fn valid(self) -> bool {
        1 <= self.max_value_power <= 64
    }

    /// Buckets are indexed `0 ..= max_value_power`.
    pub open spec fn spec_num_buckets(self) -> int {
        self.max_value_power + 1
    }

    pub fn num_buckets(&self) -> (n: usize)
        requires
            self.valid(),
        ensures
            n == self.spec_num_buckets(),
    {
        (self.max_value_power as usize) + 1
    }
}

impl Default for HistogramConfig {
    /// The default layout distinguishes every binary length of a `u64`.
    fn default() -> (c: Self)
        ensures
            c.valid(),
            c.max_value_power == 64,
    {
        HistogramConfig { max_value_power: 64 }
    }
}

/// Number of binary digits of `v` (zero for zero).
pub open spec fn bit_len(v: nat) -> nat
    decreases v,
{
    if v == 0 {
        0
    } else {
        1 + bit_len(v / 2)
    }
}

/// The bucket that `v` falls into: its binary length, capped at the top bucket.
pub open spec fn bucket_index(cfg: HistogramConfig, v: u64) -> int {
    if bit_len(v as nat) < cfg.max_value_power {
        bit_len(v as nat) as int
    } else {
        cfg.max_value_power as int
    }
}

/// Smallest value of bucket `i`.
pub open spec fn bucket_low(cfg: HistogramConfig, i: int) -> int {
    if i <= 0 {
        0
    } else {
        pow2((i - 1) as nat) as int
    }
}

/// Largest value of bucket `i`.
pub open spec fn bucket_high(cfg: HistogramConfig, i: int) -> int {
    if i <= 0 {
        0
    } else if i >= cfg.max_value_power {
        u64::MAX as int
    } else {
        pow2(i as nat) - 1
    }
}

/// The midpoint a percentile query reports for bucket `i`.
pub open spec fn bucket_mid(cfg: HistogramConfig, i: int) -> int {
    bucket_low(cfg, i) + (bucket_high(cfg, i) - bucket_low(cfg, i)) / 2
}

/// How many observations of `obs` fall into bucket `i`.
pub open spec fn bucket_count(cfg: HistogramConfig, obs: Seq<u64>, i: int) -> nat
    decreases obs.len(),
{
    if obs.len() == 0 {
        0
    } else {
        bucket_count(cfg, obs.drop_last(), i) + (if bucket_index(cfg, obs.last()) == i {
            1nat
        } else {
            0nat
        })
    }
}

/// How many observations fall into buckets `0 ..= i`.
pub open spec fn cum_count(cfg: HistogramConfig, obs: Seq<u64>, i: int) -> nat
    decreases (if i < 0 { 0 } else { i + 1 }),
{
    if i < 0 {
        0
    } else {
        cum_count(cfg, obs, i - 1) + bucket_count(cfg, obs, i)
    }
}

/// The observation rank a percentile `p` (in `0..=100`) asks for among
/// `total` observations: the smallest positive rank covering `p` percent.
pub open spec fn rank_of(p: int, total: nat) -> int {
    let r = (p * total + 99) / 100;
    if r < 1 {
        1
    } else {
        r
    }
}

/// First bucket, scanning upward from `i`, whose cumulative count reaches
/// `rank`; the top bucket if none does.
pub open spec fn percentile_bucket(cfg: HistogramConfig, obs: Seq<u64>, rank: int, i: int) -> int
    decreases (if i < cfg.spec_num_buckets() { cfg.spec_num_buckets() - i } else { 0 }),
{
    if i >= cfg.spec_num_buckets() - 1 {
        cfg.spec_num_buckets() - 1
    } else if cum_count(cfg, obs, i) >= rank {
        i
    } else {
        percentile_bucket(cfg, obs, rank, i + 1)
    }
}

/// The duration a percentile query over `obs` reports for percentile `p`.
pub open spec fn percentile_spec(cfg: HistogramConfig, obs: Seq<u64>, p: int) -> int {
    bucket_mid(cfg, percentile_bucket(cfg, obs, rank_of(p, obs.len()), 0))
}

/// Largest observation of a non-empty sequence.
pub open spec fn max_obs(obs: Seq<u64>) -> u64
    decreases obs.len(),
{
    if obs.len() <= 1 {
        obs.last()
    } else if obs.last() >= max_obs(obs.drop_last()) {
        obs.last()
    } else {
        max_obs(obs.drop_last())
    }
}

/// Why a histogram operation was refused.
#[derive(Clone, Copy, PartialEq, Eq, Structural, Debug)]
pub enum HistogramError {
    /// The two recorders were built from different bucket layouts.
    IncompatibleConfig,
}

/// An append-only, mergeable histogram of nanosecond durations.
pub struct LatencyRecorder {
    config: HistogramConfig,
    counts: Vec<u64>,
    total: u64,
    obs: Ghost<Seq<u64>>,
}

impl View for LatencyRecorder {
    type V = Seq<u64>;

    /// A recorder abstracts to the sequence of durations recorded into it.
    closed spec fn view(&self) -> Seq<u64> {
        self.obs@
    }
}

impl LatencyRecorder {
    /// The bucket layout this recorder was built from.
    pub closed spec fn cfg(self) -> HistogramConfig {
        self.config
    }

    /// Internal consistency: the bucket counters tally the observations.
    pub closed spec fn wf(self) -> bool {
        &&& self.config.valid()
        &&& self.counts@.len() == self.config.spec_num_buckets()
        &&& self.obs@.len() == self.total
        &&& forall|i: int|
            0 <= i < self.counts@.len() ==> self.counts@[i] == bucket_count(
                self.config,
                self.obs@,
                i,
            )
    }

    /// A fresh, empty recorder over the given bucket layout.
    pub fn new(config: HistogramConfig) -> (r: Self)
        requires
            config.valid(),
        ensures
            r.wf(),
            r.cfg() == config,
            r@ == Seq::<u64>::empty(),
    {
        let n = config.num_buckets();
        let mut counts: Vec<u64> = Vec::new();
        let mut i: usize = 0;
        while i < n
            invariant
                i <= n,
                counts@.len() == i,
                forall|j: int| 0 <= j < i ==> counts@[j] == 0,
            decreases n - i,
        {
            counts.push(0);
            i = i + 1;
        }
        LatencyRecorder { config, counts, total: 0, obs: Ghost(Seq::empty()) }
    }

    /// The bucket layout this recorder was built from.
    pub fn config(&self) -> (c: HistogramConfig)
        ensures
            c == self.cfg(),
    {
        self.config
    }

    /// How many durations have been recorded.
    pub fn observation_count(&self) -> (n: u64)
        requires
            self.wf(),
        ensures
            n == self@.len(),
    {
        self.total
    }

    /// Append one duration (in nanoseconds) to the histogram.
    pub fn record(&mut self, d: u64)
        requires
            old(self).wf(),
            old(self)@.len() < u64::MAX,
        ensures
            final(self).wf(),
            final(self).cfg() == old(self).cfg(),
            final(self)@ == old(self)@.push(d),
    {
        let ghost cfg = self.config;
        let ghost s = self.obs@;
        let idx = bucket_index_exec(&self.config, d);
        proof {
            lemma_bucket_count_le_len(cfg, s, idx as int);
        }
        let c = self.counts[idx];
        self.counts.set(idx, c + 1);
        self.total = self.total + 1;
        proof {
            self.obs@ = s.push(d);
            assert forall|i: int| 0 <= i < self.counts@.len() implies self.counts@[i]
                == bucket_count(cfg, self.obs@, i) by {
                lemma_bucket_count_push(cfg, s, d, i);
            }
        }
    }

    /// Combine another recorder's observations into this one.
    ///
    /// Succeeds exactly when the two bucket layouts are the same; on refusal
    /// this recorder is unchanged.
    pub fn merge(&mut self, other: LatencyRecorder) -> (r: Result<(), HistogramError>)
        requires
            old(self).wf(),
            other.wf(),
            old(self)@.len() + other@.len() <= u64::MAX,
        ensures
            final(self).wf(),
            final(self).cfg() == old(self).cfg(),
            other.cfg() == old(self).cfg() ==> r == Ok::<(), HistogramError>(()) && final(self)@
                == old(self)@ + other@,
            other.cfg() != old(self).cfg() ==> r == Err::<(), HistogramError>(
                HistogramError::IncompatibleConfig,
            ) && final(self)@ == old(self)@,
    {
        if self.config.max_value_power != other.config.max_value_power {
            return Err(HistogramError::IncompatibleConfig);
        }
        let ghost cfg = self.config;
        let ghost a = self.obs@;
        let ghost b = other.obs@;
        let n = self.config.num_buckets();
        let mut i: usize = 0;
        while i < n
            invariant
                i <= n,
                cfg == self.config,
                self.config.valid(),
                other.config == cfg,
                other.wf(),
                self.counts@.len() == n,
                n == cfg.spec_num_buckets(),
                self.obs@ == a,
                b == other.obs@,
                self.total == a.len(),
                a.len() + b.len() <= u64::MAX,
                forall|j: int|
                    0 <= j < i ==> self.counts@[j] == bucket_count(cfg, a, j) + bucket_count(
                        cfg,
                        b,
                        j,
                    ),
                forall|j: int| i <= j < n ==> self.counts@[j] == bucket_count(cfg, a, j),
            decreases n - i,
        {
            proof {
                lemma_bucket_count_le_len(cfg, a, i as int);
                lemma_bucket_count_le_len(cfg, b, i as int);
                assert(other.counts@.len() == cfg.spec_num_buckets());
                assert(other.counts@[i as int] == bucket_count(other.config, other.obs@, i as int));
                assert(other.counts@[i as int] == bucket_count(cfg, b, i as int));
            }
            let c = self.counts[i];
            self.counts.set(i, c + other.counts[i]);
            i = i + 1;
        }
        self.total = self.total + other.total;
        proof {
            self.obs@ = a + b;
            assert forall|j: int| 0 <= j < self.counts@.len() implies self.counts@[j]
                == bucket_count(cfg, self.obs@, j) by {
                lemma_bucket_count_concat(cfg, a, b, j);
            }
        }
        Ok(())
    }

    /// The bucket-midpoint duration at percentile `p` (in `0..=100`), or
    /// `None` when nothing has been recorded yet.
    pub fn percentile(&self, p: u64) -> (r: Option<u64>)
        requires
            self.wf(),
            p <= 100,
        ensures
            (r is None) <==> self@.len() == 0,
            self@.len() > 0 ==> r == Some(percentile_spec(self.cfg(), self@, p as int) as u64),
    {
        let ghost cfg = self.config;
        let ghost s = self.obs@;
        if self.total == 0 {
            return None;
        }
        proof {
            lemma_mul_inequality(p as int, 100, self.total as int);
            lemma_rank_in_range(p as int, s.len());
        }
        let rank_wide: u128 = ((p as u128) * (self.total as u128) + 99) / 100;
        let rank: u64 = if rank_wide < 1 {
            1
        } else {
            rank_wide as u64
        };
        assert(rank == rank_of(p as int, s.len()));
        let nb = self.config.num_buckets();
        let mut acc: u64 = 0;
        let mut i: usize = 0;
        while i < nb - 1
            invariant
                i <= nb - 1,
                cfg == self.config,
                self.wf(),
                s == self.obs@,
                nb == cfg.spec_num_buckets(),
                1 <= rank <= s.len(),
                rank == rank_of(p as int, s.len()),
                acc == cum_count(cfg, s, i - 1),
                acc < rank,
                percentile_bucket(cfg, s, rank as int, 0) == percentile_bucket(
                    cfg,
                    s,
                    rank as int,
                    i as int,
                ),
            decreases nb - i,
        {
            proof {
                lemma_cum_count_le_len(cfg, s, i as int);
            }
            acc = acc + self.counts[i];
            if acc >= rank {
                return Some(bucket_mid_exec(&self.config, i));
            }
            i = i + 1;
        }
        Some(bucket_mid_exec(&self.config, nb - 1))
    }
}

/// Exec computation of `bucket_index`.
fn bucket_index_exec(cfg: &HistogramConfig, v: u64) -> (i: usize)
    requires
        cfg.valid(),
    ensures
        i == bucket_index(*cfg, v),
        0 <= i < cfg.spec_num_buckets(),
{
    let mut x = v;
    let mut len: u64 = 0;
    proof {
        lemma_bit_len_le_64(v);
    }
    while x > 0
        invariant
            bit_len(v as nat) == len + bit_len(x as nat),
            bit_len(v as nat) <= 64,
            len <= 64,
        decreases x,
    {
        x = x / 2;
        len = len + 1;
    }
    if len < cfg.max_value_power as u64 {
        len as usize
    } else {
        cfg.max_value_power as usize
    }
}

/// Exec computation of `pow2` for exponents that fit a `u64`.
fn pow2_exec(k: usize) -> (r: u64)
    requires
        k <= 63,
    ensures
        r == pow2(k as nat),
{
    proof {
        lemma2_to64();
    }
    let mut r: u64 = 1;
    let mut j: usize = 0;
    while j < k
        invariant
            j <= k <= 63,
            r == pow2(j as nat),
        decreases k - j,
    {
        proof {
            lemma2_to64();
            lemma2_to64_rest();
            if (j as nat) + 1 < 63 {
                lemma_pow2_strictly_increases((j + 1) as nat, 63);
            }
            assert(pow2((j + 1) as nat) == 2 * pow2(j as nat)) by {
                vstd::arithmetic::power2::lemma_pow2_unfold((j + 1) as nat);
            }
        }
        r = r * 2;
        j = j + 1;
    }
    r
}

/// Exec computation of `bucket_mid`.
fn bucket_mid_exec(cfg: &HistogramConfig, i: usize) -> (r: u64)
    requires
        cfg.valid(),
        0 <= i < cfg.spec_num_buckets(),
    ensures
        r == bucket_mid(*cfg, i as int),
{
    if i == 0 {
        0
    } else {
        proof {
            lemma2_to64();
            lemma2_to64_rest();
            if ((i - 1) as nat) < 63 {
                lemma_pow2_strictly_increases((i - 1) as nat, 63);
            }
        }
        let low = pow2_exec(i - 1);
        let high: u64 = if i == cfg.max_value_power as usize {
            u64::MAX
        } else {
            proof {
                lemma_pow2_strictly_increases((i - 1) as nat, i as nat);
                if (i as nat) < 63 {
                    lemma_pow2_strictly_increases(i as nat, 63);
                }
            }
            pow2_exec(i) - 1
        };
        low + (high - low) / 2
    }
}

/// A `u64` has at most 64 binary digits.
proof fn lemma_bit_len_le_64(v: u64)
    ensures
        bit_len(v as nat) <= 64,
{
    lemma2_to64();
    lemma_bit_len_below_pow(v as nat, 64);
}

/// Values below `2^k` have binary length at most `k`.
proof fn lemma_bit_len_below_pow(v: nat, k: nat)
    requires
        v < pow2(k),
    ensures
        bit_len(v) <= k,
    decreases v,
{
    if v > 0 {
        assert(k > 0) by {
            if k == 0 {
                assert(pow2(0) == 1) by {
                    lemma2_to64();
                }
            }
        }
        assert(v / 2 < pow2((k - 1) as nat)) by {
            vstd::arithmetic::power2::lemma_pow2_unfold(k);
        }
        lemma_bit_len_below_pow(v / 2, (k - 1) as nat);
    }
}

/// The binary length bounds its argument: `2^(len-1) <= v < 2^len`.
proof fn lemma_bit_len_bounds(v: nat)
    requires
        v > 0,
    ensures
        pow2((bit_len(v) - 1) as nat) <= v < pow2(bit_len(v)),
    decreases v,
{
    if v / 2 == 0 {
        assert(bit_len(v / 2) == 0);
        lemma2_to64();
    } else {
        lemma_bit_len_bounds(v / 2);
        assert(pow2(bit_len(v)) == 2 * pow2((bit_len(v) - 1) as nat)) by {
            vstd::arithmetic::power2::lemma_pow2_unfold(bit_len(v));
        }
        assert(pow2((bit_len(v) - 1) as nat) == 2 * pow2((bit_len(v / 2) - 1) as nat)) by {
            vstd::arithmetic::power2::lemma_pow2_unfold((bit_len(v) - 1) as nat);
        }
    }
}

/// Binary length is monotone.
proof fn lemma_bit_len_monotone(a: nat, b: nat)
    requires
        a <= b,
    ensures
        bit_len(a) <= bit_len(b),
    decreases b,
{
    if a > 0 {
        lemma_bit_len_monotone(a / 2, b / 2);
    }
}

/// Each observation lands in exactly one bucket, and `bucket_index` respects
/// the value order.
proof fn lemma_bucket_index_monotone(cfg: HistogramConfig, a: u64, b: u64)
    requires
        a <= b,
    ensures
        bucket_index(cfg, a) <= bucket_index(cfg, b),
{
    lemma_bit_len_monotone(a as nat, b as nat);
}

/// A value lies between the bounds of its own bucket.
proof fn lemma_bucket_contains(cfg: HistogramConfig, v: u64)
    requires
        cfg.valid(),
    ensures
        bucket_low(cfg, bucket_index(cfg, v)) <= v <= bucket_high(cfg, bucket_index(cfg, v)),
{
    if v > 0 {
        lemma_bit_len_bounds(v as nat);
        let bl = bit_len(v as nat);
        if bl >= cfg.max_value_power {
            if bl > cfg.max_value_power {
                lemma_pow2_strictly_increases((cfg.max_value_power - 1) as nat, (bl - 1) as nat);
            }
        }
    }
}

/// Buckets are ordered: everything in a lower bucket is below everything in
/// a higher one.
proof fn lemma_bucket_order(cfg: HistogramConfig, i: int, j: int)
    requires
        cfg.valid(),
        0 <= i < j < cfg.spec_num_buckets(),
    ensures
        bucket_high(cfg, i) < bucket_low(cfg, j),
        bucket_low(cfg, i) <= bucket_low(cfg, j),
{
    lemma2_to64();
    if i > 0 {
        lemma_pow2_strictly_increases((i - 1) as nat, (j - 1) as nat);
        if i < cfg.max_value_power {
            if i < j - 1 {
                lemma_pow2_strictly_increases(i as nat, (j - 1) as nat);
            }
        }
    } else {
        vstd::arithmetic::power2::lemma_pow2_pos((j - 1) as nat);
    }
}

/// The reported midpoint of a bucket lies inside that bucket.
proof fn lemma_mid_in_bucket(cfg: HistogramConfig, i: int)
    requires
        cfg.valid(),
        0 <= i < cfg.spec_num_buckets(),
    ensures
        bucket_low(cfg, i) <= bucket_mid(cfg, i) <= bucket_high(cfg, i),
{
    if i > 0 {
        assert(bucket_low(cfg, i) <= bucket_high(cfg, i)) by {
            lemma2_to64();
            lemma2_to64_rest();
            if i < cfg.max_value_power {
                lemma_pow2_strictly_increases((i - 1) as nat, i as nat);
            } else {
                if i - 1 < 63 {
                    lemma_pow2_strictly_increases((i - 1) as nat, 63);
                }
            }
        }
    }
}

/// Midpoints are ordered with the buckets.
proof fn lemma_mid_monotone(cfg: HistogramConfig, i: int, j: int)
    requires
        cfg.valid(),
        0 <= i <= j < cfg.spec_num_buckets(),
    ensures
        bucket_mid(cfg, i) <= bucket_mid(cfg, j),
{
    lemma_mid_in_bucket(cfg, i);
    lemma_mid_in_bucket(cfg, j);
    if i < j {
        lemma_bucket_order(cfg, i, j);
    }
}

/// Appending an observation bumps exactly its own bucket.
proof fn lemma_bucket_count_push(cfg: HistogramConfig, s: Seq<u64>, d: u64, i: int)
    ensures
        bucket_count(cfg, s.push(d), i) == bucket_count(cfg, s, i) + (if bucket_index(cfg, d) == i {
            1nat
        } else {
            0nat
        }),
{
    assert(s.push(d).drop_last() =~= s);
    assert(s.push(d).last() == d);
}

/// Bucket counts add up over concatenation.
proof fn lemma_bucket_count_concat(cfg: HistogramConfig, a: Seq<u64>, b: Seq<u64>, i: int)
    ensures
        bucket_count(cfg, a + b, i) == bucket_count(cfg, a, i) + bucket_count(cfg, b, i),
    decreases b.len(),
{
    if b.len() == 0 {
        assert(a + b =~= a);
    } else {
        assert(a + b =~= (a + b.drop_last()).push(b.last()));
        lemma_bucket_count_concat(cfg, a, b.drop_last(), i);
        lemma_bucket_count_push(cfg, a + b.drop_last(), b.last(), i);
    }
}

/// A bucket never holds more than everything recorded.
proof fn lemma_bucket_count_le_len(cfg: HistogramConfig, s: Seq<u64>, i: int)
    ensures
        bucket_count(cfg, s, i) <= s.len(),
    decreases s.len(),
{
    if s.len() > 0 {
        lemma_bucket_count_le_len(cfg, s.drop_last(), i);
    }
}

/// Cumulative counts grow with the bucket index.
proof fn lemma_cum_count_monotone(cfg: HistogramConfig, s: Seq<u64>, i: int, j: int)
    requires
        i <= j,
    ensures
        cum_count(cfg, s, i) <= cum_count(cfg, s, j),
    decreases (if j - i >= 0 { j - i } else { 0 }),
{
    if i < j {
        lemma_cum_count_monotone(cfg, s, i, j - 1);
    }
}

/// Appending an observation raises the cumulative counts from its bucket up.
proof fn lemma_cum_count_push(cfg: HistogramConfig, s: Seq<u64>, d: u64, i: int)
    ensures
        cum_count(cfg, s.push(d), i) == cum_count(cfg, s, i) + (if bucket_index(cfg, d) <= i {
            1nat
        } else {
            0nat
        }),
    decreases (if i < 0 { 0 } else { i + 1 }),
{
    if i >= 0 {
        lemma_cum_count_push(cfg, s, d, i - 1);
        lemma_bucket_count_push(cfg, s, d, i);
    }
}

/// An empty recorder has empty cumulative counts.
proof fn lemma_cum_count_empty(cfg: HistogramConfig, s: Seq<u64>, i: int)
    requires
        s.len() == 0,
    ensures
        cum_count(cfg, s, i) == 0,
    decreases (if i < 0 { 0 } else { i + 1 }),
{
    if i >= 0 {
        lemma_cum_count_empty(cfg, s, i - 1);
    }
}

/// All observations land in some bucket: the full cumulative count is the
/// number of observations.
proof fn lemma_cum_count_total(cfg: HistogramConfig, s: Seq<u64>)
    requires
        cfg.valid(),
    ensures
        cum_count(cfg, s, cfg.spec_num_buckets() - 1) == s.len(),
    decreases s.len(),
{
    if s.len() == 0 {
        lemma_cum_count_empty(cfg, s, cfg.spec_num_buckets() - 1);
    }
    if s.len() > 0 {
        lemma_cum_count_total(cfg, s.drop_last());
        assert(s =~= s.drop_last().push(s.last()));
        lemma_cum_count_push(cfg, s.drop_last(), s.last(), cfg.spec_num_buckets() - 1);
    }
}

/// A cumulative count never exceeds the number of observations.
proof fn lemma_cum_count_le_len(cfg: HistogramConfig, s: Seq<u64>, i: int)
    requires
        cfg.valid(),
        i < cfg.spec_num_buckets(),
    ensures
        cum_count(cfg, s, i) <= s.len(),
{
    lemma_cum_count_monotone(cfg, s, i, cfg.spec_num_buckets() - 1);
    lemma_cum_count_total(cfg, s);
}

/// The percentile rank lies in `1..=total` for any percentile in `0..=100`.
proof fn lemma_rank_in_range(p: int, total: nat)
    requires
        0 <= p <= 100,
        total >= 1,
    ensures
        1 <= rank_of(p, total) <= total,
{
    lemma_mul_inequality(p, 100, total as int);
    lemma_div_is_ordered(p * total + 99, 100 * (total as int) + 99, 100);
    assert((100 * total + 99) / 100 == total) by {
        vstd::arithmetic::div_mod::lemma_div_multiples_vanish_fancy(total as int, 99, 100);
    }
}

/// The rank grows with the requested percentile.
proof fn lemma_rank_monotone(p1: int, p2: int, total: nat)
    requires
        0 <= p1 <= p2 <= 100,
    ensures
        rank_of(p1, total) <= rank_of(p2, total),
{
    lemma_mul_inequality(p1, p2, total as int);
    lemma_div_is_ordered(p1 * total + 99, p2 * total + 99, 100);
}

/// The found percentile bucket stays within the bucket range.
proof fn lemma_percentile_bucket_bounds(cfg: HistogramConfig, s: Seq<u64>, rank: int, i: int)
    requires
        cfg.valid(),
        0 <= i < cfg.spec_num_buckets(),
    ensures
        i <= percentile_bucket(cfg, s, rank, i) < cfg.spec_num_buckets(),
    decreases cfg.spec_num_buckets() - i,
{
    if i < cfg.spec_num_buckets() - 1 && cum_count(cfg, s, i) < rank {
        lemma_percentile_bucket_bounds(cfg, s, rank, i + 1);
    }
}

/// A larger rank never lands in an earlier bucket.
proof fn lemma_percentile_bucket_monotone(
    cfg: HistogramConfig,
    s: Seq<u64>,
    r1: int,
    r2: int,
    i: int,
)
    requires
        cfg.valid(),
        0 <= i < cfg.spec_num_buckets(),
        r1 <= r2,
    ensures
        percentile_bucket(cfg, s, r1, i) <= percentile_bucket(cfg, s, r2, i),
    decreases cfg.spec_num_buckets() - i,
{
    if i < cfg.spec_num_buckets() - 1 {
        if cum_count(cfg, s, i) >= r2 {
        } else if cum_count(cfg, s, i) >= r1 {
            lemma_percentile_bucket_bounds(cfg, s, r2, i);
        } else {
            lemma_percentile_bucket_monotone(cfg, s, r1, r2, i + 1);
        }
    }
}

/// The largest observation is one of the observations and bounds them all.
proof fn lemma_max_obs_props(s: Seq<u64>)
    requires
        s.len() > 0,
    ensures
        s.contains(max_obs(s)),
        forall|k: int| 0 <= k < s.len() ==> s[k] <= max_obs(s),
    decreases s.len(),
{
    if s.len() == 1 {
        assert(s[0] == s.last());
    } else {
        lemma_max_obs_props(s.drop_last());
        if s.last() >= max_obs(s.drop_last()) {
            assert(s[s.len() - 1] == max_obs(s));
        } else {
            let j = choose|j: int| 0 <= j < s.drop_last().len() && s.drop_last()[j] == max_obs(
                s.drop_last(),
            );
            assert(s[j] == max_obs(s));
        }
        assert forall|k: int| 0 <= k < s.len() implies s[k] <= max_obs(s) by {
            if k < s.len() - 1 {
                assert(s.drop_last()[k] == s[k]);
            }
        }
    }
}

/// A bucket that no observation falls into is empty.
proof fn lemma_bucket_count_zero(cfg: HistogramConfig, s: Seq<u64>, i: int)
    requires
        forall|k: int| 0 <= k < s.len() ==> bucket_index(cfg, s[k]) != i,
    ensures
        bucket_count(cfg, s, i) == 0,
    decreases s.len(),
{
    if s.len() > 0 {
        assert(forall|k: int|
            0 <= k < s.drop_last().len() ==> s.drop_last()[k] == s[k]);
        lemma_bucket_count_zero(cfg, s.drop_last(), i);
        assert(s.last() == s[s.len() - 1]);
    }
}

/// The bucket of any observation is inhabited.
proof fn lemma_bucket_count_pos(cfg: HistogramConfig, s: Seq<u64>, k: int)
    requires
        0 <= k < s.len(),
    ensures
        bucket_count(cfg, s, bucket_index(cfg, s[k])) >= 1,
    decreases s.len(),
{
    if k < s.len() - 1 {
        assert(s.drop_last()[k] == s[k]);
        lemma_bucket_count_pos(cfg, s.drop_last(), k);
    } else {
        assert(s.last() == s[k]);
    }
}

/// Cumulative counts stop growing above the highest inhabited bucket.
proof fn lemma_cum_count_stable(cfg: HistogramConfig, s: Seq<u64>, m: int, i: int)
    requires
        forall|k: int| 0 <= k < s.len() ==> bucket_index(cfg, s[k]) <= m,
        m <= i,
    ensures
        cum_count(cfg, s, i) == cum_count(cfg, s, m),
    decreases i - m,
{
    if i > m {
        lemma_bucket_count_zero(cfg, s, i);
        lemma_cum_count_stable(cfg, s, m, i - 1);
    }
}

/// The scan finds exactly the first bucket whose cumulative count reaches
/// the rank.
proof fn lemma_percentile_bucket_exact(
    cfg: HistogramConfig,
    s: Seq<u64>,
    rank: int,
    i: int,
    target: int,
)
    requires
        cfg.valid(),
        0 <= i <= target < cfg.spec_num_buckets(),
        cum_count(cfg, s, target) >= rank,
        forall|j: int| i <= j < target ==> cum_count(cfg, s, j) < rank,
    ensures
        percentile_bucket(cfg, s, rank, i) == target,
    decreases target - i,
{
    if i < target {
        lemma_percentile_bucket_exact(cfg, s, rank, i + 1, target);
    }
}

/// Counting a bucket is a commutative fold over the observations.
proof fn lemma_bucket_count_fold(
    cfg: HistogramConfig,
    s: Seq<u64>,
    i: int,
    v: nat,
    f: spec_fn(u64, nat) -> nat,
)
    requires
        forall|d: u64, c: nat| #[trigger] f(d, c) == (if bucket_index(cfg, d) == i {
            (c + 1) as nat
        } else {
            c
        }),
    ensures
        s.fold_right(f, v) == v + bucket_count(cfg, s, i),
    decreases s.len(),
{
    if s.len() > 0 {
        lemma_bucket_count_fold(cfg, s.drop_last(), i, f(s.last(), v), f);
    }
}

/// Bucket counts see only the multiset of observations, not their order.
pub proof fn lemma_bucket_count_permutation(cfg: HistogramConfig, s: Seq<u64>, t: Seq<u64>, i: int)
    requires
        s.to_multiset() == t.to_multiset(),
    ensures
        bucket_count(cfg, s, i) == bucket_count(cfg, t, i),
{
    let f = |d: u64, c: nat|
        if bucket_index(cfg, d) == i {
            (c + 1) as nat
        } else {
            c
        };
    lemma_bucket_count_fold(cfg, s, i, 0, f);
    lemma_bucket_count_fold(cfg, t, i, 0, f);
    assert(commutative_foldr(f));
    lemma_fold_right_permutation(s, t, f, 0nat);
}

/// Cumulative counts agree wherever all bucket counts agree.
proof fn lemma_cum_count_congruent(cfg: HistogramConfig, s: Seq<u64>, t: Seq<u64>, i: int)
    requires
        forall|j: int| #[trigger] bucket_count(cfg, s, j) == bucket_count(cfg, t, j),
    ensures
        cum_count(cfg, s, i) == cum_count(cfg, t, i),
    decreases (if i < 0 { 0 } else { i + 1 }),
{
    if i >= 0 {
        lemma_cum_count_congruent(cfg, s, t, i - 1);
    }
}

/// The percentile bucket agrees wherever all cumulative counts agree.
proof fn lemma_percentile_bucket_congruent(
    cfg: HistogramConfig,
    s: Seq<u64>,
    t: Seq<u64>,
    rank: int,
    i: int,
)
    requires
        forall|j: int| #[trigger] cum_count(cfg, s, j) == cum_count(cfg, t, j),
    ensures
        percentile_bucket(cfg, s, rank, i) == percentile_bucket(cfg, t, rank, i),
    decreases (if i < cfg.spec_num_buckets() { cfg.spec_num_buckets() - i } else { 0 }),
{
    if i < cfg.spec_num_buckets() - 1 && cum_count(cfg, s, i) < rank {
        lemma_percentile_bucket_congruent(cfg, s, t, rank, i + 1);
    }
}

/// Percentile queries depend only on which observations were recorded,
/// never on the order they arrived in.
pub proof fn lemma_percentile_permutation(cfg: HistogramConfig, s: Seq<u64>, t: Seq<u64>, p: int)
    requires
        s.to_multiset() == t.to_multiset(),
    ensures
        percentile_spec(cfg, s, p) == percentile_spec(cfg, t, p),
{
    broadcast use vstd::seq_lib::group_to_multiset_ensures;

    assert(s.len() == t.len()) by {
        assert(s.to_multiset().len() == s.len());
        assert(t.to_multiset().len() == t.len());
    }
    assert forall|j: int| #[trigger] bucket_count(cfg, s, j) == bucket_count(cfg, t, j) by {
        lemma_bucket_count_permutation(cfg, s, t, j);
    }
    assert forall|j: int| #[trigger] cum_count(cfg, s, j) == cum_count(cfg, t, j) by {
        lemma_cum_count_congruent(cfg, s, t, j);
    }
    lemma_percentile_bucket_congruent(cfg, s, t, rank_of(p, s.len()), 0);
}

/// A consistent recorder always carries a usable bucket layout.
pub proof fn lemma_wf_valid(r: LatencyRecorder)
    requires
        r.wf(),
    ensures
        r.cfg().valid(),
{
}

/// A reported percentile value always fits the duration type.
pub proof fn lemma_percentile_spec_bounds(cfg: HistogramConfig, obs: Seq<u64>, p: int)
    requires
        cfg.valid(),
    ensures
        0 <= percentile_spec(cfg, obs, p) <= u64::MAX,
{
    let bucket = percentile_bucket(cfg, obs, rank_of(p, obs.len()), 0);
    lemma_percentile_bucket_bounds(cfg, obs, rank_of(p, obs.len()), 0);
    lemma_mid_in_bucket(cfg, bucket);
    lemma2_to64();
    lemma2_to64_rest();
    if 1 <= bucket < cfg.max_value_power {
        if bucket < 63 {
            lemma_pow2_strictly_increases(bucket as nat, 63);
        }
    }
}

/// Percentile queries are monotone in the requested percentile: the reported
/// duration never decreases as the percentile grows.
pub proof fn lemma_percentile_monotone(cfg: HistogramConfig, obs: Seq<u64>, p1: int, p2: int)
    requires
        cfg.valid(),
        obs.len() > 0,
        0 <= p1 <= p2 <= 100,
    ensures
        percentile_spec(cfg, obs, p1) <= percentile_spec(cfg, obs, p2),
{
    let r1 = rank_of(p1, obs.len());
    let r2 = rank_of(p2, obs.len());
    lemma_rank_monotone(p1, p2, obs.len());
    lemma_percentile_bucket_monotone(cfg, obs, r1, r2, 0);
    lemma_percentile_bucket_bounds(cfg, obs, r1, 0);
    lemma_percentile_bucket_bounds(cfg, obs, r2, 0);
    lemma_mid_monotone(
        cfg,
        percentile_bucket(cfg, obs, r1, 0),
        percentile_bucket(cfg, obs, r2, 0),
    );
}

/// The 100th percentile is reported from the very bucket that holds the
/// largest observation, so the two lie within one bucket width of each
/// other.
pub proof fn lemma_percentile_100_near_max(cfg: HistogramConfig, obs: Seq<u64>)
    requires
        cfg.valid(),
        obs.len() > 0,
    ensures
        ({
            let i = bucket_index(cfg, max_obs(obs));
            &&& bucket_low(cfg, i) <= percentile_spec(cfg, obs, 100) <= bucket_high(cfg, i)
            &&& bucket_low(cfg, i) <= max_obs(obs) <= bucket_high(cfg, i)
        }),
{
    let m = max_obs(obs);
    let im = bucket_index(cfg, m);
    let total = obs.len();
    lemma_max_obs_props(obs);
    lemma_bucket_contains(cfg, m);
    assert(rank_of(100, total) == total) by {
        vstd::arithmetic::div_mod::lemma_div_multiples_vanish_fancy(total as int, 99, 100);
    }
    assert forall|k: int| 0 <= k < obs.len() implies bucket_index(cfg, obs[k]) <= im by {
        lemma_bucket_index_monotone(cfg, obs[k], m);
    }
    lemma_cum_count_total(cfg, obs);
    lemma_cum_count_stable(cfg, obs, im, cfg.spec_num_buckets() - 1);
    let k = choose|k: int| 0 <= k < obs.len() && obs[k] == m;
    lemma_bucket_count_pos(cfg, obs, k);
    assert forall|j: int| 0 <= j < im implies cum_count(cfg, obs, j) < total by {
        lemma_cum_count_monotone(cfg, obs, j, im - 1);
    }
    lemma_percentile_bucket_exact(cfg, obs, total as int, 0, im);
    lemma_mid_in_bucket(cfg, im);
}

} // verus!
