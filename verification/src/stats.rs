//! The statistics engine. One `Fact` is recorded per finished request;
//! a `Summary` digests a whole run's facts into average, median,
//! minimum, maximum and standard deviation of the latencies, a
//! percentile ladder, a latency histogram, the byte total and the
//! status-code breakdown. Every figure is stated in nanoseconds over
//! the sorted latency sequence.

use crate::chart::{chart_text, Chart};
use crate::content_length::ContentLength;
use crate::duration::Duration;
use vstd::prelude::*;

verus! {

/// The ceiling on a single latency that the statistics accept, in
/// nanoseconds (about 39 hours). It keeps every accumulation - sums,
/// squared deviations - inside 128-bit arithmetic.
pub const MAX_STAT_NANOS: u128 = 140737488355328;

/// A single datum or "fact" about one finished request.
#[derive(Debug)]
pub struct Fact {
    status: u16,
    duration: Duration,
    content_length: ContentLength,
}

impl Fact {
    pub closed spec fn spec_status(&self) -> u16 {
        self.status
    }

    pub closed spec fn spec_duration(&self) -> Duration {
        self.duration
    }

    pub closed spec fn spec_content_length(&self) -> ContentLength {
        self.content_length
    }

    /// Packages one observation: how long the request took, what it
    /// answered and how many bytes came back.
    pub fn record(content_length: ContentLength, status: u16, duration: Duration) -> (f: Fact)
        ensures
            f.spec_status() == status,
            f.spec_duration() == duration,
            f.spec_content_length() == content_length,
    {
        Fact { duration, status, content_length }
    }

    /// The status code the request answered with.
    pub fn status(&self) -> (s: u16)
        ensures
            s == self.spec_status(),
    {
        self.status
    }

    /// How long the request took.
    pub fn duration(&self) -> (d: Duration)
        ensures
            d == self.spec_duration(),
    {
        self.duration
    }

    /// How many bytes the response carried.
    pub fn content_length(&self) -> (c: ContentLength)
        ensures
            c == self.spec_content_length(),
    {
        self.content_length
    }
}

/// The latencies of a fact sequence, in the facts' order.
pub open spec fn durations_of(facts: Seq<Fact>) -> Seq<Duration> {
    facts.map_values(|f: Fact| f.spec_duration())
}

/// Ascending by length: every earlier span is no longer than any later
/// one.
pub open spec fn sorted_ns(s: Seq<Duration>) -> bool {
    forall|i: int, j: int| 0 <= i <= j < s.len() ==> s[i]@ <= s[j]@
}

/// Every span in the sequence is at most `bound` nanoseconds.
pub open spec fn bounded_ns(s: Seq<Duration>, bound: int) -> bool {
    forall|i: int| 0 <= i < s.len() ==> s[i]@ <= bound
}

/// The total of all spans, in nanoseconds.
pub open spec fn sum_ns(s: Seq<Duration>) -> int
    decreases s.len(),
{
    if s.len() == 0 {
        0int
    } else {
        sum_ns(s.drop_last()) + s.last()@
    }
}

/// The mean span in whole nanoseconds.
pub open spec fn average_ns(s: Seq<Duration>) -> int
    recommends
        s.len() > 0,
{
    sum_ns(s) / s.len() as int
}

/// The median of a sorted sequence: the middle value, or for an even
/// count the mean of the two middle values.
pub open spec fn median_ns(s: Seq<Duration>) -> int
    recommends
        s.len() > 0,
{
    if s.len() % 2 == 0 {
        (s[s.len() as int / 2 - 1]@ + s[s.len() as int / 2]@) / 2
    } else {
        s[s.len() as int / 2]@
    }
}

/// A sorted copy of the latencies of `facts`: same spans, ascending.
pub open spec fn is_sorted_durations_of(s: Seq<Duration>, facts: Seq<Fact>) -> bool {
    sorted_ns(s) && s.to_multiset() == durations_of(facts).to_multiset()
}

/// Inserting anywhere into a sequence adds exactly that value to its
/// multiset.
proof fn lemma_insert_to_multiset<A>(s: Seq<A>, p: int, x: A)
    requires
        0 <= p <= s.len(),
    ensures
        s.insert(p, x).to_multiset() == s.to_multiset().insert(x),
{
    broadcast use vstd::seq_lib::group_to_multiset_ensures;

    let t = s.insert(p, x);
    assert(t.remove(p) =~= s);
    assert(t[p] == x);
    assert(s.to_multiset() == t.to_multiset().remove(x));
    assert(t.contains(x));
    assert(t.to_multiset().count(x) > 0);
    assert(t.to_multiset() =~= s.to_multiset().insert(x));
}

/// A sorted arrangement of given spans is unique up to their lengths:
/// any two sorted sequences over the same multiset of spans agree,
/// position by position, on the nanoseconds. Every figure stated over
/// one sorted witness therefore holds over any other.
pub proof fn lemma_sorted_durations_agree(s1: Seq<Duration>, s2: Seq<Duration>)
    requires
        sorted_ns(s1),
        sorted_ns(s2),
        s1.to_multiset() == s2.to_multiset(),
    ensures
        s1.len() == s2.len(),
        forall|i: int| 0 <= i < s1.len() ==> s1[i]@ == s2[i]@,
    decreases s1.len(),
{
    broadcast use vstd::seq_lib::group_to_multiset_ensures;

    assert(s1.to_multiset().len() == s1.len());
    assert(s2.to_multiset().len() == s2.len());
    if s1.len() == 0 {
    } else {
        let x = s1.last();
        assert(s1.contains(x));
        assert(s2.to_multiset().count(x) > 0);
        assert(s2.contains(x));
        let j = choose|j: int| 0 <= j < s2.len() && s2[j] == x;
        let y = s2.last();
        assert(s1.contains(y)) by {
            assert(s1.to_multiset().count(y) > 0);
        }
        let k = choose|k: int| 0 <= k < s1.len() && s1[k] == y;
        // the two last spans squeeze each other to the same length
        assert(x@ <= y@ && y@ <= x@);

        let s1p = s1.drop_last();
        let s2p = s2.remove(j);
        assert(s1p.to_multiset() =~= s1.to_multiset().remove(x)) by {
            assert(s1.remove(s1.len() - 1) =~= s1p);
        }
        assert(s2p.to_multiset() == s2.to_multiset().remove(x));
        assert(sorted_ns(s2p)) by {
            assert(forall|a: int, b: int|
                0 <= a <= b < s2p.len() ==> s2p[a]@ <= s2p[b]@);
        }
        lemma_sorted_durations_agree(s1p, s2p);
        // the removed span and everything after it share one length,
        // so removing it reads like dropping the last span
        assert forall|i: int| 0 <= i < s1.len() implies s1[i]@ == s2[i]@ by {
            if i < s1.len() - 1 {
                assert(s1[i]@ == s1p[i]@);
                assert(s1p[i]@ == s2p[i]@);
                if i < j {
                    assert(s2p[i] == s2[i]);
                } else {
                    assert(s2p[i] == s2[i + 1]);
                    assert(s2[j]@ <= s2[i]@ <= s2.last()@);
                }
            } else {
                assert(s2[i]@ == y@);
            }
        }
    }
}

/// Sorts spans ascending by length, keeping exactly the same spans.
fn sort_durations(v: &Vec<Duration>) -> (out: Vec<Duration>)
    ensures
        sorted_ns(out@),
        out@.to_multiset() == v@.to_multiset(),
        out@.len() == v@.len(),
{
    broadcast use vstd::seq_lib::group_to_multiset_ensures;

    let mut out: Vec<Duration> = Vec::with_capacity(v.len());
    let mut k: usize = 0;
    while k < v.len()
        invariant
            k <= v.len(),
            out@.len() == k,
            sorted_ns(out@),
            out@.to_multiset() == v@.take(k as int).to_multiset(),
        decreases v.len() - k,
    {
        let x = v[k];
        let mut p: usize = 0;
        while p < out.len() && out[p].le(&x)
            invariant
                p <= out.len(),
                forall|i: int| 0 <= i < p ==> out@[i]@ <= x@,
            decreases out.len() - p,
        {
            p = p + 1;
        }
        let ghost prev = out@;
        out.insert(p, x);
        k = k + 1;
        proof {
            lemma_insert_to_multiset(prev, p as int, x);
            assert(v@.take(k as int) =~= v@.take(k as int - 1).push(x));
            vstd::seq_lib::to_multiset_build(v@.take(k as int - 1), x);
        }
    }
    proof {
        assert(v@.take(v@.len() as int) =~= v@);
    }
    out
}

/// The helper over the sorted latencies of a fact sequence; it exists
/// so the sort happens once and every figure reads from it.
struct DurationStats {
    sorted: Vec<Duration>,
}

impl DurationStats {
    spec fn spec_sorted(&self) -> Seq<Duration> {
        self.sorted@
    }

    /// Pulls the latencies out of the facts and sorts them ascending.
    fn from_facts(facts: &[Fact]) -> (stats: Self)
        ensures
            is_sorted_durations_of(stats.spec_sorted(), facts@),
            stats.spec_sorted().len() == facts@.len(),
    {
        let mut durations: Vec<Duration> = Vec::with_capacity(facts.len());
        let mut i: usize = 0;
        while i < facts.len()
            invariant
                i <= facts.len(),
                durations@ =~= durations_of(facts@.take(i as int)),
            decreases facts.len() - i,
        {
            durations.push(facts[i].duration);
            i = i + 1;
            proof {
                assert(durations@ =~= durations_of(facts@.take(i as int)));
            }
        }
        proof {
            assert(facts@.take(facts@.len() as int) =~= facts@);
        }
        let sorted = sort_durations(&durations);
        Self { sorted }
    }

    /// The longest span, unless there is none at all.
    fn max(&self) -> (r: Option<Duration>)
        ensures
            (match r {
                Some(d) => self.spec_sorted().len() > 0 && d == self.spec_sorted().last(),
                None => self.spec_sorted().len() == 0,
            }),
    {
        if self.sorted.len() == 0 {
            None
        } else {
            Some(self.sorted[self.sorted.len() - 1])
        }
    }

    /// The shortest span, unless there is none at all.
    fn min(&self) -> (r: Option<Duration>)
        ensures
            (match r {
                Some(d) => self.spec_sorted().len() > 0 && d == self.spec_sorted()[0],
                None => self.spec_sorted().len() == 0,
            }),
    {
        if self.sorted.len() == 0 {
            None
        } else {
            Some(self.sorted[0])
        }
    }

    /// The median span: the middle of the sorted sequence, or the mean
    /// of the two middle spans for an even count.
    fn median(&self) -> (r: Duration)
        requires
            self.spec_sorted().len() >= 1,
        ensures
            r@ == median_ns(self.spec_sorted()),
    {
        let n = self.sorted.len();
        let mid = n / 2;
        if n % 2 == 0 {
            let low = self.sorted[mid - 1];
            let high = self.sorted[mid];
            let a = low.total_nanos();
            let b = high.total_nanos();
            proof {
                use_type_invariant(low);
                use_type_invariant(high);
                low.lemma_view_cap();
                high.lemma_view_cap();
                vstd::arithmetic::div_mod::lemma_div_is_ordered(
                    (a + b) as int / 2,
                    u64::MAX * 1_000_000_000 + 999_999_999,
                    1_000_000_000,
                );
            }
            Duration::from_nanos((a + b) / 2)
        } else {
            self.sorted[mid]
        }
    }

    /// The mean span in whole nanoseconds.
    fn average(&self) -> (r: Duration)
        requires
            self.spec_sorted().len() >= 1,
            bounded_ns(self.spec_sorted(), MAX_STAT_NANOS as int),
        ensures
            r@ == average_ns(self.spec_sorted()),
    {
        let n = self.sorted.len();
        let mut total: u128 = 0;
        let mut i: usize = 0;
        while i < n
            invariant
                n == self.spec_sorted().len(),
                bounded_ns(self.spec_sorted(), MAX_STAT_NANOS as int),
                i <= n,
                total == sum_ns(self.spec_sorted().take(i as int)),
                total <= i * MAX_STAT_NANOS,
            decreases n - i,
        {
            let d = self.sorted[i];
            let dn = d.total_nanos();
            proof {
                assert(self.spec_sorted().take(i as int + 1).drop_last() =~= self.spec_sorted()
                    .take(i as int));
                assert((i + 1) * MAX_STAT_NANOS == i * MAX_STAT_NANOS + MAX_STAT_NANOS)
                    by (nonlinear_arith);
            }
            total = total + dn;
            i = i + 1;
        }
        proof {
            assert(self.spec_sorted().take(n as int) =~= self.spec_sorted());
            lemma_sum_ns_nonnegative(self.spec_sorted());
            vstd::arithmetic::div_mod::lemma_div_pos_is_pos(total as int, n as int);
            vstd::arithmetic::div_mod::lemma_div_is_ordered(
                total as int,
                (n * MAX_STAT_NANOS) as int,
                n as int,
            );
            assert((n * MAX_STAT_NANOS) as int == MAX_STAT_NANOS * n) by (nonlinear_arith);
            vstd::arithmetic::div_mod::lemma_div_by_multiple(MAX_STAT_NANOS as int, n as int);
        }
        let avg = total / (n as u128);
        Duration::from_nanos(avg)
    }

    /// The sample standard deviation in whole nanoseconds: the square
    /// root of the squared deviations from the mean over `count - 1`.
    /// A single sample leaves it undefined and yields zero.
    fn stddev(&self) -> (r: Duration)
        requires
            self.spec_sorted().len() >= 1,
            self.spec_sorted().len() <= u32::MAX,
            bounded_ns(self.spec_sorted(), MAX_STAT_NANOS as int),
        ensures
            r@ * r@ <= variance_ns2(self.spec_sorted()),
            variance_ns2(self.spec_sorted()) < (r@ + 1) * (r@ + 1),
    {
        let n = self.sorted.len();
        if n == 1 {
            return Duration::new(0, 0);
        }
        let mean_dur = self.average();
        let mean: u128 = mean_dur.total_nanos();
        proof {
            lemma_average_bounds(self.spec_sorted());
        }
        let mut acc: u128 = 0;
        let mut i: usize = 0;
        while i < n
            invariant
                n == self.spec_sorted().len(),
                2 <= n <= u32::MAX,
                bounded_ns(self.spec_sorted(), MAX_STAT_NANOS as int),
                mean == average_ns(self.spec_sorted()),
                mean <= MAX_STAT_NANOS,
                i <= n,
                acc == sum_dev_sq(self.spec_sorted().take(i as int), mean as int),
                acc <= i * ((MAX_STAT_NANOS * MAX_STAT_NANOS) as u128),
            decreases n - i,
        {
            let d = self.sorted[i];
            let dn = d.total_nanos();
            let diff: u128 = if dn >= mean {
                dn - mean
            } else {
                mean - dn
            };
            proof {
                assert(self.spec_sorted().take(i as int + 1).drop_last() =~= self.spec_sorted()
                    .take(i as int));
                assert(diff <= MAX_STAT_NANOS);
                assert((diff as int) * (diff as int) == dev_sq(dn as int, mean as int))
                    by (nonlinear_arith)
                    requires
                        diff as int == dn as int - mean as int || diff as int == mean as int
                            - dn as int,
                ;
                assert((diff as int) * (diff as int) <= (MAX_STAT_NANOS * MAX_STAT_NANOS) as int)
                    by (nonlinear_arith)
                    requires
                        0 <= diff as int <= MAX_STAT_NANOS as int,
                ;
                assert((i + 1) * ((MAX_STAT_NANOS * MAX_STAT_NANOS) as u128) == i * ((
                MAX_STAT_NANOS * MAX_STAT_NANOS) as u128) + (MAX_STAT_NANOS * MAX_STAT_NANOS))
                    by (nonlinear_arith);
            }
            acc = acc + diff * diff;
            i = i + 1;
        }
        proof {
            assert(self.spec_sorted().take(n as int) =~= self.spec_sorted());
        }
        let variance = acc / ((n - 1) as u128);
        proof {
            vstd::arithmetic::div_mod::lemma_div_nonincreasing(acc as int, (n - 1) as int);
            assert(acc as int <= 0x40000000000000000000000000000000) by (nonlinear_arith)
                requires
                    acc as int <= (n as int) * ((MAX_STAT_NANOS * MAX_STAT_NANOS) as int),
                    0 <= n as int <= 0xffffffff,
            ;
        }
        let root = isqrt_u128(variance);
        proof {
            assert(root as int <= 0x8000000000000000) by (nonlinear_arith)
                requires
                    (root as int) * (root as int) <= variance as int,
                    variance as int <= 0x40000000000000000000000000000000,
            ;
        }
        Duration::from_nanos(root)
    }

    /// The 100-entry percentile ladder: entry `k` holds the sorted span
    /// at the nearest-rank index of the `k`-th percentile, clamped into
    /// the data.
    fn percentiles(&self) -> (out: Vec<Duration>)
        requires
            self.spec_sorted().len() >= 1,
            self.spec_sorted().len() <= u32::MAX,
        ensures
            out@.len() == 100,
            forall|k: int|
                0 <= k < 100 ==> out@[k] == self.spec_sorted()[pct_index(
                    k,
                    self.spec_sorted().len() as int,
                )],
    {
        let n = self.sorted.len();
        let mut out: Vec<Duration> = Vec::with_capacity(100);
        let mut k: usize = 0;
        while k < 100
            invariant
                n == self.spec_sorted().len(),
                1 <= n <= u32::MAX,
                k <= 100,
                out@.len() == k,
                forall|j: int| 0 <= j < k ==> out@[j] == self.spec_sorted()[pct_index(j, n as int)],
            decreases 100 - k,
        {
            proof {
                assert((k as int) * (n as int) <= 99 * 0xffffffff) by (nonlinear_arith)
                    requires
                        0 <= k as int <= 99,
                        0 <= n as int <= 0xffffffff,
                ;
            }
            let raw: u64 = (k as u64) * (n as u64) / 100;
            let idx: usize = if raw < (n as u64) - 1 {
                raw as usize
            } else {
                n - 1
            };
            out.push(self.sorted[idx]);
            k = k + 1;
        }
        out
    }

    /// The latency histogram: 100 buckets scaled to hundredths of the
    /// longest span, with every span clamped into the first fifty.
    fn latency_histogram(&self) -> (hist: Vec<u32>)
        requires
            self.spec_sorted().len() <= u32::MAX,
        ensures
            hist@.len() == 100,
            forall|b: int|
                0 <= b < 100 ==> hist@[b] == count_bucket(
                    self.spec_sorted(),
                    max_ns_of(self.spec_sorted()),
                    b,
                ),
    {
        let mut hist: Vec<u32> = Vec::with_capacity(100);
        let mut z: usize = 0;
        while z < 100
            invariant
                z <= 100,
                hist@.len() == z,
                forall|b: int| 0 <= b < z ==> hist@[b] == 0,
            decreases 100 - z,
        {
            hist.push(0);
            z = z + 1;
        }
        let n = self.sorted.len();
        if n == 0 {
            return hist;
        }
        let maxd = self.sorted[n - 1];
        let max_ns: u128 = maxd.total_nanos();
        let mut i: usize = 0;
        while i < n
            invariant
                n == self.spec_sorted().len(),
                1 <= n <= u32::MAX,
                max_ns == max_ns_of(self.spec_sorted()),
                hist@.len() == 100,
                i <= n,
                forall|b: int|
                    0 <= b < 100 ==> hist@[b] == count_bucket(
                        self.spec_sorted().take(i as int),
                        max_ns as int,
                        b,
                    ),
            decreases n - i,
        {
            let d = self.sorted[i];
            proof {
                use_type_invariant(d);
                d.lemma_view_cap();
            }
            let dn = d.total_nanos();
            let idx: usize = if max_ns == 0 {
                0
            } else {
                let q = dn * 100 / max_ns;
                proof {
                    vstd::arithmetic::div_mod::lemma_div_pos_is_pos(
                        dn as int * 100,
                        max_ns as int,
                    );
                }
                if q < 49 {
                    q as usize
                } else {
                    49
                }
            };
            proof {
                assert(idx as int == bucket_of(self.spec_sorted()[i as int], max_ns as int));
                lemma_count_bucket_bounds(
                    self.spec_sorted().take(i as int),
                    max_ns as int,
                    idx as int,
                );
                assert(self.spec_sorted().take(i as int + 1).drop_last() =~= self.spec_sorted()
                    .take(i as int));
            }
            let cur = hist[idx];
            hist[idx] = cur + 1;
            i = i + 1;
        }
        proof {
            assert(self.spec_sorted().take(n as int) =~= self.spec_sorted());
        }
        hist
    }
}

/// The squared deviation of one value from the mean.
pub open spec fn dev_sq(x: int, mean: int) -> int {
    (x - mean) * (x - mean)
}

/// The total squared deviation of all spans from the mean, in squared
/// nanoseconds.
pub open spec fn sum_dev_sq(s: Seq<Duration>, mean: int) -> int
    decreases s.len(),
{
    if s.len() == 0 {
        0int
    } else {
        sum_dev_sq(s.drop_last(), mean) + dev_sq(s.last()@, mean)
    }
}

/// The sample variance in squared nanoseconds: total squared deviation
/// from the mean over `count - 1`, and zero when one sample or none
/// leaves it undefined.
pub open spec fn variance_ns2(s: Seq<Duration>) -> int {
    if s.len() <= 1 {
        0int
    } else {
        sum_dev_sq(s, average_ns(s)) / (s.len() - 1) as int
    }
}

/// The percentile ladder reads the sorted spans with a nearest-rank
/// index, clamped to stay inside the data.
pub open spec fn pct_index(k: int, n: int) -> int {
    if k * n / 100 < n - 1 {
        k * n / 100
    } else {
        n - 1
    }
}

/// The histogram bucket of one span: its share of the longest span,
/// in hundredths, clamped to bucket 49.
pub open spec fn bucket_of(d: Duration, max_ns: int) -> int {
    if max_ns <= 0 {
        0int
    } else if d@ * 100 / max_ns < 49 {
        d@ * 100 / max_ns
    } else {
        49int
    }
}

/// How many spans of the sequence fall into one histogram bucket.
pub open spec fn count_bucket(s: Seq<Duration>, max_ns: int, b: int) -> int
    decreases s.len(),
{
    if s.len() == 0 {
        0int
    } else {
        count_bucket(s.drop_last(), max_ns, b) + (if bucket_of(s.last(), max_ns) == b {
            1int
        } else {
            0int
        })
    }
}

/// The longest span of a sorted sequence in nanoseconds, or zero when
/// there is none.
pub open spec fn max_ns_of(s: Seq<Duration>) -> int {
    if s.len() == 0 {
        0int
    } else {
        s.last()@
    }
}

/// A total of bounded spans stays below the count times the bound.
proof fn lemma_sum_ns_bounded(s: Seq<Duration>, bound: int)
    requires
        bounded_ns(s, bound),
        bound >= 0,
    ensures
        sum_ns(s) <= s.len() * bound,
    decreases s.len(),
{
    if s.len() > 0 {
        assert(bounded_ns(s.drop_last(), bound));
        lemma_sum_ns_bounded(s.drop_last(), bound);
        assert(s.len() * bound == (s.len() - 1) * bound + bound) by (nonlinear_arith);
    }
}

/// The mean of non-negative bounded spans is itself non-negative and
/// bounded.
proof fn lemma_average_bounds(s: Seq<Duration>)
    requires
        s.len() >= 1,
        bounded_ns(s, MAX_STAT_NANOS as int),
    ensures
        0 <= average_ns(s) <= MAX_STAT_NANOS,
{
    lemma_sum_ns_nonnegative(s);
    lemma_sum_ns_bounded(s, MAX_STAT_NANOS as int);
    vstd::arithmetic::div_mod::lemma_div_pos_is_pos(sum_ns(s), s.len() as int);
    vstd::arithmetic::div_mod::lemma_div_is_ordered(
        sum_ns(s),
        s.len() * MAX_STAT_NANOS,
        s.len() as int,
    );
    assert(s.len() * (MAX_STAT_NANOS as int) == (MAX_STAT_NANOS as int) * s.len())
        by (nonlinear_arith);
    vstd::arithmetic::div_mod::lemma_div_by_multiple(MAX_STAT_NANOS as int, s.len() as int);
}

/// A bucket never holds more spans than the sequence has.
proof fn lemma_count_bucket_bounds(s: Seq<Duration>, max_ns: int, b: int)
    ensures
        0 <= count_bucket(s, max_ns, b) <= s.len(),
    decreases s.len(),
{
    if s.len() > 0 {
        lemma_count_bucket_bounds(s.drop_last(), max_ns, b);
    }
}

/// The whole-number square root: the largest number whose square does
/// not exceed the argument.
fn isqrt_u128(x: u128) -> (r: u128)
    ensures
        (r as int) * (r as int) <= x as int,
        (x as int) < (r as int + 1) * (r as int + 1),
{
    let mut lo: u128 = 0;
    let mut hi: u128 = 0x10000000000000000;
    proof {
        assert((hi as int) * (hi as int) > x as int) by (nonlinear_arith)
            requires
                hi == 0x10000000000000000u128,
                x <= u128::MAX,
        ;
    }
    while lo + 1 < hi
        invariant
            lo < hi,
            hi <= 0x10000000000000000,
            (lo as int) * (lo as int) <= x as int,
            (x as int) < (hi as int) * (hi as int),
        decreases hi - lo,
    {
        let mid = lo + (hi - lo) / 2;
        proof {
            assert((mid as int) * (mid as int) < u128::MAX as int) by (nonlinear_arith)
                requires
                    mid < 0x10000000000000000u128,
            ;
        }
        if mid * mid <= x {
            lo = mid;
        } else {
            hi = mid;
        }
    }
    lo
}

/// Every span is non-negative, so so is any total of them.
proof fn lemma_sum_ns_nonnegative(s: Seq<Duration>)
    ensures
        sum_ns(s) >= 0,
    decreases s.len(),
{
    if s.len() > 0 {
        lemma_sum_ns_nonnegative(s.drop_last());
        s.last().lemma_view_nonnegative();
    }
}

/// How many facts answered with the given status code.
pub open spec fn count_status(facts: Seq<Fact>, st: u16) -> int
    decreases facts.len(),
{
    if facts.len() == 0 {
        0int
    } else {
        count_status(facts.drop_last(), st) + (if facts.last().spec_status() == st {
            1int
        } else {
            0int
        })
    }
}

/// No status is counted more often than there are facts.
proof fn lemma_count_status_bounds(facts: Seq<Fact>, st: u16)
    ensures
        0 <= count_status(facts, st) <= facts.len(),
    decreases facts.len(),
{
    if facts.len() > 0 {
        lemma_count_status_bounds(facts.drop_last(), st);
    }
}

/// The byte total across all facts.
pub open spec fn sum_bytes(facts: Seq<Fact>) -> int
    decreases facts.len(),
{
    if facts.len() == 0 {
        0int
    } else {
        sum_bytes(facts.drop_last()) + facts.last().spec_content_length().spec_bytes()
    }
}

/// A prefix never outweighs the whole: byte totals only grow.
proof fn lemma_sum_bytes_take_le(facts: Seq<Fact>, k: int)
    requires
        0 <= k <= facts.len(),
    ensures
        sum_bytes(facts.take(k)) <= sum_bytes(facts),
    decreases facts.len(),
{
    if k < facts.len() {
        assert(facts.drop_last().take(k) =~= facts.take(k));
        lemma_sum_bytes_take_le(facts.drop_last(), k);
    } else {
        assert(facts.take(k) =~= facts);
    }
}

/// Whatever is bounded in one arrangement is bounded in any other
/// arrangement of the same spans.
proof fn lemma_bounded_via_multiset(s1: Seq<Duration>, s2: Seq<Duration>, bound: int)
    requires
        s1.to_multiset() == s2.to_multiset(),
        bounded_ns(s2, bound),
    ensures
        bounded_ns(s1, bound),
{
    broadcast use vstd::seq_lib::group_to_multiset_ensures;

    assert forall|i: int| 0 <= i < s1.len() implies s1[i]@ <= bound by {
        assert(s1.contains(s1[i]));
        assert(s1.to_multiset().count(s1[i]) > 0);
        assert(s2.contains(s1[i]));
        let j = choose|j: int| 0 <= j < s2.len() && s2[j] == s1[i];
        assert(s2[j]@ <= bound);
    }
}

/// The sizes a report's charts can come in.
#[derive(Debug, Eq, PartialEq)]
pub enum ChartSize {
    Off,
    Small,
    Medium,
    Large,
}

/// The statistics over a set of facts.
#[derive(Debug)]
pub struct Summary {
    average: Duration,
    median: Duration,
    max: Duration,
    min: Duration,
    stddev: Duration,
    count: u32,
    content_length: ContentLength,
    percentiles: Vec<Duration>,
    latency_histogram: Vec<u32>,
    status_counts: std::collections::HashMap<u16, u32>,
    chart_size: ChartSize,
}

/// The duration-derived figures of a summary all read off one sorted
/// latency sequence: mean and median in whole nanoseconds, the ends of
/// the sorted order, the sample standard deviation pinned between two
/// consecutive squares, the nearest-rank ladder and the histogram.
pub open spec fn duration_figures_match(s: Summary, sd: Seq<Duration>) -> bool {
    &&& s.spec_average()@ == average_ns(sd)
    &&& s.spec_median()@ == median_ns(sd)
    &&& s.spec_min() == sd[0]
    &&& s.spec_max() == sd.last()
    &&& s.spec_stddev()@ * s.spec_stddev()@ <= variance_ns2(sd)
    &&& variance_ns2(sd) < (s.spec_stddev()@ + 1) * (s.spec_stddev()@ + 1)
    &&& s.spec_percentiles().len() == 100
    &&& (forall|k: int|
        0 <= k < 100 ==> s.spec_percentiles()[k] == sd[pct_index(k, sd.len() as int)])
    &&& s.spec_histogram().len() == 100
    &&& (forall|b: int| 0 <= b < 100 ==> s.spec_histogram()[b] == count_bucket(
        sd,
        max_ns_of(sd),
        b,
    ))
}

/// The text of one report chart: nothing when charts are off, else
/// the bar chart of the down-sampled data at the size's height.
pub open spec fn summary_chart_text(size: ChartSize, data: Seq<u64>) -> Seq<char> {
    match size {
        ChartSize::Off => Seq::empty(),
        ChartSize::Small => chart_text(scaled_seq(data, 3), 7, '▌', ' '),
        ChartSize::Medium => chart_text(scaled_seq(data, 2), 10, '▌', ' '),
        ChartSize::Large => chart_text(scaled_seq(data, 1), 20, '▌', ' '),
    }
}

impl Summary {
    pub closed spec fn spec_average(&self) -> Duration {
        self.average
    }

    pub closed spec fn spec_median(&self) -> Duration {
        self.median
    }

    pub closed spec fn spec_max(&self) -> Duration {
        self.max
    }

    pub closed spec fn spec_min(&self) -> Duration {
        self.min
    }

    pub closed spec fn spec_stddev(&self) -> Duration {
        self.stddev
    }

    pub closed spec fn spec_count(&self) -> u32 {
        self.count
    }

    pub closed spec fn spec_content_length(&self) -> ContentLength {
        self.content_length
    }

    pub closed spec fn spec_percentiles(&self) -> Seq<Duration> {
        self.percentiles@
    }

    pub closed spec fn spec_histogram(&self) -> Seq<u32> {
        self.latency_histogram@
    }

    pub closed spec fn spec_status_counts(&self) -> Map<u16, u32> {
        self.status_counts@
    }

    pub closed spec fn spec_chart_size(&self) -> ChartSize {
        self.chart_size
    }

    /// From a set of facts, calculates the whole digest: count, byte
    /// total, status breakdown and every duration-derived figure over
    /// the sorted latencies. An empty set gives the zero summary. Any
    /// two sorted witnesses agree on all their lengths
    /// (`lemma_sorted_durations_agree`), so the existential below
    /// pins every figure.
    pub fn from_facts(facts: &[Fact]) -> (s: Summary)
        requires
            facts@.len() <= u32::MAX,
            forall|i: int| 0 <= i < facts@.len() ==> facts@[i].spec_duration()@ <= MAX_STAT_NANOS,
            sum_bytes(facts@) <= u64::MAX,
        ensures
            s.spec_count() == facts@.len(),
            s.spec_content_length().spec_bytes() == sum_bytes(facts@),
            forall|st: u16| s.spec_status_counts().contains_key(st) <==> count_status(facts@, st) > 0,
            forall|st: u16|
                s.spec_status_counts().contains_key(st) ==> s.spec_status_counts()[st]
                    == count_status(facts@, st),
            s.spec_chart_size() == ChartSize::Medium,
            s.spec_percentiles().len() == 100,
            facts@.len() == 0 ==> s.spec_average()@ == 0 && s.spec_median()@ == 0 && s.spec_max()@
                == 0 && s.spec_min()@ == 0 && s.spec_stddev()@ == 0 && (forall|k: int|
                0 <= k < 100 ==> s.spec_percentiles()[k]@ == 0) && s.spec_histogram().len() == 0,
            facts@.len() > 0 ==> (exists|sd: Seq<Duration>|
                is_sorted_durations_of(sd, facts@) && #[trigger] duration_figures_match(s, sd)),
    {
        if facts.len() == 0 {
            return Self::zero();
        }
        let content_length = Self::total_content_length(facts);
        let count = facts.len() as u32;
        let status_counts = Self::status_counts_of(facts);
        let stats = DurationStats::from_facts(facts);
        proof {
            assert forall|i: int|
                0 <= i < durations_of(facts@).len() implies durations_of(facts@)[i]@
                <= MAX_STAT_NANOS by {
                assert(durations_of(facts@)[i] == facts@[i].spec_duration());
            }
            lemma_bounded_via_multiset(
                stats.spec_sorted(),
                durations_of(facts@),
                MAX_STAT_NANOS as int,
            );
        }
        let mut s = Self::from_durations(&stats);
        s.count = count;
        s.content_length = content_length;
        s.status_counts = status_counts;
        proof {
            let sd = stats.spec_sorted();
            assert(is_sorted_durations_of(sd, facts@) && duration_figures_match(s, sd));
        }
        s
    }

    /// Exchanges the chart size the report will use.
    pub fn with_chart_size(self, size: ChartSize) -> (s: Self)
        ensures
            s.spec_chart_size() == size,
            s.spec_average() == self.spec_average(),
            s.spec_median() == self.spec_median(),
            s.spec_max() == self.spec_max(),
            s.spec_min() == self.spec_min(),
            s.spec_stddev() == self.spec_stddev(),
            s.spec_count() == self.spec_count(),
            s.spec_content_length() == self.spec_content_length(),
            s.spec_percentiles() == self.spec_percentiles(),
            s.spec_histogram() == self.spec_histogram(),
            s.spec_status_counts() == self.spec_status_counts(),
    {
        Summary {
            average: self.average,
            median: self.median,
            max: self.max,
            min: self.min,
            stddev: self.stddev,
            count: self.count,
            content_length: self.content_length,
            percentiles: self.percentiles,
            latency_histogram: self.latency_histogram,
            status_counts: self.status_counts,
            chart_size: size,
        }
    }

    /// Fills the duration-derived figures from the sorted latencies;
    /// everything else starts at the zero summary's values.
    fn from_durations(stats: &DurationStats) -> (s: Summary)
        requires
            stats.spec_sorted().len() >= 1,
            stats.spec_sorted().len() <= u32::MAX,
            bounded_ns(stats.spec_sorted(), MAX_STAT_NANOS as int),
        ensures
            duration_figures_match(s, stats.spec_sorted()),
            s.spec_count() == 0,
            s.spec_content_length().spec_bytes() == 0,
            s.spec_status_counts() == Map::<u16, u32>::empty(),
            s.spec_chart_size() == ChartSize::Medium,
    {
        let average = stats.average();
        let stddev = stats.stddev();
        let median = stats.median();
        let min = match stats.min() {
            Some(d) => d,
            None => unreached(),
        };
        let max = match stats.max() {
            Some(d) => d,
            None => unreached(),
        };
        let latency_histogram = stats.latency_histogram();
        let percentiles = stats.percentiles();
        let mut s = Self::zero();
        s.average = average;
        s.stddev = stddev;
        s.median = median;
        s.min = min;
        s.max = max;
        s.percentiles = percentiles;
        s.latency_histogram = latency_histogram;
        s
    }

    /// The digest of nothing: zero durations, zero count, an all-zero
    /// ladder, no histogram and no statuses.
    fn zero() -> (s: Summary)
        ensures
            s.spec_average()@ == 0,
            s.spec_median()@ == 0,
            s.spec_max()@ == 0,
            s.spec_min()@ == 0,
            s.spec_stddev()@ == 0,
            s.spec_count() == 0,
            s.spec_content_length().spec_bytes() == 0,
            s.spec_percentiles().len() == 100,
            forall|k: int| 0 <= k < 100 ==> s.spec_percentiles()[k]@ == 0,
            s.spec_histogram().len() == 0,
            s.spec_status_counts() == Map::<u16, u32>::empty(),
            s.spec_chart_size() == ChartSize::Medium,
    {
        let zero_duration = Duration::new(0, 0);
        let mut percentiles: Vec<Duration> = Vec::with_capacity(100);
        let mut k: usize = 0;
        while k < 100
            invariant
                k <= 100,
                zero_duration@ == 0,
                percentiles@.len() == k,
                forall|j: int| 0 <= j < k ==> percentiles@[j]@ == 0,
            decreases 100 - k,
        {
            percentiles.push(zero_duration);
            k = k + 1;
        }
        Summary {
            average: zero_duration,
            stddev: zero_duration,
            median: zero_duration,
            max: zero_duration,
            min: zero_duration,
            count: 0,
            content_length: ContentLength::zero(),
            percentiles,
            latency_histogram: Vec::new(),
            status_counts: std::collections::HashMap::new(),
            chart_size: ChartSize::Medium,
        }
    }

    /// The mean latency.
    pub fn average(&self) -> (d: Duration)
        ensures
            d == self.spec_average(),
    {
        self.average
    }

    /// The median latency.
    pub fn median(&self) -> (d: Duration)
        ensures
            d == self.spec_median(),
    {
        self.median
    }

    /// The longest latency.
    pub fn max(&self) -> (d: Duration)
        ensures
            d == self.spec_max(),
    {
        self.max
    }

    /// The shortest latency.
    pub fn min(&self) -> (d: Duration)
        ensures
            d == self.spec_min(),
    {
        self.min
    }

    /// The sample standard deviation of the latencies.
    pub fn stddev(&self) -> (d: Duration)
        ensures
            d == self.spec_stddev(),
    {
        self.stddev
    }

    /// How many facts went into the digest.
    pub fn count(&self) -> (n: u32)
        ensures
            n == self.spec_count(),
    {
        self.count
    }

    /// The byte total over all facts.
    pub fn content_length(&self) -> (c: ContentLength)
        ensures
            c == self.spec_content_length(),
    {
        self.content_length
    }

    /// The 100-entry percentile ladder.
    pub fn percentiles(&self) -> (p: &Vec<Duration>)
        ensures
            p@ == self.spec_percentiles(),
    {
        &self.percentiles
    }

    /// The latency histogram's buckets.
    pub fn latency_histogram(&self) -> (h: &Vec<u32>)
        ensures
            h@ == self.spec_histogram(),
    {
        &self.latency_histogram
    }

    /// The status-code breakdown.
    pub fn status_counts(&self) -> (m: &std::collections::HashMap<u16, u32>)
        ensures
            m@ == self.spec_status_counts(),
    {
        &self.status_counts
    }

    /// The chart size the report will use.
    pub fn chart_size(&self) -> (c: &ChartSize)
        ensures
            *c == self.spec_chart_size(),
    {
        &self.chart_size
    }

    /// The status breakdown as a list sorted by ascending code: every
    /// status seen exactly once, with its count.
    pub fn status_breakdown(&self) -> (list: Vec<(u16, u32)>)
        ensures
            forall|i: int, j: int| 0 <= i < j < list@.len() ==> list@[i].0 < list@[j].0,
            forall|i: int|
                0 <= i < list@.len() ==> self.spec_status_counts().contains_key(
                    (#[trigger] list@[i]).0,
                ) && self.spec_status_counts()[list@[i].0] == list@[i].1,
            forall|st: u16|
                self.spec_status_counts().contains_key(st) ==> exists|i: int|
                    0 <= i < list@.len() && (#[trigger] list@[i]).0 == st,
    {
        broadcast use vstd::std_specs::hash::group_hash_axioms;

        let mut list: Vec<(u16, u32)> = Vec::new();
        let mut code: u32 = 0;
        while code < 65536
            invariant
                code <= 65536,
                forall|i: int, j: int| 0 <= i < j < list@.len() ==> list@[i].0 < list@[j].0,
                forall|i: int|
                    0 <= i < list@.len() ==> (#[trigger] list@[i]).0 < code
                        && self.spec_status_counts().contains_key(list@[i].0)
                        && self.spec_status_counts()[list@[i].0] == list@[i].1,
                forall|st: u16|
                    st < code && self.spec_status_counts().contains_key(st) ==> exists|i: int|
                        0 <= i < list@.len() && (#[trigger] list@[i]).0 == st,
            decreases 65536 - code,
        {
            broadcast use vstd::std_specs::hash::group_hash_axioms;

            let key: u16 = code as u16;
            let ghost prev = list@;
            match self.status_counts.get(&key) {
                Some(count) => {
                    list.push((key, *count));
                },
                None => {
                    proof {
                        assert(!self.spec_status_counts().contains_key(key));
                    }
                },
            }
            proof {
                assert forall|st: u16|
                    st < code + 1 && self.spec_status_counts().contains_key(st) implies exists|
                    i: int,
                |
                    0 <= i < list@.len() && (#[trigger] list@[i]).0 == st by {
                    if st < code {
                        let i = choose|i: int| 0 <= i < prev.len() && (#[trigger] prev[i]).0 == st;
                        assert(list@[i].0 == st);
                    } else {
                        assert(list@[list@.len() - 1].0 == st);
                    }
                }
            }
            code = code + 1;
        }
        list
    }

    /// Renders one of the report's charts at the summary's size: no
    /// text at all when charts are off, else a down-sampled chart of
    /// the configured height.
    pub fn chart(&self, vec: &[u64]) -> (r: String)
        ensures
            r@ == summary_chart_text(self.spec_chart_size(), vec@),
    {
        let height: u32;
        let scale: usize;
        match self.chart_size {
            ChartSize::Off => {
                let r = String::new();
                proof {
                    assert(r@ =~= summary_chart_text(self.spec_chart_size(), vec@));
                }
                return r;
            },
            ChartSize::Small => {
                height = 7;
                scale = 3;
            },
            ChartSize::Medium => {
                height = 10;
                scale = 2;
            },
            ChartSize::Large => {
                height = 20;
                scale = 1;
            },
        }
        let scaled = scale_array(vec, scale);
        Chart::new().height(height).make(&scaled)
    }

    /// Sums every fact's byte count.
    fn total_content_length(facts: &[Fact]) -> (total: ContentLength)
        requires
            sum_bytes(facts@) <= u64::MAX,
        ensures
            total.spec_bytes() == sum_bytes(facts@),
    {
        let mut total = ContentLength::zero();
        let mut i: usize = 0;
        while i < facts.len()
            invariant
                i <= facts@.len(),
                sum_bytes(facts@) <= u64::MAX,
                total.spec_bytes() == sum_bytes(facts@.take(i as int)),
            decreases facts@.len() - i,
        {
            proof {
                assert(facts@.take(i as int + 1).drop_last() =~= facts@.take(i as int));
                lemma_sum_bytes_take_le(facts@, i as int + 1);
            }
            total = total.add(&facts[i].content_length);
            i = i + 1;
        }
        proof {
            assert(facts@.take(facts@.len() as int) =~= facts@);
        }
        total
    }

    /// Folds the facts into a status-code breakdown: one entry per
    /// status seen, carrying how often it was seen.
    fn status_counts_of(facts: &[Fact]) -> (counts: std::collections::HashMap<u16, u32>)
        requires
            facts@.len() <= u32::MAX,
        ensures
            forall|st: u16| counts@.contains_key(st) <==> count_status(facts@, st) > 0,
            forall|st: u16| counts@.contains_key(st) ==> counts@[st] == count_status(facts@, st),
    {
        broadcast use vstd::std_specs::hash::group_hash_axioms;

        let mut counts: std::collections::HashMap<u16, u32> =
            std::collections::HashMap::with_capacity(699);
        let mut i: usize = 0;
        while i < facts.len()
            invariant
                i <= facts@.len(),
                facts@.len() <= u32::MAX,
                forall|st: u16|
                    counts@.contains_key(st) <==> count_status(facts@.take(i as int), st) > 0,
                forall|st: u16|
                    counts@.contains_key(st) ==> counts@[st] == count_status(
                        facts@.take(i as int),
                        st,
                    ),
            decreases facts@.len() - i,
        {
            broadcast use vstd::std_specs::hash::group_hash_axioms;

            let status = facts[i].status;
            proof {
                lemma_count_status_bounds(facts@.take(i as int), status);
                assert(facts@.take(i as int + 1).drop_last() =~= facts@.take(i as int));
            }
            let next = match counts.get(&status) {
                Some(current) => *current + 1,
                None => 1,
            };
            counts.insert(status, next);
            i = i + 1;
        }
        proof {
            assert(facts@.take(facts@.len() as int) =~= facts@);
        }
        counts
    }
}

/// Every `scale`-th element of a sequence, starting with the first.
pub open spec fn scaled_seq<T>(data: Seq<T>, scale: int) -> Seq<T>
    recommends
        scale >= 1,
{
    Seq::new(((data.len() + scale - 1) / scale) as nat, |j: int| data[j * scale])
}

/// Keeps every `scale`-th element of a slice, starting with the first.
pub fn scale_array<T: Copy>(vec: &[T], scale: usize) -> (out: Vec<T>)
    requires
        scale >= 1,
    ensures
        out@ == scaled_seq(vec@, scale as int),
        out@.len() == (vec@.len() + scale - 1) as int / scale as int,
        forall|j: int| 0 <= j < out@.len() ==> out@[j] == vec@[j * scale],
{
    let mut out: Vec<T> = Vec::new();
    let mut i: usize = 0;
    proof {
        assert(out@.len() == 0);
        assert((out@.len() as int) * (scale as int) == 0) by (nonlinear_arith)
            requires
                out@.len() == 0,
        ;
    }
    while i < vec.len()
        invariant
            scale >= 1,
            i <= vec@.len(),
            (out@.len() as int) * (scale as int) - (scale as int) < (i as int),
            (i as int) <= (out@.len() as int) * (scale as int),
            forall|j: int| 0 <= j < out@.len() ==> out@[j] == vec@[j * scale],
        decreases vec@.len() - i,
    {
        let ghost l = out@.len() as int;
        let ghost s_ = scale as int;
        if i % scale == 0 {
            proof {
                vstd::arithmetic::div_mod::lemma_fundamental_div_mod(i as int, s_);
                assert(i == l * s_) by (nonlinear_arith)
                    requires
                        i as int % s_ == 0,
                        l * s_ - s_ < i as int <= l * s_,
                        s_ >= 1,
                        i as int == s_ * (i as int / s_) + (i as int % s_),
                ;
            }
            out.push(vec[i]);
            proof {
                assert((l + 1) * s_ - s_ < (i as int) + 1 <= (l + 1) * s_) by (nonlinear_arith)
                    requires
                        i as int == l * s_,
                        s_ >= 1,
                ;
                assert(forall|j: int|
                    0 <= j < out@.len() ==> out@[j] == vec@[j * (scale as int)]);
            }
        } else {
            proof {
                vstd::arithmetic::div_mod::lemma_mod_multiples_basic(l, s_);
                assert((i as int) < l * s_) by (nonlinear_arith)
                    requires
                        l * s_ - s_ < i as int <= l * s_,
                        i as int % s_ != 0,
                        (l * s_) % s_ == 0,
                        s_ >= 1,
                ;
            }
        }
        i = i + 1;
    }
    proof {
        let l = out@.len() as int;
        let s_ = scale as int;
        let n = vec@.len() as int;
        if n == 0 {
            assert(l == 0) by (nonlinear_arith)
                requires
                    l * s_ - s_ < 0 <= l * s_,
                    s_ >= 1,
                    l >= 0,
            ;
        }
        let r = n + s_ - 1 - l * s_;
        assert(0 <= r < s_) by (nonlinear_arith)
            requires
                (n == 0 && l == 0) || (l * s_ - s_ < n <= l * s_),
                r == n + s_ - 1 - l * s_,
                s_ >= 1,
        ;
        vstd::arithmetic::div_mod::lemma_fundamental_div_mod_converse(n + s_ - 1, s_, l, r);
        assert(out@ =~= scaled_seq(vec@, s_));
    }
    out
}

/// The percentile ladder always has exactly 100 entries, and entry `k`
/// reads the sorted latencies at the clamped nearest-rank index, which
/// always lands inside the data.
pub proof fn lemma_ladder_nearest_rank(s: Summary, sd: Seq<Duration>, k: int)
    requires
        duration_figures_match(s, sd),
        sd.len() >= 1,
        0 <= k < 100,
    ensures
        s.spec_percentiles().len() == 100,
        0 <= pct_index(k, sd.len() as int) < sd.len(),
        s.spec_percentiles()[k] == sd[pct_index(k, sd.len() as int)],
{
    vstd::arithmetic::div_mod::lemma_div_pos_is_pos(k * sd.len(), 100);
}

} // verus!
