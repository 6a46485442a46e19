//! The work plan: how many threads run and how many requests they make
//! in total, together with the even split of that budget across threads.

use vstd::prelude::*;

verus! {

/// How thread `i` fares when `requests` requests are split over
/// `threads` threads: the first `requests % threads` threads take the
/// ceiling of the even split, the rest take the floor.
pub open spec fn share_of(threads: int, requests: int, i: int) -> int {
    if i < requests % threads {
        requests / threads + 1
    } else {
        requests / threads
    }
}

/// The whole split as a sequence, one entry per thread. No thread or no
/// work means no shares at all.
pub open spec fn distribution(threads: int, requests: int) -> Seq<int> {
    if threads < 1 || requests < 1 {
        Seq::empty()
    } else {
        Seq::new(threads as nat, |i: int| share_of(threads, requests, i))
    }
}

/// The sum of a sequence of integers.
pub open spec fn seq_sum(s: Seq<int>) -> int
    decreases s.len(),
{
    if s.len() == 0 {
        0
    } else {
        seq_sum(s.drop_last()) + s.last()
    }
}

/// The total work to perform and the number of threads to spread it over.
#[derive(Clone, Copy)]
pub struct Plan {
    threads: usize,
    requests: usize,
}

impl Plan {
    /// The number of worker threads the plan asks for.
    pub closed spec fn spec_threads(&self) -> usize {
        self.threads
    }

    /// The total number of requests the plan asks for.
    pub closed spec fn spec_requests(&self) -> usize {
        self.requests
    }

    pub fn new(threads: usize, requests: usize) -> (p: Self)
        ensures
            p.spec_threads() == threads,
            p.spec_requests() == requests,
    {
        Self { threads, requests }
    }

    pub fn threads(&self) -> (t: usize)
        ensures
            t == self.spec_threads(),
    {
        self.threads
    }

    pub fn requests(&self) -> (r: usize)
        ensures
            r == self.spec_requests(),
    {
        self.requests
    }

    /// Splits the planned requests as evenly as possible over the planned
    /// threads; with no threads or no requests there is nothing to hand out.
    pub fn distribute(&self) -> (shares: Vec<usize>)
        ensures
            shares@.map_values(|w: usize| w as int) == distribution(
                self.spec_threads() as int,
                self.spec_requests() as int,
            ),
    {
        if self.requests < 1 || self.threads < 1 {
            let shares: Vec<usize> = Vec::new();
            assert(shares@.map_values(|w: usize| w as int) =~= distribution(
                self.threads as int,
                self.requests as int,
            ));
            return shares;
        }

        // Every thread should get even work; the remainder is handed out
        // one request at a time to the first threads.
        let base_work: usize = self.requests / self.threads;
        let remaining_work: usize = self.requests % self.threads;

        let mut shares: Vec<usize> = Vec::new();
        let mut thread: usize = 0;
        while thread < self.threads
            invariant
                thread <= self.threads,
                1 <= self.threads,
                1 <= self.requests,
                base_work == self.requests as int / self.threads as int,
                remaining_work == self.requests as int % self.threads as int,
                shares@.len() == thread,
                forall|i: int|
                    0 <= i < thread ==> shares@[i] as int == share_of(
                        self.threads as int,
                        self.requests as int,
                        i,
                    ),
            decreases self.threads - thread,
        {
            if thread < remaining_work {
                proof {
                    // A remainder needs at least two threads, so the raised
                    // share still fits.
                    assert(self.threads >= 2) by {
                        if self.threads == 1 {
                            assert(self.requests as int % 1 == 0);
                        }
                    };
                    assert(base_work <= self.requests as int / 2) by {
                        vstd::arithmetic::div_mod::lemma_div_is_ordered_by_denominator(
                            self.requests as int,
                            2,
                            self.threads as int,
                        );
                    };
                }
                shares.push(base_work + 1);
            } else {
                shares.push(base_work);
            }
            thread = thread + 1;
        }
        assert(shares@.map_values(|w: usize| w as int) =~= distribution(
            self.threads as int,
            self.requests as int,
        ));
        shares
    }
}

/// Summing the first `k` shares of a split gives `k * floor + min(k, rem)`:
/// the raised shares contribute one extra each until the remainder is spent.
proof fn lemma_distribution_prefix_sum(threads: int, requests: int, k: int)
    requires
        threads >= 1,
        requests >= 1,
        0 <= k <= threads,
    ensures
        seq_sum(distribution(threads, requests).take(k)) == k * (requests / threads) + (
        if k < requests % threads {
            k
        } else {
            requests % threads
        }),
    decreases k,
{
    let d = distribution(threads, requests);
    if k == 0 {
        assert(d.take(0) =~= Seq::empty());
    } else {
        lemma_distribution_prefix_sum(threads, requests, k - 1);
        assert(d.take(k).drop_last() =~= d.take(k - 1));
        assert(d.take(k).last() == share_of(threads, requests, k - 1));
        assert(k * (requests / threads) == (k - 1) * (requests / threads) + requests / threads)
            by (nonlinear_arith);
    }
}

/// The split loses nothing and invents nothing: the per-thread shares of
/// `distribution(threads, requests)` always add back up to `requests`,
/// for every thread count of at least one and every request count.
pub proof fn lemma_distribution_sum(threads: int, requests: int)
    requires
        threads >= 1,
        requests >= 0,
    ensures
        seq_sum(distribution(threads, requests)) == requests,
{
    if requests < 1 {
        assert(distribution(threads, requests) =~= Seq::<int>::empty());
    } else {
        let d = distribution(threads, requests);
        lemma_distribution_prefix_sum(threads, requests, threads);
        assert(d.take(threads as int) =~= d);
        assert(requests % threads < threads) by {
            vstd::arithmetic::div_mod::lemma_mod_bound(requests, threads);
        };
        assert(threads * (requests / threads) + requests % threads == requests) by {
            vstd::arithmetic::div_mod::lemma_fundamental_div_mod(requests, threads);
        };
    }
}

/// The split is maximally even: no two threads' shares ever differ by
/// more than one request.
pub proof fn lemma_distribution_even(threads: int, requests: int, i: int, j: int)
    requires
        threads >= 1,
        requests >= 0,
        0 <= i < distribution(threads, requests).len(),
        0 <= j < distribution(threads, requests).len(),
    ensures
        distribution(threads, requests)[i] - distribution(threads, requests)[j] <= 1,
{
}

} // verus!
