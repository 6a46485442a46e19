//! The richer work plan behind a builder: thread count, request
//! count, the URL list and the method, with an even split that hands
//! each thread its own plan share.

use crate::plan::{distribution, share_of};
use vstd::prelude::*;

verus! {

/// The methods that are supported by the current implementations.
/// These are body-less methods, so no request content is ever loaded.
#[derive(Debug, Clone, Copy, Eq, PartialEq)]
pub enum Method {
    Get,
    Head,
}

/// A full description of a run: how many threads, how many requests,
/// which URLs and which method.
#[derive(Debug, Clone, Eq, PartialEq)]
pub struct Plan {
    threads: usize,
    requests: usize,
    urls: Vec<String>,
    method: Method,
}

/// A plan builder.
pub struct Builder {
    plan: Plan,
}

/// Clones a URL list; the copies read exactly like the originals.
fn clone_urls(urls: &Vec<String>) -> (out: Vec<String>)
    ensures
        out@.len() == urls@.len(),
        forall|i: int| 0 <= i < urls@.len() ==> out@[i]@ == urls@[i]@,
{
    let mut out: Vec<String> = Vec::with_capacity(urls.len());
    let mut i: usize = 0;
    while i < urls.len()
        invariant
            i <= urls@.len(),
            out@.len() == i,
            forall|j: int| 0 <= j < i ==> out@[j]@ == urls@[j]@,
        decreases urls@.len() - i,
    {
        out.push(urls[i].clone());
        i = i + 1;
    }
    out
}

impl Builder {
    pub closed spec fn spec_plan(&self) -> Plan {
        self.plan
    }

    /// Creates a new builder, starting from the default plan.
    pub fn new() -> (b: Self)
        ensures
            b.spec_plan().spec_threads() == 1,
            b.spec_plan().spec_requests() == 1,
            b.spec_plan().spec_method() == Method::Get,
            b.spec_plan().spec_urls().len() == 0,
    {
        Self { plan: Plan::default() }
    }

    /// Adds a URL to the plan.
    pub fn with_url(&mut self, url: &str)
        ensures
            final(self).spec_plan().spec_threads() == old(self).spec_plan().spec_threads(),
            final(self).spec_plan().spec_requests() == old(self).spec_plan().spec_requests(),
            final(self).spec_plan().spec_method() == old(self).spec_plan().spec_method(),
            final(self).spec_plan().spec_urls().len() == old(self).spec_plan().spec_urls().len()
                + 1,
            forall|i: int|
                0 <= i < old(self).spec_plan().spec_urls().len()
                    ==> final(self).spec_plan().spec_urls()[i] == old(
                    self,
                ).spec_plan().spec_urls()[i],
            final(self).spec_plan().spec_urls().last()@ == url@,
    {
        self.plan.urls.push(url.to_owned());
    }

    /// Changes the method the built plan should have.
    pub fn with_method(&mut self, method: Method)
        ensures
            final(self).spec_plan().spec_threads() == old(self).spec_plan().spec_threads(),
            final(self).spec_plan().spec_requests() == old(self).spec_plan().spec_requests(),
            final(self).spec_plan().spec_method() == method,
            final(self).spec_plan().spec_urls() == old(self).spec_plan().spec_urls(),
    {
        self.plan.method = method;
    }

    /// Changes the number of requests that the plan will issue.
    pub fn with_requests(&mut self, requests: usize)
        ensures
            final(self).spec_plan().spec_threads() == old(self).spec_plan().spec_threads(),
            final(self).spec_plan().spec_requests() == requests,
            final(self).spec_plan().spec_method() == old(self).spec_plan().spec_method(),
            final(self).spec_plan().spec_urls() == old(self).spec_plan().spec_urls(),
    {
        self.plan.requests = requests;
    }

    /// Changes how many threads the plan will use.
    pub fn with_threads(&mut self, threads: usize)
        ensures
            final(self).spec_plan().spec_threads() == threads,
            final(self).spec_plan().spec_requests() == old(self).spec_plan().spec_requests(),
            final(self).spec_plan().spec_method() == old(self).spec_plan().spec_method(),
            final(self).spec_plan().spec_urls() == old(self).spec_plan().spec_urls(),
    {
        self.plan.threads = threads;
    }

    /// Builds and returns a new plan.
    pub fn build(&self) -> (p: Plan)
        ensures
            p.spec_threads() == self.spec_plan().spec_threads(),
            p.spec_requests() == self.spec_plan().spec_requests(),
            p.spec_method() == self.spec_plan().spec_method(),
            p.spec_urls().len() == self.spec_plan().spec_urls().len(),
            forall|i: int|
                0 <= i < p.spec_urls().len() ==> p.spec_urls()[i]@
                    == self.spec_plan().spec_urls()[i]@,
    {
        Plan {
            threads: self.plan.threads,
            requests: self.plan.requests,
            urls: clone_urls(&self.plan.urls),
            method: self.plan.method,
        }
    }
}

impl Plan {
    pub closed spec fn spec_threads(&self) -> usize {
        self.threads
    }

    pub closed spec fn spec_requests(&self) -> usize {
        self.requests
    }

    pub closed spec fn spec_urls(&self) -> Seq<String> {
        self.urls@
    }

    pub closed spec fn spec_method(&self) -> Method {
        self.method
    }

    /// One thread, one request, no URLs, `GET`.
    fn default() -> (p: Plan)
        ensures
            p.spec_threads() == 1,
            p.spec_requests() == 1,
            p.spec_method() == Method::Get,
            p.spec_urls().len() == 0,
    {
        Plan { threads: 1, requests: 1, method: Method::Get, urls: Vec::new() }
    }

    /// Creates a new builder for a plan.
    pub fn builder() -> (b: Builder)
        ensures
            b.spec_plan().spec_threads() == 1,
            b.spec_plan().spec_requests() == 1,
            b.spec_plan().spec_method() == Method::Get,
            b.spec_plan().spec_urls().len() == 0,
    {
        Builder::new()
    }

    pub fn threads(&self) -> (t: usize)
        ensures
            t == self.spec_threads(),
    {
        self.threads
    }

    pub fn requests(&self) -> (r: usize)
        ensures
            r == self.spec_requests(),
    {
        self.requests
    }

    pub fn urls(&self) -> (u: &[String])
        ensures
            u@ == self.spec_urls(),
    {
        self.urls.as_slice()
    }

    pub fn method(&self) -> (m: Method)
        ensures
            m == self.spec_method(),
    {
        self.method
    }

    /// Splits the plan as evenly as possible into one share per
    /// thread: each share keeps the URLs and the method and takes its
    /// slice of the request budget. No threads or no requests means no
    /// shares.
    pub fn distribute(&self) -> (shares: Vec<Plan>)
        ensures
            shares@.map_values(|p: Plan| p.spec_requests() as int) == distribution(
                self.spec_threads() as int,
                self.spec_requests() as int,
            ),
            forall|i: int|
                0 <= i < shares@.len() ==> {
                    &&& (#[trigger] shares@[i]).spec_threads() == self.spec_threads()
                    &&& shares@[i].spec_method() == self.spec_method()
                    &&& shares@[i].spec_urls().len() == self.spec_urls().len()
                    &&& (forall|j: int|
                        0 <= j < self.spec_urls().len() ==> shares@[i].spec_urls()[j]@
                            == self.spec_urls()[j]@)
                },
    {
        let mut shares: Vec<Plan> = Vec::new();
        if self.requests < 1 || self.threads < 1 {
            proof {
                assert(shares@.map_values(|p: Plan| p.spec_requests() as int) =~= distribution(
                    self.spec_threads() as int,
                    self.spec_requests() as int,
                ));
            }
            return shares;
        }

        // Every thread should get even work; the remainder is handed
        // out one request at a time to the first threads.
        let base_work: usize = self.requests / self.threads;
        let remaining_work: usize = self.requests % self.threads;

        let mut thread: usize = 0;
        while thread < self.threads
            invariant
                thread <= self.threads,
                1 <= self.threads,
                1 <= self.requests,
                base_work == self.spec_requests() as int / self.spec_threads() as int,
                remaining_work == self.spec_requests() as int % self.spec_threads() as int,
                shares@.len() == thread,
                forall|i: int|
                    0 <= i < thread ==> (#[trigger] shares@[i]).spec_requests() as int == share_of(
                        self.spec_threads() as int,
                        self.spec_requests() as int,
                        i,
                    ),
                forall|i: int|
                    0 <= i < thread ==> {
                        &&& (#[trigger] shares@[i]).spec_threads() == self.spec_threads()
                        &&& shares@[i].spec_method() == self.spec_method()
                        &&& shares@[i].spec_urls().len() == self.spec_urls().len()
                        &&& (forall|j: int|
                            0 <= j < self.spec_urls().len() ==> shares@[i].spec_urls()[j]@
                                == self.spec_urls()[j]@)
                    },
            decreases self.threads - thread,
        {
            let requests: usize = if thread < remaining_work {
                proof {
                    assert(self.threads >= 2) by {
                        if self.threads == 1 {
                            assert(self.spec_requests() as int % 1 == 0);
                        }
                    };
                    assert(base_work <= self.spec_requests() as int / 2) by {
                        vstd::arithmetic::div_mod::lemma_div_is_ordered_by_denominator(
                            self.spec_requests() as int,
                            2,
                            self.spec_threads() as int,
                        );
                    };
                }
                base_work + 1
            } else {
                base_work
            };
            shares.push(
                Plan {
                    requests,
                    threads: self.threads,
                    urls: clone_urls(&self.urls),
                    method: self.method,
                },
            );
            thread = thread + 1;
        }
        proof {
            assert(shares@.map_values(|p: Plan| p.spec_requests() as int) =~= distribution(
                self.spec_threads() as int,
                self.spec_requests() as int,
            ));
        }
        shares
    }
}

} // verus!
