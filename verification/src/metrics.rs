use vstd::prelude::*;

verus! {

/// One traffic counter: completed requests attributed to a (service,
/// backend address) pair.
pub struct CounterEntry {
    pub service: String,
    pub backend: String,
    pub count: u64,
}

impl Clone for CounterEntry {
    fn clone(&self) -> (r: Self)
        ensures
            r == *self,
    {
        CounterEntry { service: self.service.clone(), backend: self.backend.clone(), count: self.count }
    }
}

/// No two entries carry the same (service, backend) key.
pub open spec fn keys_unique(entries: Seq<CounterEntry>) -> bool {
    forall|i: int, j: int|
        0 <= i < j < entries.len() ==> !((#[trigger] entries[i]).service@ == (
        #[trigger] entries[j]).service@ && entries[i].backend@ == entries[j].backend@)
}

/// The count recorded for a key; zero when the key has no entry yet.
pub open spec fn spec_count_in(entries: Seq<CounterEntry>, service: Seq<char>, backend: Seq<char>) -> u64
    decreases entries.len(),
{
    if entries.len() == 0 {
        0
    } else if entries.last().service@ == service && entries.last().backend@ == backend {
        entries.last().count
    } else {
        spec_count_in(entries.drop_last(), service, backend)
    }
}

/// With unique keys, the recorded count for entry `i`'s key is that
/// entry's count.
proof fn lemma_count_at(entries: Seq<CounterEntry>, i: int)
    requires
        keys_unique(entries),
        0 <= i < entries.len(),
    ensures
        spec_count_in(entries, entries[i].service@, entries[i].backend@) == entries[i].count,
    decreases entries.len(),
{
    if i < entries.len() - 1 {
        lemma_count_at(entries.drop_last(), i);
    }
}

/// A key no entry carries has count zero.
proof fn lemma_count_absent(entries: Seq<CounterEntry>, service: Seq<char>, backend: Seq<char>)
    requires
        forall|i: int|
            0 <= i < entries.len() ==> !((#[trigger] entries[i]).service@ == service
                && entries[i].backend@ == backend),
    ensures
        spec_count_in(entries, service, backend) == 0,
    decreases entries.len(),
{
    if entries.len() > 0 {
        lemma_count_absent(entries.drop_last(), service, backend);
    }
}

/// Replacing entry `i` by one with the same key changes the recorded
/// count for that key to the new entry's count and no other.
proof fn lemma_count_update(
    entries: Seq<CounterEntry>,
    i: int,
    e: CounterEntry,
    service: Seq<char>,
    backend: Seq<char>,
)
    requires
        keys_unique(entries),
        0 <= i < entries.len(),
        e.service@ == entries[i].service@,
        e.backend@ == entries[i].backend@,
    ensures
        spec_count_in(entries.update(i, e), service, backend) == if e.service@ == service
            && e.backend@ == backend {
            e.count
        } else {
            spec_count_in(entries, service, backend)
        },
    decreases entries.len(),
{
    let u = entries.update(i, e);
    if i == entries.len() - 1 {
        assert(u.drop_last() =~= entries.drop_last());
    } else {
        assert(u.drop_last() =~= entries.drop_last().update(i, e));
        assert(u.last() == entries.last());
        lemma_count_update(entries.drop_last(), i, e, service, backend);
    }
}

/// Thread-owned counter store for completed requests, keyed by
/// (service name, backend address). Counters only grow: there is no
/// decrement and no removal, and the key population grows to at most
/// (number of services) times (number of backends).
pub struct MetricsSink {
    entries: Vec<CounterEntry>,
}

impl View for MetricsSink {
    type V = Seq<CounterEntry>;

    closed spec fn view(&self) -> Seq<CounterEntry> {
        self.entries@
    }
}

impl MetricsSink {
    /// Invariant: one entry per key.
    pub open spec fn wf(&self) -> bool {
        keys_unique(self@)
    }

    /// The current count for a key; zero until first incremented.
    pub open spec fn count_of(&self, service: Seq<char>, backend: Seq<char>) -> u64 {
        spec_count_in(self@, service, backend)
    }

    /// An empty sink: every counter reads zero.
    pub fn new() -> (r: MetricsSink)
        ensures
            r.wf(),
            r@ =~= Seq::<CounterEntry>::empty(),
            forall|s: Seq<char>, b: Seq<char>| r.count_of(s, b) == 0,
    {
        MetricsSink { entries: Vec::new() }
    }

    /// Monotonic increment: the counter for (service, backend) grows
    /// by exactly one — so it strictly increases — and every other
    /// counter is untouched. A key seen for the first time starts its
    /// entry at one.
    pub fn increment(&mut self, service: &String, backend: &String)
        requires
            old(self).wf(),
            old(self).count_of(service@, backend@) < u64::MAX,
        ensures
            final(self).wf(),
            final(self).count_of(service@, backend@) == old(self).count_of(service@, backend@)
                + 1,
            forall|s: Seq<char>, b: Seq<char>|
                !(s == service@ && b == backend@) ==> final(self).count_of(s, b) == old(
                    self,
                ).count_of(s, b),
    {
        let n = self.entries.len();
        let mut i: usize = 0;
        while i < n
            invariant
                self@ == old(self)@,
                old(self).wf(),
                old(self).count_of(service@, backend@) < u64::MAX,
                n == self@.len(),
                i <= n,
                forall|p: int|
                    0 <= p < i ==> !((#[trigger] self@[p]).service@ == service@
                        && self@[p].backend@ == backend@),
            decreases n - i,
        {
            if self.entries[i].service == *service && self.entries[i].backend == *backend {
                let c = self.entries[i].count;
                proof {
                    lemma_count_at(self@, i as int);
                }
                let e = CounterEntry {
                    service: service.clone(),
                    backend: backend.clone(),
                    count: c + 1,
                };
                proof {
                    assert forall|s: Seq<char>, b: Seq<char>| true implies spec_count_in(
                        self@.update(i as int, e),
                        s,
                        b,
                    ) == if s == service@ && b == backend@ {
                        (c + 1) as u64
                    } else {
                        spec_count_in(self@, s, b)
                    } by {
                        lemma_count_update(self@, i as int, e, s, b);
                    }
                }
                self.entries[i] = e;
                return ;
            }
            i += 1;
        }
        proof {
            lemma_count_absent(self@, service@, backend@);
        }
        let e = CounterEntry { service: service.clone(), backend: backend.clone(), count: 1 };
        self.entries.push(e);
        proof {
            assert(self@.drop_last() =~= old(self)@);
            assert forall|s: Seq<char>, b: Seq<char>| !(s == service@ && b == backend@) implies
            spec_count_in(self@, s, b) == spec_count_in(old(self)@, s, b) by {
                assert(self@.drop_last() =~= old(self)@);
            }
        }
    }

    /// The current count for a key, for external exposition.
    pub fn get(&self, service: &String, backend: &String) -> (c: u64)
        requires
            self.wf(),
        ensures
            c == self.count_of(service@, backend@),
    {
        let n = self.entries.len();
        let mut i: usize = 0;
        while i < n
            invariant
                n == self@.len(),
                i <= n,
                self.wf(),
                forall|p: int|
                    0 <= p < i ==> !((#[trigger] self@[p]).service@ == service@
                        && self@[p].backend@ == backend@),
            decreases n - i,
        {
            if self.entries[i].service == *service && self.entries[i].backend == *backend {
                proof {
                    lemma_count_at(self@, i as int);
                }
                return self.entries[i].count;
            }
            i += 1;
        }
        proof {
            lemma_count_absent(self@, service@, backend@);
        }
        0
    }

    /// All counters, cloned for external exposition.
    pub fn snapshot(&self) -> (r: Vec<CounterEntry>)
        ensures
            r@ == self@,
    {
        let n = self.entries.len();
        let mut r: Vec<CounterEntry> = Vec::new();
        let mut i: usize = 0;
        while i < n
            invariant
                n == self@.len(),
                i <= n,
                r@ =~= self@.take(i as int),
            decreases n - i,
        {
            r.push(self.entries[i].clone());
            i += 1;
        }
        proof {
            assert(self@.take(n as int) =~= self@);
        }
        r
    }
}

} // verus!
