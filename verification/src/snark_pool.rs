//! The pool of snark jobs: jobs ordered by arrival, indexed by job id,
//! with commitments and completed work attached, and commitment timeouts
//! measured against a configured deadline.

use vstd::prelude::*;

use crate::{PeerId, Timestamp};

verus! {

/// Identity of one snark job, reduced to the numeric identifier the pool
/// keys by.
pub type SnarkJobId = u64;

/// One or two pieces of work bundled into a single job.
#[derive(Clone, Copy, Debug, PartialEq, Eq, Structural)]
pub enum OneOrTwo<T> {
    One(T),
    Two(T, T),
}

/// A snarker's claim on a job.
#[derive(Clone, Copy, Debug, PartialEq, Eq, Structural)]
pub struct SnarkJobCommitment {
    pub fee: u64,
    pub snarker: PeerId,
    pub timestamp: Timestamp,
}

impl SnarkJobCommitment {
    pub fn timestamp(&self) -> (r: Timestamp)
        ensures
            r == self.timestamp,
    {
        self.timestamp
    }
}

/// A commitment as the pool records it.
#[derive(Clone, Copy, Debug, PartialEq, Eq)]
pub struct JobCommitment {
    pub commitment: SnarkJobCommitment,
    pub received_t: Timestamp,
    pub sender: PeerId,
}

/// Completed work as the pool records it.
#[derive(Clone, Copy, Debug, PartialEq, Eq)]
pub struct SnarkWork {
    pub work: u64,
    pub received_t: Timestamp,
    pub sender: PeerId,
}

/// One pooled job.
#[derive(Clone, Copy, Debug, PartialEq, Eq)]
pub struct JobState {
    pub time: Timestamp,
    pub id: SnarkJobId,
    pub job: OneOrTwo<u64>,
    pub commitment: Option<JobCommitment>,
    pub snark: Option<SnarkWork>,
}

impl JobState {
    /// Nobody committed to the job and nobody finished it.
    pub open spec fn spec_is_available(&self) -> bool {
        self.commitment is None && self.snark is None
    }

    pub fn is_available(&self) -> (r: bool)
        ensures
            r == self.spec_is_available(),
    {
        self.commitment.is_none() && self.snark.is_none()
    }
}

/// Pool configuration.
#[derive(Clone, Copy, Debug, PartialEq, Eq, Structural)]
pub struct SnarkPoolConfig {
    /// How long a commitment may stand before it is considered timed out.
    pub commitment_timeout: u64,
}

/// The key an index list records under a job id: the last entry wins,
/// though a well-formed index has no duplicates.
pub open spec fn spec_index_of(s: Seq<(SnarkJobId, u64)>, id: SnarkJobId) -> Option<u64>
    decreases s.len(),
{
    if s.len() == 0 {
        None
    } else if s.last().0 == id {
        Some(s.last().1)
    } else {
        spec_index_of(s.drop_last(), id)
    }
}

/// The job a list records under a key: the last entry wins, though a
/// well-formed list has no duplicates.
pub open spec fn spec_list_of(s: Seq<(u64, JobState)>, k: u64) -> Option<JobState>
    decreases s.len(),
{
    if s.len() == 0 {
        None
    } else if s.last().0 == k {
        Some(s.last().1)
    } else {
        spec_list_of(s.drop_last(), k)
    }
}

/// The pool: jobs in arrival order under increasing keys, with a
/// job-id index over them.
#[derive(Clone, Debug, PartialEq)]
pub struct SnarkPoolState {
    pub config: SnarkPoolConfig,
    pub counter: u64,
    pub list: Vec<(u64, JobState)>,
    pub by_ledger_hash_index: Vec<(SnarkJobId, u64)>,
    pub last_check_timeouts: Timestamp,
}

impl SnarkPoolState {
    /// Keys strictly increase (so the last key is the largest), every key
    /// is below the counter, the index lists each pooled job id exactly
    /// once, and index and list agree in both directions.
    pub open spec fn wf(&self) -> bool {
        &&& (forall|i: int, j: int|
            0 <= i < j < self.list@.len() ==> (#[trigger] self.list@[i]).0 < (
            #[trigger] self.list@[j]).0)
        &&& (forall|i: int| 0 <= i < self.list@.len() ==> (#[trigger] self.list@[i]).0
            < self.counter)
        &&& (forall|i: int, j: int|
            0 <= i < j < self.by_ledger_hash_index@.len() ==> (
            #[trigger] self.by_ledger_hash_index@[i]).0 != (
            #[trigger] self.by_ledger_hash_index@[j]).0)
        &&& (forall|i: int|
            0 <= i < self.by_ledger_hash_index@.len() ==> (spec_list_of(
                self.list@,
                (#[trigger] self.by_ledger_hash_index@[i]).1,
            ) matches Some(job) && job.id == self.by_ledger_hash_index@[i].0))
        &&& (forall|i: int|
            0 <= i < self.list@.len() ==> spec_index_of(
                self.by_ledger_hash_index@,
                (#[trigger] self.list@[i]).1.id,
            ) == Some(self.list@[i].0))
    }

    /// The job pooled under an id, reached through the index.
    pub open spec fn spec_get(&self, id: SnarkJobId) -> Option<JobState> {
        match spec_index_of(self.by_ledger_hash_index@, id) {
            Some(k) => spec_list_of(self.list@, k),
            None => None,
        }
    }

    /// An empty pool.
    pub fn new(config: SnarkPoolConfig) -> (r: SnarkPoolState)
        ensures
            r.wf(),
            r.list@.len() == 0,
            r.by_ledger_hash_index@.len() == 0,
            r.last_check_timeouts == 0,
            forall|id: SnarkJobId| r.spec_get(id) is None,
    {
        SnarkPoolState {
            config,
            counter: 0,
            list: Vec::new(),
            by_ledger_hash_index: Vec::new(),
            last_check_timeouts: 0,
        }
    }

    /// The largest key in use, or 0 for an empty pool.
    pub fn last_index(&self) -> (r: u64)
        ensures
            self.list@.len() == 0 ==> r == 0,
            self.list@.len() > 0 ==> r == self.list@.last().0,
    {
        let n = self.list.len();
        if n == 0 {
            0
        } else {
            self.list[n - 1].0
        }
    }

    /// Whether a job id is pooled.
    pub fn contains(&self, id: SnarkJobId) -> (r: bool)
        requires
            self.wf(),
        ensures
            r == (self.spec_get(id) is Some),
    {
        self.get(id).is_some()
    }

    /// The job pooled under an id.
    pub fn get(&self, id: SnarkJobId) -> (r: Option<JobState>)
        requires
            self.wf(),
        ensures
            r == self.spec_get(id),
    {
        let n = self.by_ledger_hash_index.len();
        let mut i: usize = 0;
        while i < n
            invariant
                i <= n,
                n == self.by_ledger_hash_index@.len(),
                self.wf(),
                forall|j: int|
                    0 <= j < i ==> (#[trigger] self.by_ledger_hash_index@[j]).0 != id,
            decreases n - i,
        {
            if self.by_ledger_hash_index[i].0 == id {
                proof {
                    lemma_index_of_unique(self.by_ledger_hash_index@, i as int);
                }
                let k = self.by_ledger_hash_index[i].1;
                return self.find_by_key(k);
            }
            i = i + 1;
        }
        proof {
            lemma_index_of_absent(self.by_ledger_hash_index@, id);
        }
        None
    }

    /// The job under a list key.
    fn find_by_key(&self, k: u64) -> (r: Option<JobState>)
        requires
            forall|i: int, j: int|
                0 <= i < j < self.list@.len() ==> (#[trigger] self.list@[i]).0 < (
                #[trigger] self.list@[j]).0,
        ensures
            r == spec_list_of(self.list@, k),
    {
        let n = self.list.len();
        let mut i: usize = 0;
        while i < n
            invariant
                i <= n,
                n == self.list@.len(),
                forall|i2: int, j2: int|
                    0 <= i2 < j2 < self.list@.len() ==> (#[trigger] self.list@[i2]).0 < (
                    #[trigger] self.list@[j2]).0,
                forall|j: int| 0 <= j < i ==> (#[trigger] self.list@[j]).0 != k,
            decreases n - i,
        {
            if self.list[i].0 == k {
                proof {
                    lemma_list_of_unique(self.list@, i as int);
                }
                return Some(self.list[i].1);
            }
            i = i + 1;
        }
        proof {
            lemma_list_of_absent(self.list@, k);
        }
        None
    }

    /// Pools a job at the back of the list, under the counter's key, and
    /// advances the counter; a fresh job id is required — callers check
    /// `contains` first.
    pub fn insert(&mut self, job: JobState)
        requires
            old(self).wf(),
            old(self).counter < u64::MAX,
            old(self).spec_get(job.id) is None,
        ensures
            final(self).wf(),
            forall|id: SnarkJobId| final(self).spec_get(id) == (if id == job.id {
                Some(job)
            } else {
                old(self).spec_get(id)
            }),
            final(self).list@ == old(self).list@.push((old(self).counter, job)),
            final(self).counter == old(self).counter + 1,
            final(self).config == old(self).config,
            final(self).last_check_timeouts == old(self).last_check_timeouts,
    {
        let ghost l0 = self.list@;
        let ghost x0 = self.by_ledger_hash_index@;
        let k = self.counter;
        self.list.push((k, job));
        self.by_ledger_hash_index.push((job.id, k));
        self.counter = k + 1;
        proof {
            assert(self.list@.drop_last() =~= l0);
            assert(self.by_ledger_hash_index@.drop_last() =~= x0);
            assert(spec_index_of(x0, job.id) is None) by {
                match spec_index_of(x0, job.id) {
                    Some(k2) => {
                        lemma_index_of_entry(x0, job.id);
                        let i = choose|i: int|
                            0 <= i < x0.len() && #[trigger] x0[i] == (job.id, k2);
                        assert(spec_list_of(l0, x0[i].1) matches Some(j2) && j2.id == x0[i].0);
                        assert(old(self).spec_get(job.id) is Some);
                    },
                    None => {},
                }
            }
            lemma_index_of_absent_means(x0, job.id);
            assert forall|i: int|
                0 <= i < self.by_ledger_hash_index@.len() implies (spec_list_of(
                self.list@,
                (#[trigger] self.by_ledger_hash_index@[i]).1,
            ) matches Some(j2) && j2.id == self.by_ledger_hash_index@[i].0) by {
                if i < x0.len() {
                    assert(spec_list_of(l0, x0[i].1) matches Some(j2) && j2.id == x0[i].0);
                    lemma_list_of_entry(l0, x0[i].1);
                    let j = choose|j: int|
                        0 <= j < l0.len() && (#[trigger] l0[j]).0 == x0[i].1;
                    assert(l0[j].0 < k);
                    lemma_list_of_push_other(l0, k, job, x0[i].1);
                } else {
                    assert(self.by_ledger_hash_index@[i] == (job.id, k));
                    assert(self.list@.last() == (k, job));
                }
            }
            assert forall|i: int|
                0 <= i < self.list@.len() implies spec_index_of(
                self.by_ledger_hash_index@,
                (#[trigger] self.list@[i]).1.id,
            ) == Some(self.list@[i].0) by {
                if i < l0.len() {
                    assert(l0[i].1.id != job.id);
                    assert(spec_index_of(x0, l0[i].1.id) == Some(l0[i].0));
                }
            }
            assert forall|id: SnarkJobId| final(self).spec_get(id) == (if id == job.id {
                Some(job)
            } else {
                old(self).spec_get(id)
            }) by {
                if id != job.id {
                    match spec_index_of(x0, id) {
                        Some(k2) => {
                            lemma_index_of_entry(x0, id);
                            let i = choose|i: int|
                                0 <= i < x0.len() && #[trigger] x0[i] == (id, k2);
                            assert(spec_list_of(l0, x0[i].1) is Some);
                            lemma_list_of_entry(l0, k2);
                            let j = choose|j: int|
                                0 <= j < l0.len() && (#[trigger] l0[j]).0 == k2;
                            assert(k2 < k);
                            lemma_list_of_push_other(l0, k, job, k2);
                        },
                        None => {},
                    }
                } else {
                    assert(spec_index_of(self.by_ledger_hash_index@, job.id) == Some(k));
                    assert(spec_list_of(self.list@, k) == Some(job)) by {
                        assert(self.list@.last() == (k, job));
                    }
                }
            }
        }
    }

    /// Withdraws the job pooled under an id, handing it back.
    pub fn remove(&mut self, id: SnarkJobId) -> (r: Option<JobState>)
        requires
            old(self).wf(),
        ensures
            final(self).wf(),
            r == old(self).spec_get(id),
            r is Some == old(self).spec_get(id) is Some,
            forall|id2: SnarkJobId| final(self).spec_get(id2) == (if id2 == id {
                None::<JobState>
            } else {
                old(self).spec_get(id2)
            }),
            final(self).counter == old(self).counter,
            final(self).config == old(self).config,
            final(self).last_check_timeouts == old(self).last_check_timeouts,
    {
        let n = self.by_ledger_hash_index.len();
        let mut i: usize = 0;
        while i < n
            invariant
                i <= n,
                n == self.by_ledger_hash_index@.len(),
                self == old(self),
                old(self).wf(),
                forall|j: int|
                    0 <= j < i ==> (#[trigger] self.by_ledger_hash_index@[j]).0 != id,
            decreases n - i,
        {
            if self.by_ledger_hash_index[i].0 == id {
                proof {
                    lemma_index_of_unique(self.by_ledger_hash_index@, i as int);
                }
                let k = self.by_ledger_hash_index[i].1;
                let ghost x0 = self.by_ledger_hash_index@;
                let ghost l0 = self.list@;
                self.by_ledger_hash_index.remove(i);
                let removed = self.remove_key(k);
                proof {
                    let x1 = self.by_ledger_hash_index@;
                    let l1 = self.list@;
                    assert(x1 =~= x0.remove(i as int));
                    assert forall|id2: SnarkJobId|
                        spec_index_of(x1, id2) == (if id2 == id {
                            None::<u64>
                        } else {
                            spec_index_of(x0, id2)
                        }) by {
                        lemma_index_of_remove(x0, i as int, id2);
                    }
                    // uniqueness of the shrunk index
                    assert forall|a: int, b: int|
                        0 <= a < b < x1.len() implies (#[trigger] x1[a]).0 != (
                    #[trigger] x1[b]).0 by {
                        if b < i as int {
                            assert(x1[a] == x0[a] && x1[b] == x0[b]);
                        } else if a < i as int {
                            assert(x1[a] == x0[a] && x1[b] == x0[b + 1]);
                        } else {
                            assert(x1[a] == x0[a + 1] && x1[b] == x0[b + 1]);
                        }
                    }
                    // every remaining index entry still names a live list
                    // entry with the right id
                    assert forall|a: int|
                        0 <= a < x1.len() implies (spec_list_of(l1, (#[trigger] x1[a]).1)
                        matches Some(job) && job.id == x1[a].0) by {
                        let a0 = if a < i as int {
                            a
                        } else {
                            a + 1
                        };
                        assert(x1[a] == x0[a0]);
                        assert(spec_list_of(l0, x0[a0].1) matches Some(j2) && j2.id == x0[a0].0);
                        assert(x0[a0].0 != id);
                        assert(spec_list_of(l0, k) matches Some(jk) && jk.id == id);
                        assert(x1[a].1 != k);
                    }
                    // every remaining list entry is still indexed
                    assert forall|a: int|
                        0 <= a < l1.len() implies spec_index_of(
                        x1,
                        (#[trigger] l1[a]).1.id,
                    ) == Some(l1[a].0) by {
                        let j0 = choose|j0: int| 0 <= j0 < l0.len() && #[trigger] l0[j0] == l1[a];
                        assert(spec_index_of(x0, l0[j0].1.id) == Some(l0[j0].0));
                        assert(l0[j0].1.id != id) by {
                            if l0[j0].1.id == id {
                                assert(spec_index_of(x0, id) == Some(k));
                                assert(l0[j0].0 == k);
                                assert(spec_list_of(l1, k) is None);
                                lemma_list_of_unique(l1, a);
                            }
                        }
                    }
                    assert forall|id2: SnarkJobId|
                        final(self).spec_get(id2) == (if id2 == id {
                            None::<JobState>
                        } else {
                            old(self).spec_get(id2)
                        }) by {
                        if id2 != id {
                            match spec_index_of(x0, id2) {
                                Some(k2) => {
                                    lemma_index_of_entry(x0, id2);
                                    let a = choose|a: int|
                                        0 <= a < x0.len() && #[trigger] x0[a] == (id2, k2);
                                    assert(spec_list_of(l0, k2) matches Some(j2) && j2.id == id2);
                                    assert(spec_list_of(l0, k) matches Some(jk) && jk.id == id);
                                    assert(k2 != k);
                                },
                                None => {},
                            }
                        }
                    }
                }
                return removed;
            }
            i = i + 1;
        }
        proof {
            lemma_index_of_absent(self.by_ledger_hash_index@, id);
        }
        None
    }

    /// Removes and returns the entry under a list key.
    fn remove_key(&mut self, k: u64) -> (r: Option<JobState>)
        requires
            forall|i: int, j: int|
                0 <= i < j < old(self).list@.len() ==> (#[trigger] old(self).list@[i]).0 < (
                #[trigger] old(self).list@[j]).0,
        ensures
            r == spec_list_of(old(self).list@, k),
            forall|k2: u64|
                spec_list_of(final(self).list@, k2) == (if k2 == k {
                    None::<JobState>
                } else {
                    spec_list_of(old(self).list@, k2)
                }),
            forall|i2: int, j2: int|
                0 <= i2 < j2 < final(self).list@.len() ==> (#[trigger] final(self).list@[i2]).0 < (
                #[trigger] final(self).list@[j2]).0,
            forall|i2: int|
                0 <= i2 < final(self).list@.len() ==> (exists|j2: int|
                    0 <= j2 < old(self).list@.len() && #[trigger] final(self).list@[i2]
                        == #[trigger] old(self).list@[j2]),
            final(self).config == old(self).config,
            final(self).counter == old(self).counter,
            final(self).by_ledger_hash_index == old(self).by_ledger_hash_index,
            final(self).last_check_timeouts == old(self).last_check_timeouts,
    {
        let n = self.list.len();
        let mut i: usize = 0;
        while i < n
            invariant
                i <= n,
                n == self.list@.len(),
                self == old(self),
                forall|i2: int, j2: int|
                    0 <= i2 < j2 < self.list@.len() ==> (#[trigger] self.list@[i2]).0 < (
                    #[trigger] self.list@[j2]).0,
                forall|j: int| 0 <= j < i ==> (#[trigger] self.list@[j]).0 != k,
            decreases n - i,
        {
            if self.list[i].0 == k {
                proof {
                    lemma_list_of_unique(self.list@, i as int);
                }
                let ghost l0 = self.list@;
                let entry = self.list.remove(i);
                proof {
                    assert forall|k2: u64|
                        spec_list_of(self.list@, k2) == (if k2 == k {
                            None::<JobState>
                        } else {
                            spec_list_of(l0, k2)
                        }) by {
                        lemma_list_of_remove(l0, i as int, k2);
                    }
                }
                return Some(entry.1);
            }
            i = i + 1;
        }
        proof {
            lemma_list_of_absent(self.list@, k);
        }
        None
    }

    /// Whether a commitment should be made on a job: it is pooled and
    /// still available.
    pub fn should_create_commitment(&self, job_id: SnarkJobId) -> (r: bool)
        requires
            self.wf(),
        ensures
            r == (self.spec_get(job_id) matches Some(job) && job.spec_is_available()),
    {
        match self.get(job_id) {
            Some(job) => job.is_available(),
            None => false,
        }
    }

    /// Whether the commitment on a job has stood longer than the
    /// configured timeout by `time_now`.
    pub open spec fn spec_commitment_timed_out(&self, job: JobState, time_now: Timestamp) -> bool {
        match job.commitment {
            Some(c) => time_now >= c.commitment.timestamp && time_now - c.commitment.timestamp
                >= self.config.commitment_timeout,
            None => false,
        }
    }

    /// Whether the commitment on the job pooled under an id has timed
    /// out.
    pub fn is_commitment_timed_out(&self, id: SnarkJobId, time_now: Timestamp) -> (r: bool)
        requires
            self.wf(),
        ensures
            r == (self.spec_get(id) matches Some(job) && self.spec_commitment_timed_out(
                job,
                time_now,
            )),
    {
        match self.get(id) {
            Some(job) => self.job_commitment_timed_out(&job, time_now),
            None => false,
        }
    }

    /// The timeout test on one job.
    fn job_commitment_timed_out(&self, job: &JobState, time_now: Timestamp) -> (r: bool)
        ensures
            r == self.spec_commitment_timed_out(*job, time_now),
    {
        match &job.commitment {
            Some(c) => {
                let t = c.commitment.timestamp();
                time_now >= t && time_now - t >= self.config.commitment_timeout
            },
            None => false,
        }
    }

    /// The ids of exactly the pooled jobs whose commitments have timed
    /// out, in pool order.
    pub fn timed_out_commitments(&self, time_now: Timestamp) -> (r: Vec<SnarkJobId>)
        requires
            self.wf(),
        ensures
            r@ == self.list@.filter(
                |e: (u64, JobState)| self.spec_commitment_timed_out(e.1, time_now),
            ).map_values(|e: (u64, JobState)| e.1.id),
    {
        let mut out: Vec<SnarkJobId> = Vec::new();
        let n = self.list.len();
        let mut i: usize = 0;
        proof {
            assert(self.list@.take(0) =~= Seq::<(u64, JobState)>::empty());
            assert(out@ =~= self.list@.take(0).filter(
                |e: (u64, JobState)| self.spec_commitment_timed_out(e.1, time_now),
            ).map_values(|e: (u64, JobState)| e.1.id));
        }
        while i < n
            invariant
                i <= n,
                n == self.list@.len(),
                out@ == self.list@.take(i as int).filter(
                    |e: (u64, JobState)| self.spec_commitment_timed_out(e.1, time_now),
                ).map_values(|e: (u64, JobState)| e.1.id),
            decreases n - i,
        {
            let entry = self.list[i];
            let ghost preo = out@;
            if self.job_commitment_timed_out(&entry.1, time_now) {
                out.push(entry.1.id);
            }
            proof {
                lemma_take_filter_step(
                    self.list@,
                    i as int,
                    |e: (u64, JobState)| self.spec_commitment_timed_out(e.1, time_now),
                );
                let p = |e: (u64, JobState)| self.spec_commitment_timed_out(e.1, time_now);
                let f = |e: (u64, JobState)| e.1.id;
                if p(self.list@[i as int]) {
                    assert(out@ =~= preo.push(self.list@[i as int].1.id));
                    assert(self.list@.take(i + 1).filter(p).map_values(f) =~= self.list@.take(
                        i as int,
                    ).filter(p).map_values(f).push(f(self.list@[i as int])));
                } else {
                    assert(self.list@.take(i + 1).filter(p).map_values(f) =~= self.list@.take(
                        i as int,
                    ).filter(p).map_values(f));
                }
            }
            i = i + 1;
        }
        proof {
            assert(self.list@.take(n as int) =~= self.list@);
        }
        out
    }

    /// Exactly the pooled jobs still available for commitment, in pool
    /// order.
    pub fn available_jobs(&self) -> (r: Vec<JobState>)
        ensures
            r@ == self.list@.filter(|e: (u64, JobState)| e.1.spec_is_available()).map_values(
                |e: (u64, JobState)| e.1,
            ),
    {
        let mut out: Vec<JobState> = Vec::new();
        let n = self.list.len();
        let mut i: usize = 0;
        proof {
            assert(self.list@.take(0) =~= Seq::<(u64, JobState)>::empty());
            assert(out@ =~= self.list@.take(0).filter(
                |e: (u64, JobState)| e.1.spec_is_available(),
            ).map_values(|e: (u64, JobState)| e.1));
        }
        while i < n
            invariant
                i <= n,
                n == self.list@.len(),
                out@ == self.list@.take(i as int).filter(
                    |e: (u64, JobState)| e.1.spec_is_available(),
                ).map_values(|e: (u64, JobState)| e.1),
            decreases n - i,
        {
            let entry = self.list[i];
            let ghost preo = out@;
            if entry.1.is_available() {
                out.push(entry.1);
            }
            proof {
                lemma_take_filter_step(
                    self.list@,
                    i as int,
                    |e: (u64, JobState)| e.1.spec_is_available(),
                );
                let p = |e: (u64, JobState)| e.1.spec_is_available();
                let f = |e: (u64, JobState)| e.1;
                if p(self.list@[i as int]) {
                    assert(out@ =~= preo.push(self.list@[i as int].1));
                    assert(self.list@.take(i + 1).filter(p).map_values(f) =~= self.list@.take(
                        i as int,
                    ).filter(p).map_values(f).push(f(self.list@[i as int])));
                } else {
                    assert(self.list@.take(i + 1).filter(p).map_values(f) =~= self.list@.take(
                        i as int,
                    ).filter(p).map_values(f));
                }
            }
            i = i + 1;
        }
        proof {
            assert(self.list@.take(n as int) =~= self.list@);
        }
        out
    }

    /// Exactly the pooled entries whose keys lie in `[lo, hi)`, in pool
    /// order.
    pub fn range(&self, lo: u64, hi: u64) -> (r: Vec<(u64, JobState)>)
        ensures
            r@ == self.list@.filter(|e: (u64, JobState)| lo <= e.0 && e.0 < hi),
    {
        let mut out: Vec<(u64, JobState)> = Vec::new();
        let n = self.list.len();
        let mut i: usize = 0;
        proof {
            assert(self.list@.take(0) =~= Seq::<(u64, JobState)>::empty());
            assert(out@ =~= self.list@.take(0).filter(
                |e: (u64, JobState)| lo <= e.0 && e.0 < hi,
            ));
        }
        while i < n
            invariant
                i <= n,
                n == self.list@.len(),
                out@ == self.list@.take(i as int).filter(
                    |e: (u64, JobState)| lo <= e.0 && e.0 < hi,
                ),
            decreases n - i,
        {
            let entry = self.list[i];
            let ghost preo = out@;
            if lo <= entry.0 && entry.0 < hi {
                out.push(entry);
            }
            proof {
                lemma_take_filter_step(
                    self.list@,
                    i as int,
                    |e: (u64, JobState)| lo <= e.0 && e.0 < hi,
                );
                let p = |e: (u64, JobState)| lo <= e.0 && e.0 < hi;
                if p(self.list@[i as int]) {
                    assert(out@ =~= preo.push(self.list@[i as int]));
                } else {
                }
            }
            i = i + 1;
        }
        proof {
            assert(self.list@.take(n as int) =~= self.list@);
        }
        out
    }

    /// Keeps only the jobs whose ids the caller's test approves; every
    /// other job leaves both the list and the index: a surviving job was
    /// pooled before and its id passed the test, and a job that vanished
    /// failed it.
    pub fn retain<F: Fn(SnarkJobId) -> bool>(&mut self, f: F)
        requires
            old(self).wf(),
            forall|id: SnarkJobId| #[trigger] f.requires((id,)),
        ensures
            final(self).wf(),
            forall|id: SnarkJobId|
                (#[trigger] final(self).spec_get(id)) matches Some(job) ==> old(self).spec_get(id)
                    == Some(job),
            forall|id: SnarkJobId|
                final(self).spec_get(id) is None && (#[trigger] old(self).spec_get(id)) is Some
                    ==> f.ensures((id,), false),
            forall|j: int|
                0 <= j < old(self).list@.len() ==> ((#[trigger] final(self).spec_get(
                    old(self).list@[j].1.id,
                )) is Some ==> f.ensures((old(self).list@[j].1.id,), true)),
            final(self).last_check_timeouts == old(self).last_check_timeouts,
    {
        let ids: Vec<SnarkJobId> = self.job_ids();
        let n = ids.len();
        let mut i: usize = 0;
        while i < n
            invariant
                i <= n,
                n == ids@.len(),
                self.wf(),
                self.last_check_timeouts == old(self).last_check_timeouts,
                forall|j: int| 0 <= j < n ==> #[trigger] ids@[j] == old(self).list@[j].1.id,
                n == old(self).list@.len(),
                forall|id: SnarkJobId| #[trigger] f.requires((id,)),
                forall|id: SnarkJobId|
                    (#[trigger] self.spec_get(id)) matches Some(job) ==> old(self).spec_get(id)
                        == Some(job),
                forall|id: SnarkJobId|
                    self.spec_get(id) is None && (#[trigger] old(self).spec_get(id)) is Some ==> (
                    f.ensures((id,), false)),
                forall|j: int|
                    0 <= j < i ==> ((#[trigger] self.spec_get(ids@[j])) is Some ==> f.ensures(
                        (ids@[j],),
                        true,
                    )),
            decreases n - i,
        {
            let id = ids[i];
            if self.contains(id) {
                if !f(id) {
                    self.remove(id);
                }
            }
            i = i + 1;
        }
        proof {
            assert forall|j: int|
                0 <= j < old(self).list@.len() implies ((#[trigger] final(self).spec_get(
                old(self).list@[j].1.id,
            )) is Some ==> f.ensures((old(self).list@[j].1.id,), true)) by {
                assert(ids@[j] == old(self).list@[j].1.id);
            }
        }
    }

    /// The ids of every pooled job, in pool order.
    pub fn job_ids(&self) -> (r: Vec<SnarkJobId>)
        ensures
            r@.len() == self.list@.len(),
            forall|i: int| 0 <= i < r@.len() ==> #[trigger] r@[i] == self.list@[i].1.id,
    {
        let mut out: Vec<SnarkJobId> = Vec::new();
        let n = self.list.len();
        let mut i: usize = 0;
        while i < n
            invariant
                i <= n,
                n == self.list@.len(),
                out@.len() == i,
                forall|i2: int| 0 <= i2 < out@.len() ==> #[trigger] out@[i2] == self.list@[i2].1.id,
            decreases n - i,
        {
            out.push(self.list[i].1.id);
            i = i + 1;
        }
        out
    }
}

/// Taking one more element extends the filtered prefix by that element
/// exactly when it satisfies the test.
pub proof fn lemma_take_filter_step(
    s: Seq<(u64, JobState)>,
    i: int,
    p: spec_fn((u64, JobState)) -> bool,
)
    requires
        0 <= i < s.len(),
    ensures
        s.take(i + 1).filter(p) == (if p(s[i]) {
            s.take(i).filter(p).push(s[i])
        } else {
            s.take(i).filter(p)
        }),
{
    assert(s.take(i + 1).drop_last() =~= s.take(i));
    assert(s.take(i + 1).last() == s[i]);
    reveal(Seq::filter);
}

// assoc lemmas
pub proof fn lemma_index_of_absent(s: Seq<(SnarkJobId, u64)>, id: SnarkJobId)
    requires
        forall|j: int| 0 <= j < s.len() ==> (#[trigger] s[j]).0 != id,
    ensures
        spec_index_of(s, id) is None,
    decreases s.len(),
{
    if s.len() > 0 {
        lemma_index_of_absent(s.drop_last(), id);
    }
}

pub proof fn lemma_index_of_unique(s: Seq<(SnarkJobId, u64)>, k: int)
    requires
        0 <= k < s.len(),
        forall|i: int, j: int| 0 <= i < j < s.len() ==> (#[trigger] s[i]).0 != (#[trigger] s[j]).0,
    ensures
        spec_index_of(s, s[k].0) == Some(s[k].1),
    decreases s.len(),
{
    if k < s.len() - 1 {
        lemma_index_of_unique(s.drop_last(), k);
    }
}

/// A recorded key names some entry.
pub proof fn lemma_index_of_entry(s: Seq<(SnarkJobId, u64)>, id: SnarkJobId)
    ensures
        spec_index_of(s, id) matches Some(k) ==> exists|i: int|
            0 <= i < s.len() && #[trigger] s[i] == (id, k),
    decreases s.len(),
{
    if s.len() > 0 {
        if s.last().0 == id {
            assert(s[s.len() - 1] == (id, s.last().1));
        } else {
            lemma_index_of_entry(s.drop_last(), id);
            match spec_index_of(s.drop_last(), id) {
                Some(k) => {
                    let i = choose|i: int|
                        0 <= i < s.drop_last().len() && #[trigger] s.drop_last()[i] == (id, k);
                    assert(s[i] == (id, k));
                },
                None => {},
            }
        }
    }
}

/// An id absent from the index has no entry anywhere in it.
pub proof fn lemma_index_of_absent_means(s: Seq<(SnarkJobId, u64)>, id: SnarkJobId)
    ensures
        spec_index_of(s, id) is None ==> forall|i: int|
            0 <= i < s.len() ==> (#[trigger] s[i]).0 != id,
    decreases s.len(),
{
    if s.len() > 0 {
        lemma_index_of_absent_means(s.drop_last(), id);
        if spec_index_of(s, id) is None {
            assert forall|i: int| 0 <= i < s.len() implies (#[trigger] s[i]).0 != id by {
                if i < s.len() - 1 {
                    assert(s.drop_last()[i] == s[i]);
                }
            }
        }
    }
}

pub proof fn lemma_index_of_remove(s: Seq<(SnarkJobId, u64)>, k: int, q: SnarkJobId)
    requires
        0 <= k < s.len(),
        forall|i: int, j: int| 0 <= i < j < s.len() ==> (#[trigger] s[i]).0 != (#[trigger] s[j]).0,
    ensures
        spec_index_of(s.remove(k), q) == (if q == s[k].0 {
            None::<u64>
        } else {
            spec_index_of(s, q)
        }),
    decreases s.len(),
{
    let s2 = s.remove(k);
    if k == s.len() - 1 {
        assert(s2 =~= s.drop_last());
        if q == s[k].0 {
            assert(forall|j: int| 0 <= j < s2.len() ==> (#[trigger] s2[j]).0 != q);
            lemma_index_of_absent(s2, q);
        }
    } else {
        assert(s2.drop_last() =~= s.drop_last().remove(k));
        assert(s2.last() == s.last());
        lemma_index_of_remove(s.drop_last(), k, q);
        if q == s[k].0 {
            assert(s.last().0 != q);
        }
    }
}

/// A recorded key names some entry.
pub proof fn lemma_list_of_entry(s: Seq<(u64, JobState)>, k: u64)
    ensures
        spec_list_of(s, k) is Some ==> exists|i: int| 0 <= i < s.len() && (#[trigger] s[i]).0 == k,
    decreases s.len(),
{
    if s.len() > 0 {
        if s.last().0 == k {
            assert(s[s.len() - 1].0 == k);
        } else {
            lemma_list_of_entry(s.drop_last(), k);
            if spec_list_of(s.drop_last(), k) is Some {
                let i = choose|i: int|
                    0 <= i < s.drop_last().len() && (#[trigger] s.drop_last()[i]).0 == k;
                assert(s[i].0 == k);
            }
        }
    }
}

pub proof fn lemma_list_of_absent(s: Seq<(u64, JobState)>, k: u64)
    requires
        forall|j: int| 0 <= j < s.len() ==> (#[trigger] s[j]).0 != k,
    ensures
        spec_list_of(s, k) is None,
    decreases s.len(),
{
    if s.len() > 0 {
        lemma_list_of_absent(s.drop_last(), k);
    }
}

pub proof fn lemma_list_of_unique(s: Seq<(u64, JobState)>, i: int)
    requires
        0 <= i < s.len(),
        forall|i2: int, j2: int|
            0 <= i2 < j2 < s.len() ==> (#[trigger] s[i2]).0 < (#[trigger] s[j2]).0,
    ensures
        spec_list_of(s, s[i].0) == Some(s[i].1),
    decreases s.len(),
{
    if i < s.len() - 1 {
        lemma_list_of_unique(s.drop_last(), i);
    }
}

/// Pushing a fresh, larger key leaves every other key's lookup alone.
pub proof fn lemma_list_of_push_other(s: Seq<(u64, JobState)>, k: u64, job: JobState, k2: u64)
    requires
        k2 != k,
    ensures
        spec_list_of(s.push((k, job)), k2) == spec_list_of(s, k2),
{
    assert(s.push((k, job)).drop_last() =~= s);
}

pub proof fn lemma_list_of_remove(s: Seq<(u64, JobState)>, i: int, q: u64)
    requires
        0 <= i < s.len(),
        forall|i2: int, j2: int|
            0 <= i2 < j2 < s.len() ==> (#[trigger] s[i2]).0 < (#[trigger] s[j2]).0,
    ensures
        spec_list_of(s.remove(i), q) == (if q == s[i].0 {
            None::<JobState>
        } else {
            spec_list_of(s, q)
        }),
    decreases s.len(),
{
    let s2 = s.remove(i);
    if i == s.len() - 1 {
        assert(s2 =~= s.drop_last());
        if q == s[i].0 {
            assert(forall|j: int| 0 <= j < s2.len() ==> (#[trigger] s2[j]).0 != q);
            lemma_list_of_absent(s2, q);
        }
    } else {
        assert(s2.drop_last() =~= s.drop_last().remove(i));
        assert(s2.last() == s.last());
        lemma_list_of_remove(s.drop_last(), i, q);
        if q == s[i].0 {
            assert(s.last().0 != q);
        }
    }
}

} // verus!
