//! Many compiler runs at once, never more than a limit allows.

use vstd::prelude::*;
use vstd::set_lib::{lemma_int_range, lemma_len_subset, set_int_range};
use crate::compile::Solc;

verus! {

/// How far one job of a batch has come.
#[derive(Debug, Clone, Copy, PartialEq, Eq, Structural)]
pub enum JobState {
    /// The job was not started yet.
    Pending,
    /// The job was started and has not ended.
    Running,
    /// The job has ended and its outcome is kept.
    Done,
}

/// What the caller of a batch has to do next.
#[derive(Debug, Clone, Copy, PartialEq, Eq, Structural)]
pub enum BatchAction {
    /// Start the job with this index.
    Start(usize),
    /// Wait until one of the running jobs ends, then hand in its outcome.
    Wait,
    /// Every job has ended.
    Finished,
    /// Jobs are left, none runs and the limit lets none start.
    Stalled,
}

/// The outcomes of a batch, in the order in which the jobs ended, each
/// with the handle and the input of its job.
pub struct CompiledMany<I, O> {
    outputs: Vec<(O, Solc, I)>,
}

impl<I, O> CompiledMany<I, O> {
    /// The outcomes, each with the handle and the input of its job.
    pub closed spec fn view(&self) -> Seq<(O, Solc, I)> {
        self.outputs@
    }

    /// Keeps the outcomes as they are.
    pub fn new(outputs: Vec<(O, Solc, I)>) -> (r: Self)
        ensures
            r.view() == outputs@,
    {
        CompiledMany { outputs }
    }

    /// The number of outcomes.
    pub fn len(&self) -> (r: usize)
        ensures
            r == self.view().len(),
    {
        self.outputs.len()
    }

    /// The outcomes, each with the handle and the input of its job.
    pub fn outputs(&self) -> (r: &Vec<(O, Solc, I)>)
        ensures
            r@ == self.view(),
    {
        &self.outputs
    }

    /// Hands the outcomes out.
    pub fn into_outputs(self) -> (r: Vec<(O, Solc, I)>)
        ensures
            r@ == self.view(),
    {
        self.outputs
    }
}

/// The indices of the jobs that run.
pub open spec fn running_jobs(states: Seq<JobState>) -> Set<int> {
    Set::new(|i: int| 0 <= i < states.len() && states[i] == JobState::Running)
}

fn take_at<T>(slots: &mut Vec<Option<T>>, i: usize) -> (r: Option<T>)
    requires
        i < old(slots)@.len(),
    ensures
        r == old(slots)@[i as int],
        final(slots)@ == old(slots)@.update(i as int, None),
{
    let mut slot: Option<T> = None;
    core::mem::swap(&mut slots[i], &mut slot);
    slot
}

proof fn lemma_running_finite(states: Seq<JobState>)
    ensures
        running_jobs(states).finite(),
        running_jobs(states).len() <= states.len(),
{
    lemma_int_range(0, states.len() as int);
    assert(running_jobs(states).subset_of(set_int_range(0, states.len() as int)));
    lemma_len_subset(running_jobs(states), set_int_range(0, states.len() as int));
}

proof fn lemma_running_started(states: Seq<JobState>, i: int)
    requires
        0 <= i < states.len(),
        states[i] != JobState::Running,
    ensures
        running_jobs(states.update(i, JobState::Running)).len() == running_jobs(states).len() + 1,
{
    lemma_running_finite(states);
    assert(running_jobs(states.update(i, JobState::Running)) =~= running_jobs(states).insert(i));
}

proof fn lemma_running_ended(states: Seq<JobState>, i: int)
    requires
        0 <= i < states.len(),
        states[i] == JobState::Running,
    ensures
        running_jobs(states.update(i, JobState::Done)).len() == running_jobs(states).len() - 1,
{
    lemma_running_finite(states);
    assert(running_jobs(states.update(i, JobState::Done)) =~= running_jobs(states).remove(i));
}

/// A batch of jobs, each a handle and an input, of which no more than a
/// limit run at any time.
pub struct Batch<I, O> {
    limit: usize,
    slots: Vec<Option<(Solc, I)>>,
    states: Vec<JobState>,
    started: usize,
    in_flight: usize,
    done: Vec<(O, Solc, I)>,
    jobs: Ghost<Seq<(Solc, I)>>,
    order: Ghost<Seq<int>>,
}

impl<I, O> Batch<I, O> {
    /// The jobs as they were handed in.
    pub closed spec fn jobs(&self) -> Seq<(Solc, I)> {
        self.jobs@
    }

    /// How many jobs may run at once.
    pub closed spec fn limit(&self) -> nat {
        self.limit as nat
    }

    /// How far each job has come.
    pub closed spec fn states(&self) -> Seq<JobState> {
        self.states@
    }

    /// The indices of the jobs that have ended, in the order in which they
    /// ended.
    pub closed spec fn order(&self) -> Seq<int> {
        self.order@
    }

    /// The outcomes of the jobs that have ended, in the order in which
    /// they ended, each with the handle and the input of its job.
    pub closed spec fn results(&self) -> Seq<(O, Solc, I)> {
        self.done@
    }

    /// The number of jobs that were started.
    pub closed spec fn started(&self) -> nat {
        self.started as nat
    }

    /// The number of jobs that run.
    pub open spec fn running(&self) -> nat {
        running_jobs(self.states()).len()
    }

    /// What is to be done next: a job is started while jobs are left and
    /// fewer run than the limit allows, and the jobs are started in the
    /// order in which they were handed in; else the caller waits for a
    /// running job; with nothing left and nothing running the batch is
    /// finished. A batch stalls where jobs are left, none runs and the
    /// limit is zero.
    pub open spec fn next_action(&self) -> BatchAction {
        if self.started() < self.jobs().len() && self.running() < self.limit() {
            BatchAction::Start(self.started() as usize)
        } else if self.running() > 0 {
            BatchAction::Wait
        } else if self.started() == self.jobs().len() {
            BatchAction::Finished
        } else {
            BatchAction::Stalled
        }
    }

    /// What holds of every batch: the jobs are started in the order in
    /// which they were handed in; no more run than the limit allows; each
    /// job that has ended has one outcome, kept with its own handle and
    /// input.
    pub closed spec fn wf(&self) -> bool {
        &&& self.slots@.len() == self.jobs@.len()
        &&& self.states@.len() == self.jobs@.len()
        &&& self.started <= self.jobs@.len()
        &&& forall|i: int|
            0 <= i < self.states@.len() ==> (#[trigger] self.states@[i] == JobState::Pending <==> i
                >= self.started)
        &&& forall|i: int|
            0 <= i < self.states@.len() ==> #[trigger] self.slots@[i] == if self.states@[i]
                == JobState::Done {
                None
            } else {
                Some(self.jobs@[i])
            }
        &&& self.in_flight == running_jobs(self.states@).len()
        &&& self.in_flight <= self.limit
        &&& self.order@.len() == self.done@.len()
        &&& self.order@.no_duplicates()
        &&& forall|k: int|
            0 <= k < self.order@.len() ==> 0 <= #[trigger] self.order@[k] < self.jobs@.len()
                && self.states@[self.order@[k]] == JobState::Done && self.done@[k].1
                == self.jobs@[self.order@[k]].0 && self.done@[k].2 == self.jobs@[self.order@[k]].1
        &&& forall|i: int|
            0 <= i < self.states@.len() && #[trigger] self.states@[i] == JobState::Done
                ==> self.order@.contains(i)
    }

    /// The batch of these jobs, none of them started, of which at most
    /// `limit` will run at once.
    pub fn new(jobs: Vec<(Solc, I)>, limit: usize) -> (r: Self)
        ensures
            r.wf(),
            r.jobs() == jobs@,
            r.limit() == limit,
            r.started() == 0,
            r.results().len() == 0,
            r.order().len() == 0,
            r.states() == Seq::new(jobs@.len(), |i: int| JobState::Pending),
            r.running() == 0,
    {
        let ghost all = jobs@;
        let mut jobs = jobs;
        let mut reversed: Vec<Option<(Solc, I)>> = Vec::new();
        while jobs.len() > 0
            invariant
                jobs@.len() + reversed@.len() == all.len(),
                jobs@ == all.take(jobs@.len() as int),
                forall|k: int|
                    0 <= k < reversed@.len() ==> #[trigger] reversed@[k] == Some(
                        all[all.len() - 1 - k],
                    ),
            decreases jobs.len(),
        {
            let job = jobs.pop().unwrap();
            reversed.push(Some(job));
        }
        let mut slots: Vec<Option<(Solc, I)>> = Vec::new();
        let mut states: Vec<JobState> = Vec::new();
        while reversed.len() > 0
            invariant
                reversed@.len() + slots@.len() == all.len(),
                states@.len() == slots@.len(),
                forall|k: int|
                    0 <= k < reversed@.len() ==> #[trigger] reversed@[k] == Some(
                        all[all.len() - 1 - k],
                    ),
                forall|k: int| 0 <= k < slots@.len() ==> #[trigger] slots@[k] == Some(all[k]),
                forall|k: int| 0 <= k < states@.len() ==> #[trigger] states@[k] == JobState::Pending,
            decreases reversed.len(),
        {
            let slot = reversed.pop().unwrap();
            slots.push(slot);
            states.push(JobState::Pending);
        }
        proof {
            assert(running_jobs(states@) =~= Set::empty());
            assert(states@ =~= Seq::new(all.len(), |i: int| JobState::Pending));
        }
        Batch {
            limit,
            slots,
            states,
            started: 0,
            in_flight: 0,
            done: Vec::new(),
            jobs: Ghost(all),
            order: Ghost(Seq::empty()),
        }
    }

    /// The number of jobs.
    pub fn len(&self) -> (r: usize)
        requires
            self.wf(),
        ensures
            r == self.jobs().len(),
    {
        self.slots.len()
    }

    /// The number of jobs that run.
    pub fn in_flight(&self) -> (r: usize)
        requires
            self.wf(),
        ensures
            r == self.running(),
            r <= self.limit(),
    {
        self.in_flight
    }

    /// Whether every job has ended.
    pub fn is_finished(&self) -> (r: bool)
        requires
            self.wf(),
        ensures
            r == (self.results().len() == self.jobs().len()),
            r ==> forall|i: int|
                0 <= i < self.jobs().len() ==> #[trigger] self.states()[i] == JobState::Done,
    {
        proof {
            self.lemma_counts();
        }
        self.done.len() == self.slots.len()
    }

    /// The job with index `id`, as long as it has not ended.
    pub fn job(&self, id: usize) -> (r: Option<&(Solc, I)>)
        requires
            self.wf(),
        ensures
            match r {
                Some(job) => id < self.jobs().len() && self.states()[id as int] != JobState::Done
                    && *job == self.jobs()[id as int],
                None => id >= self.jobs().len() || self.states()[id as int] == JobState::Done,
            },
    {
        if id < self.slots.len() {
            match &self.slots[id] {
                Some(job) => Some(job),
                None => None,
            }
        } else {
            None
        }
    }

    /// Says what to do next, and takes note of the job that is started.
    pub fn next(&mut self) -> (action: BatchAction)
        requires
            old(self).wf(),
        ensures
            final(self).wf(),
            final(self).jobs() == old(self).jobs(),
            final(self).limit() == old(self).limit(),
            final(self).results() == old(self).results(),
            final(self).order() == old(self).order(),
            final(self).running() <= final(self).limit(),
            action == old(self).next_action(),
            match action {
                BatchAction::Start(id) => {
                    &&& final(self).started() == id + 1
                    &&& final(self).states() == old(self).states().update(
                        id as int,
                        JobState::Running,
                    )
                    &&& final(self).running() == old(self).running() + 1
                },
                _ => {
                    &&& final(self).states() == old(self).states()
                    &&& final(self).started() == old(self).started()
                },
            },
            action == BatchAction::Finished ==> old(self).results().len() == old(self).jobs().len(),
    {
        proof {
            self.lemma_counts();
        }
        if self.started < self.slots.len() && self.in_flight < self.limit {
            let id = self.started;
            proof {
                lemma_running_started(self.states@, id as int);
            }
            self.states.set(id, JobState::Running);
            self.started = id + 1;
            self.in_flight = self.in_flight + 1;
            BatchAction::Start(id)
        } else if self.in_flight > 0 {
            BatchAction::Wait
        } else if self.started == self.slots.len() {
            BatchAction::Finished
        } else {
            BatchAction::Stalled
        }
    }

    /// Takes the outcome of the running job with index `id`, which has
    /// ended. Where no job with that index runs, nothing changes and the
    /// outcome is handed back.
    pub fn complete(&mut self, id: usize, outcome: O) -> (r: Result<(), O>)
        requires
            old(self).wf(),
        ensures
            final(self).wf(),
            final(self).jobs() == old(self).jobs(),
            final(self).limit() == old(self).limit(),
            final(self).started() == old(self).started(),
            final(self).running() <= final(self).limit(),
            if id < old(self).jobs().len() && old(self).states()[id as int] == JobState::Running {
                &&& r is Ok
                &&& final(self).states() == old(self).states().update(id as int, JobState::Done)
                &&& final(self).order() == old(self).order().push(id as int)
                &&& final(self).results() == old(self).results().push(
                    (outcome, old(self).jobs()[id as int].0, old(self).jobs()[id as int].1),
                )
                &&& final(self).running() == old(self).running() - 1
            } else {
                &&& r == Err::<(), O>(outcome)
                &&& final(self).states() == old(self).states()
                &&& final(self).order() == old(self).order()
                &&& final(self).results() == old(self).results()
            },
    {
        if id >= self.states.len() {
            return Err(outcome);
        }
        match self.states[id] {
            JobState::Running => {},
            _ => {
                return Err(outcome);
            },
        }
        let ghost before = *self;
        proof {
            lemma_running_ended(self.states@, id as int);
            lemma_running_finite(self.states@);
            assert(running_jobs(self.states@).contains(id as int));
            if self.order@.contains(id as int) {
                let k = choose|k: int| 0 <= k < self.order@.len() && self.order@[k] == id;
                assert(self.states@[self.order@[k]] == JobState::Done);
            }
        }
        let job = take_at(&mut self.slots, id);
        let (solc, input) = job.unwrap();
        self.states.set(id, JobState::Done);
        self.in_flight = self.in_flight - 1;
        self.done.push((outcome, solc, input));
        self.order = Ghost(self.order@.push(id as int));
        proof {
            assert forall|k: int| 0 <= k < self.order@.len() implies 0 <= #[trigger] self.order@[k]
                < self.jobs@.len() && self.states@[self.order@[k]] == JobState::Done
                && self.done@[k].1 == self.jobs@[self.order@[k]].0 && self.done@[k].2
                == self.jobs@[self.order@[k]].1 by {
                if k < before.order@.len() {
                    assert(self.order@[k] == before.order@[k]);
                    assert(self.done@[k] == before.done@[k]);
                }
            }
            assert forall|i: int|
                0 <= i < self.states@.len() && #[trigger] self.states@[i]
                    == JobState::Done implies self.order@.contains(i) by {
                if i == id {
                    assert(self.order@[self.order@.len() - 1] == i);
                } else {
                    assert(before.states@[i] == JobState::Done);
                    let k = choose|k: int| 0 <= k < before.order@.len() && before.order@[k] == i;
                    assert(self.order@[k] == i);
                }
            }
            assert forall|i: int| 0 <= i < self.states@.len() implies (#[trigger] self.states@[i]
                == JobState::Pending <==> i >= self.started) by {
                assert(before.states@[i] == JobState::Pending <==> i >= before.started);
            }
            assert forall|i: int| 0 <= i < self.states@.len() implies #[trigger] self.slots@[i]
                == if self.states@[i] == JobState::Done {
                None
            } else {
                Some(self.jobs@[i])
            } by {
                assert(before.slots@[i] == if before.states@[i] == JobState::Done {
                    None
                } else {
                    Some(before.jobs@[i])
                });
            }
        }
        Ok(())
    }

    /// The outcomes of the jobs that have ended, in the order in which
    /// they ended.
    pub fn into_results(self) -> (r: CompiledMany<I, O>)
        requires
            self.wf(),
        ensures
            r.view() == self.results(),
    {
        CompiledMany::new(self.done)
    }

    /// As many jobs have ended as there are outcomes; they and the running
    /// ones are the jobs that were started.
    pub proof fn lemma_counts(&self)
        requires
            self.wf(),
        ensures
            self.results().len() == self.order().len(),
            self.results().len() + self.running() == self.started(),
            self.started() <= self.jobs().len(),
            self.results().len() == self.jobs().len() ==> forall|i: int|
                0 <= i < self.jobs().len() ==> #[trigger] self.states()[i] == JobState::Done,
    {
        let done = self.order@.to_set();
        let running = running_jobs(self.states@);
        let started = set_int_range(0, self.started as int);
        lemma_running_finite(self.states@);
        lemma_int_range(0, self.started as int);
        self.order@.unique_seq_to_set();
        assert(done.disjoint(running)) by {
            assert forall|i: int| done.contains(i) implies !running.contains(i) by {
                let k = choose|k: int| 0 <= k < self.order@.len() && self.order@[k] == i;
                assert(self.states@[self.order@[k]] == JobState::Done);
            }
        }
        assert(done.union(running) =~= started) by {
            assert forall|i: int| started.contains(i) implies done.union(running).contains(
                i,
            ) by {
                assert(self.states@[i] != JobState::Pending);
                if self.states@[i] == JobState::Done {
                    assert(self.order@.contains(i));
                }
            }
            assert forall|i: int| done.union(running).contains(i) implies started.contains(
                i,
            ) by {
                if done.contains(i) {
                    let k = choose|k: int| 0 <= k < self.order@.len() && self.order@[k] == i;
                    assert(self.states@[self.order@[k]] == JobState::Done);
                }
                assert(self.states@[i] != JobState::Pending);
            }
        }
        vstd::set_lib::lemma_set_disjoint_lens(done, running);
        if self.done@.len() == self.jobs@.len() {
            assert(running.len() == 0);
            assert forall|i: int| 0 <= i < self.jobs@.len() implies #[trigger] self.states@[i]
                == JobState::Done by {
                if self.states@[i] == JobState::Running {
                    assert(running.contains(i));
                }
            }
        }
    }

    /// At no time do more jobs run than the limit allows.
    pub proof fn lemma_never_over_limit(&self)
        requires
            self.wf(),
        ensures
            self.running() <= self.limit(),
    {
    }

    /// Every outcome is kept with the handle and the input of the job that
    /// it belongs to, no job has two outcomes, and when the batch is
    /// finished every job has one.
    pub proof fn lemma_results_paired(&self)
        requires
            self.wf(),
        ensures
            self.order().len() == self.results().len(),
            self.order().no_duplicates(),
            forall|k: int|
                0 <= k < self.results().len() ==> 0 <= #[trigger] self.order()[k]
                    < self.jobs().len() && self.results()[k].1 == self.jobs()[self.order()[k]].0
                    && self.results()[k].2 == self.jobs()[self.order()[k]].1,
            self.results().len() == self.jobs().len() ==> forall|i: int|
                0 <= i < self.jobs().len() ==> self.order().contains(i),
    {
        self.lemma_counts();
        if self.results().len() == self.jobs().len() {
            assert forall|i: int| 0 <= i < self.jobs().len() implies self.order().contains(i) by {
                assert(self.states@[i] == JobState::Done);
            }
        }
    }
}

impl Solc {
    /// Begins a batch of compiler runs, of which at most `n` will run at
    /// once: none is started yet, and the batch says what to do next.
    pub fn compile_many<I, O>(jobs: Vec<(Solc, I)>, n: usize) -> (r: Batch<I, O>)
        ensures
            r.wf(),
            r.jobs() == jobs@,
            r.limit() == n,
            r.started() == 0,
            r.results().len() == 0,
            r.order().len() == 0,
            r.states() == Seq::new(jobs@.len(), |i: int| JobState::Pending),
            r.running() == 0,
    {
        Batch::new(jobs, n)
    }
}

} // verus!
