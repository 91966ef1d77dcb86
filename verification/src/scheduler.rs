//! The fan-out scheduler: it starts the fetch jobs of a list of courses in
//! their listed order, never has more of them in flight than its limit allows,
//! and yields each job as it completes, in completion order. In watch mode a
//! pass that has yielded every course is followed at once by the next one.
//!
//! The scheduler decides; it does no work itself. Its caller runs each job
//! it hands out and brings each job back when it has ended.

use vstd::prelude::*;
use crate::job::FetchJob;
use crate::job::JobPhase;
use crate::job::JobView;
use crate::model::AggregatedRecord;
use crate::model::Parent;
use crate::model::ParentView;

verus! {

/// One yielded job: which course it was, and whether some category failed.
#[derive(Clone, Copy, Debug, PartialEq, Eq, Structural)]
pub struct Completion {
    /// The position of the course in the list that the scheduler was made for.
    pub index: usize,
    /// Whether the job ended as partially failed.
    pub partially_failed: bool,
}

impl Completion {
    /// The phase in which the yielded job ended.
    pub open spec fn phase(self) -> JobPhase {
        if self.partially_failed {
            JobPhase::PartiallyFailed
        } else {
            JobPhase::Complete
        }
    }
}

/// Something that can happen to a scheduler.
pub enum SchedulerEvent {
    /// The next pending job is asked for.
    Start,
    /// A job is brought back as that of the course at `index`; it was made
    /// for `parent` and has reached `phase`.
    Complete { index: usize, parent: ParentView, phase: JobPhase },
    /// The next pass is asked for.
    NextPass,
}

/// What a `FanOutScheduler` holds.
#[verifier::ext_equal]
pub struct SchedulerView {
    /// The courses, in the order in which they were listed.
    pub parents: Seq<ParentView>,
    /// How many jobs may be in flight at once.
    pub limit: nat,
    /// Whether a finished pass may be followed by another.
    pub watch: bool,
    /// How many jobs were started in this pass: those of the courses before this position.
    pub started: nat,
    /// The jobs in flight, in the order in which they were started.
    pub in_flight: Seq<usize>,
    /// The jobs yielded in this pass, in the order in which they completed.
    pub completed: Seq<Completion>,
}

impl SchedulerView {
    /// How many courses there are.
    pub open spec fn total(self) -> nat {
        self.parents.len()
    }

    /// The scheduler before anything was started.
    pub open spec fn initial(parents: Seq<ParentView>, limit: nat, watch: bool) -> SchedulerView {
        SchedulerView {
            parents,
            limit,
            watch,
            started: 0,
            in_flight: Seq::<usize>::empty(),
            completed: Seq::<Completion>::empty(),
        }
    }

    /// The courses whose jobs were yielded in this pass, in completion order.
    pub open spec fn order(self) -> Seq<usize> {
        self.completed.map_values(|c: Completion| c.index)
    }

    /// Whether the job of a course was yielded in this pass.
    pub open spec fn yielded(self, index: usize) -> bool {
        exists|k: int| 0 <= k < self.completed.len() && (#[trigger] self.completed[k]).index == index
    }

    /// The list of courses is one that a machine can hold; the jobs in flight
    /// are within the limit; every job in flight or yielded was started, is
    /// counted once, and is not both in flight and yielded; and every job that
    /// was started is in flight or yielded.
    pub open spec fn wf(self) -> bool {
        &&& self.total() <= usize::MAX
        &&& self.started <= self.total()
        &&& self.in_flight.len() <= self.limit
        &&& self.in_flight.len() + self.completed.len() == self.started
        &&& forall|k: int| 0 <= k < self.in_flight.len() ==> (#[trigger] self.in_flight[k]) < self.started
        &&& forall|k: int|
            0 <= k < self.completed.len() ==> (#[trigger] self.completed[k]).index < self.started
        &&& forall|j: int, k: int|
            #![trigger self.in_flight[j], self.in_flight[k]]
            0 <= j < k < self.in_flight.len() ==> self.in_flight[j] != self.in_flight[k]
        &&& forall|j: int, k: int|
            #![trigger self.completed[j], self.completed[k]]
            0 <= j < k < self.completed.len() ==> self.completed[j].index != self.completed[k].index
        &&& forall|j: int, k: int|
            #![trigger self.in_flight[j], self.completed[k]]
            0 <= j < self.in_flight.len() && 0 <= k < self.completed.len() ==> self.in_flight[j]
                != self.completed[k].index
    }

    /// A job can be started: one is pending and the limit leaves room.
    pub open spec fn can_start(self) -> bool {
        self.started < self.total() && self.in_flight.len() < self.limit
    }

    /// The scheduler after the next pending job was started.
    pub open spec fn start(self) -> SchedulerView {
        SchedulerView {
            started: self.started + 1,
            in_flight: self.in_flight.push(self.started as usize),
            ..self
        }
    }

    /// A job that is brought back is taken: the job of the course at `index`
    /// is in flight, the job brought back was made for that course, and it has
    /// ended.
    pub open spec fn can_complete(self, index: usize, parent: ParentView, phase: JobPhase) -> bool {
        &&& self.in_flight.contains(index)
        &&& index < self.total()
        &&& self.parents[index as int] == parent
        &&& phase.finished()
    }

    /// The scheduler after the job of the course at `index` was yielded: it
    /// leaves the jobs in flight and becomes the last of those yielded.
    pub open spec fn complete(self, index: usize, phase: JobPhase) -> SchedulerView {
        SchedulerView {
            in_flight: self.in_flight.remove(self.in_flight.index_of(index)),
            completed: self.completed.push(
                Completion { index, partially_failed: phase == JobPhase::PartiallyFailed },
            ),
            ..self
        }
    }

    /// How many steps the pass still has to take: a start and an end for each
    /// pending job, and an end for each job in flight.
    pub open spec fn steps_left(self) -> nat {
        (2 * (self.total() - self.started) + self.in_flight.len()) as nat
    }

    /// The pass is over: every job was started and none is in flight.
    pub open spec fn pass_done(self) -> bool {
        self.started == self.total() && self.in_flight.len() == 0
    }

    /// Another pass can begin: the scheduler watches and the pass is over.
    pub open spec fn can_restart(self) -> bool {
        self.watch && self.pass_done()
    }

    /// The scheduler at the beginning of the next pass.
    pub open spec fn restart(self) -> SchedulerView {
        SchedulerView::initial(self.parents, self.limit, self.watch)
    }

    /// The scheduler after an event. An event that cannot happen in the state
    /// it meets changes nothing.
    pub open spec fn step(self, event: SchedulerEvent) -> SchedulerView {
        match event {
            SchedulerEvent::Start => if self.can_start() {
                self.start()
            } else {
                self
            },
            SchedulerEvent::Complete { index, parent, phase } => if self.can_complete(
                index,
                parent,
                phase,
            ) {
                self.complete(index, phase)
            } else {
                self
            },
            SchedulerEvent::NextPass => if self.can_restart() {
                self.restart()
            } else {
                self
            },
        }
    }

    /// The scheduler after a run of events, first to last.
    pub open spec fn run(self, events: Seq<SchedulerEvent>) -> SchedulerView
        decreases events.len(),
    {
        if events.len() == 0 {
            self
        } else {
            self.run(events.drop_last()).step(events.last())
        }
    }

    /// The phase of the job of the course at `index` in this pass; `None` for
    /// a position beyond the list.
    pub open spec fn phase_of(self, index: usize) -> Option<JobPhase> {
        if index >= self.total() {
            None
        } else if index >= self.started {
            Some(JobPhase::Pending)
        } else if self.in_flight.contains(index) {
            Some(JobPhase::InFlight)
        } else if self.yielded(index) {
            Some(
                self.completed[choose|k: int|
                    0 <= k < self.completed.len() && (#[trigger] self.completed[k]).index
                        == index].phase(),
            )
        } else {
            None
        }
    }
}

/// The scheduler of one list of courses.
#[derive(Debug)]
pub struct FanOutScheduler {
    parents: Vec<Parent>,
    limit: usize,
    watch: bool,
    started: usize,
    in_flight: Vec<usize>,
    completed: Vec<Completion>,
}

/// What a list of courses holds.
pub open spec fn views(parents: Seq<Parent>) -> Seq<ParentView> {
    parents.map_values(|p: Parent| p@)
}

impl View for FanOutScheduler {
    type V = SchedulerView;

    closed spec fn view(&self) -> SchedulerView {
        SchedulerView {
            parents: views(self.parents@),
            limit: self.limit as nat,
            watch: self.watch,
            started: self.started as nat,
            in_flight: self.in_flight@,
            completed: self.completed@,
        }
    }
}

/// The first position at which `value` stands in `list`, if it stands there at all.
fn position(list: &Vec<usize>, value: usize) -> (found: Option<usize>)
    ensures
        match found {
            Some(k) => k < list@.len() && list@[k as int] == value && forall|j: int|
                0 <= j < k ==> list@[j] != value,
            None => !list@.contains(value),
        },
{
    let mut k: usize = 0;
    while k < list.len()
        invariant
            k <= list@.len(),
            forall|j: int| 0 <= j < k ==> list@[j] != value,
        decreases list@.len() - k,
    {
        if list[k] == value {
            return Some(k);
        }
        k = k + 1;
    }
    None
}

/// The first position at which a job of the course at `index` stands in `list`.
fn yielded_at(list: &Vec<Completion>, index: usize) -> (found: Option<usize>)
    ensures
        match found {
            Some(k) => k < list@.len() && list@[k as int].index == index,
            None => forall|j: int| 0 <= j < list@.len() ==> (#[trigger] list@[j]).index != index,
        },
{
    let mut k: usize = 0;
    while k < list.len()
        invariant
            k <= list@.len(),
            forall|j: int| 0 <= j < k ==> (#[trigger] list@[j]).index != index,
        decreases list@.len() - k,
    {
        if list[k].index == index {
            return Some(k);
        }
        k = k + 1;
    }
    None
}

impl FanOutScheduler {
    #[verifier::type_invariant]
    spec fn inv(&self) -> bool {
        self@.wf()
    }

    /// A scheduler with nothing in it, to stand in while another is rebuilt.
    fn hollow() -> (s: FanOutScheduler)
        ensures
            s@ == SchedulerView::initial(Seq::<ParentView>::empty(), 0, false),
    {
        let s = FanOutScheduler {
            parents: Vec::new(),
            limit: 0,
            watch: false,
            started: 0,
            in_flight: Vec::new(),
            completed: Vec::new(),
        };
        s
    }

    /// A scheduler for the given courses that lets at most `limit` jobs be in
    /// flight at once. With a limit of 0 no job is ever started.
    pub fn new(parents: Vec<Parent>, limit: usize, watch: bool) -> (s: FanOutScheduler)
        ensures
            s@ == SchedulerView::initial(views(parents@), limit as nat, watch),
            s@.wf(),
    {
        // A list that a machine holds has a length that a machine can count.
        let _ = parents.len();
        FanOutScheduler {
            parents,
            limit,
            watch,
            started: 0,
            in_flight: Vec::new(),
            completed: Vec::new(),
        }
    }

    /// How many courses there are.
    pub fn total(&self) -> (n: usize)
        ensures
            n == self@.total(),
    {
        self.parents.len()
    }

    /// The course at `index`; `None` for a position beyond the list.
    pub fn parent(&self, index: usize) -> (p: Option<&Parent>)
        ensures
            p is Some <==> index < self@.total(),
            p is Some ==> p.unwrap()@ == self@.parents[index as int],
    {
        if index < self.parents.len() {
            Some(&self.parents[index])
        } else {
            None
        }
    }

    /// How many jobs may be in flight at once.
    pub fn limit(&self) -> (n: usize)
        ensures
            n == self@.limit,
    {
        self.limit
    }

    /// Whether a finished pass may be followed by another.
    pub fn watches(&self) -> (b: bool)
        ensures
            b == self@.watch,
    {
        self.watch
    }

    /// How many jobs are in flight. It is never more than the limit.
    pub fn in_flight_count(&self) -> (n: usize)
        ensures
            n == self@.in_flight.len(),
            n <= self@.limit,
    {
        proof {
            use_type_invariant(self);
        }
        self.in_flight.len()
    }

    /// How many jobs were yielded in this pass.
    pub fn completed_count(&self) -> (n: usize)
        ensures
            n == self@.completed.len(),
    {
        self.completed.len()
    }

    /// How many jobs of this pass are still pending.
    pub fn pending_count(&self) -> (n: usize)
        ensures
            n == self@.total() - self@.started,
    {
        proof {
            use_type_invariant(self);
        }
        self.parents.len() - self.started
    }

    /// Hands out the next job to run, if one may be started now.
    ///
    /// A job is handed out when one is pending and fewer jobs than the limit
    /// are in flight. It is the job of the first course not started yet; it
    /// comes started, with nothing delivered, and counts as in flight from
    /// then on. Otherwise nothing changes.
    pub fn start_next<T>(&mut self) -> (handed: Option<(usize, FetchJob<T>)>)
        ensures
            final(self)@.wf(),
            final(self)@ == old(self)@.step(SchedulerEvent::Start),
            match handed {
                Some((index, job)) => {
                    &&& old(self)@.can_start()
                    &&& index == old(self)@.started
                    &&& final(self)@ == old(self)@.start()
                    &&& job@ == JobView::<T>::fresh(old(self)@.parents[index as int]).begun()
                    &&& job@.phase() == JobPhase::InFlight
                },
                None => !old(self)@.can_start() && final(self)@ == old(self)@,
            },
    {
        proof {
            use_type_invariant(&*self);
            lemma_step_keeps_wf(old(self)@, SchedulerEvent::Start);
        }
        if self.started < self.parents.len() && self.in_flight.len() < self.limit {
            let mut job: FetchJob<T> = FetchJob::new(self.parents[self.started].clone());
            let _ = job.start();
            // Taken apart and put together again as a whole, so that the
            // scheduler is never seen half-changed.
            let mut taken = FanOutScheduler::hollow();
            std::mem::swap(self, &mut taken);
            let FanOutScheduler { parents, limit, watch, started, in_flight, completed } = taken;
            let mut in_flight = in_flight;
            in_flight.push(started);
            *self = FanOutScheduler {
                parents,
                limit,
                watch,
                started: started + 1,
                in_flight,
                completed,
            };
            Some((started, job))
        } else {
            None
        }
    }

    /// Takes back the job of the course at `index` when it has ended, and
    /// yields its record.
    ///
    /// The job is taken when the job of that course is in flight, the job
    /// brought back was made for that course, and every category has been
    /// delivered to it. The course then leaves the jobs in flight and becomes
    /// the last entry of the completion order, behind every course yielded
    /// before, and the job's record is returned. Otherwise nothing changes and
    /// the job comes back as it is.
    pub fn complete<T>(&mut self, index: usize, job: FetchJob<T>) -> (yielded: Result<
        AggregatedRecord<T>,
        FetchJob<T>,
    >)
        ensures
            final(self)@.wf(),
            final(self)@ == old(self)@.step(
                SchedulerEvent::Complete { index, parent: job@.parent, phase: job@.phase() },
            ),
            match yielded {
                Ok(record) => {
                    &&& old(self)@.can_complete(index, job@.parent, job@.phase())
                    &&& final(self)@ == old(self)@.complete(index, job@.phase())
                    &&& final(self)@.completed == old(self)@.completed.push(
                        Completion {
                            index,
                            partially_failed: job@.phase() == JobPhase::PartiallyFailed,
                        },
                    )
                    &&& record@ == job@.record()
                    &&& record@.parent == old(self)@.parents[index as int]
                    &&& record@.wf()
                },
                Err(back) => {
                    &&& !old(self)@.can_complete(index, job@.parent, job@.phase())
                    &&& final(self)@ == old(self)@
                    &&& back@ == job@
                },
            },
    {
        proof {
            use_type_invariant(&*self);
            lemma_step_keeps_wf(
                old(self)@,
                SchedulerEvent::Complete { index, parent: job@.parent, phase: job@.phase() },
            );
        }
        let phase = job.phase();
        if !phase.is_finished() {
            return Err(job);
        }
        let at = match position(&self.in_flight, index) {
            Some(k) => k,
            None => {
                return Err(job);
            },
        };
        if !self.parents[index].same_as(job.parent()) {
            return Err(job);
        }
        let record = match job.into_record() {
            Ok(record) => record,
            Err(back) => {
                return Err(back);
            },
        };
        let partially_failed = match phase {
            JobPhase::PartiallyFailed => true,
            _ => false,
        };
        let mut taken = FanOutScheduler::hollow();
        std::mem::swap(self, &mut taken);
        let FanOutScheduler { parents, limit, watch, started, in_flight, completed } = taken;
        let mut in_flight = in_flight;
        let mut completed = completed;
        let _ = in_flight.remove(at);
        completed.push(Completion { index, partially_failed });
        *self = FanOutScheduler { parents, limit, watch, started, in_flight, completed };
        Ok(record)
    }

    /// Whether the pass is over: every job was started and none is in flight.
    pub fn pass_finished(&self) -> (b: bool)
        ensures
            b == self@.pass_done(),
    {
        self.started == self.parents.len() && self.in_flight.len() == 0
    }

    /// Begins the next pass, if the scheduler watches and the pass is over:
    /// every job is pending again and nothing is yielded yet. Otherwise nothing
    /// changes. Returns whether a new pass began.
    pub fn next_pass(&mut self) -> (began: bool)
        ensures
            final(self)@.wf(),
            final(self)@ == old(self)@.step(SchedulerEvent::NextPass),
            began == old(self)@.can_restart(),
            began ==> final(self)@ == old(self)@.restart(),
            !began ==> final(self)@ == old(self)@,
    {
        proof {
            use_type_invariant(&*self);
        }
        if self.watch && self.pass_finished() {
            let mut taken = FanOutScheduler::hollow();
            std::mem::swap(self, &mut taken);
            let FanOutScheduler { parents, limit, watch, started, in_flight, completed } = taken;
            *self = FanOutScheduler::new(parents, limit, watch);
            true
        } else {
            false
        }
    }

    /// The courses whose jobs were yielded in this pass, in completion order.
    pub fn completion_order(&self) -> (order: Vec<usize>)
        ensures
            order@ == self@.order(),
    {
        let mut order: Vec<usize> = Vec::new();
        let mut k: usize = 0;
        while k < self.completed.len()
            invariant
                k <= self.completed@.len(),
                order@.len() == k,
                forall|j: int| 0 <= j < k ==> order@[j] == (#[trigger] self.completed@[j]).index,
            decreases self.completed@.len() - k,
        {
            order.push(self.completed[k].index);
            k = k + 1;
        }
        order
    }

    /// The jobs yielded in this pass, in completion order.
    pub fn completions(&self) -> (list: &Vec<Completion>)
        ensures
            list@ == self@.completed,
    {
        &self.completed
    }

    /// The phase of the job of the course at `index` in this pass; `None` for
    /// a position beyond the list.
    pub fn phase_of(&self, index: usize) -> (phase: Option<JobPhase>)
        ensures
            phase == self@.phase_of(index),
            phase is Some <==> index < self@.total(),
    {
        proof {
            use_type_invariant(self);
        }
        if index >= self.parents.len() {
            return None;
        }
        if index >= self.started {
            return Some(JobPhase::Pending);
        }
        if position(&self.in_flight, index).is_some() {
            return Some(JobPhase::InFlight);
        }
        proof {
            lemma_started_job_is_accounted_for(self@, index);
        }
        match yielded_at(&self.completed, index) {
            Some(k) => {
                let entry = self.completed[k];
                if entry.partially_failed {
                    Some(JobPhase::PartiallyFailed)
                } else {
                    Some(JobPhase::Complete)
                }
            },
            None => None,
        }
    }
}

/// The positions below `n`.
spec fn below(n: nat) -> Set<usize> {
    Set::new(|i: usize| i < n)
}

/// There are `n` positions below `n`.
proof fn lemma_below_is_finite(n: nat)
    requires
        n <= usize::MAX + 1,
    ensures
        below(n).finite(),
        below(n).len() == n,
    decreases n,
{
    if n == 0 {
        assert(below(n) =~= Set::<usize>::empty());
    } else {
        lemma_below_is_finite((n - 1) as nat);
        let last = (n - 1) as usize;
        assert(below(n) =~= below((n - 1) as nat).insert(last));
    }
}

/// In a well-formed scheduler every started job is in flight or was yielded.
proof fn lemma_started_job_is_accounted_for(s: SchedulerView, index: usize)
    requires
        s.wf(),
        index < s.started,
    ensures
        s.in_flight.contains(index) || s.yielded(index),
{
    // The jobs in flight and the jobs yielded are `started` different
    // positions below `started`: so they are all of them.
    let both = s.in_flight + s.order();
    assert(both.no_duplicates());
    both.unique_seq_to_set();
    vstd::seq_lib::seq_to_set_is_finite(both);
    lemma_below_is_finite(s.started);
    assert(both.to_set().subset_of(below(s.started)));
    vstd::set_lib::lemma_subset_equality(both.to_set(), below(s.started));
    assert(both.to_set().contains(index));
}

/// Every event keeps a well-formed scheduler well formed; in particular no
/// event takes the number of jobs in flight above the limit.
pub proof fn lemma_step_keeps_wf(s: SchedulerView, event: SchedulerEvent)
    requires
        s.wf(),
    ensures
        s.step(event).wf(),
        s.step(event).in_flight.len() <= s.step(event).limit,
        s.step(event).limit == s.limit,
        s.step(event).parents == s.parents,
        s.step(event).watch == s.watch,
{
    match event {
        SchedulerEvent::Complete { index, parent, phase } => {
            if s.can_complete(index, parent, phase) {
                s.in_flight.remove_ensures(s.in_flight.index_of(index));
            }
        },
        _ => {},
    }
}

/// The bound on concurrency. Whatever events reach a scheduler made for a
/// limit, in whatever order, the number of jobs in flight never exceeds that
/// limit, and the scheduler stays well formed.
pub proof fn lemma_in_flight_never_exceeds_limit(
    parents: Seq<ParentView>,
    limit: nat,
    watch: bool,
    events: Seq<SchedulerEvent>,
)
    requires
        parents.len() <= usize::MAX,
    ensures
        SchedulerView::initial(parents, limit, watch).run(events).wf(),
        SchedulerView::initial(parents, limit, watch).run(events).in_flight.len() <= limit,
        SchedulerView::initial(parents, limit, watch).run(events).limit == limit,
        SchedulerView::initial(parents, limit, watch).run(events).parents == parents,
        SchedulerView::initial(parents, limit, watch).run(events).watch == watch,
    decreases events.len(),
{
    let first = SchedulerView::initial(parents, limit, watch);
    if events.len() > 0 {
        lemma_in_flight_never_exceeds_limit(parents, limit, watch, events.drop_last());
        lemma_step_keeps_wf(first.run(events.drop_last()), events.last());
    }
}

/// Jobs are yielded in completion order. A job that is taken back is put
/// behind every job yielded before, which stay as they were, and it had not
/// been yielded in this pass before; any other event within a pass leaves the
/// completion order as it was. So the order in which jobs are yielded is
/// the order in which they came back, whatever the order of the courses in
/// the list.
pub proof fn lemma_yields_follow_completion(s: SchedulerView, event: SchedulerEvent)
    requires
        s.wf(),
    ensures
        match event {
            SchedulerEvent::Start => s.step(event).completed == s.completed,
            SchedulerEvent::Complete { index, parent, phase } => if s.can_complete(
                index,
                parent,
                phase,
            ) {
                &&& s.step(event).order() == s.order().push(index)
                &&& s.step(event).completed.last().phase() == phase
                &&& !s.yielded(index)
            } else {
                s.step(event).completed == s.completed
            },
            SchedulerEvent::NextPass => if s.can_restart() {
                s.step(event).completed.len() == 0
            } else {
                s.step(event).completed == s.completed
            },
        },
{
}

/// A job holds its place until it is brought back. A job in flight stays in
/// flight, and goes on counting against the limit, through every event but
/// the one that takes that very job back; nothing else ends it, however long
/// it takes.
pub proof fn lemma_job_holds_its_place(s: SchedulerView, event: SchedulerEvent, index: usize)
    requires
        s.wf(),
        s.in_flight.contains(index),
    ensures
        s.step(event).in_flight.contains(index) <==> !(event matches SchedulerEvent::Complete {
            index: brought,
            parent,
            phase,
        } && brought == index && s.can_complete(brought, parent, phase)),
{
    let at = s.in_flight.index_of(index);
    match event {
        SchedulerEvent::Start => {
            if s.can_start() {
                assert(s.start().in_flight[at] == index);
            }
        },
        SchedulerEvent::Complete { index: brought, parent, phase } => {
            if s.can_complete(brought, parent, phase) {
                let gone = s.in_flight.index_of(brought);
                let after = s.complete(brought, phase).in_flight;
                s.in_flight.remove_ensures(gone);
                if brought == index {
                    // No job is in flight twice, so with this one gone none is left.
                } else if at < gone {
                    assert(after[at] == index);
                } else {
                    assert(after[at - 1] == index);
                }
            }
        },
        SchedulerEvent::NextPass => {},
    }
}

/// The scheduler itself never blocks a pass. With a limit of at least 1, as
/// long as the pass is not over, a job can be started or a job is in flight
/// that can be brought back.
pub proof fn lemma_pass_can_go_on(s: SchedulerView)
    requires
        s.wf(),
        s.limit >= 1,
        !s.pass_done(),
    ensures
        s.can_start() || s.in_flight.len() > 0,
{
}

/// Every pass ends. A pass is over exactly when it has no step left to take;
/// each job that is started and each job that is taken back brings the pass
/// one step nearer to its end, and no other event within a pass changes
/// anything. So a pass over a list of courses takes two steps for each course.
pub proof fn lemma_every_step_counts(s: SchedulerView, event: SchedulerEvent)
    requires
        s.wf(),
    ensures
        s.pass_done() <==> s.steps_left() == 0,
        SchedulerView::initial(s.parents, s.limit, s.watch).steps_left() == 2 * s.total(),
        s.step(event) == s || (event is NextPass && s.can_restart()) || s.step(event).steps_left()
            + 1 == s.steps_left(),
{
    match event {
        SchedulerEvent::Complete { index, parent, phase } => {
            if s.can_complete(index, parent, phase) {
                s.in_flight.remove_ensures(s.in_flight.index_of(index));
            }
        },
        _ => {},
    }
}

/// A pass yields every course exactly once. When a pass is over, as many jobs
/// were yielded as there are courses, no course was yielded twice, and every
/// course of the list is among them.
pub proof fn lemma_finished_pass_yields_every_course(s: SchedulerView)
    requires
        s.wf(),
        s.pass_done(),
    ensures
        s.completed.len() == s.total(),
        s.order().no_duplicates(),
        forall|index: usize| index < s.total() <==> s.yielded(index),
{
    assert forall|index: usize| index < s.total() implies s.yielded(index) by {
        lemma_started_job_is_accounted_for(s, index);
    }
}

} // verus!
