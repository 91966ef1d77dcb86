//! The fetch job of one course: it is pending until it is started, in flight
//! while its five category fetches are out, and finished once every category
//! has been delivered. The categories may be delivered in any order. A job never
//! fails as a whole: with every category failed it still ends, as partially
//! failed, with five absent collections.

use vstd::prelude::*;
use vstd::pervasive::unreached;
use crate::aggregator::assemble;
use crate::aggregator::holds;
use crate::aggregator::views;
use crate::fetcher::collect;
use crate::fetcher::collected;
use crate::fetcher::merged;
use crate::fetcher::CategoryOutcomes;
use crate::model::AggregatedRecord;
use crate::model::CollectionView;
use crate::model::Parent;
use crate::model::ParentView;
use crate::model::RecordView;
use crate::model::SubResourceCategory;
use crate::model::SubResourceCollection;

verus! {

/// Where a fetch job stands in its life.
#[derive(Clone, Copy, Debug, PartialEq, Eq, Structural)]
pub enum JobPhase {
    /// Not started yet.
    Pending,
    /// Started, with at least one category still out.
    InFlight,
    /// Every category delivered, none of them failed.
    Complete,
    /// Every category delivered, at least one of them failed.
    PartiallyFailed,
}

impl JobPhase {
    /// Whether the job has ended, one way or the other.
    pub open spec fn finished(self) -> bool {
        self == JobPhase::Complete || self == JobPhase::PartiallyFailed
    }

    /// How far along the phase is: pending, then in flight, then finished.
    pub open spec fn progress(self) -> nat {
        match self {
            JobPhase::Pending => 0,
            JobPhase::InFlight => 1,
            JobPhase::Complete => 2,
            JobPhase::PartiallyFailed => 2,
        }
    }

    /// Whether the job has ended, one way or the other.
    pub fn is_finished(self) -> (b: bool)
        ensures
            b == self.finished(),
    {
        match self {
            JobPhase::Pending => false,
            JobPhase::InFlight => false,
            JobPhase::Complete => true,
            JobPhase::PartiallyFailed => true,
        }
    }
}

/// What a `FetchJob` holds: the course, whether the job was started, and for
/// each category the collection delivered so far, if any.
#[verifier::ext_equal]
pub struct JobView<T> {
    pub parent: ParentView,
    pub started: bool,
    pub announcements: Option<CollectionView<T>>,
    pub course_work: Option<CollectionView<T>>,
    pub materials: Option<CollectionView<T>>,
    pub teachers: Option<CollectionView<T>>,
    pub topics: Option<CollectionView<T>>,
}

impl<T> JobView<T> {
    /// The job of a course before anything has happened to it.
    pub open spec fn fresh(parent: ParentView) -> JobView<T> {
        JobView {
            parent,
            started: false,
            announcements: None,
            course_work: None,
            materials: None,
            teachers: None,
            topics: None,
        }
    }

    /// What has been delivered for a category.
    pub open spec fn slot(self, category: SubResourceCategory) -> Option<CollectionView<T>> {
        match category {
            SubResourceCategory::Announcements => self.announcements,
            SubResourceCategory::CourseWork => self.course_work,
            SubResourceCategory::Materials => self.materials,
            SubResourceCategory::Teachers => self.teachers,
            SubResourceCategory::Topics => self.topics,
        }
    }

    /// The job with one category's place set to `value`, the rest as it was.
    pub open spec fn with_slot(
        self,
        category: SubResourceCategory,
        value: Option<CollectionView<T>>,
    ) -> JobView<T> {
        match category {
            SubResourceCategory::Announcements => JobView { announcements: value, ..self },
            SubResourceCategory::CourseWork => JobView { course_work: value, ..self },
            SubResourceCategory::Materials => JobView { materials: value, ..self },
            SubResourceCategory::Teachers => JobView { teachers: value, ..self },
            SubResourceCategory::Topics => JobView { topics: value, ..self },
        }
    }

    /// Every category has been delivered.
    pub open spec fn all_filled(self) -> bool {
        &&& self.announcements is Some
        &&& self.course_work is Some
        &&& self.materials is Some
        &&& self.teachers is Some
        &&& self.topics is Some
    }

    /// No category has been delivered.
    pub open spec fn none_filled(self) -> bool {
        &&& self.announcements is None
        &&& self.course_work is None
        &&& self.materials is None
        &&& self.teachers is None
        &&& self.topics is None
    }

    /// Every delivered collection is present.
    pub open spec fn none_failed(self) -> bool {
        &&& self.announcements is Some ==> self.announcements.unwrap().present
        &&& self.course_work is Some ==> self.course_work.unwrap().present
        &&& self.materials is Some ==> self.materials.unwrap().present
        &&& self.teachers is Some ==> self.teachers.unwrap().present
        &&& self.topics is Some ==> self.topics.unwrap().present
    }

    /// The phase that the job is in.
    pub open spec fn phase(self) -> JobPhase {
        if !self.started {
            JobPhase::Pending
        } else if !self.all_filled() {
            JobPhase::InFlight
        } else if self.none_failed() {
            JobPhase::Complete
        } else {
            JobPhase::PartiallyFailed
        }
    }

    /// Nothing is delivered to a job that was not started, and what has been
    /// delivered for a category is a well-formed collection of that category.
    pub open spec fn wf(self) -> bool {
        &&& !self.started ==> self.none_filled()
        &&& forall|c: SubResourceCategory| (#[trigger] self.slot(c)) is Some ==> self.slot(c).unwrap().category == c
                && self.slot(c).unwrap().wf()
    }

    /// The job after it was started. Starting a started job changes nothing.
    pub open spec fn begun(self) -> JobView<T> {
        JobView { started: true, ..self }
    }

    /// Whether a delivery for the category is taken: the job is started and
    /// nothing was delivered for the category before.
    pub open spec fn accepts(self, category: SubResourceCategory) -> bool {
        self.started && self.slot(category) is None
    }

    /// The job after `value` was delivered for a category. A delivery that is
    /// not taken changes nothing.
    pub open spec fn delivered(self, category: SubResourceCategory, value: CollectionView<T>) -> JobView<T> {
        if self.accepts(category) {
            self.with_slot(category, Some(value))
        } else {
            self
        }
    }

    /// The record of a job whose every category has been delivered.
    pub open spec fn record(self) -> RecordView<T>
        recommends
            self.all_filled(),
    {
        RecordView {
            parent: self.parent,
            announcements: self.announcements.unwrap(),
            course_work: self.course_work.unwrap(),
            materials: self.materials.unwrap(),
            teachers: self.teachers.unwrap(),
            topics: self.topics.unwrap(),
        }
    }

    /// The job after the outcomes of the categories in `order` were delivered
    /// one after the other, first to last.
    pub open spec fn delivered_in_order<E>(
        self,
        order: Seq<SubResourceCategory>,
        outcomes: CategoryOutcomes<T, E>,
    ) -> JobView<T>
        decreases order.len(),
    {
        if order.len() == 0 {
            self
        } else {
            self.delivered_in_order(order.drop_last(), outcomes).delivered(
                order.last(),
                collected(order.last(), outcomes.slot(order.last())),
            )
        }
    }
}

/// The fetch job of one course.
#[derive(Debug)]
pub struct FetchJob<T> {
    parent: Parent,
    started: bool,
    announcements: Option<SubResourceCollection<T>>,
    course_work: Option<SubResourceCollection<T>>,
    materials: Option<SubResourceCollection<T>>,
    teachers: Option<SubResourceCollection<T>>,
    topics: Option<SubResourceCollection<T>>,
}

/// The view of a place that may hold a collection.
pub open spec fn slot_view<T>(slot: Option<SubResourceCollection<T>>) -> Option<CollectionView<T>> {
    match slot {
        Some(c) => Some(c@),
        None => None,
    }
}

/// A place is empty or holds a well-formed collection of its category.
spec fn slot_fits<T>(slot: Option<SubResourceCollection<T>>, category: SubResourceCategory) -> bool {
    match slot {
        Some(c) => c@.category == category && c@.wf(),
        None => true,
    }
}

impl<T> View for FetchJob<T> {
    type V = JobView<T>;

    closed spec fn view(&self) -> JobView<T> {
        JobView {
            parent: self.parent@,
            started: self.started,
            announcements: slot_view(self.announcements),
            course_work: slot_view(self.course_work),
            materials: slot_view(self.materials),
            teachers: slot_view(self.teachers),
            topics: slot_view(self.topics),
        }
    }
}

impl<T> FetchJob<T> {
    #[verifier::type_invariant]
    spec fn inv(&self) -> bool {
        &&& !self.started ==> self@.none_filled()
        &&& slot_fits(self.announcements, SubResourceCategory::Announcements)
        &&& slot_fits(self.course_work, SubResourceCategory::CourseWork)
        &&& slot_fits(self.materials, SubResourceCategory::Materials)
        &&& slot_fits(self.teachers, SubResourceCategory::Teachers)
        &&& slot_fits(self.topics, SubResourceCategory::Topics)
    }

    /// The pending job of a course.
    pub fn new(parent: Parent) -> (job: FetchJob<T>)
        ensures
            job@ == JobView::<T>::fresh(parent@),
            job@.phase() == JobPhase::Pending,
    {
        FetchJob {
            parent,
            started: false,
            announcements: None,
            course_work: None,
            materials: None,
            teachers: None,
            topics: None,
        }
    }

    /// The course that the job fetches for.
    pub fn parent(&self) -> (p: &Parent)
        ensures
            p@ == self@.parent,
    {
        &self.parent
    }

    /// Starts the job. Returns whether it was pending; a job that was started
    /// before stays as it is.
    pub fn start(&mut self) -> (was_pending: bool)
        ensures
            was_pending == (old(self)@.phase() == JobPhase::Pending),
            final(self)@ == old(self)@.begun(),
            final(self)@.wf(),
    {
        proof {
            use_type_invariant(&*self);
        }
        let was_pending = !self.started;
        self.started = true;
        was_pending
    }

    /// Whether something was delivered for `category`.
    pub fn has(&self, category: SubResourceCategory) -> (b: bool)
        ensures
            b == self@.slot(category) is Some,
    {
        match category {
            SubResourceCategory::Announcements => self.announcements.is_some(),
            SubResourceCategory::CourseWork => self.course_work.is_some(),
            SubResourceCategory::Materials => self.materials.is_some(),
            SubResourceCategory::Teachers => self.teachers.is_some(),
            SubResourceCategory::Topics => self.topics.is_some(),
        }
    }

    /// Delivers the outcome of one category's fetch.
    ///
    /// The delivery is taken when the job is started and nothing was delivered
    /// for the category before; the category's place then holds what the outcome
    /// stands for, and no other place changes. Otherwise the outcome is dropped
    /// and the job stays as it is. Returns whether the delivery was taken.
    pub fn deliver<E>(
        &mut self,
        category: SubResourceCategory,
        outcome: Result<Option<Vec<T>>, E>,
    ) -> (taken: bool)
        ensures
            taken == old(self)@.accepts(category),
            final(self)@ == old(self)@.delivered(category, collected(category, outcome)),
            final(self)@.wf(),
    {
        proof {
            use_type_invariant(&*self);
        }
        if !self.started || self.has(category) {
            return false;
        }
        let collection = collect(category, outcome);
        match category {
            SubResourceCategory::Announcements => {
                self.announcements = Some(collection);
            },
            SubResourceCategory::CourseWork => {
                self.course_work = Some(collection);
            },
            SubResourceCategory::Materials => {
                self.materials = Some(collection);
            },
            SubResourceCategory::Teachers => {
                self.teachers = Some(collection);
            },
            SubResourceCategory::Topics => {
                self.topics = Some(collection);
            },
        }
        true
    }

    /// The phase that the job is in.
    pub fn phase(&self) -> (p: JobPhase)
        ensures
            p == self@.phase(),
            self@.wf(),
    {
        proof {
            use_type_invariant(self);
        }
        if !self.started {
            return JobPhase::Pending;
        }
        match (
            &self.announcements,
            &self.course_work,
            &self.materials,
            &self.teachers,
            &self.topics,
        ) {
            (Some(a), Some(w), Some(m), Some(t), Some(p)) => {
                if a.is_present() && w.is_present() && m.is_present() && t.is_present()
                    && p.is_present() {
                    JobPhase::Complete
                } else {
                    JobPhase::PartiallyFailed
                }
            },
            _ => JobPhase::InFlight,
        }
    }

    /// Whether every category has been delivered.
    pub fn is_finished(&self) -> (b: bool)
        ensures
            b == self@.phase().finished(),
            b == (self@.started && self@.all_filled()),
    {
        self.phase().is_finished()
    }

    /// Gives up a finished job for its record, which the five delivered
    /// collections are assembled into. A job that is not finished comes back
    /// unchanged.
    pub fn into_record(self) -> (r: Result<AggregatedRecord<T>, FetchJob<T>>)
        ensures
            match r {
                Ok(record) => self@.phase().finished() && record@ == self@.record() && record@.wf(),
                Err(job) => !self@.phase().finished() && job@ == self@,
            },
    {
        proof {
            use_type_invariant(&self);
        }
        if !self.is_finished() {
            return Err(self);
        }
        let FetchJob { parent, started: _, announcements, course_work, materials, teachers, topics } =
            self;
        let mut collections: Vec<SubResourceCollection<T>> = Vec::new();
        collections.push(announcements.unwrap());
        collections.push(course_work.unwrap());
        collections.push(materials.unwrap());
        collections.push(teachers.unwrap());
        collections.push(topics.unwrap());
        proof {
            // The five stand in the order of their categories.
            let all = collections@;
            let held = views(all);
            assert(held[0] == all[0]@ && all[0]@.category == SubResourceCategory::Announcements);
            assert(held[1] == all[1]@ && all[1]@.category == SubResourceCategory::CourseWork);
            assert(held[2] == all[2]@ && all[2]@.category == SubResourceCategory::Materials);
            assert(held[3] == all[3]@ && all[3]@.category == SubResourceCategory::Teachers);
            assert(held[4] == all[4]@ && all[4]@.category == SubResourceCategory::Topics);
        }
        match assemble(parent, collections) {
            Some(record) => Ok(record),
            None => unreached(),
        }
    }
}

/// A job moves forward only: starting it or delivering to it never takes its
/// phase back, a started job takes every delivery for a category that has
/// none yet, and a well-formed job stays well formed when a well-formed
/// collection of the right category is delivered.
pub proof fn lemma_job_moves_forward<T>(
    job: JobView<T>,
    category: SubResourceCategory,
    value: CollectionView<T>,
)
    requires
        job.wf(),
        value.category == category,
        value.wf(),
    ensures
        JobView::<T>::fresh(job.parent).phase() == JobPhase::Pending,
        JobView::<T>::fresh(job.parent).wf(),
        job.begun().wf(),
        job.begun().phase().progress() >= job.phase().progress(),
        job.phase() == JobPhase::Pending ==> job.begun().phase() == JobPhase::InFlight,
        job.delivered(category, value).wf(),
        job.delivered(category, value).phase().progress() >= job.phase().progress(),
        job.phase() == JobPhase::Pending ==> job.delivered(category, value) == job,
        job.phase().finished() ==> job.delivered(category, value) == job,
        job.accepts(category) ==> job.delivered(category, value).slot(category) == Some(value),
        forall|other: SubResourceCategory|
            other != category ==> #[trigger] job.delivered(category, value).slot(other) == job.slot(
                other,
            ),
{
    let after = job.delivered(category, value);
    assert forall|c: SubResourceCategory| (#[trigger] after.slot(c)) is Some implies after.slot(
        c,
    ).unwrap().category == c && after.slot(c).unwrap().wf() by {
        if c != category {
            assert(after.slot(c) == job.slot(c));
        }
    }
    assert forall|c: SubResourceCategory| #[trigger] job.begun().slot(c) == job.slot(c) by {}
}

/// Deliveries for two different categories can come in either order: the job
/// ends up the same.
pub proof fn lemma_deliveries_commute<T>(
    job: JobView<T>,
    first: SubResourceCategory,
    first_value: CollectionView<T>,
    second: SubResourceCategory,
    second_value: CollectionView<T>,
)
    requires
        first != second,
    ensures
        job.delivered(first, first_value).delivered(second, second_value) == job.delivered(
            second,
            second_value,
        ).delivered(first, first_value),
{
}

/// Of two deliveries for one category, the first one stands.
pub proof fn lemma_first_delivery_stands<T>(
    job: JobView<T>,
    category: SubResourceCategory,
    first_value: CollectionView<T>,
    second_value: CollectionView<T>,
)
    requires
        job.accepts(category),
    ensures
        job.delivered(category, first_value).delivered(category, second_value) == job.delivered(
            category,
            first_value,
        ),
{
}

/// After the outcomes of some categories were delivered to a started job
/// that held nothing, each category named in the order holds what its outcome
/// stands for and every other category holds nothing.
pub proof fn lemma_deliveries_fill<T, E>(
    parent: ParentView,
    order: Seq<SubResourceCategory>,
    outcomes: CategoryOutcomes<T, E>,
)
    ensures
        JobView::<T>::fresh(parent).begun().delivered_in_order(order, outcomes).started,
        JobView::<T>::fresh(parent).begun().delivered_in_order(order, outcomes).parent == parent,
        JobView::<T>::fresh(parent).begun().delivered_in_order(order, outcomes).wf(),
        forall|c: SubResourceCategory|
            #[trigger] JobView::<T>::fresh(parent).begun().delivered_in_order(order, outcomes).slot(c)
                == if order.contains(c) {
                Some(collected(c, outcomes.slot(c)))
            } else {
                None
            },
    decreases order.len(),
{
    let start = JobView::<T>::fresh(parent).begun();
    let end = start.delivered_in_order(order, outcomes);
    if order.len() > 0 {
        let last = order.last();
        let before = start.delivered_in_order(order.drop_last(), outcomes);
        lemma_deliveries_fill(parent, order.drop_last(), outcomes);
        assert(end == before.delivered(last, collected(last, outcomes.slot(last))));
        assert forall|c: SubResourceCategory| #[trigger]
            end.slot(c) == if order.contains(c) {
                Some(collected(c, outcomes.slot(c)))
            } else {
                None
            } by {
            // A category is named in the order exactly when it is the last
            // one named or is named before the last.
            if order.drop_last().contains(c) {
                let k = choose|k: int| 0 <= k < order.drop_last().len() && order.drop_last()[k] == c;
                assert(order[k] == c);
            }
            if c == last {
                assert(order[order.len() - 1] == c);
            }
            if order.contains(c) && c != last {
                let k = choose|k: int| 0 <= k < order.len() && order[k] == c;
                assert(order.drop_last()[k] == c);
            }
        }
    }
}

/// The order in which the categories complete does not matter. Once the
/// outcomes of all five categories have been delivered to a started job, in any
/// order, the job is finished and its record is the one merged from the
/// outcomes; it is complete when no fetch failed and partially failed
/// otherwise, also when every fetch failed.
pub proof fn lemma_any_order_gives_merged_record<T, E>(
    parent: ParentView,
    order: Seq<SubResourceCategory>,
    outcomes: CategoryOutcomes<T, E>,
)
    requires
        forall|c: SubResourceCategory| order.contains(c),
    ensures
        JobView::<T>::fresh(parent).begun().delivered_in_order(order, outcomes).phase().finished(),
        JobView::<T>::fresh(parent).begun().delivered_in_order(order, outcomes).record() == merged(
            parent,
            outcomes,
        ),
        JobView::<T>::fresh(parent).begun().delivered_in_order(order, outcomes).phase()
            == JobPhase::Complete <==> forall|c: SubResourceCategory| !#[trigger] outcomes.failed(c),
{
    let end = JobView::<T>::fresh(parent).begun().delivered_in_order(order, outcomes);
    lemma_deliveries_fill(parent, order, outcomes);
    assert(end.slot(SubResourceCategory::Announcements) is Some);
    assert(end.slot(SubResourceCategory::CourseWork) is Some);
    assert(end.slot(SubResourceCategory::Materials) is Some);
    assert(end.slot(SubResourceCategory::Teachers) is Some);
    assert(end.slot(SubResourceCategory::Topics) is Some);
    if forall|c: SubResourceCategory| !#[trigger] outcomes.failed(c) {
        assert(!outcomes.failed(SubResourceCategory::Announcements));
        assert(!outcomes.failed(SubResourceCategory::CourseWork));
        assert(!outcomes.failed(SubResourceCategory::Materials));
        assert(!outcomes.failed(SubResourceCategory::Teachers));
        assert(!outcomes.failed(SubResourceCategory::Topics));
    }
}

} // verus!
