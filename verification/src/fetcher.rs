//! The failure policy of the per-course fetch: each category's fetch ends on
//! its own, with items or with an error, and an error becomes an empty
//! collection that is marked as not present. No error reaches the record as a
//! whole, and no category's outcome touches another's.

use vstd::prelude::*;
use crate::model::AggregatedRecord;
use crate::model::CollectionView;
use crate::model::Parent;
use crate::model::ParentView;
use crate::model::RecordView;
use crate::model::SubResourceCategory;
use crate::model::SubResourceCollection;

verus! {

/// The collection that one fetch outcome stands for.
///
/// A fetch that returned a list gives that list, in its order; one that
/// succeeded without a list gives a present, empty collection; one that failed
/// gives the absent collection, whatever the error was.
pub open spec fn collected<T, E>(
    category: SubResourceCategory,
    outcome: Result<Option<Vec<T>>, E>,
) -> CollectionView<T> {
    match outcome {
        Ok(Some(items)) => CollectionView::filled(category, items@),
        Ok(None) => CollectionView::filled(category, Seq::<T>::empty()),
        Err(_) => CollectionView::absent(category),
    }
}

/// Turns the outcome of one category's fetch into that category's collection.
/// The error of a failed fetch is dropped here and goes no further.
pub fn collect<T, E>(category: SubResourceCategory, outcome: Result<Option<Vec<T>>, E>) -> (c:
    SubResourceCollection<T>)
    ensures
        c@ == collected(category, outcome),
        c@.category == category,
        c@.present <==> outcome is Ok,
        c@.wf(),
{
    match outcome {
        Ok(Some(items)) => SubResourceCollection::filled(category, items),
        Ok(None) => SubResourceCollection::filled(category, Vec::new()),
        Err(_) => SubResourceCollection::absent(category),
    }
}

/// The outcomes of the five fetches made for one course, one per category.
pub struct CategoryOutcomes<T, E> {
    pub announcements: Result<Option<Vec<T>>, E>,
    pub course_work: Result<Option<Vec<T>>, E>,
    pub materials: Result<Option<Vec<T>>, E>,
    pub teachers: Result<Option<Vec<T>>, E>,
    pub topics: Result<Option<Vec<T>>, E>,
}

impl<T, E> CategoryOutcomes<T, E> {
    /// The outcome of the fetch for a category.
    pub open spec fn slot(self, category: SubResourceCategory) -> Result<Option<Vec<T>>, E> {
        match category {
            SubResourceCategory::Announcements => self.announcements,
            SubResourceCategory::CourseWork => self.course_work,
            SubResourceCategory::Materials => self.materials,
            SubResourceCategory::Teachers => self.teachers,
            SubResourceCategory::Topics => self.topics,
        }
    }

    /// Whether the fetch for a category failed.
    pub open spec fn failed(self, category: SubResourceCategory) -> bool {
        self.slot(category) is Err
    }
}

/// The record that the five outcomes of one course stand for: each category's
/// collection is what its own outcome gives.
pub open spec fn merged<T, E>(parent: ParentView, outcomes: CategoryOutcomes<T, E>) -> RecordView<T> {
    RecordView {
        parent,
        announcements: collected(SubResourceCategory::Announcements, outcomes.announcements),
        course_work: collected(SubResourceCategory::CourseWork, outcomes.course_work),
        materials: collected(SubResourceCategory::Materials, outcomes.materials),
        teachers: collected(SubResourceCategory::Teachers, outcomes.teachers),
        topics: collected(SubResourceCategory::Topics, outcomes.topics),
    }
}

/// Merges the outcomes of the five fetches of one course into its record.
///
/// A record always comes out: a course whose every fetch failed gets five
/// absent collections.
pub fn merge_outcomes<T, E>(parent: Parent, outcomes: CategoryOutcomes<T, E>) -> (r:
    AggregatedRecord<T>)
    ensures
        r@ == merged(parent@, outcomes),
        r@.wf(),
        r@.parent == parent@,
        forall|c: SubResourceCategory| #[trigger]
            r@.slot(c) == collected(c, outcomes.slot(c)),
{
    let CategoryOutcomes { announcements, course_work, materials, teachers, topics } = outcomes;
    let a = collect(SubResourceCategory::Announcements, announcements);
    let w = collect(SubResourceCategory::CourseWork, course_work);
    let m = collect(SubResourceCategory::Materials, materials);
    let t = collect(SubResourceCategory::Teachers, teachers);
    let p = collect(SubResourceCategory::Topics, topics);
    AggregatedRecord::from_slots(parent, a, w, m, t, p)
}

/// Partial failure is isolated per category. In the record merged from any five
/// outcomes, a category's collection is absent and empty exactly when that
/// category's fetch failed; the collection of a category whose fetch returned
/// a list holds that list, item for item in the same order; and the record is
/// complete exactly when no fetch failed.
pub proof fn lemma_failures_are_isolated<T, E>(parent: ParentView, outcomes: CategoryOutcomes<T, E>)
    ensures
        merged(parent, outcomes).wf(),
        merged(parent, outcomes).parent == parent,
        forall|c: SubResourceCategory|
            outcomes.failed(c) <==> !(#[trigger] merged(parent, outcomes).slot(c)).present,
        forall|c: SubResourceCategory|
            outcomes.failed(c) ==> (#[trigger] merged(parent, outcomes).slot(c))
                == CollectionView::<T>::absent(c),
        forall|c: SubResourceCategory, items: Vec<T>|
            outcomes.slot(c) == Ok::<Option<Vec<T>>, E>(Some(items)) ==> (#[trigger] merged(
                parent,
                outcomes,
            ).slot(c)) == CollectionView::filled(c, #[trigger] items@),
        forall|c: SubResourceCategory|
            outcomes.slot(c) == Ok::<Option<Vec<T>>, E>(None) ==> (#[trigger] merged(
                parent,
                outcomes,
            ).slot(c)) == CollectionView::filled(c, Seq::<T>::empty()),
        merged(parent, outcomes).complete() <==> forall|c: SubResourceCategory|
            !#[trigger] outcomes.failed(c),
{
    let r = merged(parent, outcomes);
    assert forall|c: SubResourceCategory| #[trigger] r.slot(c) == collected(c, outcomes.slot(c)) by {}
    if forall|c: SubResourceCategory| !#[trigger] outcomes.failed(c) {
        assert forall|c: SubResourceCategory| (#[trigger] r.slot(c)).present by {
            assert(!outcomes.failed(c));
        }
    }
    if r.complete() {
        assert forall|c: SubResourceCategory| !#[trigger] outcomes.failed(c) by {
            assert(r.slot(c).present);
        }
    }
}

/// One category's collection depends on that category's outcome alone: two
/// sets of outcomes that agree on a category give the same collection for it,
/// however the other four fetches ended.
pub proof fn lemma_categories_are_independent<T, E>(
    parent: ParentView,
    first: CategoryOutcomes<T, E>,
    second: CategoryOutcomes<T, E>,
    category: SubResourceCategory,
)
    requires
        first.slot(category) == second.slot(category),
    ensures
        merged(parent, first).slot(category) == merged(parent, second).slot(category),
{
}

} // verus!
