//! The aggregator: a pure merge of a course and its fetched collections into
//! one record. A record is assembled whole or not at all: nothing that lacks a
//! category, or that has one twice, is ever handed on.

use vstd::prelude::*;
use crate::model::AggregatedRecord;
use crate::model::CollectionView;
use crate::model::Parent;
use crate::model::ParentView;
use crate::model::RecordView;
use crate::model::SubResourceCategory;
use crate::model::SubResourceCollection;

verus! {

/// What a list of collections holds, one view for each collection in order.
pub open spec fn views<T>(collections: Seq<SubResourceCollection<T>>) -> Seq<CollectionView<T>> {
    collections.map_values(|c: SubResourceCollection<T>| c@)
}

/// Some collection among the given ones belongs to the category.
pub open spec fn holds<T>(collections: Seq<CollectionView<T>>, category: SubResourceCategory) -> bool {
    exists|k: int| 0 <= k < collections.len() && (#[trigger] collections[k]).category == category
}

/// Every category occurs among the collections, and no category occurs twice.
pub open spec fn one_per_category<T>(collections: Seq<CollectionView<T>>) -> bool {
    &&& forall|c: SubResourceCategory| #[trigger] holds(collections, c)
    &&& forall|j: int, k: int|
        #![trigger collections[j], collections[k]]
        0 <= j < k < collections.len() ==> collections[j].category != collections[k].category
}

/// The collection that the given ones hold for a category.
#[verifier::opaque]
pub open spec fn pick<T>(
    collections: Seq<CollectionView<T>>,
    category: SubResourceCategory,
) -> CollectionView<T>
    recommends
        holds(collections, category),
{
    collections[choose|k: int|
        0 <= k < collections.len() && (#[trigger] collections[k]).category == category]
}

/// The record of a course and of collections that hold one per category:
/// each category's place holds the collection of that category.
pub open spec fn assembled<T>(parent: ParentView, collections: Seq<CollectionView<T>>) -> RecordView<
    T,
>
    recommends
        one_per_category(collections),
{
    RecordView {
        parent,
        announcements: pick(collections, SubResourceCategory::Announcements),
        course_work: pick(collections, SubResourceCategory::CourseWork),
        materials: pick(collections, SubResourceCategory::Materials),
        teachers: pick(collections, SubResourceCategory::Teachers),
        topics: pick(collections, SubResourceCategory::Topics),
    }
}

/// A place that is empty, or holds the collection found at a known position.
spec fn placed<T>(
    slot: Option<SubResourceCollection<T>>,
    at: int,
    all: Seq<SubResourceCollection<T>>,
    from: int,
    category: SubResourceCategory,
) -> bool {
    match slot {
        Some(c) => from <= at < all.len() && all[at] == c && c@.category == category,
        None => true,
    }
}

/// Assembles the record of `parent` from its collections, which may come in
/// any order.
///
/// A record is produced exactly when the collections hold one collection for
/// each of the five categories and none twice. Each collection then stands in
/// the record under its own category, with its items untouched.
pub fn assemble<T>(parent: Parent, collections: Vec<SubResourceCollection<T>>) -> (record: Option<
    AggregatedRecord<T>,
>)
    ensures
        record is Some <==> one_per_category(views(collections@)),
        match record {
            Some(r) => {
                &&& r@ == assembled(parent@, views(collections@))
                &&& r@.parent == parent@
                &&& r@.wf()
                &&& forall|k: int|
                    0 <= k < collections@.len() ==> r@.slot((#[trigger] collections@[k])@.category)
                        == collections@[k]@
            },
            None => true,
        },
{
    let ghost all = collections@;
    let mut rest = collections;
    let mut announcements: Option<SubResourceCollection<T>> = None;
    let mut course_work: Option<SubResourceCollection<T>> = None;
    let mut materials: Option<SubResourceCollection<T>> = None;
    let mut teachers: Option<SubResourceCollection<T>> = None;
    let mut topics: Option<SubResourceCollection<T>> = None;
    let ghost mut at_a: int = 0;
    let ghost mut at_w: int = 0;
    let ghost mut at_m: int = 0;
    let ghost mut at_t: int = 0;
    let ghost mut at_p: int = 0;
    while rest.len() > 0
        invariant
            all == collections@,
            rest@.len() <= all.len(),
            rest@ == all.subrange(0, rest@.len() as int),
            placed(announcements, at_a, all, rest@.len() as int, SubResourceCategory::Announcements),
            placed(course_work, at_w, all, rest@.len() as int, SubResourceCategory::CourseWork),
            placed(materials, at_m, all, rest@.len() as int, SubResourceCategory::Materials),
            placed(teachers, at_t, all, rest@.len() as int, SubResourceCategory::Teachers),
            placed(topics, at_p, all, rest@.len() as int, SubResourceCategory::Topics),
            forall|k: int|
                rest@.len() <= k < all.len() ==> match (#[trigger] all[k])@.category {
                    SubResourceCategory::Announcements => announcements is Some && at_a == k,
                    SubResourceCategory::CourseWork => course_work is Some && at_w == k,
                    SubResourceCategory::Materials => materials is Some && at_m == k,
                    SubResourceCategory::Teachers => teachers is Some && at_t == k,
                    SubResourceCategory::Topics => topics is Some && at_p == k,
                },
        decreases rest@.len(),
    {
        let ghost here = rest@.len() - 1;
        let next = rest.pop().unwrap();
        let taken = match next.category() {
            SubResourceCategory::Announcements => announcements.is_some(),
            SubResourceCategory::CourseWork => course_work.is_some(),
            SubResourceCategory::Materials => materials.is_some(),
            SubResourceCategory::Teachers => teachers.is_some(),
            SubResourceCategory::Topics => topics.is_some(),
        };
        if taken {
            proof {
                // The category stands at two places.
                let other = match next@.category {
                    SubResourceCategory::Announcements => at_a,
                    SubResourceCategory::CourseWork => at_w,
                    SubResourceCategory::Materials => at_m,
                    SubResourceCategory::Teachers => at_t,
                    SubResourceCategory::Topics => at_p,
                };
                assert(views(all)[here].category == views(all)[other].category);
            }
            return None;
        }
        match next.category() {
            SubResourceCategory::Announcements => {
                announcements = Some(next);
                proof {
                    at_a = here;
                }
            },
            SubResourceCategory::CourseWork => {
                course_work = Some(next);
                proof {
                    at_w = here;
                }
            },
            SubResourceCategory::Materials => {
                materials = Some(next);
                proof {
                    at_m = here;
                }
            },
            SubResourceCategory::Teachers => {
                teachers = Some(next);
                proof {
                    at_t = here;
                }
            },
            SubResourceCategory::Topics => {
                topics = Some(next);
                proof {
                    at_p = here;
                }
            },
        }
    }
    match (announcements, course_work, materials, teachers, topics) {
        (Some(a), Some(w), Some(m), Some(t), Some(p)) => {
            let record = AggregatedRecord::from_slots(parent, a, w, m, t, p);
            proof {
                let held = views(all);
                assert forall|c: SubResourceCategory| #[trigger] holds(held, c) by {
                    let k = match c {
                        SubResourceCategory::Announcements => at_a,
                        SubResourceCategory::CourseWork => at_w,
                        SubResourceCategory::Materials => at_m,
                        SubResourceCategory::Teachers => at_t,
                        SubResourceCategory::Topics => at_p,
                    };
                    assert(held[k].category == c);
                }
                lemma_pick_finds_each(held, at_a);
                lemma_pick_finds_each(held, at_w);
                lemma_pick_finds_each(held, at_m);
                lemma_pick_finds_each(held, at_t);
                lemma_pick_finds_each(held, at_p);
            }
            Some(record)
        },
        (a, w, m, t, p) => {
            proof {
                let missing = if a is None {
                    SubResourceCategory::Announcements
                } else if w is None {
                    SubResourceCategory::CourseWork
                } else if m is None {
                    SubResourceCategory::Materials
                } else if t is None {
                    SubResourceCategory::Teachers
                } else {
                    SubResourceCategory::Topics
                };
                assert(!holds(views(all), missing));
            }
            None
        },
    }
}

/// Among collections that hold one per category, the collection picked for
/// the category of any one of them is that one.
pub proof fn lemma_pick_finds_each<T>(collections: Seq<CollectionView<T>>, k: int)
    requires
        one_per_category(collections),
        0 <= k < collections.len(),
    ensures
        pick(collections, collections[k].category) == collections[k],
{
    reveal(pick);
}

/// What is assembled does not depend on the order in which the collections
/// are handed in. Two lists that each hold one collection per category, and
/// of which the second holds every collection of the first, give the same
/// record.
pub proof fn lemma_assembly_ignores_order<T>(
    parent: ParentView,
    first: Seq<CollectionView<T>>,
    second: Seq<CollectionView<T>>,
)
    requires
        one_per_category(first),
        one_per_category(second),
        forall|k: int| 0 <= k < first.len() ==> second.contains(#[trigger] first[k]),
    ensures
        assembled(parent, first) == assembled(parent, second),
{
    assert forall|c: SubResourceCategory| pick(first, c) == pick(second, c) by {
        assert(holds(first, c));
        let j = choose|j: int| 0 <= j < first.len() && (#[trigger] first[j]).category == c;
        let k = choose|k: int| 0 <= k < second.len() && second[k] == first[j];
        lemma_pick_finds_each(first, j);
        lemma_pick_finds_each(second, k);
    }
}

/// Collections that hold one per category are five.
pub proof fn lemma_one_per_category_has_five<T>(collections: Seq<CollectionView<T>>)
    requires
        one_per_category(collections),
    ensures
        collections.len() == 5,
{
    let ranks = collections.map_values(|c: CollectionView<T>| c.category.rank());
    ranks.unique_seq_to_set();
    let five: Set<nat> = Set::new(|r: nat| r < 5);
    assert(five =~= set![0nat, 1nat, 2nat, 3nat, 4nat]);
    assert(ranks.to_set() =~= five) by {
        assert forall|r: nat| five.contains(r) implies ranks.to_set().contains(r) by {
            let c = SubResourceCategory::of_rank(r).unwrap();
            assert(holds(collections, c));
            let k = choose|k: int| 0 <= k < collections.len() && (#[trigger] collections[k]).category == c;
            assert(ranks[k] == r);
        }
    }
}

} // verus!
