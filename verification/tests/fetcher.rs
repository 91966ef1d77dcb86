use classroom_fanout::fetcher::collect;
use classroom_fanout::fetcher::merge_outcomes;
use classroom_fanout::fetcher::CategoryOutcomes;
use classroom_fanout::model::AggregatedRecord;
use classroom_fanout::model::Parent;
use classroom_fanout::model::SubResourceCategory;

const FIVE: [SubResourceCategory; 5] = [
    SubResourceCategory::Announcements,
    SubResourceCategory::CourseWork,
    SubResourceCategory::Materials,
    SubResourceCategory::Teachers,
    SubResourceCategory::Topics,
];

/// The list that the fixture returns for a category: three items that name
/// the category, in an order that is not sorted.
fn fixture(category: SubResourceCategory) -> Vec<String> {
    vec![
        format!("{}-2", category.key()),
        format!("{}-0", category.key()),
        format!("{}-1", category.key()),
    ]
}

/// The outcome of a category's fetch when the categories in `failing` fail.
fn outcome(category: SubResourceCategory, failing: u8) -> Result<Option<Vec<String>>, String> {
    if failing & (1 << category.index()) != 0 {
        Err(format!("{} is not accessible", category.key()))
    } else {
        Ok(Some(fixture(category)))
    }
}

fn fetch(failing: u8) -> AggregatedRecord<String> {
    let outcomes = CategoryOutcomes {
        announcements: outcome(SubResourceCategory::Announcements, failing),
        course_work: outcome(SubResourceCategory::CourseWork, failing),
        materials: outcome(SubResourceCategory::Materials, failing),
        teachers: outcome(SubResourceCategory::Teachers, failing),
        topics: outcome(SubResourceCategory::Topics, failing),
    };
    merge_outcomes(Parent::new("P".to_string(), "Physics".to_string()), outcomes)
}

#[test]
fn successful_fetch_gives_a_present_collection() {
    let collection = collect::<u32, String>(SubResourceCategory::CourseWork, Ok(Some(vec![9, 8, 7])));
    assert_eq!(collection.category(), SubResourceCategory::CourseWork);
    assert!(collection.is_present());
    assert_eq!(collection.items(), &vec![9, 8, 7]);
}

#[test]
fn successful_fetch_without_a_list_gives_a_present_empty_collection() {
    let collection = collect::<u32, String>(SubResourceCategory::Topics, Ok(None));
    assert_eq!(collection.category(), SubResourceCategory::Topics);
    assert!(collection.is_present());
    assert_eq!(collection.len(), 0);
}

#[test]
fn failed_fetch_gives_the_absent_collection() {
    let collection =
        collect::<u32, String>(SubResourceCategory::Teachers, Err("forbidden".to_string()));
    assert_eq!(collection.category(), SubResourceCategory::Teachers);
    assert!(!collection.is_present());
    assert_eq!(collection.len(), 0);
    assert!(collection.items().is_empty());
}

#[test]
fn every_subset_of_failures_empties_exactly_the_failed_categories() {
    for failing in 0u8..32 {
        let record = fetch(failing);
        assert_eq!(record.parent().id(), "P");
        for category in FIVE {
            let collection = record.collection(category);
            assert_eq!(collection.category(), category);
            if failing & (1 << category.index()) != 0 {
                assert!(!collection.is_present());
                assert!(collection.items().is_empty());
            } else {
                assert!(collection.is_present());
                assert_eq!(collection.items(), &fixture(category));
            }
        }
        assert_eq!(record.is_complete(), failing == 0);
    }
}

#[test]
fn surviving_collection_keeps_the_order_of_the_fixture() {
    let record = fetch(0b00110);
    let items = record.collection(SubResourceCategory::Announcements).items();
    assert_eq!(
        items,
        &vec![
            "course_announcements-2".to_string(),
            "course_announcements-0".to_string(),
            "course_announcements-1".to_string(),
        ]
    );
    let items = record.collection(SubResourceCategory::Topics).items();
    assert_eq!(
        items,
        &vec!["topics-2".to_string(), "topics-0".to_string(), "topics-1".to_string()]
    );
}

#[test]
fn record_comes_out_when_every_category_fails() {
    let record = fetch(0b11111);
    assert_eq!(record.parent().name(), "Physics");
    for category in FIVE {
        assert!(!record.collection(category).is_present());
        assert_eq!(record.collection(category).len(), 0);
    }
    assert!(!record.is_complete());
}

#[test]
fn one_failure_leaves_the_other_four_untouched() {
    let whole = fetch(0);
    let broken = fetch(1 << SubResourceCategory::Materials.index());
    for category in FIVE {
        if category == SubResourceCategory::Materials {
            assert!(!broken.collection(category).is_present());
        } else {
            assert_eq!(broken.collection(category).items(), whole.collection(category).items());
            assert!(broken.collection(category).is_present());
        }
    }
}
