use classroom_fanout::model::AggregatedRecord;
use classroom_fanout::model::Parent;
use classroom_fanout::model::SubResourceCategory;
use classroom_fanout::model::SubResourceCollection;
use classroom_fanout::fetcher::merge_outcomes;
use classroom_fanout::fetcher::CategoryOutcomes;

fn five() -> [SubResourceCategory; 5] {
    [
        SubResourceCategory::Announcements,
        SubResourceCategory::CourseWork,
        SubResourceCategory::Materials,
        SubResourceCategory::Teachers,
        SubResourceCategory::Topics,
    ]
}

fn empty_record(id: &str, name: &str) -> AggregatedRecord<u32> {
    let outcomes: CategoryOutcomes<u32, ()> = CategoryOutcomes {
        announcements: Ok(None),
        course_work: Ok(None),
        materials: Ok(None),
        teachers: Ok(None),
        topics: Ok(None),
    };
    merge_outcomes(Parent::new(id.to_string(), name.to_string()), outcomes)
}

#[test]
fn categories_are_listed_in_their_fixed_order() {
    assert_eq!(SubResourceCategory::all(), five().to_vec());
    assert_eq!(SubResourceCategory::all().len(), 5);
}

#[test]
fn category_index_counts_from_zero_to_four() {
    assert_eq!(SubResourceCategory::Announcements.index(), 0);
    assert_eq!(SubResourceCategory::CourseWork.index(), 1);
    assert_eq!(SubResourceCategory::Materials.index(), 2);
    assert_eq!(SubResourceCategory::Teachers.index(), 3);
    assert_eq!(SubResourceCategory::Topics.index(), 4);
}

#[test]
fn category_is_found_again_from_its_index() {
    for category in five() {
        assert_eq!(SubResourceCategory::from_index(category.index()), Some(category));
    }
}

#[test]
fn no_category_beyond_the_fifth() {
    assert_eq!(SubResourceCategory::from_index(5), None);
    assert_eq!(SubResourceCategory::from_index(6), None);
    assert_eq!(SubResourceCategory::from_index(usize::MAX), None);
}

#[test]
fn category_keys_are_the_names_the_templates_use() {
    assert_eq!(SubResourceCategory::Announcements.key(), "course_announcements");
    assert_eq!(SubResourceCategory::CourseWork.key(), "coursework");
    assert_eq!(SubResourceCategory::Materials.key(), "course_materials");
    assert_eq!(SubResourceCategory::Teachers.key(), "teachers");
    assert_eq!(SubResourceCategory::Topics.key(), "topics");
}

#[test]
fn parent_keeps_id_and_name() {
    let parent = Parent::new("A".to_string(), "Algebra".to_string());
    assert_eq!(parent.id(), "A");
    assert_eq!(parent.name(), "Algebra");
}

#[test]
fn parent_clone_is_equal() {
    let parent = Parent::new("B".to_string(), "Biology".to_string());
    let copy = parent.clone();
    assert_eq!(copy, parent);
    assert_eq!(copy.id(), "B");
    assert_eq!(copy.name(), "Biology");
}

#[test]
fn listing_entry_with_id_and_name_is_a_parent() {
    let parent = Parent::from_listing(Some("42".to_string()), Some("Chemistry".to_string()));
    assert_eq!(parent, Some(Parent::new("42".to_string(), "Chemistry".to_string())));
}

#[test]
fn listing_entry_without_name_has_the_empty_name() {
    let parent = Parent::from_listing(Some("42".to_string()), None).unwrap();
    assert_eq!(parent.id(), "42");
    assert_eq!(parent.name(), "");
}

#[test]
fn listing_entry_without_id_is_no_parent() {
    assert_eq!(Parent::from_listing(None, Some("Nameless".to_string())), None);
    assert_eq!(Parent::from_listing(None, None), None);
}

#[test]
fn filled_collection_keeps_items_in_order() {
    let collection = SubResourceCollection::filled(SubResourceCategory::Topics, vec![3, 1, 2]);
    assert_eq!(collection.category(), SubResourceCategory::Topics);
    assert!(collection.is_present());
    assert_eq!(collection.items(), &vec![3, 1, 2]);
    assert_eq!(collection.len(), 3);
    assert_eq!(collection.into_items(), vec![3, 1, 2]);
}

#[test]
fn filled_collection_may_be_empty_and_is_still_present() {
    let collection: SubResourceCollection<u8> =
        SubResourceCollection::filled(SubResourceCategory::Teachers, Vec::new());
    assert!(collection.is_present());
    assert_eq!(collection.len(), 0);
}

#[test]
fn absent_collection_is_empty_and_not_present() {
    let collection: SubResourceCollection<String> =
        SubResourceCollection::absent(SubResourceCategory::Materials);
    assert_eq!(collection.category(), SubResourceCategory::Materials);
    assert!(!collection.is_present());
    assert!(collection.items().is_empty());
    assert_eq!(collection.len(), 0);
}

#[test]
fn record_holds_one_collection_per_category() {
    let record = empty_record("A", "Algebra");
    assert_eq!(record.parent().id(), "A");
    assert_eq!(record.parent().name(), "Algebra");
    for category in five() {
        assert_eq!(record.collection(category).category(), category);
    }
}

#[test]
fn record_with_every_category_present_is_complete() {
    let record = empty_record("A", "Algebra");
    assert!(record.is_complete());
}

#[test]
fn record_with_one_absent_category_is_not_complete() {
    let outcomes: CategoryOutcomes<u32, ()> = CategoryOutcomes {
        announcements: Ok(Some(vec![1])),
        course_work: Ok(Some(vec![2])),
        materials: Ok(Some(vec![3])),
        teachers: Ok(Some(vec![4])),
        topics: Err(()),
    };
    let record = merge_outcomes(Parent::new("A".to_string(), "Algebra".to_string()), outcomes);
    assert!(!record.is_complete());
}

#[test]
fn sections_hand_every_category_to_the_renderer() {
    let outcomes: CategoryOutcomes<u32, ()> = CategoryOutcomes {
        announcements: Ok(Some(vec![3, 1, 2])),
        course_work: Err(()),
        materials: Ok(None),
        teachers: Ok(Some(vec![7])),
        topics: Err(()),
    };
    let record = merge_outcomes(Parent::new("A".to_string(), "Algebra".to_string()), outcomes);
    let empty: Vec<u32> = Vec::new();
    assert_eq!(
        record.sections(),
        vec![
            ("course_announcements", &vec![3, 1, 2]),
            ("coursework", &empty),
            ("course_materials", &empty),
            ("teachers", &vec![7]),
            ("topics", &empty),
        ]
    );
}

#[test]
fn sections_follow_the_fixed_order_of_the_categories() {
    let record = empty_record("A", "Algebra");
    let keys: Vec<&str> = record.sections().into_iter().map(|(key, _)| key).collect();
    let expected: Vec<&str> = SubResourceCategory::all().into_iter().map(|c| c.key()).collect();
    assert_eq!(keys, expected);
}

#[test]
fn renderer_keys_for_name_and_course_list() {
    assert_eq!(classroom_fanout::model::NAME_KEY, "name");
    assert_eq!(classroom_fanout::model::COURSES_KEY, "courses");
}
