use classroom_fanout::aggregator::assemble;
use classroom_fanout::model::Parent;
use classroom_fanout::model::SubResourceCategory;
use classroom_fanout::model::SubResourceCollection;

fn biology() -> Parent {
    Parent::new("B".to_string(), "Biology".to_string())
}

fn collection(category: SubResourceCategory) -> SubResourceCollection<String> {
    if category == SubResourceCategory::Teachers {
        SubResourceCollection::absent(category)
    } else {
        SubResourceCollection::filled(
            category,
            vec![format!("{}:b", category.key()), format!("{}:a", category.key())],
        )
    }
}

fn in_order(order: [usize; 5]) -> Vec<SubResourceCollection<String>> {
    order.iter().map(|i| collection(SubResourceCategory::from_index(*i).unwrap())).collect()
}

#[test]
fn five_collections_are_assembled_into_a_record() {
    let record = assemble(biology(), in_order([0, 1, 2, 3, 4])).unwrap();
    assert_eq!(record.parent().id(), "B");
    assert_eq!(record.parent().name(), "Biology");
    for category in SubResourceCategory::all() {
        let held = record.collection(category);
        assert_eq!(held.category(), category);
        assert_eq!(held.is_present(), category != SubResourceCategory::Teachers);
        assert_eq!(held.items(), collection(category).items());
    }
    assert_eq!(
        record.collection(SubResourceCategory::Topics).items(),
        &vec!["topics:b".to_string(), "topics:a".to_string()]
    );
}

#[test]
fn assembly_does_not_depend_on_the_order_handed_in() {
    let straight = assemble(biology(), in_order([0, 1, 2, 3, 4])).unwrap();
    for order in [[4, 3, 2, 1, 0], [2, 4, 0, 3, 1], [1, 0, 3, 4, 2]] {
        let shuffled = assemble(biology(), in_order(order)).unwrap();
        for category in SubResourceCategory::all() {
            assert_eq!(shuffled.collection(category).items(), straight.collection(category).items());
            assert_eq!(
                shuffled.collection(category).is_present(),
                straight.collection(category).is_present()
            );
        }
    }
}

#[test]
fn nothing_is_assembled_when_a_category_is_missing() {
    let mut four = in_order([0, 1, 2, 3, 4]);
    four.remove(2);
    assert!(assemble(biology(), four).is_none());
    assert!(assemble::<String>(biology(), Vec::new()).is_none());
}

#[test]
fn nothing_is_assembled_when_a_category_comes_twice() {
    let mut six = in_order([0, 1, 2, 3, 4]);
    six.push(collection(SubResourceCategory::Materials));
    assert!(assemble(biology(), six).is_none());
    let swapped = vec![
        collection(SubResourceCategory::Announcements),
        collection(SubResourceCategory::Announcements),
        collection(SubResourceCategory::Materials),
        collection(SubResourceCategory::Teachers),
        collection(SubResourceCategory::Topics),
    ];
    assert!(assemble(biology(), swapped).is_none());
}

#[test]
fn five_absent_collections_are_still_a_record() {
    let all: Vec<SubResourceCollection<u8>> =
        SubResourceCategory::all().into_iter().map(SubResourceCollection::absent).collect();
    let record = assemble(biology(), all).unwrap();
    assert!(!record.is_complete());
    for category in SubResourceCategory::all() {
        assert!(!record.collection(category).is_present());
        assert_eq!(record.collection(category).len(), 0);
    }
}
