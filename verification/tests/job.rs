use classroom_fanout::fetcher::merge_outcomes;
use classroom_fanout::fetcher::CategoryOutcomes;
use classroom_fanout::job::FetchJob;
use classroom_fanout::job::JobPhase;
use classroom_fanout::model::Parent;
use classroom_fanout::model::SubResourceCategory;

fn algebra() -> Parent {
    Parent::new("A".to_string(), "Algebra".to_string())
}

fn items_of(category: SubResourceCategory) -> Vec<usize> {
    vec![category.index() * 10 + 1, category.index() * 10]
}

fn outcome(category: SubResourceCategory, failing: &[SubResourceCategory]) -> Result<Option<Vec<usize>>, ()> {
    if failing.contains(&category) {
        Err(())
    } else {
        Ok(Some(items_of(category)))
    }
}

fn run(order: &[SubResourceCategory], failing: &[SubResourceCategory]) -> FetchJob<usize> {
    let mut job = FetchJob::new(algebra());
    assert!(job.start());
    for category in order {
        assert!(job.deliver(*category, outcome(*category, failing)));
    }
    job
}

#[test]
fn finished_phases_are_the_two_ends() {
    assert!(!JobPhase::Pending.is_finished());
    assert!(!JobPhase::InFlight.is_finished());
    assert!(JobPhase::Complete.is_finished());
    assert!(JobPhase::PartiallyFailed.is_finished());
}

#[test]
fn new_job_is_pending_and_holds_nothing() {
    let job: FetchJob<usize> = FetchJob::new(algebra());
    assert_eq!(job.phase(), JobPhase::Pending);
    assert!(!job.is_finished());
    assert_eq!(job.parent().id(), "A");
    for category in SubResourceCategory::all() {
        assert!(!job.has(category));
    }
}

#[test]
fn pending_job_takes_no_delivery() {
    let mut job: FetchJob<usize> = FetchJob::new(algebra());
    assert!(!job.deliver::<()>(SubResourceCategory::Topics, Ok(Some(vec![1]))));
    assert_eq!(job.phase(), JobPhase::Pending);
    assert!(!job.has(SubResourceCategory::Topics));
}

#[test]
fn start_moves_a_pending_job_in_flight_once() {
    let mut job: FetchJob<usize> = FetchJob::new(algebra());
    assert!(job.start());
    assert_eq!(job.phase(), JobPhase::InFlight);
    assert!(!job.start());
    assert_eq!(job.phase(), JobPhase::InFlight);
}

#[test]
fn job_stays_in_flight_until_the_fifth_delivery() {
    let mut job: FetchJob<usize> = FetchJob::new(algebra());
    job.start();
    let all = SubResourceCategory::all();
    for (n, category) in all.iter().enumerate() {
        assert_eq!(job.phase(), JobPhase::InFlight);
        assert!(!job.is_finished());
        assert!(job.deliver::<()>(*category, Ok(None)));
        assert!(job.has(*category));
        assert_eq!(job.is_finished(), n == 4);
    }
    assert_eq!(job.phase(), JobPhase::Complete);
}

#[test]
fn second_delivery_for_a_category_is_dropped() {
    let mut job: FetchJob<usize> = FetchJob::new(algebra());
    job.start();
    assert!(job.deliver::<()>(SubResourceCategory::Teachers, Ok(Some(vec![7, 8]))));
    assert!(!job.deliver::<()>(SubResourceCategory::Teachers, Err(())));
    assert!(!job.deliver::<()>(SubResourceCategory::Teachers, Ok(Some(vec![1]))));
    for category in SubResourceCategory::all() {
        job.deliver::<()>(category, Ok(None));
    }
    let record = job.into_record().unwrap();
    assert_eq!(record.collection(SubResourceCategory::Teachers).items(), &vec![7, 8]);
    assert!(record.collection(SubResourceCategory::Teachers).is_present());
}

#[test]
fn unfinished_job_comes_back_unchanged() {
    let mut job: FetchJob<usize> = FetchJob::new(algebra());
    job.start();
    job.deliver::<()>(SubResourceCategory::Materials, Ok(Some(vec![5])));
    let job = job.into_record().unwrap_err();
    assert_eq!(job.phase(), JobPhase::InFlight);
    assert!(job.has(SubResourceCategory::Materials));
    assert!(!job.has(SubResourceCategory::Topics));
    assert_eq!(job.parent().name(), "Algebra");
}

#[test]
fn pending_job_gives_no_record() {
    let job: FetchJob<usize> = FetchJob::new(algebra());
    let job = job.into_record().unwrap_err();
    assert_eq!(job.phase(), JobPhase::Pending);
}

#[test]
fn job_with_no_failure_ends_complete() {
    let job = run(&SubResourceCategory::all(), &[]);
    assert_eq!(job.phase(), JobPhase::Complete);
    let record = job.into_record().unwrap();
    assert!(record.is_complete());
    for category in SubResourceCategory::all() {
        assert_eq!(record.collection(category).items(), &items_of(category));
    }
}

#[test]
fn job_with_a_failure_ends_partially_failed() {
    let job = run(&SubResourceCategory::all(), &[SubResourceCategory::CourseWork]);
    assert_eq!(job.phase(), JobPhase::PartiallyFailed);
    let record = job.into_record().unwrap();
    assert!(!record.collection(SubResourceCategory::CourseWork).is_present());
    assert!(record.collection(SubResourceCategory::CourseWork).items().is_empty());
    assert_eq!(
        record.collection(SubResourceCategory::Announcements).items(),
        &items_of(SubResourceCategory::Announcements)
    );
}

#[test]
fn job_with_every_category_failed_still_ends() {
    let all = SubResourceCategory::all();
    let job = run(&all, &all);
    assert_eq!(job.phase(), JobPhase::PartiallyFailed);
    assert!(job.is_finished());
    let record = job.into_record().unwrap();
    assert_eq!(record.parent().id(), "A");
    for category in all {
        assert!(!record.collection(category).is_present());
        assert_eq!(record.collection(category).len(), 0);
    }
}

#[test]
fn categories_may_be_delivered_in_any_order() {
    let orders = [
        [0usize, 1, 2, 3, 4],
        [4, 3, 2, 1, 0],
        [2, 0, 4, 1, 3],
        [1, 4, 0, 3, 2],
        [3, 2, 1, 4, 0],
    ];
    let failing = [SubResourceCategory::Topics, SubResourceCategory::Announcements];
    for order in orders {
        let order: Vec<SubResourceCategory> =
            order.iter().map(|i| SubResourceCategory::from_index(*i).unwrap()).collect();
        let record = run(&order, &failing).into_record().unwrap();
        for category in SubResourceCategory::all() {
            let collection = record.collection(category);
            assert_eq!(collection.category(), category);
            if failing.contains(&category) {
                assert!(!collection.is_present());
                assert!(collection.items().is_empty());
            } else {
                assert!(collection.is_present());
                assert_eq!(collection.items(), &items_of(category));
            }
        }
    }
}

#[test]
fn job_gives_the_record_that_the_merge_gives() {
    let failing = [SubResourceCategory::Materials];
    let order = [
        SubResourceCategory::Topics,
        SubResourceCategory::Materials,
        SubResourceCategory::Announcements,
        SubResourceCategory::Teachers,
        SubResourceCategory::CourseWork,
    ];
    let from_job = run(&order, &failing).into_record().unwrap();
    let merged = merge_outcomes(
        algebra(),
        CategoryOutcomes {
            announcements: outcome(SubResourceCategory::Announcements, &failing),
            course_work: outcome(SubResourceCategory::CourseWork, &failing),
            materials: outcome(SubResourceCategory::Materials, &failing),
            teachers: outcome(SubResourceCategory::Teachers, &failing),
            topics: outcome(SubResourceCategory::Topics, &failing),
        },
    );
    assert_eq!(from_job.parent(), merged.parent());
    for category in SubResourceCategory::all() {
        assert_eq!(from_job.collection(category).items(), merged.collection(category).items());
        assert_eq!(
            from_job.collection(category).is_present(),
            merged.collection(category).is_present()
        );
    }
}
