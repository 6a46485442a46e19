use rench::new::plan::{Method, Plan as FullPlan};
use rench::plan::Plan;

#[test]
fn plan_it_can_distribute_all_work_as_evenly_as_possible() {
    assert_eq!(Plan::new(3, 1000).distribute(), vec![334, 333, 333]);
    assert_eq!(Plan::new(2, 1000).distribute(), vec![500, 500]);
    assert_eq!(
        Plan::new(20, 39).distribute(),
        vec![2, 2, 2, 2, 2, 2, 2, 2, 2, 2, 2, 2, 2, 2, 2, 2, 2, 2, 2, 1]
    );
}

#[test]
fn it_hands_out_nothing_without_requests() {
    assert_eq!(Plan::new(3, 0).distribute(), Vec::<usize>::new());
}

#[test]
fn it_builds_a_plan() {
    let mut builder = FullPlan::builder();
    assert_eq!(builder.build().threads(), 1);
    assert_eq!(builder.build().requests(), 1);
    assert_eq!(builder.build().method(), Method::Get);
    assert!(builder.build().urls().is_empty());

    builder.with_url("http://www.google.com");
    assert_eq!(
        builder.build().urls(),
        &[String::from("http://www.google.com")]
    );

    builder.with_method(Method::Head);
    assert_eq!(builder.build().method(), Method::Head);

    builder.with_requests(10);
    assert_eq!(builder.build().requests(), 10);

    builder.with_threads(11);
    assert_eq!(builder.build().threads(), 11);

    builder.with_requests(123);
    builder.with_threads(456);
    assert_eq!(builder.build().requests(), 123);
    assert_eq!(builder.build().threads(), 456);
}

#[test]
fn it_can_distribute_all_work_as_evenly_as_possible() {
    fn map_it(plan: FullPlan) -> Vec<usize> {
        plan.distribute().iter().map(|s| s.requests()).collect()
    }

    let mut builder = FullPlan::builder();
    builder.with_requests(1000);
    builder.with_threads(3);
    assert_eq!(map_it(builder.build()), vec![334, 333, 333]);
    builder.with_threads(2);
    assert_eq!(map_it(builder.build()), vec![500, 500]);
    builder.with_requests(39);
    builder.with_threads(20);
    assert_eq!(
        map_it(builder.build()),
        vec![2, 2, 2, 2, 2, 2, 2, 2, 2, 2, 2, 2, 2, 2, 2, 2, 2, 2, 2, 1]
    );
}
