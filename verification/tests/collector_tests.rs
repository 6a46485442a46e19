use rench::collector::Collector;
use rench::message::Message;
use rench::plan::Plan;

#[test]
fn it_ends_when_all_nones_are_received() {
    let plan = Plan::new(4, 0);
    let mut collector: Collector<usize> = Collector::new(plan);
    for _ in 0..4 {
        assert!(!collector.is_done());
        collector.accept(Message::EOF);
    }
    assert!(collector.is_done());
    assert_eq!(collector.into_data(), Vec::<usize>::new());
}

#[test]
fn it_collects_all_data_received() {
    let plan = Plan::new(1, 0);
    let mut collector: Collector<usize> = Collector::new(plan);
    for n in 0..5 {
        collector.accept(Message::Body(n as usize));
    }
    collector.accept(Message::EOF);
    assert!(collector.is_done());
    assert_eq!(collector.into_data(), vec![0, 1, 2, 3, 4]);
}

#[test]
fn it_keeps_per_worker_order_across_eofs() {
    let plan = Plan::new(2, 0);
    let mut collector: Collector<u32> = Collector::new(plan);
    collector.accept(Message::Body(7));
    collector.accept(Message::EOF);
    assert!(!collector.is_done());
    collector.accept(Message::Body(8));
    collector.accept(Message::EOF);
    assert!(collector.is_done());
    assert_eq!(collector.into_data(), vec![7, 8]);
}
