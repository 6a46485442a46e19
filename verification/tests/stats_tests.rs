use rench::content_length::ContentLength;
use rench::duration::Duration;
use rench::stats::{scale_array, ChartSize, Fact, Summary};

fn ok_zero_length_fact(duration: Duration) -> Fact {
    Fact::record(ContentLength::zero(), 200, duration)
}

fn ok_instant_fact(content_length: ContentLength) -> Fact {
    Fact::record(content_length, 200, Duration::new(0, 0))
}

fn zero_length_instant_fact(status: u16) -> Fact {
    Fact::record(ContentLength::zero(), status, Duration::new(0, 0))
}

#[test]
fn it_scale_arrays_an_array() {
    let vec = vec![1, 2, 3, 4, 5, 6, 7, 8, 9];
    assert_eq!(scale_array(&vec, 2), vec![1, 3, 5, 7, 9]);
    assert_eq!(scale_array(&vec, 3), vec![1, 4, 7]);
}

#[test]
fn summarizes_to_zero_if_empty() {
    let summary = Summary::from_facts(&Vec::new());
    assert_eq!(summary.average(), Duration::new(0, 0));
    assert_eq!(summary.median(), Duration::new(0, 0));
    assert_eq!(summary.count(), 0);
}

#[test]
fn averages_the_durations() {
    let facts = [
        ok_zero_length_fact(Duration::new(2, 0)),
        ok_zero_length_fact(Duration::new(1, 0)),
        ok_zero_length_fact(Duration::new(4, 0)),
        ok_zero_length_fact(Duration::new(3, 0)),
    ];
    let summary = Summary::from_facts(&facts);
    assert_eq!(summary.average(), Duration::new(2, 500000000));
}

#[test]
fn stddev_the_durations() {
    let facts = [
        ok_zero_length_fact(Duration::new(2, 0)),
        ok_zero_length_fact(Duration::new(1, 0)),
        ok_zero_length_fact(Duration::new(4, 0)),
        ok_zero_length_fact(Duration::new(3, 0)),
    ];
    let summary = Summary::from_facts(&facts);
    assert_eq!(summary.stddev(), Duration::new(1, 290994448));
}

#[test]
fn counts_the_facts() {
    let facts = [
        ok_zero_length_fact(Duration::new(2, 0)),
        ok_zero_length_fact(Duration::new(3, 0)),
        ok_zero_length_fact(Duration::new(1, 0)),
        ok_zero_length_fact(Duration::new(4, 0)),
    ];
    let summary = Summary::from_facts(&facts);
    assert_eq!(summary.count(), 4);
}

#[test]
fn calculates_percentiles_from_an_even_number_of_facts() {
    let facts = [
        ok_zero_length_fact(Duration::new(2, 0)),
        ok_zero_length_fact(Duration::new(3, 0)),
        ok_zero_length_fact(Duration::new(1, 0)),
        ok_zero_length_fact(Duration::new(100, 0)),
    ];
    let summary = Summary::from_facts(&facts);
    assert_eq!(summary.median(), Duration::new(2, 500000000));
    assert_eq!(summary.max(), Duration::new(100, 0));
    assert_eq!(summary.min(), Duration::new(1, 0));
}

#[test]
fn calculates_percentiles_from_an_odd_number_of_facts() {
    let facts = [
        ok_zero_length_fact(Duration::new(2, 0)),
        ok_zero_length_fact(Duration::new(1, 0)),
        ok_zero_length_fact(Duration::new(100, 0)),
    ];
    let summary = Summary::from_facts(&facts);
    assert_eq!(summary.median(), Duration::new(2, 0));
    assert_eq!(summary.max(), Duration::new(100, 0));
    assert_eq!(summary.min(), Duration::new(1, 0));
}

#[test]
fn counts_the_histogram_of_latencies() {
    let facts: Vec<Fact> = (0..500)
        .map(|n| ok_zero_length_fact(Duration::new(n, 0)))
        .collect();
    let summary = Summary::from_facts(&facts);

    assert_eq!(summary.latency_histogram().len(), 100);
    assert_eq!(summary.latency_histogram().first(), Some(&5));
    assert_eq!(summary.latency_histogram().last(), Some(&0));
    assert_eq!(summary.latency_histogram()[50], 0);
}

#[test]
fn calculates_all_the_percentiles_when_n_less_than_100() {
    let facts: Vec<Fact> = (0..50)
        .map(|n| ok_zero_length_fact(Duration::new(n, 0)))
        .collect();
    let summary = Summary::from_facts(&facts);

    assert_eq!(summary.percentiles().len(), 100);
    assert_eq!(summary.percentiles().first(), Some(&Duration::new(0, 0)));
    assert_eq!(summary.percentiles().last(), Some(&Duration::new(49, 0)));
    assert_eq!(summary.percentiles()[50], Duration::new(25, 0));
}

#[test]
fn calculates_all_the_percentiles_when_n_greater_than_100() {
    let facts: Vec<Fact> = (0..500)
        .map(|n| ok_zero_length_fact(Duration::new(n, 0)))
        .collect();
    let summary = Summary::from_facts(&facts);

    assert_eq!(summary.percentiles().len(), 100);
    assert_eq!(summary.percentiles().first(), Some(&Duration::new(0, 0)));
    assert_eq!(summary.percentiles().last(), Some(&Duration::new(495, 0)));
    assert_eq!(summary.percentiles()[50], Duration::new(250, 0));
}

#[test]
fn sums_up_the_content_lengths() {
    let facts: Vec<Fact> = (0..500)
        .map(|_| ok_instant_fact(ContentLength::new(1)))
        .collect();
    let summary = Summary::from_facts(&facts);
    assert_eq!(summary.content_length().bytes(), 500);
}

#[test]
fn counts_status_codes() {
    let facts: Vec<Fact> = vec![
        zero_length_instant_fact(200),
        zero_length_instant_fact(202),
        zero_length_instant_fact(200),
        zero_length_instant_fact(400),
        zero_length_instant_fact(200),
        zero_length_instant_fact(404),
        zero_length_instant_fact(200),
        zero_length_instant_fact(504),
    ];
    let summary = Summary::from_facts(&facts);
    assert_eq!(summary.status_counts().get(&200), Some(&4));
}

#[test]
fn breaks_statuses_down_in_ascending_order() {
    let facts: Vec<Fact> = vec![
        zero_length_instant_fact(504),
        zero_length_instant_fact(200),
        zero_length_instant_fact(404),
        zero_length_instant_fact(200),
        zero_length_instant_fact(202),
    ];
    let summary = Summary::from_facts(&facts);
    assert_eq!(
        summary.status_breakdown(),
        vec![(200, 2), (202, 1), (404, 1), (504, 1)]
    );
}

#[test]
fn renders_no_chart_when_turned_off() {
    let summary = Summary::from_facts(&Vec::new()).with_chart_size(ChartSize::Off);
    assert_eq!(summary.chart(&[1, 2, 3]), "");
}

#[test]
fn charts_scale_down_the_data() {
    let summary = Summary::from_facts(&Vec::new()).with_chart_size(ChartSize::Small);
    let expected = rench::chart::Chart::new()
        .height(7)
        .make(&scale_array(&[1u64, 2, 3, 4, 5, 6], 3));
    assert_eq!(summary.chart(&[1, 2, 3, 4, 5, 6]), expected);
}
