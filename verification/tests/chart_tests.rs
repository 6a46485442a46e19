use rench::chart::Chart;

#[test]
fn it_makes_a_chart_of_default_height() {
    let chart = Chart::new().make(&vec![1, 2, 3, 4, 3, 2, 1]);
    assert_eq!(
        chart,
        "   ▌    4\n   ▌   \n  ▌▌▌  \n  ▌▌▌  \n  ▌▌▌  \n ▌▌▌▌▌ \n ▌▌▌▌▌ \n▌▌▌▌▌▌▌\n▌▌▌▌▌▌▌\n▌▌▌▌▌▌▌ 0\n"
    );
}

#[test]
fn it_can_change_the_height() {
    let chart = Chart::new().height(4).make(&vec![1, 2, 3, 4, 3, 2, 1]);
    assert_eq!(chart, "   ▌    4\n  ▌▌▌  \n ▌▌▌▌▌ \n▌▌▌▌▌▌▌ 0\n");
}
