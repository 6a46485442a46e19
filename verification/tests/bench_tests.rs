use rench::bench::time_it;
use rench::duration::Duration;
use rench::engine::{Engine, Method};

#[test]
fn reports_duration_and_response() {
    let (u, d) = time_it(|| 123);
    assert_eq!(u, 123);
    assert!(d > Duration::new(0, 0));
}

#[test]
fn engine_round_robins_its_urls() {
    let engine = Engine::new(
        vec![
            String::from("http://a.test"),
            String::from("http://b.test"),
            String::from("http://c.test"),
        ],
        vec![],
    );
    assert_eq!(engine.url_for(0), "http://a.test");
    assert_eq!(engine.url_for(1), "http://b.test");
    assert_eq!(engine.url_for(2), "http://c.test");
    assert_eq!(engine.url_for(3), "http://a.test");
    assert_eq!(engine.url_for(7), "http://b.test");
}

#[test]
fn engine_defaults_and_switches() {
    let engine = Engine::new(vec![String::from("http://a.test")], vec![]);
    assert!(matches!(engine.method(), Method::Get));
    assert!(!engine.is_hyper());
    let engine = engine.with_method(Method::Head).with_hyper();
    assert!(matches!(engine.method(), Method::Head));
    assert!(engine.is_hyper());
}
