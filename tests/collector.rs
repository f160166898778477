use lambda_test_format::collector::Collector;
use lambda_test_format::results::ResultSet;

#[test]
fn collector_hands_back_messages_until_closed() {
    let mut c = Collector::new();
    assert!(!c.is_terminated());
    assert_eq!(c.receive(Some("a".to_string())), Some("a".to_string()));
    assert_eq!(c.receive(Some("b".to_string())), Some("b".to_string()));
    assert!(!c.is_terminated());
    assert_eq!(c.receive(None), None);
    assert!(c.is_terminated());
}

#[test]
fn collector_terminates_on_an_empty_closed_queue() {
    let mut c = Collector::new();
    assert_eq!(c.receive(None), None);
    assert!(c.is_terminated());
}

#[test]
fn result_set_has_no_rows() {
    let r = ResultSet::new();
    assert!(r.to_rows().is_empty());
}
