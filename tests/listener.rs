use clipboard_history::listener::ChangeDetector;

#[test]
fn repeated_value_is_reported_once() {
    let mut detector = ChangeDetector::new();
    let mut reported = Vec::new();
    for value in ["foo", "foo", "bar"] {
        if let Some(text) = detector.observe(Some(value.to_string())) {
            reported.push(text);
        }
    }
    assert_eq!(reported, vec!["foo", "bar"]);
}

#[test]
fn failed_read_changes_nothing() {
    let mut detector = ChangeDetector::new();
    assert_eq!(detector.observe(None), None);
    assert_eq!(detector.observe(Some("a".to_string())), Some("a".to_string()));
    assert_eq!(detector.observe(None), None);
    assert_eq!(detector.observe(Some("a".to_string())), None);
    assert_eq!(detector.observe(Some("b".to_string())), Some("b".to_string()));
    assert_eq!(detector.observe(Some("a".to_string())), Some("a".to_string()));
}
