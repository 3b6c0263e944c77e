use linkwatch::pushover::Pushover;

fn notifier() -> Pushover {
    Pushover { token: "app-token".to_string(), user: "user-key".to_string() }
}

#[test]
fn form_fields_without_a_title() {
    let fields = notifier().form_fields("hello", None);

    assert_eq!(
        fields,
        vec![
            ("token".to_string(), "app-token".to_string()),
            ("user".to_string(), "user-key".to_string()),
            ("message".to_string(), "hello".to_string()),
        ]
    );
}

#[test]
fn form_fields_with_a_title() {
    let fields = notifier().form_fields("hello", Some("3 new links"));

    assert_eq!(
        fields,
        vec![
            ("token".to_string(), "app-token".to_string()),
            ("user".to_string(), "user-key".to_string()),
            ("message".to_string(), "hello".to_string()),
            ("title".to_string(), "3 new links".to_string()),
        ]
    );
}

#[test]
fn only_plain_success_is_accepted() {
    let p = notifier();

    assert!(p.send_outcome(200).is_ok());
    assert_eq!(p.send_outcome(404).unwrap_err().status, 404);
    assert_eq!(p.send_outcome(500).unwrap_err().status, 500);
    assert_eq!(p.send_outcome(201).unwrap_err().status, 201);
}
