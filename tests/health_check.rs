use rustyletter::form::{lookup, subscription_from_form, subscription_from_pairs, FormError};
use rustyletter::handlers::{
    finish_subscription, health_check, start_subscription, InsertOutcome, SubscribeAction,
};

const FORM: &str = "application/x-www-form-urlencoded";

fn status_of_post(body: &str, outcome: InsertOutcome) -> (u16, Option<(String, String)>) {
    match start_subscription(FORM, body.as_bytes()) {
        SubscribeAction::Insert(req) => {
            let resp = finish_subscription(outcome);
            let row = if outcome == InsertOutcome::Inserted {
                Some((req.email, req.name))
            } else {
                None
            };
            (resp.status, row)
        }
        SubscribeAction::Respond(resp) => (resp.status, None),
    }
}

#[test]
fn subscriber_returns_200_for_valid_form_data() {
    let body = "name=le%20guin&email=ursula_le_guin%40gmail.com";
    let (status, saved) = status_of_post(body, InsertOutcome::Inserted);
    assert_eq!(200, status);
    let (email, name) = saved.expect("Failed to fetch saved subscription.");
    assert_eq!(email, "ursula_le_guin@gmail.com");
    assert_eq!(name, "le guin");
}

#[test]
fn subscriber_returns_400_when_data_is_missing() {
    let test_cases = vec![
        ("name=le%20guin", "missing the email"),
        ("email=ursula_le_guin%40gmail.com", "missing the name"),
        ("", "missing both name and email"),
    ];
    for (invalid_body, error_message) in test_cases {
        let (status, saved) = status_of_post(invalid_body, InsertOutcome::Inserted);
        assert_eq!(
            400, status,
            "This API did not fail with 400 error when payload was {}",
            error_message
        );
        assert!(saved.is_none());
    }
}

#[test]
fn health_check_works() {
    let response = health_check();
    assert!((200..300).contains(&response.status));
    assert_eq!(0, response.body.len());
}

#[test]
fn missing_fields_are_reported_by_name() {
    assert!(matches!(subscription_from_form(b"name=le%20guin"), Err(FormError::MissingEmail)));
    assert!(matches!(
        subscription_from_form(b"email=ursula_le_guin%40gmail.com"),
        Err(FormError::MissingName)
    ));
    assert!(matches!(subscription_from_form(b""), Err(FormError::MissingEmail)));
}

#[test]
fn repeated_fields_are_refused() {
    assert!(matches!(
        subscription_from_form(b"name=a&email=b%40c&email=d%40e"),
        Err(FormError::DuplicateEmail)
    ));
    assert!(matches!(
        subscription_from_form(b"name=a&name=z&email=b%40c"),
        Err(FormError::DuplicateName)
    ));
}

#[test]
fn extra_fields_and_empty_values_are_accepted() {
    let req = subscription_from_form(b"city=paris&email=&name=").ok().unwrap();
    assert_eq!(req.name, "");
    assert_eq!(req.email, "");
    let req = subscription_from_form(b"email=x%40y.z&&name=Ursula+K.+Le+Guin&extra").ok().unwrap();
    assert_eq!(req.name, "Ursula K. Le Guin");
    assert_eq!(req.email, "x@y.z");
}

#[test]
fn failed_insert_answers_500() {
    let body = "name=le%20guin&email=ursula_le_guin%40gmail.com";
    let (status, saved) = status_of_post(body, InsertOutcome::Failed);
    assert_eq!(500, status);
    assert!(saved.is_none());
    let response = finish_subscription(InsertOutcome::Failed);
    assert_eq!(0, response.body.len());
}

#[test]
fn two_subscribers_are_both_stored() {
    let mut table: Vec<(String, String)> = Vec::new();
    for body in ["name=a&email=a%40x.org", "name=b&email=b%40x.org"] {
        let (status, saved) = status_of_post(body, InsertOutcome::Inserted);
        assert_eq!(200, status);
        table.push(saved.unwrap());
    }
    assert_eq!(table.len(), 2);
    assert!(table.contains(&("a@x.org".to_string(), "a".to_string())));
    assert!(table.contains(&("b@x.org".to_string(), "b".to_string())));
}

#[test]
fn other_content_types_are_refused() {
    let body = b"name=le%20guin&email=ursula_le_guin%40gmail.com";
    match start_subscription("application/json", body) {
        SubscribeAction::Respond(resp) => assert_eq!(resp.status, 400),
        SubscribeAction::Insert(_) => panic!("a JSON body was taken for a form"),
    }
}

#[test]
fn decoded_pairs_are_looked_up() {
    let pairs = vec![
        ("email".to_string(), "first@x.org".to_string()),
        ("name".to_string(), "A".to_string()),
        ("email".to_string(), "second@x.org".to_string()),
    ];
    assert_eq!(lookup(&pairs, "email"), Some("first@x.org".to_string()));
    assert_eq!(lookup(&pairs, "city"), None);
    assert!(matches!(subscription_from_pairs(&pairs), Err(FormError::DuplicateEmail)));
    let req = subscription_from_pairs(&pairs[..2].to_vec()).ok().unwrap();
    assert_eq!(req.name, "A");
    assert_eq!(req.email, "first@x.org");
}
