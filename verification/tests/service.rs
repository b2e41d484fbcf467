use base64::Engine;

use zero2prod::auth::Credentials;
use zero2prod::client::Email;
use zero2prod::controller::newsletters::parse_confirmed_email;
use zero2prod::controller::subscriptions::build_confirmation_email;
use zero2prod::controller::{NewSubscriptionForm, PublishBody, PublishBodyContent};
use zero2prod::crypto::{Confirmation, SigningKey, TokenError};
use zero2prod::domain::EmailAddress;
use zero2prod::repo::ConfirmedSubscription;
use zero2prod::settings::Runtime;

fn generate_basic_authorization(username: &str, password: &str) -> String {
    let username_password = format!("{}:{}", username, password);
    let username_password =
        base64::engine::general_purpose::STANDARD.encode(username_password);
    format!("Basic {}", username_password)
}

fn check_basic(creds: &Credentials, username: &str, password: &str) {
    match creds {
        Credentials::Basic { username: cred_username, password: cred_password } => {
            assert_eq!(username, cred_username);
            assert_eq!(password, cred_password);
        }
    }
}

#[test]
fn can_parse_basic_authorization() {
    let username = "test_username";
    let password = "test_password";

    let basic_auth = generate_basic_authorization(username, password);

    let creds = Credentials::from_basic(&basic_auth).expect("Failed to parse headers");

    check_basic(&creds, username, password);
}

#[test]
fn basic_authorization_keeps_extra_colons_in_the_password() {
    let basic_auth = generate_basic_authorization("user", "pass:word");
    let creds = Credentials::from_basic(&basic_auth).expect("Failed to parse headers");
    check_basic(&creds, "user", "pass:word");
}

#[test]
fn non_basic_authorization_is_rejected() {
    assert_eq!(
        Credentials::from_basic("Bearer xyz").unwrap_err(),
        "Authorization scheme not basic".to_string()
    );
}

#[test]
fn undecodable_basic_authorization_is_rejected() {
    assert_eq!(
        Credentials::from_basic("Basic !!!").unwrap_err(),
        "Failed to decode authorization header".to_string()
    );
}

#[test]
fn basic_authorization_without_password_is_rejected() {
    let value = format!(
        "Basic {}",
        base64::engine::general_purpose::STANDARD.encode("nopassword")
    );
    assert_eq!(
        Credentials::from_basic(&value).unwrap_err(),
        "Missing password in authorization".to_string()
    );
}

#[test]
fn runtime_parses_case_insensitively() {
    assert_eq!(Runtime::parse("dev").unwrap(), Runtime::Dev);
    assert_eq!(Runtime::parse("PROD").unwrap(), Runtime::Prod);
    assert_eq!(Runtime::Dev.as_str(), "dev");
    assert_eq!(Runtime::Prod.as_str(), "prod");
    assert_eq!(
        Runtime::parse("staging").unwrap_err(),
        "staging is not a valid runtime environment".to_string()
    );
}

#[test]
fn form_validation_reports_the_first_failure() {
    let form = NewSubscriptionForm {
        name: "Test Name".to_string(),
        email: "test@test.com".to_string(),
    };
    let subscription = form.try_into_subscription().expect("Failed to validate form");
    assert_eq!(subscription.name.as_str(), "Test Name");
    assert_eq!(subscription.email.as_str(), "test@test.com");

    let form = NewSubscriptionForm { name: "".to_string(), email: "bad".to_string() };
    assert_eq!(form.try_into_subscription().unwrap_err(), "Name cannot be empty".to_string());

    let form = NewSubscriptionForm { name: "Test Name".to_string(), email: "bad".to_string() };
    assert_eq!(
        form.try_into_subscription().unwrap_err(),
        "Email address of incorrect format".to_string()
    );
}

#[test]
fn confirmation_email_is_composed_exactly() {
    let form = NewSubscriptionForm {
        name: "Test Name".to_string(),
        email: "test@test.com".to_string(),
    };
    let subscription = form.try_into_subscription().expect("Failed to validate form");
    let url = "https://example.com/subscriptions/confirm/token123";
    let email = build_confirmation_email(subscription, url);

    assert_eq!(email.recipient.as_str(), "test@test.com");
    assert_eq!(email.subject, "Welcome Test Name!");
    assert_eq!(
        email.html_body,
        "<h1>Welcome to our newsletter!</h1><p>Click <a href=\"https://example.com/subscriptions/confirm/token123\">here</a> to confirm your subscription.</p>"
    );
    assert_eq!(
        email.text_body,
        "Welcome to our newsletter!\n\nTo confirm your subscription, visit this web page: https://example.com/subscriptions/confirm/token123"
    );
}

#[test]
fn email_as_request_carries_every_field() {
    let sender = "sender@test.com".parse::<EmailAddress>().expect("Failed to parse sender");
    let recipient = "to@test.com".parse::<EmailAddress>().expect("Failed to parse recipient");
    let email = Email {
        recipient,
        subject: "Subject".to_string(),
        html_body: "<p>Hi</p>".to_string(),
        text_body: "Hi".to_string(),
    };
    let request = email.as_request(&sender);
    assert_eq!(request.to, "to@test.com");
    assert_eq!(request.from, "sender@test.com");
    assert_eq!(request.subject, "Subject");
    assert_eq!(request.html_body, "<p>Hi</p>");
    assert_eq!(request.text_body, "Hi");
}

#[test]
fn publish_body_becomes_an_email() {
    let body = PublishBody {
        title: "Issue 1".to_string(),
        content: PublishBodyContent {
            text: "plain".to_string(),
            html: "<p>rich</p>".to_string(),
        },
    };
    let recipient = "to@test.com".parse::<EmailAddress>().expect("Failed to parse recipient");
    let email = body.into_email(recipient);
    assert_eq!(email.recipient.as_str(), "to@test.com");
    assert_eq!(email.subject, "Issue 1");
    assert_eq!(email.text_body, "plain");
    assert_eq!(email.html_body, "<p>rich</p>");
}

#[test]
fn confirmed_records_are_revalidated() {
    let good = ConfirmedSubscription {
        id: "3fa85f64-5717-4562-b3fc-2c963f66afa6".to_string(),
        email: "Test@test.com".to_string(),
    };
    let parsed = parse_confirmed_email(good).expect("A valid record is kept");
    assert_eq!(parsed.as_str(), "test@test.com");

    let bad = ConfirmedSubscription {
        id: "3fa85f64-5717-4562-b3fc-2c963f66afa6".to_string(),
        email: "not-an-address".to_string(),
    };
    assert!(parse_confirmed_email(bad).is_none());
}

#[test]
fn confirmation_roundtrip() {
    let key = SigningKey::new(b"test_key").expect("Failed to build key");
    let id = "3fa85f64-5717-4562-b3fc-2c963f66afa6";

    let token = Confirmation::new(id.to_string()).sign(&key).expect("Failed to sign");
    let recovered =
        Confirmation::verify(&key, token.as_str()).expect("Failed to verify confirmation");
    assert_eq!(recovered.id(), id);
}

#[test]
fn confirmation_rejects_non_string_payloads() {
    let key = SigningKey::new(b"test_key").expect("Failed to build key");
    let token = zero2prod::crypto::Token::builder("42".to_string())
        .sign(&key)
        .expect("Failed to sign");
    assert!(matches!(
        Confirmation::verify(&key, token.as_str()),
        Err(TokenError::DecodeError)
    ));
}

#[test]
fn confirmation_rejects_garbage() {
    let key = SigningKey::new(b"test_key").expect("Failed to build key");
    assert!(matches!(
        Confirmation::verify(&key, "no dots here"),
        Err(TokenError::FormatError)
    ));
}
