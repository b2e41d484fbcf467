use zero2prod::domain::{EmailAddress, OAuth2Provider, PersonName};

#[test]
fn long_email_valid() {
    let domain = "@test.com".to_string();
    let subject = "\u{451}".repeat(256 - domain.len());
    let email = format!("{}{}", subject, domain);

    assert!(email.parse::<EmailAddress>().is_ok());
}

#[test]
fn too_long_email_invalid() {
    let domain = "@test.com".to_string();
    let subject = "\u{451}".repeat(258 - domain.len());
    let email = format!("{}{}", subject, domain);

    assert!(email.parse::<EmailAddress>().is_err());
}

#[test]
fn blank_email_invalid() {
    let email = "    ";
    assert!(email.parse::<EmailAddress>().is_err());
}

#[test]
fn empty_email_invalid() {
    let email = "";
    assert!(email.parse::<EmailAddress>().is_err());
}

#[test]
fn domain_only_invalid() {
    let email = "test.com";
    assert!(email.parse::<EmailAddress>().is_err());
}

#[test]
fn subject_only_invalid() {
    let email = "@test.com";
    assert!(email.parse::<EmailAddress>().is_err());
}

#[test]
fn email_is_normalized() {
    let email = "Test@TEST.com".parse::<EmailAddress>().expect("Failed to parse address");
    assert_eq!(email.as_str(), "test@test.com");
}

#[test]
fn email_error_messages_name_the_reason() {
    assert_eq!(
        "".parse::<EmailAddress>().unwrap_err(),
        "Email address cannot be empty".to_string()
    );
    assert_eq!(
        "test.com".parse::<EmailAddress>().unwrap_err(),
        "Email address of incorrect format".to_string()
    );
}

#[test]
fn long_name_valid() {
    let name = "\u{451}".repeat(256);
    assert!(name.parse::<PersonName>().is_ok());
}

#[test]
fn too_long_name_valid() {
    let name = "\u{451}".repeat(256 + 10);
    assert!(name.parse::<PersonName>().is_err());
}

#[test]
fn empty_name_valid() {
    let name = "";
    assert!(name.parse::<PersonName>().is_err());
}

#[test]
fn blank_name_valid() {
    let name = "   ";
    assert!(name.parse::<PersonName>().is_err());
}

#[test]
fn bad_chars_invalid() {
    let name = "test{}\\\"/<>";
    assert!(name.parse::<PersonName>().is_err());
}

#[test]
fn name_is_kept_verbatim() {
    let name = " Test Name ".parse::<PersonName>().expect("Failed to parse name");
    assert_eq!(name.as_str(), " Test Name ");
}

#[test]
fn can_convert_str_to_enum() {
    let values = vec![OAuth2Provider::Google];
    for value in values {
        let value_as_str: &str = value.as_str();
        assert_eq!(value, value_as_str.parse().unwrap());
    }
}

#[test]
fn unknown_provider_is_kept_lowercased() {
    match OAuth2Provider::parse("GitHub") {
        OAuth2Provider::Unknown(name) => assert_eq!(name, "github"),
        other => panic!("Unexpected provider {:?}", other),
    }
}
