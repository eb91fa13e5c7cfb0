use cadence::input_validation::{
    is_blank, is_valid_country_code, is_valid_email, is_valid_name, meets_password_complexity,
    string_to_uuid, PasswordComplexity,
};
use cadence::requests::{AccountCreateRequest, ObtainTokenRequest, Validation};

#[test]
fn email_shapes() {
    assert!(is_valid_email("new@example.com"));
    assert!(is_valid_email("a.b+c@sub.domain.io"));
    assert!(!is_valid_email("invalid-email"));
    assert!(!is_valid_email("a@b.c"));
    assert!(!is_valid_email("@example.com"));
    assert!(!is_valid_email("a@example.com\n"));
}

#[test]
fn password_levels() {
    assert!(meets_password_complexity("Abcdefghi", PasswordComplexity::Normal));
    assert!(!meets_password_complexity("Abcdefgh", PasswordComplexity::Normal));
    assert!(!meets_password_complexity("abcdefghi", PasswordComplexity::Normal));
    assert!(!meets_password_complexity("Abcdefghi", PasswordComplexity::Strict));
    assert!(meets_password_complexity("NewP@ssw0rd1", PasswordComplexity::Strict));
    assert!(meets_password_complexity("NewP@ssw0rd1", PasswordComplexity::Flexible));
    assert!(!meets_password_complexity("A@1b", PasswordComplexity::Flexible));
}

#[test]
fn country_codes() {
    assert!(is_valid_country_code("CA"));
    assert!(!is_valid_country_code("CAN"));
    assert!(!is_valid_country_code("ca"));
    assert!(!is_valid_country_code("C1"));
}

#[test]
fn names() {
    assert!(is_valid_name("New Name"));
    assert!(!is_valid_name("   "));
    assert!(!is_valid_name(""));
    assert!(is_valid_name(&"a".repeat(50)));
    assert!(!is_valid_name(&"a".repeat(51)));
    assert!(is_blank("\t \n"));
    assert!(!is_blank(" x "));
}

#[test]
fn uuid_text() {
    assert_eq!(string_to_uuid("00000000-0000-0000-0000-00000000002a"), Some(42));
    assert_eq!(string_to_uuid("not-a-uuid"), None);
    assert_eq!(string_to_uuid(""), None);
}

#[test]
fn create_request_reports_every_finding() {
    let req = AccountCreateRequest {
        email: "nope".to_string(),
        password: "short".to_string(),
        password_confirmation: "other!".to_string(),
        name: Some("  ".to_string()),
        country_code_id: "usa".to_string(),
    };
    let d = req.validate().unwrap_err();
    let sources: Vec<String> = d.iter().map(|x| x.source.clone().unwrap()).collect();
    assert_eq!(
        sources,
        vec!["body.email", "body.password", "body.password_confirmation", "body.name", "body.country_code"]
    );
    assert_eq!(d[3].detailed_feedback, "Name cannot be empty.");
}

#[test]
fn create_request_accepts_valid_input() {
    let req = AccountCreateRequest {
        email: "user@example.com".to_string(),
        password: "VeryStrongPass".to_string(),
        password_confirmation: "VeryStrongPass".to_string(),
        name: None,
        country_code_id: "US".to_string(),
    };
    assert!(req.validate().is_ok());
}

#[test]
fn token_request_findings() {
    let ok = ObtainTokenRequest { email: "user@example.com".to_string(), password: "VeryStrongPass".to_string() };
    assert!(ok.validate().is_ok());
    let bad = ObtainTokenRequest { email: "user@example.com".to_string(), password: "weak".to_string() };
    let d = bad.validate().unwrap_err();
    assert_eq!(d.len(), 1);
    assert_eq!(d[0].source.as_deref(), Some("body.password"));
    assert_eq!(d[0].detailed_feedback, "Password does not meet complexity requirements.");
}

#[test]
fn create_request_flags_same_length_confirmation() {
    let req = AccountCreateRequest {
        email: "user@example.com".to_string(),
        password: "Abcdefghi1".to_string(),
        password_confirmation: "Abcdefghi2".to_string(),
        name: Some("Ann".to_string()),
        country_code_id: "US".to_string(),
    };
    let d = req.validate().unwrap_err();
    assert_eq!(d.len(), 1);
    assert_eq!(d[0].source.as_deref(), Some("body.password_confirmation"));
    assert_eq!(d[0].detailed_feedback, "Password confirmation does not match.");
}

#[test]
fn unicode_white_space_names_are_blank() {
    assert!(!is_valid_name("\u{3000}\u{a0}\u{2009}"));
    assert!(is_blank("\u{85}\u{2028}"));
    assert!(!is_blank("\u{200b}"));
}
