use cadence::api_error::{rejected_input, RequestPart};
use cadence::error::{CadenceError, InputError};
use cadence::service::{Enviroment, EnviromentCommon, ServiceError};

#[test]
fn service_error_texts() {
    assert_eq!(ServiceError::NotFound.to_string(), "Resource not found");
    assert_eq!(ServiceError::SocketAddrNotDefined.to_string(), "Socket address not defined");
    assert_eq!(ServiceError::KeyError("bad pem".to_string()).to_string(), "Key error: bad pem");
    assert_eq!(
        ServiceError::EnviromentError("PORT".to_string()).to_string(),
        "Environment configuration error: PORT"
    );
}

#[test]
fn environment_metadata() {
    let env = Enviroment {
        service_name: "iam".to_string(),
        service_description: "identity".to_string(),
        service_version: "1.0".to_string(),
        port: Some(8080),
        ..Default::default()
    };
    let m = env.get_service_metadata();
    assert_eq!(m.name, "iam");
    assert_eq!(m.version, "1.0");
    assert_eq!(m.description, "identity");
    assert_eq!(env.get_port(), Some(8080));
    assert!(!env.h2());
}

#[test]
fn unreadable_parts_give_input_errors() {
    let e = rejected_input(RequestPart::Query, "missing field `id`".to_string());
    assert_eq!(e.message, "missing field `id`");
    assert!(e.details.is_empty());
    assert!(matches!(e.error, CadenceError::Input(InputError::InvalidFormat(ref s)) if s == "invalid query"));
    assert_eq!(e.status_code(), 400);
    let e = rejected_input(RequestPart::Body, String::new());
    assert!(matches!(e.error, CadenceError::Input(InputError::InvalidFormat(ref s)) if s == "invalid body"));
}
