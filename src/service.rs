//! How a service describes itself, and what can go wrong while it starts.
use vstd::prelude::*;

verus! {

/// Errors met while a service is built or run.
#[derive(Debug, Clone)]
pub enum ServiceError {
    NotFound,
    AlreadyExists,
    InvalidCreation,
    InvalidUpdate,
    InvalidDeletion,
    Internal,
    CertificateError(String),
    KeyError(String),
    EnviromentError(String),
    EnviromentParseError(String),
    TLSConfigError(String),
    SocketAddrNotDefined,
    ListenerError(String),
    ServerError(String),
}

/// The human-readable text of an error.
pub open spec fn service_error_text(e: ServiceError) -> Seq<char> {
    match e {
        ServiceError::NotFound => "Resource not found"@,
        ServiceError::AlreadyExists => "Resource already exists"@,
        ServiceError::InvalidCreation => "Invalid creation data"@,
        ServiceError::InvalidUpdate => "Invalid update data"@,
        ServiceError::InvalidDeletion => "Invalid deletion operation"@,
        ServiceError::Internal => "Internal server error"@,
        ServiceError::CertificateError(s) => "Certificate error: "@ + s@,
        ServiceError::KeyError(s) => "Key error: "@ + s@,
        ServiceError::EnviromentError(s) => "Environment configuration error: "@ + s@,
        ServiceError::EnviromentParseError(s) => "Environment parsing error: "@ + s@,
        ServiceError::TLSConfigError(s) => "TLS configuration error: "@ + s@,
        ServiceError::SocketAddrNotDefined => "Socket address not defined"@,
        ServiceError::ListenerError(s) => "Listener error: "@ + s@,
        ServiceError::ServerError(s) => "Server runtime error: "@ + s@,
    }
}

fn labelled(label: &str, detail: &String) -> (r: String)
    ensures
        r@ == label@ + detail@,
{
    let mut r = String::from_str(label);
    r.append(detail.as_str());
    r
}

impl ServiceError {
    /// The human-readable text of this error.
    pub fn to_string(&self) -> (r: String)
        ensures
            r@ == service_error_text(*self),
    {
        match self {
            ServiceError::NotFound => String::from_str("Resource not found"),
            ServiceError::AlreadyExists => String::from_str("Resource already exists"),
            ServiceError::InvalidCreation => String::from_str("Invalid creation data"),
            ServiceError::InvalidUpdate => String::from_str("Invalid update data"),
            ServiceError::InvalidDeletion => String::from_str("Invalid deletion operation"),
            ServiceError::Internal => String::from_str("Internal server error"),
            ServiceError::CertificateError(s) => labelled("Certificate error: ", s),
            ServiceError::KeyError(s) => labelled("Key error: ", s),
            ServiceError::EnviromentError(s) => labelled("Environment configuration error: ", s),
            ServiceError::EnviromentParseError(s) => labelled("Environment parsing error: ", s),
            ServiceError::TLSConfigError(s) => labelled("TLS configuration error: ", s),
            ServiceError::SocketAddrNotDefined => String::from_str("Socket address not defined"),
            ServiceError::ListenerError(s) => labelled("Listener error: ", s),
            ServiceError::ServerError(s) => labelled("Server runtime error: ", s),
        }
    }
}

/// The name, version and description of a service.
#[derive(Debug, Clone)]
pub struct APIServiceMetadata {
    pub name: String,
    pub version: String,
    pub description: String,
}

/// A service's configuration, from its environment when one was loaded.
#[derive(Debug, Clone)]
pub struct APIServiceConfig<T> {
    pub enviroment: Option<T>,
}

/// What every service's environment provides.
pub trait EnviromentCommon {
    fn h2(&self) -> bool;

    fn h3(&self) -> bool;

    fn get_service_name(&self) -> String;

    fn get_service_description(&self) -> String;

    fn get_service_version(&self) -> String;

    fn get_address(&self) -> Option<String>;

    fn get_port(&self) -> Option<u16>;

    fn get_cert_path(&self) -> Option<String>;

    fn get_key_path(&self) -> Option<String>;

    fn get_service_metadata(&self) -> APIServiceMetadata {
        APIServiceMetadata {
            name: self.get_service_name(),
            version: self.get_service_version(),
            description: self.get_service_description(),
        }
    }
}

/// The environment of the identity service.
#[derive(Clone, Debug, Default)]
pub struct Enviroment {
    pub h2: bool,
    pub h3: bool,
    pub address: Option<String>,
    pub port: Option<u16>,
    pub cert_path: Option<String>,
    pub key_path: Option<String>,
    pub service_name: String,
    pub service_description: String,
    pub service_version: String,
    pub postgres_uri: String,
    pub tokens_key: String,
}

impl EnviromentCommon for Enviroment {
    fn h2(&self) -> bool {
        self.h2
    }

    fn h3(&self) -> bool {
        self.h3
    }

    fn get_address(&self) -> Option<String> {
        self.address.clone()
    }

    fn get_port(&self) -> Option<u16> {
        self.port
    }

    fn get_cert_path(&self) -> Option<String> {
        self.cert_path.clone()
    }

    fn get_key_path(&self) -> Option<String> {
        self.key_path.clone()
    }

    fn get_service_name(&self) -> String {
        self.service_name.clone()
    }

    fn get_service_description(&self) -> String {
        self.service_description.clone()
    }

    fn get_service_version(&self) -> String {
        self.service_version.clone()
    }
}

} // verus!
