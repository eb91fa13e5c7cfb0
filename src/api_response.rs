//! The parts of the response envelope that describe its payload.
use vstd::prelude::*;

use crate::api_error::APIResponseError;

verus! {

/// General status of a response.
#[derive(Debug, Clone, Copy, PartialEq, Eq, Structural)]
pub enum APIResponseStatus {
    Success,
    Failure,
}

/// The kind of object that a response carries.
#[derive(Debug, Clone, Copy, PartialEq, Eq, Structural)]
pub enum APIResponseObjectType {
    Account,
    EventMetadata,
    EventTime,
    Recurrence,
    Exception,
    Goal,
    Tag,
    Flag,
    Email,
    ExternalIdentity,
    Energy,
    Unknown,
    Auth,
    /// No payload at all.
    NoData,
}

/// An account as other callers may see it.
#[derive(Debug)]
pub struct CensoredAccountResponse {
    pub id: String,
    pub name: Option<String>,
    pub country_code: String,
    /// Milliseconds since the Unix epoch.
    pub created_at: i64,
    /// Milliseconds since the Unix epoch.
    pub updated_at: i64,
}

/// What every response says about itself.
#[derive(Debug, Clone)]
pub struct APIResponseMetadata {
    /// The API version that answered, such as `v1.0`.
    pub api_version: String,
    pub status: APIResponseStatus,
    pub http_status: u16,
    /// When the response was made, in milliseconds since the Unix epoch.
    pub timestamp_ms: i64,
    /// The kind of object in `data`.
    pub data_type: APIResponseObjectType,
}

/// The envelope of every response: metadata, and either data or errors.
#[derive(Debug)]
pub struct APIResponse<T> {
    pub metadata: APIResponseMetadata,
    pub data: Option<T>,
    pub errors: Option<APIResponseError>,
}

/// The API version that this library answers with.
pub open spec fn current_api_version() -> Seq<char> {
    "v1.0"@
}

fn metadata(
    status: APIResponseStatus,
    http_status: u16,
    timestamp_ms: i64,
    data_type: APIResponseObjectType,
) -> (r: APIResponseMetadata)
    ensures
        r.api_version@ == current_api_version(),
        r.status == status,
        r.http_status == http_status,
        r.timestamp_ms == timestamp_ms,
        r.data_type == data_type,
{
    APIResponseMetadata {
        api_version: String::from_str("v1.0"),
        status,
        http_status,
        timestamp_ms,
        data_type,
    }
}

impl<T> APIResponse<T> {
    /// A successful response carrying `data` of kind `data_type`, made at
    /// `timestamp_ms`.
    pub fn success(data: T, data_type: APIResponseObjectType, timestamp_ms: i64) -> (r: Self)
        ensures
            r.metadata.api_version@ == current_api_version(),
            r.metadata.status == APIResponseStatus::Success,
            r.metadata.http_status == 200,
            r.metadata.timestamp_ms == timestamp_ms,
            r.metadata.data_type == data_type,
            r.data == Some(data),
            r.errors is None,
    {
        APIResponse {
            metadata: metadata(APIResponseStatus::Success, 200, timestamp_ms, data_type),
            data: Some(data),
            errors: None,
        }
    }

    /// A failed response carrying `error`, answered with `http_status`.
    pub fn failure(error: APIResponseError, http_status: u16, timestamp_ms: i64) -> (r: Self)
        ensures
            r.metadata.api_version@ == current_api_version(),
            r.metadata.status == APIResponseStatus::Failure,
            r.metadata.http_status == http_status,
            r.metadata.timestamp_ms == timestamp_ms,
            r.metadata.data_type == APIResponseObjectType::Unknown,
            r.data is None,
            r.errors == Some(error),
    {
        APIResponse {
            metadata: metadata(
                APIResponseStatus::Failure,
                http_status,
                timestamp_ms,
                APIResponseObjectType::Unknown,
            ),
            data: None,
            errors: Some(error),
        }
    }
}

impl APIResponse<()> {
    /// A successful response with no payload.
    pub fn success_no_data(timestamp_ms: i64) -> (r: Self)
        ensures
            r.metadata.api_version@ == current_api_version(),
            r.metadata.status == APIResponseStatus::Success,
            r.metadata.http_status == 200,
            r.metadata.timestamp_ms == timestamp_ms,
            r.metadata.data_type == APIResponseObjectType::NoData,
            r.data is None,
            r.errors is None,
    {
        APIResponse {
            metadata: metadata(
                APIResponseStatus::Success,
                200,
                timestamp_ms,
                APIResponseObjectType::NoData,
            ),
            data: None,
            errors: None,
        }
    }
}

} // verus!
