//! Admission control for the Cadence services: a fixed-window rate limiter
//! with its request gate, and the request validation and error envelopes
//! that the services share.

pub mod limiter;
pub mod admission;
pub mod gate;
pub mod error;
pub mod api_error;
pub mod responses;
pub mod input_validation;
pub mod requests;
pub mod service;
pub mod token;
pub mod api_response;
