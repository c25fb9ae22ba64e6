//! A client library for object storage services that speak the OSS or the
//! S3 REST dialect: request building, canonicalisation and request signing.

pub mod auth;
pub mod client;
pub mod dispatch;
pub mod errors;
pub mod keyed;
pub mod laws;
pub mod ops;
pub mod request;
pub mod resource;
pub mod response;
pub mod s3;
pub mod text;
pub mod types;

pub use client::OSSClient;
pub use dispatch::DispatchError;
pub use errors::{Error, HttpError, IoKind, ObjectError, ParseError};
pub use request::{Schema, SignedRequest, OSS_PREFIX};
pub use response::{CommonRespHeaders, GetAsBufferResp, GetResp, HttpResponse};
pub use s3::S3Config;
pub use types::{ListBuilder, ListDetailsResp, ListOptions, ObjectDetails, PutOrCopyOptions, SignedUrlOptions};
