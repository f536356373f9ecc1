//! A minimal HTTP/1.x server framework: request parsing, route matching and
//! response serialization, with their behaviour stated and proved.
//!
//! The library works on bytes and values; reading from and writing to
//! sockets, and running handlers on threads, is left to the program around it.

pub mod cookie;
pub mod cookies;
pub mod decode;
pub mod error;
pub mod headers;
pub mod method;
pub mod params;
pub mod path;
pub mod query_params;
pub mod request;
pub mod response;
pub mod route;
pub mod segment;
pub mod sorted_map;
pub mod status_code;
pub mod text;
pub mod validate;
pub mod version;

pub use cookie::Cookie;
pub use cookies::Cookies;
pub use decode::{decode, percent_decode};
pub use error::SerwerError;
pub use headers::Headers;
pub use method::Method;
pub use params::Params;
pub use path::Path;
pub use query_params::QueryParams;
pub use request::Request;
pub use response::Response;
pub use route::{dispatch, handle_request, route_exists, Action, Route};
pub use segment::Segment;
pub use status_code::StatusCode;
pub use validate::validate_path;
pub use version::Version;

use vstd::prelude::*;

verus! {

} // verus!
