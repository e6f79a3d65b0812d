//! Property negotiation for a CardDAV server: which of the requested
//! properties a resource has, what their values are, and the multistatus
//! document that reports them.

pub mod catalog;
pub mod document;
pub mod markup;
pub mod multistatus;
pub mod request;
pub mod resolver;
pub mod response;
pub mod sequences;

pub use crate::document::{parse_carddav_body, parse_carddav_request};
pub use crate::request::PropRequest;
pub use crate::resolver::principal_path;
pub use crate::response::build_carddav_response;
