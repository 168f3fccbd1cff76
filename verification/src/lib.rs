//! A minimal HTTP/1.1 message library.
//!
//! The crate parses a raw byte buffer into a structured [`Request`] and
//! serializes a structured [`Response`] back into bytes.  It is a building
//! block for hand-rolled servers, not a full protocol stack: there is no
//! chunked transfer encoding, no `Content-Length`-driven body framing, no
//! multi-value headers and no persistent-connection handling.  The buffer
//! handed to the parser must already contain the whole message.

pub mod ascii;
pub mod bytes;
pub mod headers;
pub mod method;
pub mod request;
pub mod response;
pub mod status;
pub mod version;

pub use ascii::string_from_ascii;
pub use headers::Headers;
pub use ascii::NonAsciiCharacterError;
pub use method::InvalidMethodError;
pub use request::{Request, RequestError};
pub use response::Response;
pub use method::Method;
pub use status::Status;
pub use version::InvalidVersionError;
pub use version::Version;
