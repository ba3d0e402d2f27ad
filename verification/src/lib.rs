//! Self-certifying identifier prefixes: a short derivation code followed by
//! the URL-safe base64 text of a key, a digest or a timestamp.

pub mod base64url;
pub mod derivation;
pub mod error;
pub mod keys;
pub mod prefix;
