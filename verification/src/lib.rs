//! Verified core of a structured-record encoder.
//!
//! Records whose fields sit in an ordered key/value store go through the fast
//! path; records whose fields must be discovered through type reflection go
//! through the fallback path. Both paths validate every key or attribute name,
//! drop names carrying the reserved private prefix, preserve source order, and
//! hand each field value to an external generic value encoder at a recursion
//! depth exactly one above the caller's.
//!
//! The host object model (which owns the records), the output serializer, and
//! the generic value encoder are external collaborators: this library works on
//! the plain values the host hands over and states exactly which map is
//! emitted, or which error aborts the whole encode.

pub mod error;
pub mod output;
pub mod key;
pub mod fast;
pub mod fallback;
pub mod laws;
