//! Common Platform Enumeration: well-formed names and their two bindings, the
//! URI of CPE 2.2 and the formatted string of CPE 2.3 (NIST IR 7695).

pub mod escapes;
pub mod uri_encoding;
pub mod fs_unescaping;
pub mod wfn;
pub mod uri_laws;
pub mod fs_laws;

pub use wfn::{AttributeValue, CpePart, CpeWfn};
