//! Identification of software components for vulnerability lookup: binding of
//! CPE well-formed names to their textual forms, package URLs, and the
//! decisions around lock-file analysis and report matching.

pub mod text;
pub mod cpe;
pub mod purl;
pub mod dependency;
pub mod analysers;
pub mod ossindex;
pub mod search;
