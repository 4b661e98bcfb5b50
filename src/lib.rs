//! Probing a working directory for a C or C++ project, learning the
//! compiler's identity and version from its banner, and rendering those facts
//! through a small template language into styled segments.

pub mod config;
pub mod text;
pub mod detect;
pub mod facts;
pub mod template;
pub mod module;
pub mod laws;
