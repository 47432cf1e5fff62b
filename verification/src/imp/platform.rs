//! One provider per platform family, each answering the same question:
//! which candidate root directories hold data of a given category, and
//! does the vendor (author) take part in app paths there.
//!
//! The XDG provider reads the live environment and serves the queries in
//! [`crate::imp`]; the others are pure path templates over the values
//! (home directory, known folders) their callers read from the platform.

pub mod android;
pub mod macos;
pub mod redox;
pub mod unknown;
pub mod unix;
pub mod windows;
