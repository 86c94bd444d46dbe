//! Verified core of a binding to the go-jsonnet interpreter.
//!
//! The interpreter itself lives behind a C interface. This crate holds what the
//! binding decides on its side of that interface: which strings may cross it,
//! how values are taken apart and put together again, which callback holder is
//! superseded when a name is registered twice, and how a finished call is
//! reported to the caller.

pub mod c_text;
pub mod callback;
pub mod error;
pub mod extract;
pub mod holders;
pub mod json;
pub mod marshal;
pub mod session;
pub mod style;

pub use c_text::CText;
pub use c_text::NulError;
pub use callback::ImportedContent;
pub use error::VmError;
pub use holders::Holders;
pub use json::Json;
pub use style::CommentStyle;
pub use style::StringStyle;
