//! Conversion of the front-matter block at the head of a text document
//! between TOML (`+++`) and YAML (`---`).

pub mod errors;
pub mod text;
pub mod format;
pub mod value;
pub mod literal;
pub mod matter;
pub mod extract;
pub mod convert;
pub mod markdown;
