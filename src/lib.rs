//! Late substitution of named parameters into user-supplied strings.
//!
//! A template holds placeholders `{name}` and escaped literals `{"text"}`;
//! each of them is replaced, and every other character is kept as it stands.
pub mod arguments;
pub mod laws;
pub mod template;

pub use arguments::Arguments;
pub use template::{substitute_str, LateSubstitution};
