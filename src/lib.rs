//! Streaming substitution of variable references in text.
//!
//! A reference is a delimiter (`$` unless another is chosen) followed by a name of ASCII
//! letters and underscores, `$NAME`, or the same name in braces, `${NAME}`. Each is replaced
//! by the value its name is bound to in an [`Environment`]. Malformed references are errors
//! that carry the line they were found on.

pub mod environment;
pub mod laws;
pub mod machine;
pub mod parser;
pub mod text;

pub use environment::Environment;
pub use machine::{State, SyntaxKind};
pub use parser::{ParseError, Parser};
pub use text::default_delimiter;
