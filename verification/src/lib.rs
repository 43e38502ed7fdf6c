//! Line-oriented, typed reading of text input.
//!
//! A single pipeline reads one line from a line-buffered source, strips the
//! trailing line terminator, and parses the remaining text into a
//! caller-chosen target type.  Failures are classified into exactly one of
//! three kinds: an I/O failure of the underlying transport, a parse failure
//! carrying the target type's own error value, or end of stream.

mod error;
mod line;
mod parse;
mod reader;
mod source;

pub use error::InputError;
pub use line::strip_line_terminator;
pub use parse::{FromText, IntParseError, NoError};
pub use reader::{
    read_input, read_input_from, read_input_from_tolerant, read_input_tolerant,
    read_input_tolerant_with_prompt, read_input_with_prompt,
};
pub use source::{FailSource, LineSource, MemSource, StdinSource};
