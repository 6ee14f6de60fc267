//! Decoder and renderer for legacy marker-annotated server message strings.
//!
//! A legacy string interleaves plain text with two-character formatting
//! sequences: a marker character followed by a single code that switches the
//! current color or style. `decode` turns such a string into an ordered
//! sequence of styled text runs; `render` turns a sequence of runs into an
//! HTML string and a plain concatenation of the run texts.

pub mod decode;
pub mod laws;
pub mod render;
pub mod server;
pub mod style;

pub use decode::decode;
pub use render::Rendered;
pub use render::render;
pub use server::Server;
pub use style::DecodeError;
pub use style::FormatState;
pub use style::StyledRun;
