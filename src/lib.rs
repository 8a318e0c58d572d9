//! Line-oriented stream processing: read text line by line, hand each line
//! (without its terminator) to a transformation, and write every produced
//! value followed by exactly one newline.
pub mod laws;
pub mod model;
pub mod process;
pub mod reader;
pub mod transform;

pub use process::{handle, process_line};
pub use reader::TextReader;
pub use transform::{EvenLengthFilter, Reverser, Transformer};
