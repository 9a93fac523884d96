//! Zero-copy, resumable range-scanning primitives.
//!
//! The crate supplies the range-extraction core of a parser-combinator
//! engine: parsers that return borrowed sub-ranges of the input
//! (fixed-length, predicate-bounded, or "until a target sub-range appears")
//! without copying, that restore the cursor exactly on backtracking, and
//! that can be suspended and resumed when the input arrives in chunks.

pub mod laws;
pub mod outcome;
pub mod parser;
pub mod range;
pub mod stream;

pub use outcome::{ParseError, ParseOutcome};
pub use parser::{ParseMode, Parser};
pub use range::{
    range, recognize, recognize_with_value, take, take_until_range, take_while, take_while1,
    IsAsciiLetter, IsDecimalDigit, ItemPredicate, Range, Recognize, RecognizeWithValue, Take,
    TakeUntilRange, TakeWhile, TakeWhile1,
};
pub use stream::{Checkpoint, Span, Stream};
