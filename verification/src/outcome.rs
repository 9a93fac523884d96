//! The four-way outcome every primitive returns, and the error kinds.

use vstd::prelude::*;

verus! {

/// An error of the range-scanning core.  Each variant carries the item
/// offset (from the start of the stream's storage) at which the failure
/// was noticed.
#[derive(Clone, Copy, PartialEq, Eq, Structural, Debug)]
pub enum ParseError {
    /// Fewer items were available than a read needed.  On a partial stream
    /// this is potentially transient (more input may arrive) and is the
    /// trigger for suspension; on a complete stream it is final.
    InsufficientInput { at: usize },
    /// A fixed expected range did not equal the span that was read.
    RangeMismatch { at: usize },
    /// A primitive that needs at least one matching item matched none.
    PredicateNotSatisfied { at: usize },
    /// The scan reached the end of a complete input without the target.
    TargetNotFound { at: usize },
}

/// The outcome of one parse call: success or failure, crossed with whether
/// the call consumed input relative to where it began.
///
/// The consumed/empty tag is the contract that alternation-style
/// combinators rely on to decide whether trying another branch is safe
/// after a failure, so it is kept as an explicit four-way union: every
/// match over it must handle the distinction.  `ConsumedErr` on a partial
/// stream is also the suspension signal: the caller may retry later, in
/// resume mode, once more input has arrived.
#[derive(Debug)]
pub enum ParseOutcome<T> {
    /// Success without consuming any input.
    EmptyOk(T),
    /// Success after consuming at least one item.
    ConsumedOk(T),
    /// Failure without consuming any input; the cursor stands exactly
    /// where the call began.
    EmptyErr(ParseError),
    /// Failure after input was consumed during the attempt.
    ConsumedErr(ParseError),
}

impl<T> ParseOutcome<T> {
    /// Whether the outcome is a success, consuming or not.
    pub open spec fn is_ok(self) -> bool {
        self is EmptyOk || self is ConsumedOk
    }

    /// Whether the outcome is a failure, consuming or not.
    pub open spec fn is_err(self) -> bool {
        self is EmptyErr || self is ConsumedErr
    }

    /// The produced value, on the success outcomes.
    pub open spec fn output(self) -> T
        recommends
            self.is_ok(),
    {
        match self {
            ParseOutcome::EmptyOk(v) => v,
            ParseOutcome::ConsumedOk(v) => v,
            ParseOutcome::EmptyErr(_) => arbitrary(),
            ParseOutcome::ConsumedErr(_) => arbitrary(),
        }
    }

    /// The error carried, on the failure outcomes.
    pub open spec fn error(self) -> ParseError
        recommends
            self.is_err(),
    {
        match self {
            ParseOutcome::EmptyOk(_) => arbitrary(),
            ParseOutcome::ConsumedOk(_) => arbitrary(),
            ParseOutcome::EmptyErr(e) => e,
            ParseOutcome::ConsumedErr(e) => e,
        }
    }
}

} // verus!
