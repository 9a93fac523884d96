//! The parser interface: the mode-aware parse entry point that every
//! primitive offers, with the cursor discipline all of them keep.

use crate::outcome::{ParseError, ParseOutcome};
use crate::stream::Stream;
use vstd::prelude::*;

verus! {

/// Whether a call starts a fresh attempt or continues a suspended one.
///
/// In `First` mode a primitive ignores whatever resumption state it is
/// handed; in `Resume` mode it honors the state and continues from where
/// the suspended attempt left off.
#[derive(Clone, Copy, PartialEq, Eq, Structural, Debug)]
pub enum ParseMode {
    First,
    Resume,
}

/// A range-scanning primitive.
///
/// `parse` is the one entry point.  Its contract is the cursor discipline
/// every primitive keeps, whatever it parses:
///
/// - the storage and the partial flag are never touched;
/// - an `Empty` outcome leaves the cursor exactly where the call began;
/// - `ConsumedOk` means the cursor advanced;
/// - a success is sanctioned by the parser's `accepts` relation and a
///   non-consuming failure by its `rejects` relation;
/// - on a complete stream a failure is final and `Empty`-tagged:
///   `ConsumedErr` arises only on a partial stream, as the suspension
///   signal, and its updated state can be resumed against the stream as
///   the call left it, once more input has arrived.
///
/// A suspended attempt is continued by calling `parse` again in `Resume`
/// mode, on the same logical stream extended with more input, with the
/// state the suspending call wrote.
pub trait Parser {
    /// What the primitive produces on success.
    type Output;

    /// The resumption state carried between a suspended call and its
    /// resumption; created empty by `fresh_state`.
    type PartialState;

    /// Whether `state` can be continued against storage `a` from cursor
    /// position `p`: the suspended attempt validated the items between
    /// `p` and its recorded distance, and they are still there unchanged.
    spec fn resumable(&self, state: Self::PartialState, a: Seq<char>, p: int) -> bool;

    /// What a success of this parser means: run over storage `a` from
    /// position `p0`, it may stop at `pf` producing `v`.  Each primitive
    /// defines this over the same spec functions its own contract uses,
    /// so a wrapper's contract can speak of its inner parser's outcome.
    spec fn accepts(&self, a: Seq<char>, p0: int, pf: int, v: Self::Output) -> bool;

    /// What a definitive (non-consuming) failure of this parser means:
    /// run over storage `a` from position `p0`, it may fail with `e`.
    spec fn rejects(&self, a: Seq<char>, p0: int, e: ParseError) -> bool;

    /// The empty resumption state a first attempt starts from.
    fn fresh_state(&self) -> Self::PartialState;

    /// Run the primitive on `input` in the given mode.
    fn parse(&self, input: &mut Stream, mode: ParseMode, state: &mut Self::PartialState) -> (r:
        ParseOutcome<Self::Output>)
        requires
            old(input).wf(),
            mode is Resume ==> self.resumable(*old(state), old(input).all(), old(input).pos()),
        ensures
            final(input).wf(),
            final(input).all() == old(input).all(),
            final(input).partial() == old(input).partial(),
            r is EmptyOk ==> final(input).pos() == old(input).pos(),
            r is EmptyErr ==> final(input).pos() == old(input).pos(),
            r is ConsumedOk ==> final(input).pos() > old(input).pos(),
            r is ConsumedErr ==> final(input).pos() >= old(input).pos(),
            r.is_ok() ==> self.accepts(
                old(input).all(),
                old(input).pos(),
                final(input).pos(),
                r.output(),
            ),
            r is EmptyErr ==> self.rejects(old(input).all(), old(input).pos(), r.error()),
            r is ConsumedErr ==> old(input).partial(),
            r is ConsumedErr ==> self.resumable(
                *final(state),
                final(input).all(),
                final(input).pos(),
            ),
    ;
}

} // verus!
