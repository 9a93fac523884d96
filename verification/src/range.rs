//! The zero-copy range-extraction primitives: fixed-length and expected
//! ranges, predicate-bounded scans, recognizing an inner parser's span,
//! and scanning until a target sub-range appears.

use crate::outcome::{ParseError, ParseOutcome};
use crate::parser::{ParseMode, Parser};
use crate::stream::{Span, Stream};
use vstd::prelude::*;

verus! {

/// An item predicate for the bounded scanning primitives: `holds` is
/// what it means mathematically, `check` computes it.
pub trait ItemPredicate {
    /// Whether the predicate accepts `c`.
    spec fn holds(&self, c: char) -> bool;

    /// Decide whether the predicate accepts `c`.
    fn check(&self, c: char) -> (r: bool)
        ensures
            r == self.holds(c),
    ;
}

/// Every item of `a` from `p0` up to `q` satisfies the predicate.
pub open spec fn match_while<F: ItemPredicate>(f: F, a: Seq<char>, p0: int, q: int) -> bool {
    &&& 0 <= p0 <= q <= a.len()
    &&& forall|i: int| p0 <= i < q ==> f.holds(a[i])
}

/// Position `q` is where a predicate scan over `a` stops: the end of the
/// storage, or the first item the predicate rejects.
pub open spec fn stops_at<F: ItemPredicate>(f: F, a: Seq<char>, q: int) -> bool {
    q == a.len() || !f.holds(a[q])
}

/// Whether `c` is an ASCII decimal digit.
pub open spec fn char_is_digit(c: char) -> bool {
    48 <= c as u32 <= 57
}

/// Whether `c` is an ASCII letter.
pub open spec fn char_is_letter(c: char) -> bool {
    (65 <= c as u32 <= 90) || (97 <= c as u32 <= 122)
}

/// The predicate accepting the ASCII decimal digits.
#[derive(Clone, Copy, Debug)]
pub struct IsDecimalDigit;

impl ItemPredicate for IsDecimalDigit {
    open spec fn holds(&self, c: char) -> bool {
        char_is_digit(c)
    }

    fn check(&self, c: char) -> (r: bool) {
        let u = c as u32;
        48 <= u && u <= 57
    }
}

/// The predicate accepting the ASCII letters.
#[derive(Clone, Copy, Debug)]
pub struct IsAsciiLetter;

impl ItemPredicate for IsAsciiLetter {
    open spec fn holds(&self, c: char) -> bool {
        char_is_letter(c)
    }

    fn check(&self, c: char) -> (r: bool) {
        let u = c as u32;
        (65 <= u && u <= 90) || (97 <= u && u <= 122)
    }
}

/// Zero-copy parser which reads a span of exactly `n` items; it fails,
/// without moving the cursor, if fewer are available.
///
/// Stateless: the length is static, so a resumed attempt simply re-reads
/// the same span in full.
pub struct Take {
    pub n: usize,
}

impl Parser for Take {
    type Output = Span;

    type PartialState = ();

    open spec fn resumable(&self, state: (), a: Seq<char>, p: int) -> bool {
        true
    }

    open spec fn accepts(&self, a: Seq<char>, p0: int, pf: int, v: Span) -> bool {
        &&& 0 <= p0
        &&& pf == p0 + self.n <= a.len()
        &&& v.start_pos() == p0
        &&& v.end_pos() == pf
    }

    open spec fn rejects(&self, a: Seq<char>, p0: int, e: ParseError) -> bool {
        &&& p0 + self.n > a.len()
        &&& e == (ParseError::InsufficientInput { at: p0 as usize })
    }

    fn fresh_state(&self) -> () {
        ()
    }

    fn parse(&self, input: &mut Stream, mode: ParseMode, state: &mut ()) -> (r: ParseOutcome<
        Span,
    >)
        ensures
            ({
                let a = old(input).all();
                let p0 = old(input).pos();
                let pf = final(input).pos();
                &&& p0 + self.n <= a.len() ==> {
                    &&& r.is_ok()
                    &&& r.output().start_pos() == p0
                    &&& r.output().end_pos() == p0 + self.n
                    &&& pf == p0 + self.n
                    &&& (r is ConsumedOk <==> self.n > 0)
                }
                &&& p0 + self.n > a.len() ==> {
                    &&& r.is_err()
                    &&& pf == p0
                    &&& r.error() == (ParseError::InsufficientInput { at: p0 as usize })
                    &&& (r is ConsumedErr <==> old(input).partial())
                }
            }),
    {
        match input.uncons_range(self.n) {
            Ok(sp) => {
                if self.n > 0 {
                    ParseOutcome::ConsumedOk(sp)
                } else {
                    ParseOutcome::EmptyOk(sp)
                }
            },
            Err(e) => {
                if input.is_partial() {
                    ParseOutcome::ConsumedErr(e)
                } else {
                    ParseOutcome::EmptyErr(e)
                }
            },
        }
    }
}

/// Zero-copy parser which reads a span of length `n`.
pub fn take(n: usize) -> (p: Take)
    ensures
        p.n == n,
{
    Take { n }
}

/// Zero-copy parser which reads a span as long as `expected` and succeeds
/// if it equals `expected`; on a mismatch it fails without consuming.
pub struct Range {
    pub expected: Vec<char>,
}

impl Parser for Range {
    type Output = Span;

    type PartialState = ();

    open spec fn resumable(&self, state: (), a: Seq<char>, p: int) -> bool {
        true
    }

    open spec fn accepts(&self, a: Seq<char>, p0: int, pf: int, v: Span) -> bool {
        &&& 0 <= p0
        &&& pf == p0 + self.expected@.len() <= a.len()
        &&& a.subrange(p0, pf) == self.expected@
        &&& v.start_pos() == p0
        &&& v.end_pos() == pf
    }

    open spec fn rejects(&self, a: Seq<char>, p0: int, e: ParseError) -> bool {
        ||| {
            &&& p0 + self.expected@.len() <= a.len()
            &&& a.subrange(p0, p0 + self.expected@.len() as int) != self.expected@
            &&& e == (ParseError::RangeMismatch { at: p0 as usize })
        }
        ||| {
            &&& p0 + self.expected@.len() > a.len()
            &&& e == (ParseError::InsufficientInput { at: p0 as usize })
        }
    }

    fn fresh_state(&self) -> () {
        ()
    }

    fn parse(&self, input: &mut Stream, mode: ParseMode, state: &mut ()) -> (r: ParseOutcome<
        Span,
    >)
        ensures
            ({
                let a = old(input).all();
                let p0 = old(input).pos();
                let pf = final(input).pos();
                let t = self.expected@;
                &&& (p0 + t.len() <= a.len() && a.subrange(p0, p0 + t.len() as int) == t) ==> {
                    &&& r.is_ok()
                    &&& r.output().start_pos() == p0
                    &&& r.output().end_pos() == p0 + t.len()
                    &&& pf == p0 + t.len()
                    &&& (r is ConsumedOk <==> t.len() > 0)
                }
                &&& (p0 + t.len() <= a.len() && a.subrange(p0, p0 + t.len() as int) != t) ==> {
                    &&& r is EmptyErr
                    &&& pf == p0
                    &&& r.error() == (ParseError::RangeMismatch { at: p0 as usize })
                }
                &&& p0 + t.len() > a.len() ==> {
                    &&& r.is_err()
                    &&& pf == p0
                    &&& r.error() == (ParseError::InsufficientInput { at: p0 as usize })
                    &&& (r is ConsumedErr <==> old(input).partial())
                }
            }),
    {
        let before = input.checkpoint();
        match input.uncons_range(self.expected.len()) {
            Ok(sp) => {
                if input.span_matches(&sp, &self.expected) {
                    if self.expected.len() > 0 {
                        ParseOutcome::ConsumedOk(sp)
                    } else {
                        ParseOutcome::EmptyOk(sp)
                    }
                } else {
                    input.reset(before);
                    let at0 = input.position();
                    ParseOutcome::EmptyErr(ParseError::RangeMismatch { at: at0 })
                }
            },
            Err(e) => {
                if input.is_partial() {
                    ParseOutcome::ConsumedErr(e)
                } else {
                    ParseOutcome::EmptyErr(e)
                }
            },
        }
    }
}

/// Zero-copy parser which reads a span equal to `expected`.
pub fn range(expected: Vec<char>) -> (p: Range)
    ensures
        p.expected == expected,
{
    Range { expected }
}

/// A suspended predicate scan that consumed `d` items can be continued:
/// the items it already validated are still in place and satisfy the
/// predicate.
pub open spec fn scan_resumable<F: ItemPredicate>(f: F, d: usize, a: Seq<char>, p: int) -> bool {
    d == 0 || match_while(f, a, p, p + d)
}

/// The single-pass predicate scan both bounded primitives build on.
///
/// Consumes the maximal currently-available prefix whose items satisfy
/// `f` and reclaims it as one span, leaving the cursor after it.  On a
/// partial stream a scan that reaches the current end cannot know whether
/// the prefix is maximal, so it fails with a consumed error, leaving the
/// cursor at the end.  With `at_least_one`, an empty match is a
/// non-consuming failure.
fn scan_while<F: ItemPredicate>(input: &mut Stream, f: &F, at_least_one: bool) -> (r:
    ParseOutcome<Span>)
    requires
        old(input).wf(),
    ensures
        final(input).wf(),
        final(input).all() == old(input).all(),
        final(input).partial() == old(input).partial(),
        ({
            let a = old(input).all();
            let p0 = old(input).pos();
            let pf = final(input).pos();
            &&& r.is_ok() ==> {
                &&& match_while(*f, a, p0, pf)
                &&& stops_at(*f, a, pf)
                &&& r.output().start_pos() == p0
                &&& r.output().end_pos() == pf
                &&& (r is ConsumedOk <==> pf > p0)
                &&& (at_least_one ==> pf > p0)
                &&& (old(input).partial() ==> pf < a.len())
            }
            &&& r is ConsumedErr ==> {
                &&& old(input).partial()
                &&& pf == a.len()
                &&& match_while(*f, a, p0, a.len() as int)
                &&& r.error() == (ParseError::InsufficientInput { at: a.len() as usize })
            }
            &&& r is EmptyErr ==> {
                &&& at_least_one
                &&& pf == p0
                &&& (if p0 == a.len() {
                    !old(input).partial()
                } else {
                    !f.holds(a[p0])
                })
                &&& r.error() == (ParseError::PredicateNotSatisfied { at: p0 as usize })
            }
            &&& !old(input).partial() ==> !(r is ConsumedErr)
        }),
{
    let ghost a = old(input).all();
    let ghost p0 = old(input).pos();
    let start = input.checkpoint();
    loop
        invariant
            a == old(input).all(),
            p0 == old(input).pos(),
            input.wf(),
            input.all() == a,
            input.partial() == old(input).partial(),
            start.pos() == p0,
            p0 <= input.pos() <= a.len(),
            match_while(*f, a, p0, input.pos()),
        ensures
            a == old(input).all(),
            p0 == old(input).pos(),
            input.wf(),
            input.all() == a,
            input.partial() == old(input).partial(),
            start.pos() == p0,
            p0 <= input.pos() <= a.len(),
            match_while(*f, a, p0, input.pos()),
            stops_at(*f, a, input.pos()),
            input.partial() ==> input.pos() < a.len(),
        decreases a.len() - input.pos(),
    {
        let here = input.checkpoint();
        match input.uncons() {
            Ok(ch) => {
                if !f.check(ch) {
                    input.reset(here);
                    break ;
                }
            },
            Err(_) => {
                if input.is_partial() {
                    let at = input.position();
                    return ParseOutcome::ConsumedErr(ParseError::InsufficientInput { at });
                }
                break ;
            },
        }
    }
    let d = input.distance(&start);
    if at_least_one && d == 0 {
        let at = input.position();
        return ParseOutcome::EmptyErr(ParseError::PredicateNotSatisfied { at });
    }
    input.reset(start);
    let sp = input.reclaim(d);
    if d > 0 {
        ParseOutcome::ConsumedOk(sp)
    } else {
        ParseOutcome::EmptyOk(sp)
    }
}

/// The shared first-attempt/resume protocol of the predicate-bounded
/// primitives.
///
/// On a complete stream the scan runs directly.  On a partial stream, a
/// first attempt that runs out of input records how far it validated and
/// rewinds, so the caller can suspend; a resumed attempt fast-forwards
/// past the recorded distance, continues the scan from the boundary (an
/// already-nonempty match owes no further items, so the continuation
/// never demands one), and on success rewinds once more to reclaim the
/// whole span in one piece.  The fast-forward cannot fail: the recorded
/// distance never exceeds what the resumed stream still holds.
fn parse_partial_range<F: ItemPredicate>(
    f: &F,
    at_least_one: bool,
    input: &mut Stream,
    mode: ParseMode,
    dist: &mut usize,
) -> (r: ParseOutcome<Span>)
    requires
        old(input).wf(),
        mode is Resume ==> scan_resumable(*f, *old(dist), old(input).all(), old(input).pos()),
    ensures
        final(input).wf(),
        final(input).all() == old(input).all(),
        final(input).partial() == old(input).partial(),
        ({
            let a = old(input).all();
            let p0 = old(input).pos();
            let pf = final(input).pos();
            &&& r.is_ok() ==> {
                &&& match_while(*f, a, p0, pf)
                &&& stops_at(*f, a, pf)
                &&& r.output().start_pos() == p0
                &&& r.output().end_pos() == pf
                &&& (r is ConsumedOk <==> pf > p0)
                &&& (at_least_one ==> pf > p0)
                &&& (old(input).partial() ==> pf < a.len())
            }
            &&& r is ConsumedErr ==> {
                &&& old(input).partial()
                &&& pf == p0
                &&& match_while(*f, a, p0, a.len() as int)
                &&& *final(dist) == a.len() - p0
                &&& scan_resumable(*f, *final(dist), a, p0)
                &&& r.error() == (ParseError::InsufficientInput { at: a.len() as usize })
            }
            &&& r is EmptyErr ==> {
                &&& at_least_one
                &&& pf == p0
                &&& (if p0 == a.len() {
                    !old(input).partial()
                } else {
                    !f.holds(a[p0])
                })
                &&& r.error() == (ParseError::PredicateNotSatisfied { at: p0 as usize })
                &&& *final(dist) == *old(dist)
            }
            &&& r.is_ok() ==> (if old(input).partial() && mode is Resume && *old(dist) > 0 {
                *final(dist) == 0
            } else {
                *final(dist) == *old(dist)
            })
            &&& !old(input).partial() ==> !(r is ConsumedErr)
        }),
{
    let before = input.checkpoint();
    if !input.is_partial() {
        scan_while(input, f, at_least_one)
    } else if mode == ParseMode::First || *dist == 0 {
        let attempt = scan_while(input, f, at_least_one);
        match attempt {
            ParseOutcome::ConsumedErr(e) => {
                let d2 = input.distance(&before);
                *dist = d2;
                input.reset(before);
                ParseOutcome::ConsumedErr(e)
            },
            other => other,
        }
    } else {
        match input.uncons_range(*dist) {
            Ok(_) => (),
            Err(_) => unreached(),
        }
        match scan_while(input, f, false) {
            ParseOutcome::ConsumedErr(e) => {
                let d2 = input.distance(&before);
                *dist = d2;
                input.reset(before);
                return ParseOutcome::ConsumedErr(e);
            },
            ParseOutcome::EmptyErr(_) => unreached(),
            _ => (),
        }
        let d = input.distance(&before);
        input.reset(before);
        let sp = input.reclaim(d);
        *dist = 0;
        if d > 0 {
            ParseOutcome::ConsumedOk(sp)
        } else {
            ParseOutcome::EmptyOk(sp)
        }
    }
}

/// Zero-copy parser which reads the maximal prefix of items satisfying
/// its predicate; it never fails, and may match nothing.
pub struct TakeWhile<F> {
    pub predicate: F,
}

impl<F: ItemPredicate> Parser for TakeWhile<F> {
    type Output = Span;

    type PartialState = usize;

    open spec fn resumable(&self, state: usize, a: Seq<char>, p: int) -> bool {
        scan_resumable(self.predicate, state, a, p)
    }

    open spec fn accepts(&self, a: Seq<char>, p0: int, pf: int, v: Span) -> bool {
        &&& match_while(self.predicate, a, p0, pf)
        &&& stops_at(self.predicate, a, pf)
        &&& v.start_pos() == p0
        &&& v.end_pos() == pf
    }

    open spec fn rejects(&self, a: Seq<char>, p0: int, e: ParseError) -> bool {
        false
    }

    fn fresh_state(&self) -> (s: usize)
        ensures
            s == 0,
    {
        0
    }

    fn parse(&self, input: &mut Stream, mode: ParseMode, state: &mut usize) -> (r: ParseOutcome<
        Span,
    >)
        ensures
            ({
                let f = self.predicate;
                let a = old(input).all();
                let p0 = old(input).pos();
                let pf = final(input).pos();
                &&& r.is_ok() ==> {
                    &&& match_while(f, a, p0, pf)
                    &&& stops_at(f, a, pf)
                    &&& r.output().start_pos() == p0
                    &&& r.output().end_pos() == pf
                    &&& (r is ConsumedOk <==> pf > p0)
                    &&& (old(input).partial() ==> pf < a.len())
                    &&& (if old(input).partial() && mode is Resume && *old(state) > 0 {
                        *final(state) == 0
                    } else {
                        *final(state) == *old(state)
                    })
                }
                &&& r is ConsumedErr ==> {
                    &&& old(input).partial()
                    &&& pf == p0
                    &&& match_while(f, a, p0, a.len() as int)
                    &&& *final(state) == a.len() - p0
                    &&& r.error() == (ParseError::InsufficientInput { at: a.len() as usize })
                }
                &&& !(r is EmptyErr)
                &&& !old(input).partial() ==> r.is_ok()
            }),
    {
        parse_partial_range(&self.predicate, false, input, mode, state)
    }
}

/// Zero-copy parser which reads the maximal prefix of items satisfying
/// `f`; it never fails, and may match nothing.
pub fn take_while<F: ItemPredicate>(f: F) -> (p: TakeWhile<F>)
    ensures
        p.predicate == f,
{
    TakeWhile { predicate: f }
}

/// Zero-copy parser which reads the maximal prefix of items satisfying
/// its predicate and fails, without consuming, if that prefix is empty.
///
/// Only a first attempt owes the leading match: a resumed attempt
/// continues a prefix that is already non-empty, so it may add nothing.
pub struct TakeWhile1<F> {
    pub predicate: F,
}

impl<F: ItemPredicate> Parser for TakeWhile1<F> {
    type Output = Span;

    type PartialState = usize;

    open spec fn resumable(&self, state: usize, a: Seq<char>, p: int) -> bool {
        scan_resumable(self.predicate, state, a, p)
    }

    open spec fn accepts(&self, a: Seq<char>, p0: int, pf: int, v: Span) -> bool {
        &&& match_while(self.predicate, a, p0, pf)
        &&& stops_at(self.predicate, a, pf)
        &&& pf > p0
        &&& v.start_pos() == p0
        &&& v.end_pos() == pf
    }

    open spec fn rejects(&self, a: Seq<char>, p0: int, e: ParseError) -> bool {
        &&& 0 <= p0 <= a.len()
        &&& (if p0 == a.len() {
            true
        } else {
            !self.predicate.holds(a[p0])
        })
        &&& e == (ParseError::PredicateNotSatisfied { at: p0 as usize })
    }

    fn fresh_state(&self) -> (s: usize)
        ensures
            s == 0,
    {
        0
    }

    fn parse(&self, input: &mut Stream, mode: ParseMode, state: &mut usize) -> (r: ParseOutcome<
        Span,
    >)
        ensures
            ({
                let f = self.predicate;
                let a = old(input).all();
                let p0 = old(input).pos();
                let pf = final(input).pos();
                &&& r.is_ok() ==> {
                    &&& match_while(f, a, p0, pf)
                    &&& stops_at(f, a, pf)
                    &&& r.output().start_pos() == p0
                    &&& r.output().end_pos() == pf
                    &&& pf > p0
                    &&& r is ConsumedOk
                    &&& (old(input).partial() ==> pf < a.len())
                    &&& (if old(input).partial() && mode is Resume && *old(state) > 0 {
                        *final(state) == 0
                    } else {
                        *final(state) == *old(state)
                    })
                }
                &&& r is ConsumedErr ==> {
                    &&& old(input).partial()
                    &&& pf == p0
                    &&& match_while(f, a, p0, a.len() as int)
                    &&& *final(state) == a.len() - p0
                    &&& r.error() == (ParseError::InsufficientInput { at: a.len() as usize })
                }
                &&& r is EmptyErr ==> {
                    &&& pf == p0
                    &&& (if p0 == a.len() {
                        !old(input).partial()
                    } else {
                        !f.holds(a[p0])
                    })
                    &&& r.error() == (ParseError::PredicateNotSatisfied { at: p0 as usize })
                    &&& *final(state) == *old(state)
                }
            }),
    {
        parse_partial_range(&self.predicate, true, input, mode, state)
    }
}

/// Zero-copy parser which reads one or more items satisfying `f`.
pub fn take_while1<F: ItemPredicate>(f: F) -> (p: TakeWhile1<F>)
    ensures
        p.predicate == f,
{
    TakeWhile1 { predicate: f }
}

/// Zero-copy parser which wraps an arbitrary inner parser and returns
/// the exact span of input the inner parser consumed, paired with the
/// inner parser's own output.
///
/// The inner parser need not be zero-copy itself: the span is re-derived
/// by measuring how far the inner parser moved the cursor, rewinding, and
/// reclaiming that many items in one piece.  Its resumption state owns
/// the inner parser's state, next to the distance already validated.
pub struct RecognizeWithValue<P> {
    pub parser: P,
}

impl<P: Parser> Parser for RecognizeWithValue<P> {
    type Output = (Span, P::Output);

    type PartialState = (usize, P::PartialState);

    open spec fn resumable(&self, state: (usize, P::PartialState), a: Seq<char>, p: int) -> bool {
        p + state.0 <= a.len() && self.parser.resumable(state.1, a, p + state.0)
    }

    open spec fn accepts(&self, a: Seq<char>, p0: int, pf: int, v: (Span, P::Output)) -> bool {
        &&& v.0.start_pos() == p0
        &&& v.0.end_pos() == pf
        &&& exists|q: int| p0 <= q <= pf && #[trigger] self.parser.accepts(a, q, pf, v.1)
    }

    open spec fn rejects(&self, a: Seq<char>, p0: int, e: ParseError) -> bool {
        exists|q: int| p0 <= q <= a.len() && #[trigger] self.parser.rejects(a, q, e)
    }

    fn fresh_state(&self) -> (s: (usize, P::PartialState))
        ensures
            s.0 == 0,
    {
        (0, self.parser.fresh_state())
    }

    fn parse(&self, input: &mut Stream, mode: ParseMode, state: &mut (usize, P::PartialState)) -> (r:
        ParseOutcome<(Span, P::Output)>)
        ensures
            ({
                let a = old(input).all();
                let p0 = old(input).pos();
                let pf = final(input).pos();
                let s0 = p0 + (if mode is Resume {
                    old(state).0 as int
                } else {
                    0
                });
                &&& r.is_ok() ==> {
                    &&& self.parser.accepts(a, s0, pf, r.output().1)
                    &&& r.output().0.start_pos() == p0
                    &&& r.output().0.end_pos() == pf
                    &&& (r is ConsumedOk <==> pf > p0)
                    &&& final(state).0 == 0
                }
                &&& r is EmptyErr ==> {
                    &&& self.parser.rejects(a, s0, r.error())
                    &&& pf == p0
                    &&& final(state).0 == old(state).0
                }
                &&& r.is_err() ==> pf == p0
            }),
    {
        let ghost a = old(input).all();
        let ghost p0 = old(input).pos();
        let ghost s0: int = p0 + (if mode is Resume {
            state.0 as int
        } else {
            0
        });
        let before = input.checkpoint();
        if mode == ParseMode::Resume {
            match input.uncons_range(state.0) {
                Ok(_) => (),
                Err(_) => unreached(),
            }
        }
        let value = match self.parser.parse(input, mode, &mut state.1) {
            ParseOutcome::ConsumedOk(x) => x,
            ParseOutcome::EmptyOk(x) => x,
            ParseOutcome::EmptyErr(e) => {
                proof {
                    assert(self.parser.rejects(a, s0, e));
                }
                input.reset(before);
                return ParseOutcome::EmptyErr(e);
            },
            ParseOutcome::ConsumedErr(e) => {
                let d2 = input.distance(&before);
                state.0 = d2;
                input.reset(before);
                return ParseOutcome::ConsumedErr(e);
            },
        };
        let d = input.distance(&before);
        input.reset(before);
        let sp = input.reclaim(d);
        state.0 = 0;
        proof {
            assert(p0 <= s0 <= input.pos());
            assert(self.parser.accepts(a, s0, input.pos(), (sp, value).1));
            assert(self.accepts(a, p0, input.pos(), (sp, value)));
        }
        if d > 0 {
            ParseOutcome::ConsumedOk((sp, value))
        } else {
            ParseOutcome::EmptyOk((sp, value))
        }
    }
}

/// Some output of `parser` is sanctioned over storage `a` between the
/// attempt's start `s0` and stop `pf`: what recognizing a parser keeps
/// of its outcome once the output value itself is discarded.
pub open spec fn recognizable<P: Parser>(parser: P, a: Seq<char>, s0: int, pf: int) -> bool {
    exists|w: P::Output| #[trigger] parser.accepts(a, s0, pf, w)
}

/// Zero-copy parser which returns the pair of the span an inner parser
/// consumed and the inner parser's own output.
pub fn recognize_with_value<P: Parser>(parser: P) -> (p: RecognizeWithValue<P>)
    ensures
        p.parser == parser,
{
    RecognizeWithValue { parser }
}

/// Zero-copy parser which returns the exact span an arbitrary inner
/// parser consumed, discarding the inner parser's output value.
pub struct Recognize<P> {
    pub inner: RecognizeWithValue<P>,
}

impl<P: Parser> Parser for Recognize<P> {
    type Output = Span;

    type PartialState = (usize, P::PartialState);

    open spec fn resumable(&self, state: (usize, P::PartialState), a: Seq<char>, p: int) -> bool {
        self.inner.resumable(state, a, p)
    }

    open spec fn accepts(&self, a: Seq<char>, p0: int, pf: int, v: Span) -> bool {
        exists|w: P::Output| #[trigger] self.inner.accepts(a, p0, pf, (v, w))
    }

    open spec fn rejects(&self, a: Seq<char>, p0: int, e: ParseError) -> bool {
        self.inner.rejects(a, p0, e)
    }

    fn fresh_state(&self) -> (s: (usize, P::PartialState))
        ensures
            s.0 == 0,
    {
        self.inner.fresh_state()
    }

    #[verifier::spinoff_prover]
    #[verifier::rlimit(60)]
    fn parse(&self, input: &mut Stream, mode: ParseMode, state: &mut (usize, P::PartialState)) -> (r:
        ParseOutcome<Span>)
        ensures
            ({
                let a = old(input).all();
                let p0 = old(input).pos();
                let pf = final(input).pos();
                let s0 = p0 + (if mode is Resume {
                    old(state).0 as int
                } else {
                    0
                });
                r.is_ok() ==> {
                    &&& recognizable(self.inner.parser, a, s0, pf)
                    &&& r.output().start_pos() == p0
                    &&& r.output().end_pos() == pf
                    &&& (r is ConsumedOk <==> pf > p0)
                    &&& final(state).0 == 0
                }
            }),
            ({
                let a = old(input).all();
                let p0 = old(input).pos();
                let s0 = p0 + (if mode is Resume {
                    old(state).0 as int
                } else {
                    0
                });
                r is EmptyErr ==> {
                    &&& self.inner.parser.rejects(a, s0, r.error())
                    &&& final(state).0 == old(state).0
                }
            }),
            r.is_err() ==> final(input).pos() == old(input).pos(),
    {
        let ghost a = old(input).all();
        let ghost p0 = old(input).pos();
        let ghost s0: int = p0 + (if mode is Resume {
            state.0 as int
        } else {
            0
        });
        match self.inner.parse(input, mode, state) {
            ParseOutcome::ConsumedOk(out) => {
                proof {
                    assert((out.0, out.1) == out);
                    assert(self.inner.parser.accepts(a, s0, input.pos(), out.1));
                    assert(recognizable(self.inner.parser, a, s0, input.pos()));
                }
                ParseOutcome::ConsumedOk(out.0)
            },
            ParseOutcome::EmptyOk(out) => {
                proof {
                    assert((out.0, out.1) == out);
                    assert(self.inner.parser.accepts(a, s0, input.pos(), out.1));
                    assert(recognizable(self.inner.parser, a, s0, input.pos()));
                }
                ParseOutcome::EmptyOk(out.0)
            },
            ParseOutcome::EmptyErr(e) => ParseOutcome::EmptyErr(e),
            ParseOutcome::ConsumedErr(e) => ParseOutcome::ConsumedErr(e),
        }
    }
}

/// Zero-copy parser which returns the span consumed by `parser`.
pub fn recognize<P: Parser>(parser: P) -> (p: Recognize<P>)
    ensures
        p.inner.parser == parser,
{
    Recognize { inner: RecognizeWithValue { parser } }
}

/// The target `t` occurs in `a` starting at position `q`.
pub open spec fn occurs_at(a: Seq<char>, t: Seq<char>, q: int) -> bool {
    0 <= q && q + t.len() <= a.len() && a.subrange(q, q + t.len() as int) == t
}

/// The first position at or after `p` where fewer than `t.len()` items of
/// `a` remain: the earliest point a scan for `t` can no longer read a
/// full look-ahead window, and so the point a suspended scan resumes at.
pub open spec fn first_short(a: Seq<char>, t: Seq<char>, p: int) -> int {
    if a.len() - t.len() + 1 > p {
        a.len() - t.len() + 1
    } else {
        p
    }
}

/// Zero-copy parser which scans forward for the first position where the
/// next items equal `target`, returns everything before that position,
/// and leaves the target itself unconsumed; it fails if the input ends
/// first.
///
/// Its resumption state records the earliest position at which a match
/// could still begin: the first point where fewer items than the target's
/// length remained.  Re-scanning after more input arrives restarts
/// matching there, never later, so a target straddling a chunk boundary
/// is not missed.
pub struct TakeUntilRange {
    pub target: Vec<char>,
}

impl Parser for TakeUntilRange {
    type Output = Span;

    type PartialState = usize;

    open spec fn resumable(&self, state: usize, a: Seq<char>, p: int) -> bool {
        &&& p + state <= a.len()
        &&& forall|q: int| p <= q < p + state ==> !occurs_at(a, self.target@, q)
        &&& state == 0 || p + state - 1 + self.target@.len() <= a.len()
    }

    open spec fn accepts(&self, a: Seq<char>, p0: int, pf: int, v: Span) -> bool {
        &&& occurs_at(a, self.target@, pf)
        &&& p0 <= pf
        &&& forall|q: int| p0 <= q < pf ==> !occurs_at(a, self.target@, q)
        &&& v.start_pos() == p0
        &&& v.end_pos() == pf
    }

    open spec fn rejects(&self, a: Seq<char>, p0: int, e: ParseError) -> bool {
        &&& forall|q: int| p0 <= q ==> !occurs_at(a, self.target@, q)
        &&& e matches ParseError::TargetNotFound { at } && p0 <= at <= a.len() && at
            + self.target@.len() > a.len()
    }

    fn fresh_state(&self) -> (s: usize)
        ensures
            s == 0,
    {
        0
    }

    fn parse(&self, input: &mut Stream, mode: ParseMode, state: &mut usize) -> (r: ParseOutcome<
        Span,
    >)
        ensures
            ({
                let a = old(input).all();
                let p0 = old(input).pos();
                let pf = final(input).pos();
                let t = self.target@;
                &&& r.is_ok() ==> {
                    &&& occurs_at(a, t, pf)
                    &&& forall|q: int| p0 <= q < pf ==> !occurs_at(a, t, q)
                    &&& r.output().start_pos() == p0
                    &&& r.output().end_pos() == pf
                    &&& (r is ConsumedOk <==> pf > p0)
                    &&& *final(state) == 0
                }
                &&& r is EmptyErr ==> {
                    &&& !old(input).partial()
                    &&& pf == p0
                    &&& forall|q: int| p0 <= q ==> !occurs_at(a, t, q)
                    &&& p0 + *final(state) <= a.len()
                    &&& p0 + *final(state) + t.len() > a.len()
                    &&& p0 + *final(state) == first_short(
                        a,
                        t,
                        p0 + (if mode is Resume {
                            *old(state) as int
                        } else {
                            0
                        }),
                    )
                    &&& r.error() == (ParseError::TargetNotFound {
                        at: (p0 + *final(state)) as usize,
                    })
                }
                &&& r is ConsumedErr ==> {
                    &&& old(input).partial()
                    &&& pf == p0
                    &&& forall|q: int| p0 <= q < p0 + *final(state) ==> !occurs_at(a, t, q)
                    &&& p0 + *final(state) <= a.len()
                    &&& p0 + *final(state) + t.len() > a.len()
                    &&& p0 + *final(state) == first_short(
                        a,
                        t,
                        p0 + (if mode is Resume {
                            *old(state) as int
                        } else {
                            0
                        }),
                    )
                    &&& r.error() == (ParseError::InsufficientInput {
                        at: (p0 + *final(state)) as usize,
                    })
                }
            }),
    {
        let ghost a = old(input).all();
        let ghost p0 = old(input).pos();
        let ghost t = self.target@;
        let ghost d0: int = if mode is Resume {
            *state as int
        } else {
            0
        };
        let ghost s0: int = p0 + d0;
        let tlen = self.target.len();
        let before = input.checkpoint();
        if mode == ParseMode::Resume {
            match input.uncons_range(*state) {
                Ok(_) => (),
                Err(_) => unreached(),
            }
        }
        let mut first_fail: Option<usize> = None;
        loop
            invariant
                a == old(input).all(),
                p0 == old(input).pos(),
                t == self.target@,
                tlen == t.len(),
                d0 == (if mode is Resume {
                    *old(state) as int
                } else {
                    0
                }),
                s0 == p0 + d0,
                input.wf(),
                input.all() == a,
                input.partial() == old(input).partial(),
                before.pos() == p0,
                0 <= p0 <= s0 <= input.pos() <= a.len(),
                d0 == 0 || s0 - 1 + tlen <= a.len(),
                forall|q: int| p0 <= q < input.pos() ==> !occurs_at(a, t, q),
                match first_fail {
                    Some(q1) => s0 <= q1 <= input.pos() && q1 + tlen > a.len() && q1 <= a.len()
                        && (q1 == s0 || q1 - 1 + tlen <= a.len()),
                    None => input.pos() == s0 || input.pos() - 1 + tlen <= a.len(),
                },
            decreases a.len() - input.pos(),
        {
            let look_ahead = input.checkpoint();
            match input.uncons_range(tlen) {
                Ok(win) => {
                    if input.span_matches(&win, &self.target) {
                        let dist_total = input.distance(&before);
                        let d = dist_total - tlen;
                        input.reset(before);
                        let sp = input.reclaim(d);
                        *state = 0;
                        if d > 0 {
                            return ParseOutcome::ConsumedOk(sp);
                        } else {
                            return ParseOutcome::EmptyOk(sp);
                        }
                    } else {
                        proof {
                            if tlen == 0 {
                                assert(input.span_seq(win) =~= t);
                            }
                            assert(!occurs_at(a, t, look_ahead.pos()));
                        }
                        input.reset(look_ahead);
                        match input.uncons() {
                            Ok(_) => (),
                            Err(_) => unreached(),
                        }
                    }
                },
                Err(_) => {
                    if first_fail.is_none() {
                        first_fail = Some(input.position());
                    }
                    input.reset(look_ahead);
                    match input.uncons() {
                        Ok(_) => (),
                        Err(_) => {
                            input.reset(before);
                            let q1 = match first_fail {
                                Some(q1) => q1,
                                None => unreached(),
                            };
                            proof {
                                if q1 == s0 {
                                    assert(a.len() - tlen + 1 <= s0);
                                    assert(first_short(a, t, s0) == s0);
                                } else {
                                    assert(q1 - 1 + tlen <= a.len());
                                    assert(q1 == a.len() - tlen + 1);
                                    assert(first_short(a, t, s0) == q1);
                                }
                            }
                            let base = input.position();
                            *state = q1 - base;
                            if input.is_partial() {
                                return ParseOutcome::ConsumedErr(
                                    ParseError::InsufficientInput { at: q1 },
                                );
                            } else {
                                return ParseOutcome::EmptyErr(
                                    ParseError::TargetNotFound { at: q1 },
                                );
                            }
                        },
                    }
                },
            }
        }
    }
}

/// Zero-copy parser which reads everything up to, and not including, the
/// first occurrence of `target`.
pub fn take_until_range(target: Vec<char>) -> (p: TakeUntilRange)
    ensures
        p.target == target,
{
    TakeUntilRange { target }
}

} // verus!
