//! The sequential input source, its checkpoints, and the zero-copy spans
//! that unconsing produces.

use crate::outcome::ParseError;
use vstd::prelude::*;

verus! {

/// A saved cursor position of a `Stream`, restorable with `Stream::reset`.
///
/// Opaque to callers: it is obtained from `Stream::checkpoint` and handed
/// back to the same stream.  Resetting to a checkpoint makes all later
/// reads behave exactly as re-reading from that point.
#[derive(Clone, Copy, Debug)]
pub struct Checkpoint {
    off: usize,
}

impl Checkpoint {
    /// The item offset this checkpoint stands for.
    pub closed spec fn pos(self) -> int {
        self.off as int
    }
}

/// A borrowed, zero-copy view of a contiguous span of a stream's storage:
/// a pair of item offsets, never a copy of the items themselves.
///
/// Spans are produced only by unconsing; two spans unconsed over the same
/// offsets of the same storage are equal.
#[derive(Clone, Copy, PartialEq, Eq, Structural, Debug)]
pub struct Span {
    start: usize,
    end: usize,
}

impl Span {
    /// The offset of the first item the span covers.
    pub closed spec fn start_pos(self) -> int {
        self.start as int
    }

    /// The offset one past the last item the span covers.
    pub closed spec fn end_pos(self) -> int {
        self.end as int
    }

    /// How many items the span covers.
    pub fn len(&self) -> (n: usize)
        requires
            self.start_pos() <= self.end_pos(),
        ensures
            n == self.end_pos() - self.start_pos(),
    {
        self.end - self.start
    }
}

/// The sequential input source: every item delivered so far, a cursor, and
/// whether more input may still arrive after the current end.
///
/// One stream lives for one parse session.  While it is partial, more
/// items may be appended behind the cursor's back with `extend_with`;
/// `complete` declares that the current end is the true end.
pub struct Stream {
    items: Vec<char>,
    off: usize,
    more: bool,
}

impl Stream {
    /// Every item delivered so far.
    pub closed spec fn all(self) -> Seq<char> {
        self.items@
    }

    /// The cursor: how many items have been consumed.
    pub closed spec fn pos(self) -> int {
        self.off as int
    }

    /// Whether more input may still arrive after the current end.
    pub closed spec fn partial(self) -> bool {
        self.more
    }

    /// The cursor never stands past the end of the storage.
    pub open spec fn wf(self) -> bool {
        0 <= self.pos() <= self.all().len()
    }

    /// Whether `sp` lies inside this stream's storage.
    pub open spec fn span_wf(self, sp: Span) -> bool {
        0 <= sp.start_pos() <= sp.end_pos() <= self.all().len()
    }

    /// The items a span covers.
    pub open spec fn span_seq(self, sp: Span) -> Seq<char>
        recommends
            self.span_wf(sp),
    {
        self.all().subrange(sp.start_pos(), sp.end_pos())
    }

    /// A stream over `items`; `partial` says whether more input may follow.
    pub fn new(items: Vec<char>, partial: bool) -> (s: Stream)
        ensures
            s.wf(),
            s.all() == items@,
            s.pos() == 0,
            s.partial() == partial,
    {
        Stream { items, off: 0, more: partial }
    }

    /// Whether "ran out for now" is distinguishable from "the true end".
    pub fn is_partial(&self) -> (r: bool)
        ensures
            r == self.partial(),
    {
        self.more
    }

    /// The cursor position, as an item offset for diagnostics.
    pub fn position(&self) -> (p: usize)
        ensures
            p == self.pos(),
    {
        self.off
    }

    /// Snapshot the current cursor position.
    pub fn checkpoint(&self) -> (c: Checkpoint)
        ensures
            c.pos() == self.pos(),
    {
        Checkpoint { off: self.off }
    }

    /// Rewind the cursor to a checkpoint taken earlier on this stream.
    pub fn reset(&mut self, c: Checkpoint)
        requires
            old(self).wf(),
            0 <= c.pos() <= old(self).pos(),
        ensures
            final(self).wf(),
            final(self).all() == old(self).all(),
            final(self).partial() == old(self).partial(),
            final(self).pos() == c.pos(),
    {
        self.off = c.off;
    }

    /// How many items were consumed since the checkpoint was taken.
    pub fn distance(&self, c: &Checkpoint) -> (d: usize)
        requires
            self.wf(),
            0 <= c.pos() <= self.pos(),
        ensures
            d == self.pos() - c.pos(),
    {
        self.off - c.off
    }

    /// Read one item and advance the cursor past it; at the current end,
    /// fail without moving.
    pub fn uncons(&mut self) -> (r: Result<char, ParseError>)
        requires
            old(self).wf(),
        ensures
            final(self).wf(),
            final(self).all() == old(self).all(),
            final(self).partial() == old(self).partial(),
            old(self).pos() < old(self).all().len() ==> {
                &&& r matches Ok(c) && c == old(self).all()[old(self).pos()]
                &&& final(self).pos() == old(self).pos() + 1
            },
            old(self).pos() == old(self).all().len() ==> {
                &&& r matches Err(e) && e == (ParseError::InsufficientInput {
                    at: old(self).pos() as usize,
                })
                &&& final(self).pos() == old(self).pos()
            },
    {
        if self.off < self.items.len() {
            let c = self.items[self.off];
            self.off = self.off + 1;
            Ok(c)
        } else {
            Err(ParseError::InsufficientInput { at: self.off })
        }
    }

    /// Read exactly `n` items as one span and advance past them; if fewer
    /// than `n` are available so far, fail without moving.
    pub fn uncons_range(&mut self, n: usize) -> (r: Result<Span, ParseError>)
        requires
            old(self).wf(),
        ensures
            final(self).wf(),
            final(self).all() == old(self).all(),
            final(self).partial() == old(self).partial(),
            old(self).pos() + n <= old(self).all().len() ==> {
                &&& r matches Ok(sp)
                &&& sp.start_pos() == old(self).pos()
                &&& sp.end_pos() == old(self).pos() + n
                &&& final(self).pos() == old(self).pos() + n
            },
            old(self).pos() + n > old(self).all().len() ==> {
                &&& r matches Err(e) && e == (ParseError::InsufficientInput {
                    at: old(self).pos() as usize,
                })
                &&& final(self).pos() == old(self).pos()
            },
    {
        if n <= self.items.len() - self.off {
            let sp = Span { start: self.off, end: self.off + n };
            self.off = self.off + n;
            Ok(sp)
        } else {
            Err(ParseError::InsufficientInput { at: self.off })
        }
    }

    /// Re-extract `n` items known to be available as one span: the
    /// infallible re-take used by the two-pass "scan to learn the length,
    /// then reclaim the span" pattern.
    pub(crate) fn reclaim(&mut self, n: usize) -> (sp: Span)
        requires
            old(self).wf(),
            old(self).pos() + n <= old(self).all().len(),
        ensures
            final(self).wf(),
            final(self).all() == old(self).all(),
            final(self).partial() == old(self).partial(),
            sp.start_pos() == old(self).pos(),
            sp.end_pos() == old(self).pos() + n,
            final(self).pos() == old(self).pos() + n,
    {
        let total = self.items.len();
        proof {
            assert(self.off + n <= total);
        }
        let sp = Span { start: self.off, end: self.off + n };
        self.off = self.off + n;
        sp
    }

    /// Whether the items a span covers equal `expected`.
    pub fn span_matches(&self, sp: &Span, expected: &Vec<char>) -> (r: bool)
        requires
            self.wf(),
            self.span_wf(*sp),
        ensures
            r == (self.span_seq(*sp) == expected@),
    {
        let n = sp.len();
        if n != expected.len() {
            proof {
                assert(self.span_seq(*sp).len() == n);
            }
            return false;
        }
        let mut i: usize = 0;
        while i < n
            invariant
                0 <= i <= n,
                self.wf(),
                self.span_wf(*sp),
                n == sp.end_pos() - sp.start_pos(),
                n == expected@.len(),
                forall|j: int|
                    0 <= j < i ==> self.all()[sp.start_pos() + j] == expected@[j],
            decreases n - i,
        {
            if self.items[sp.start + i] != expected[i] {
                proof {
                    assert(self.span_seq(*sp)[i as int] != expected@[i as int]);
                }
                return false;
            }
            i = i + 1;
        }
        proof {
            assert(self.span_seq(*sp) =~= expected@);
        }
        true
    }

    /// Copy out the items a span covers, for inspection; the parse paths
    /// themselves never copy.
    pub fn span_items(&self, sp: &Span) -> (v: Vec<char>)
        requires
            self.wf(),
            self.span_wf(*sp),
        ensures
            v@ == self.span_seq(*sp),
    {
        let n = sp.len();
        let mut v: Vec<char> = Vec::new();
        let mut i: usize = 0;
        while i < n
            invariant
                0 <= i <= n,
                self.wf(),
                self.span_wf(*sp),
                n == sp.end_pos() - sp.start_pos(),
                v@.len() == i,
                forall|j: int|
                    0 <= j < i ==> v@[j] == self.all()[sp.start_pos() + j],
            decreases n - i,
        {
            v.push(self.items[sp.start + i]);
            i = i + 1;
        }
        proof {
            assert(v@ =~= self.span_seq(*sp));
        }
        v
    }

    /// Copy out everything behind the cursor, for inspection.
    pub fn remaining_items(&self) -> (v: Vec<char>)
        requires
            self.wf(),
        ensures
            v@ == self.all().subrange(self.pos(), self.all().len() as int),
    {
        let mut v: Vec<char> = Vec::new();
        let mut i: usize = self.off;
        while i < self.items.len()
            invariant
                self.wf(),
                self.pos() <= i <= self.all().len(),
                v@.len() == i - self.pos(),
                forall|j: int|
                    0 <= j < v@.len() ==> v@[j] == self.all()[self.pos() + j],
            decreases self.items.len() - i,
        {
            v.push(self.items[i]);
            i = i + 1;
        }
        proof {
            assert(v@ =~= self.all().subrange(self.pos(), self.all().len() as int));
        }
        v
    }

    /// Append a newly arrived chunk behind the current end.  Everything
    /// already delivered, and the cursor, stay exactly as they were.
    pub fn extend_with(&mut self, more: Vec<char>)
        requires
            old(self).wf(),
            old(self).partial(),
        ensures
            final(self).wf(),
            final(self).all() == old(self).all() + more@,
            final(self).pos() == old(self).pos(),
            final(self).partial(),
    {
        let mut tail = more;
        self.items.append(&mut tail);
    }

    /// Declare the current end to be the true end of the input.
    pub fn complete(&mut self)
        requires
            old(self).wf(),
        ensures
            final(self).wf(),
            final(self).all() == old(self).all(),
            final(self).pos() == old(self).pos(),
            !final(self).partial(),
    {
        self.more = false;
    }
}

} // verus!
