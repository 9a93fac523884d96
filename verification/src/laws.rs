//! The properties the primitives are held to, stated over the same spec
//! functions their contracts use and proved once and for all.
//!
//! The contracts of the primitives pin their results down as relations
//! over the storage alone.  The lemmas here show those relations have at
//! most one solution, and that a solution found over an early chunk is
//! still the solution once more chunks have arrived: feeding an input in
//! pieces through suspend and resume therefore yields the same span as
//! feeding it whole.

use crate::parser::Parser;
use crate::range::{match_while, occurs_at, scan_resumable, stops_at, ItemPredicate, TakeUntilRange};
use vstd::prelude::*;

verus! {

/// Extending the storage behind a suspended predicate scan preserves its
/// resumption state: the prefix the scan already validated is untouched
/// by appending, so the state a suspending call wrote can be handed to a
/// resuming call on the grown stream.
pub proof fn lemma_scan_resumable_extends<F: ItemPredicate>(
    f: F,
    d: usize,
    a1: Seq<char>,
    a: Seq<char>,
    p: int,
)
    requires
        a1.is_prefix_of(a),
        scan_resumable(f, d, a1, p),
    ensures
        scan_resumable(f, d, a, p),
{
    if d > 0 {
        assert forall|i: int| p <= i < p + d implies f.holds(a[i]) by {
            assert(a1[i] == a.subrange(0, a1.len() as int)[i]);
            assert(f.holds(a1[i]));
        }
    }
}

/// Extending the storage behind a suspended scan-until preserves its
/// resumption state: every position the suspended attempt ruled out was
/// ruled out by a full-length window inside the old storage, which
/// appending leaves unchanged.  Matching therefore restarts at the
/// earliest point a match could still begin, and a target straddling the
/// chunk boundary is not missed.
pub proof fn lemma_take_until_resumable_extends(
    parser: TakeUntilRange,
    d: usize,
    a1: Seq<char>,
    a: Seq<char>,
    p: int,
)
    requires
        a1.is_prefix_of(a),
        parser.resumable(d, a1, p),
    ensures
        parser.resumable(d, a, p),
{
    let t = parser.target@;
    assert forall|i: int| 0 <= i < a1.len() implies a1[i] == a[i] by {
        assert(a1[i] == a.subrange(0, a1.len() as int)[i]);
    }
    if d > 0 {
        assert forall|q: int| p <= q < p + d implies !occurs_at(a, t, q) by {
            assert(q + t.len() <= a1.len());
            assert(!occurs_at(a1, t, q));
            if occurs_at(a, t, q) {
                assert(a1.subrange(q, q + t.len() as int) =~= a.subrange(q, q + t.len() as int));
            }
        }
    }
}

/// Two adjacent matched stretches of one predicate splice into one: the
/// stretch a suspended attempt already validated, joined to the stretch
/// a resumed attempt adds, is a single matched prefix.  This is what
/// lets the outcome of a resumed scan — stated from the resumption
/// boundary — be read as an outcome from the original start.
pub proof fn lemma_match_while_join<F: ItemPredicate>(
    f: F,
    a: Seq<char>,
    p0: int,
    q: int,
    pf: int,
)
    requires
        match_while(f, a, p0, q),
        match_while(f, a, q, pf),
    ensures
        match_while(f, a, p0, pf),
{
}

/// A predicate scan has exactly one possible stopping point over a given
/// storage: a matched prefix bounded by a rejected item (or the end) is
/// the maximal matching prefix, so any two complete scans from the same
/// position stop at the same place.
pub proof fn lemma_scan_stop_unique<F: ItemPredicate>(
    f: F,
    a: Seq<char>,
    p0: int,
    q1: int,
    q2: int,
)
    requires
        match_while(f, a, p0, q1),
        stops_at(f, a, q1),
        match_while(f, a, p0, q2),
        stops_at(f, a, q2),
    ensures
        q1 == q2,
{
    if q1 < q2 {
        assert(f.holds(a[q1]) && !f.holds(a[q1]));
    }
    if q2 < q1 {
        assert(f.holds(a[q2]) && !f.holds(a[q2]));
    }
}

/// Re-running a predicate scan on the untouched leftover of a completed
/// scan matches nothing more: the first scan already stopped at an item
/// it rejects, so a scan starting there stops immediately.
pub proof fn lemma_leftover_matches_nothing<F: ItemPredicate>(f: F, a: Seq<char>, pf: int, q: int)
    requires
        0 <= pf <= a.len(),
        stops_at(f, a, pf),
        match_while(f, a, pf, q),
        stops_at(f, a, q),
    ensures
        q == pf,
{
    lemma_scan_stop_unique(f, a, pf, pf, q);
}

/// Chunking changes nothing for the predicate scans: a scan that
/// completed over an early chunk (stopping at a rejected item inside it)
/// stops at the very same place over the grown storage, so a run that
/// succeeded before more input arrived agrees with a run over the whole
/// input at once.
pub proof fn lemma_take_while_chunked<F: ItemPredicate>(
    f: F,
    a1: Seq<char>,
    a: Seq<char>,
    p0: int,
    q1: int,
    q: int,
)
    requires
        a1.is_prefix_of(a),
        match_while(f, a1, p0, q1),
        stops_at(f, a1, q1),
        q1 < a1.len(),
        match_while(f, a, p0, q),
        stops_at(f, a, q),
    ensures
        q == q1,
{
    assert forall|i: int| 0 <= i < a1.len() implies a1[i] == a[i] by {
        assert(a1[i] == a.subrange(0, a1.len() as int)[i]);
    }
    assert(match_while(f, a, p0, q1));
    assert(stops_at(f, a, q1));
    lemma_scan_stop_unique(f, a, p0, q1, q);
}

/// There is at most one first occurrence of a target at or after a
/// position: the scan-until contract pins its result down.
pub proof fn lemma_first_occurrence_unique(a: Seq<char>, t: Seq<char>, p0: int, q1: int, q2: int)
    requires
        p0 <= q1,
        occurs_at(a, t, q1),
        forall|q: int| p0 <= q < q1 ==> !occurs_at(a, t, q),
        p0 <= q2,
        occurs_at(a, t, q2),
        forall|q: int| p0 <= q < q2 ==> !occurs_at(a, t, q),
    ensures
        q1 == q2,
{
    if q1 < q2 {
        assert(!occurs_at(a, t, q1));
    }
    if q2 < q1 {
        assert(!occurs_at(a, t, q2));
    }
}

/// Chunking changes nothing for the scan-until primitive: a first
/// occurrence of the target found wholly inside an early chunk is still
/// the first occurrence once the storage has grown, so a run that found
/// the target before more input arrived agrees with a run over the whole
/// input at once.
pub proof fn lemma_take_until_chunked(
    a1: Seq<char>,
    a: Seq<char>,
    t: Seq<char>,
    p0: int,
    q1: int,
    q: int,
)
    requires
        a1.is_prefix_of(a),
        p0 <= q1,
        occurs_at(a1, t, q1),
        forall|p: int| p0 <= p < q1 ==> !occurs_at(a1, t, p),
        p0 <= q,
        occurs_at(a, t, q),
        forall|p: int| p0 <= p < q ==> !occurs_at(a, t, p),
    ensures
        q == q1,
{
    assert forall|i: int| 0 <= i < a1.len() implies a1[i] == a[i] by {
        assert(a1[i] == a.subrange(0, a1.len() as int)[i]);
    }
    assert(a.subrange(q1, q1 + t.len() as int) =~= a1.subrange(q1, q1 + t.len() as int));
    assert(occurs_at(a, t, q1));
    assert forall|p: int| p0 <= p < q1 implies !occurs_at(a, t, p) by {
        if occurs_at(a, t, p) {
            assert(a1.subrange(p, p + t.len() as int) =~= a.subrange(p, p + t.len() as int));
            assert(occurs_at(a1, t, p));
        }
    }
    lemma_first_occurrence_unique(a, t, p0, q1, q);
}

} // verus!
