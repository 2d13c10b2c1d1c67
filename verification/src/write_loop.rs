//! What the write loop guarantees about the wire.
//!
//! Each connection's write loop owns the stream's sending half and drains
//! the connection's outbound channel strictly in order, writing each
//! encoded frame to completion before taking the next.  The wire therefore
//! carries the concatenation of the submitted frames; the lemmas here state
//! that earlier submissions occupy strictly earlier wire positions.

use vstd::prelude::*;

verus! {

/// The bytes the wire carries after draining a queue of frames in order.
pub open spec fn wire_of(q: Seq<Seq<u8>>) -> Seq<u8>
    decreases q.len(),
{
    if q.len() == 0 {
        Seq::empty()
    } else {
        q[0] + wire_of(q.drop_first())
    }
}

/// Where the `i`-th frame starts on the wire: after all earlier frames.
pub open spec fn wire_offset(q: Seq<Seq<u8>>, i: int) -> int
    decreases i,
{
    if i <= 0 {
        0
    } else {
        q[0].len() + wire_offset(q.drop_first(), i - 1)
    }
}

/// Offsets never lie before the start of the wire.
pub proof fn lemma_wire_offset_nonneg(q: Seq<Seq<u8>>, i: int)
    requires
        0 <= i,
    ensures
        wire_offset(q, i) >= 0,
    decreases i,
{
    if i > 0 {
        lemma_wire_offset_nonneg(q.drop_first(), i - 1);
    }
}

/// Each frame appears on the wire, whole and unchanged, at its offset.
pub proof fn lemma_wire_segment(q: Seq<Seq<u8>>, i: int)
    requires
        0 <= i < q.len(),
    ensures
        wire_offset(q, i) >= 0,
        wire_offset(q, i) + q[i].len() <= wire_of(q).len(),
        wire_of(q).subrange(wire_offset(q, i), wire_offset(q, i) + q[i].len() as int) == q[i],
    decreases i,
{
    if i == 0 {
        assert(wire_of(q).subrange(0, q[0].len() as int) =~= q[0]);
    } else {
        let rest = q.drop_first();
        lemma_wire_segment(rest, i - 1);
        assert(rest[i - 1] == q[i]);
        let off = wire_offset(rest, i - 1);
        assert(wire_of(q).subrange(q[0].len() + off, q[0].len() + off + q[i].len() as int)
            =~= wire_of(rest).subrange(off, off + q[i].len() as int));
    }
}

/// Write ordering: of two frames submitted to one connection, the earlier
/// one's bytes — its header first of all — lie strictly before every byte
/// of the later one.
pub proof fn lemma_write_ordering(q: Seq<Seq<u8>>, i: int, j: int)
    requires
        0 <= i < j < q.len(),
    ensures
        wire_offset(q, i) + q[i].len() <= wire_offset(q, j),
        wire_of(q).subrange(wire_offset(q, i), wire_offset(q, i) + q[i].len() as int) == q[i],
        wire_of(q).subrange(wire_offset(q, j), wire_offset(q, j) + q[j].len() as int) == q[j],
    decreases i,
{
    lemma_wire_segment(q, i);
    lemma_wire_segment(q, j);
    if i == 0 {
        lemma_wire_offset_nonneg(q.drop_first(), j - 1);
    } else {
        let rest = q.drop_first();
        assert(rest[i - 1] == q[i]);
        lemma_write_ordering(rest, i - 1, j - 1);
    }
}

} // verus!
