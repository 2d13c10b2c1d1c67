//! Core state and decisions of the RPC engine.
//!
//! One `RpcState` value bundles the connection registry, the pending-call
//! table and the correlation-id counter; every task shares it by reference.
//! The asynchronous shells (sockets, channels, timers) stay outside the
//! library: they call the functions here with plain values and perform the
//! I/O these functions decide on.  The registry maps a peer identity to the
//! outbound sender handle `S`; the pending-call table maps a correlation id
//! to the response waiter `W`.  Both handles are opaque to the library.

use vstd::prelude::*;

use crate::buffer::ReadBuffer;
use crate::codec::be32_of;
use crate::codec::parsed_payload_len;
use crate::codec::parsed_tag;
use crate::codec::parsed_task_id;
use crate::codec::FRAME_HEADER_LEN;
use crate::result::WsRpcErr;
use crate::table::keys_unique;
use crate::table::lemma_map_of_contains;
use crate::table::lemma_map_of_index;
use crate::table::lemma_map_of_push;
use crate::table::lemma_map_of_remove;
use crate::table::map_of;

verus! {

/// A verified peer identity: an integer or a string name.
#[derive(Debug, PartialEq, Eq, Hash)]
pub enum HashValue {
    Int(i64),
    Str(String),
}

/// The mathematical value of a peer identity; string identities count by
/// their characters, so two `Str` values with equal text are one identity.
pub enum HashKey {
    Int(i64),
    Str(Seq<char>),
}

impl View for HashValue {
    type V = HashKey;

    open spec fn view(&self) -> HashKey {
        match self {
            HashValue::Int(i) => HashKey::Int(*i),
            HashValue::Str(s) => HashKey::Str(s@),
        }
    }
}

impl HashValue {
    /// Whether two identities denote the same peer.
    pub fn same_as(&self, other: &HashValue) -> (r: bool)
        ensures
            r == (self@ == other@),
    {
        match (self, other) {
            (HashValue::Int(a), HashValue::Int(b)) => *a == *b,
            (HashValue::Str(a), HashValue::Str(b)) => *a == *b,
            _ => false,
        }
    }

    /// An identity equal to this one, owned by the caller.
    pub fn duplicate(&self) -> (r: HashValue)
        ensures
            r == *self,
    {
        match self {
            HashValue::Int(i) => HashValue::Int(*i),
            HashValue::Str(s) => HashValue::Str(s.clone()),
        }
    }

    /// The integer behind an integer identity.
    pub fn as_int(&self) -> (r: Option<i64>)
        ensures
            match r {
                Some(v) => self@ == HashKey::Int(v),
                None => !(self@ is Int),
            },
    {
        match self {
            HashValue::Int(i) => Some(*i),
            HashValue::Str(_) => None,
        }
    }

    /// The name behind a string identity.
    pub fn as_str(&self) -> (r: Option<&String>)
        ensures
            match r {
                Some(s) => self@ == HashKey::Str(s@),
                None => !(self@ is Str),
            },
    {
        match self {
            HashValue::Int(_) => None,
            HashValue::Str(s) => Some(s),
        }
    }
}

/// What the registry stores for one live connection: the outbound sender.
#[derive(Debug)]
pub struct ConnState<S> {
    /// Sender half of the connection's bounded outbound channel.
    pub tx: S,
}

/// The shared mutable state of the engine: registry, pending-call table and
/// the correlation-id counter.  The hosting system guards one value of this
/// type with a lock; no function here performs I/O, so critical sections
/// stay short.
pub struct RpcState<S, W> {
    conns: Vec<(HashValue, ConnState<S>)>,
    pending: Vec<(u32, W)>,
    next_task_id: u32,
}

/// What the read loop decided to do with one inbound frame.
pub enum FrameDisposition<W> {
    /// The injected request handler consumed the frame as a fresh request.
    HandledAsRequest,
    /// The frame answers the pending call whose waiter is carried here,
    /// together with the payload to deliver.
    Reply(W, Vec<u8>),
    /// Neither a request nor a pending call's reply: dropped as a protocol
    /// anomaly, without disturbing any bookkeeping.
    Orphan,
}

impl<S, W> RpcState<S, W> {
    /// The registry's pairs with identities taken by value.
    pub closed spec fn conn_pairs(self) -> Seq<(HashKey, ConnState<S>)> {
        self.conns@.map(|i: int, p: (HashValue, ConnState<S>)| (p.0@, p.1))
    }

    /// The registry: peer identity to live connection, at most one each.
    pub closed spec fn registry(self) -> Map<HashKey, ConnState<S>> {
        map_of(self.conn_pairs())
    }

    /// The pending-call table: correlation id to response waiter.
    pub closed spec fn pending(self) -> Map<u32, W> {
        map_of(self.pending@)
    }

    /// The pending-call entries in insertion order.
    pub closed spec fn pending_seq(self) -> Seq<(u32, W)> {
        self.pending@
    }

    /// The correlation id the next call will draw.
    pub closed spec fn next_id(self) -> u32 {
        self.next_task_id
    }

    /// Well-formedness: identities and pending ids are pairwise distinct,
    /// and every pending id was drawn from the counter.
    pub closed spec fn wf(self) -> bool {
        &&& keys_unique(self.conn_pairs())
        &&& keys_unique(self.pending@)
        &&& forall|i: int|
            0 <= i < self.pending@.len() ==> (#[trigger] self.pending@[i]).0 < self.next_task_id
    }

    /// A fresh state: nothing registered, nothing pending.
    pub fn new() -> (r: RpcState<S, W>)
        ensures
            r.wf(),
            r.registry() == Map::<HashKey, ConnState<S>>::empty(),
            r.pending() == Map::<u32, W>::empty(),
            r.pending_seq() == Seq::<(u32, W)>::empty(),
            r.next_id() == 0,
    {
        let r = RpcState { conns: Vec::new(), pending: Vec::new(), next_task_id: 0 };
        proof {
            assert(r.conn_pairs() =~= Seq::<(HashKey, ConnState<S>)>::empty());
        }
        r
    }

    /// Atomic check-and-insert of a freshly verified connection: the second
    /// handshake presenting an already-registered identity is rejected and
    /// nothing is overwritten.
    pub fn register(&mut self, id: HashValue, cs: ConnState<S>) -> (r: bool)
        requires
            old(self).wf(),
        ensures
            final(self).wf(),
            r == !old(self).registry().contains_key(id@),
            r ==> final(self).registry() == old(self).registry().insert(id@, cs),
            !r ==> final(self).registry() == old(self).registry(),
            final(self).pending() == old(self).pending(),
            final(self).pending_seq() == old(self).pending_seq(),
            final(self).next_id() == old(self).next_id(),
    {
        let n = self.conns.len();
        let mut i: usize = 0;
        while i < n
            invariant
                *self == *old(self),
                old(self).wf(),
                n == self.conns@.len(),
                i <= n,
                forall|j: int| 0 <= j < i ==> (#[trigger] self.conns@[j]).0@ != id@,
            decreases n - i,
        {
            if self.conns[i].0.same_as(&id) {
                proof {
                    assert(self.conn_pairs()[i as int].0 == id@);
                    lemma_map_of_contains(self.conn_pairs(), id@);
                }
                return false;
            }
            i += 1;
        }
        proof {
            assert(forall|j: int|
                0 <= j < self.conn_pairs().len() ==> (#[trigger] self.conn_pairs()[j]).0
                    != id@);
            lemma_map_of_contains(self.conn_pairs(), id@);
            lemma_map_of_push(self.conn_pairs(), id@, cs);
        }
        let ghost pre_pairs = self.conn_pairs();
        self.conns.push((id, cs));
        proof {
            assert(self.conn_pairs() =~= pre_pairs.push((id@, cs)));
        }
        true
    }

    /// Looks up the outbound sender registered for an identity.
    pub fn lookup(&self, id: &HashValue) -> (r: Option<&ConnState<S>>)
        requires
            self.wf(),
        ensures
            match r {
                Some(cs) => self.registry().contains_key(id@) && *cs == self.registry()[id@],
                None => !self.registry().contains_key(id@),
            },
    {
        let n = self.conns.len();
        let mut i: usize = 0;
        while i < n
            invariant
                n == self.conns@.len(),
                i <= n,
                self.wf(),
                forall|j: int| 0 <= j < i ==> (#[trigger] self.conns@[j]).0@ != id@,
            decreases n - i,
        {
            if self.conns[i].0.same_as(id) {
                proof {
                    assert(self.conn_pairs()[i as int].0 == id@);
                    lemma_map_of_index(self.conn_pairs(), i as int);
                }
                return Some(&self.conns[i].1);
            }
            i += 1;
        }
        proof {
            assert(forall|j: int|
                0 <= j < self.conn_pairs().len() ==> (#[trigger] self.conn_pairs()[j]).0
                    != id@);
            lemma_map_of_contains(self.conn_pairs(), id@);
        }
        None
    }

    /// First step of the call path: resolve the target connection, or fail
    /// exactly as `call` does when none is established.
    pub fn resolve_target(&self, target: &HashValue) -> (r: Result<&ConnState<S>, WsRpcErr>)
        requires
            self.wf(),
        ensures
            match r {
                Ok(cs) => self.registry().contains_key(target@) && *cs
                    == self.registry()[target@],
                Err(e) => !self.registry().contains_key(target@) && (e matches
                    WsRpcErr::ConnectionNotEstablished(t) && t@ == target@),
            },
    {
        match self.lookup(target) {
            Some(cs) => Ok(cs),
            None => Err(WsRpcErr::ConnectionNotEstablished(target.duplicate())),
        }
    }

    /// The correlation id the next call will draw; lets callers notice an
    /// exhausted counter before they draw from it.
    pub fn next_task_id(&self) -> (r: u32)
        ensures
            r == self.next_id(),
    {
        self.next_task_id
    }

    /// Draws a fresh correlation id and parks the call's waiter under it,
    /// before anything reaches the wire, so a reply can never beat its
    /// waiter.  The id differs from every id still pending.
    pub fn register_call(&mut self, waiter: W) -> (task_id: u32)
        requires
            old(self).wf(),
            old(self).next_id() < u32::MAX,
        ensures
            final(self).wf(),
            task_id == old(self).next_id(),
            !old(self).pending().contains_key(task_id),
            final(self).pending() == old(self).pending().insert(task_id, waiter),
            final(self).pending_seq() == old(self).pending_seq().push((task_id, waiter)),
            final(self).registry() == old(self).registry(),
            final(self).next_id() == old(self).next_id() + 1,
    {
        let task_id = self.next_task_id;
        proof {
            lemma_map_of_contains(self.pending@, task_id);
            lemma_map_of_push(self.pending@, task_id, waiter);
        }
        self.next_task_id = self.next_task_id + 1;
        self.pending.push((task_id, waiter));
        task_id
    }

    /// Removes and returns the waiter pending under a correlation id: taken
    /// by the read loop when a reply arrives, or by the issuing call when it
    /// times out.  Each entry is removed exactly once; other entries are
    /// untouched.
    pub fn take_pending(&mut self, task_id: u32) -> (r: Option<W>)
        requires
            old(self).wf(),
        ensures
            final(self).wf(),
            match r {
                Some(w) => old(self).pending().contains_key(task_id)
                    && w == old(self).pending()[task_id]
                    && final(self).pending() == old(self).pending().remove(task_id),
                None => !old(self).pending().contains_key(task_id)
                    && final(self).pending() == old(self).pending()
                    && final(self).pending_seq() == old(self).pending_seq(),
            },
            final(self).registry() == old(self).registry(),
            final(self).next_id() == old(self).next_id(),
    {
        let n = self.pending.len();
        let mut i: usize = 0;
        while i < n
            invariant
                *self == *old(self),
                n == self.pending@.len(),
                i <= n,
                old(self).wf(),
                forall|j: int| 0 <= j < i ==> (#[trigger] self.pending@[j]).0 != task_id,
            decreases n - i,
        {
            if self.pending[i].0 == task_id {
                proof {
                    lemma_map_of_index(self.pending@, i as int);
                    lemma_map_of_remove(self.pending@, i as int);
                    self.pending@.remove_ensures(i as int);
                }
                let pair = self.pending.remove(i);
                return Some(pair.1);
            }
            i += 1;
        }
        proof {
            lemma_map_of_contains(self.pending@, task_id);
        }
        None
    }

    /// The read loop's decision for one inbound frame.  The injected request
    /// handler was offered the frame first; `handled` says whether it
    /// consumed it.  Otherwise the correlation id keys the pending-call
    /// table: a waiting call receives exactly the frame's payload, and a
    /// frame keying no pending call is dropped as an anomaly, leaving every
    /// other call's bookkeeping in place.
    pub fn dispatch_frame(&mut self, handled: bool, task_id: u32, payload: Vec<u8>) -> (d:
        FrameDisposition<W>)
        requires
            old(self).wf(),
        ensures
            final(self).wf(),
            final(self).registry() == old(self).registry(),
            final(self).next_id() == old(self).next_id(),
            handled ==> d is HandledAsRequest && final(self).pending() == old(self).pending(),
            (!handled && old(self).pending().contains_key(task_id)) ==> (d matches
                FrameDisposition::Reply(w, p) && w == old(self).pending()[task_id] && p
                == payload && final(self).pending() == old(self).pending().remove(task_id)),
            (!handled && !old(self).pending().contains_key(task_id)) ==> d is Orphan
                && final(self).pending() == old(self).pending(),
    {
        if handled {
            return FrameDisposition::HandledAsRequest;
        }
        match self.take_pending(task_id) {
            Some(w) => FrameDisposition::Reply(w, payload),
            None => FrameDisposition::Orphan,
        }
    }
}

/// Administrative or peer-initiated close: removes the identity's registry
/// entry, which drops the stored sender and lets the connection's write
/// loop observe a closed channel and exit.  Removing an absent identity is
/// a no-op, so the operation is idempotent; pending calls are untouched.
pub fn close_conn<S, W>(st: &mut RpcState<S, W>, id: &HashValue)
    requires
        old(st).wf(),
    ensures
        final(st).wf(),
        final(st).registry() == old(st).registry().remove(id@),
        final(st).pending() == old(st).pending(),
        final(st).pending_seq() == old(st).pending_seq(),
        final(st).next_id() == old(st).next_id(),
{
    let n = st.conns.len();
    let mut i: usize = 0;
    while i < n
        invariant
            *st == *old(st),
            n == st.conns@.len(),
            i <= n,
            old(st).wf(),
            forall|j: int| 0 <= j < i ==> (#[trigger] st.conns@[j]).0@ != id@,
        decreases n - i,
    {
        if st.conns[i].0.same_as(id) {
            proof {
                assert(st.conn_pairs()[i as int].0 == id@);
                lemma_map_of_remove(st.conn_pairs(), i as int);
                st.conns@.remove_ensures(i as int);
            }
            let ghost pre_pairs = st.conn_pairs();
            let _ = st.conns.remove(i);
            proof {
                assert(st.conn_pairs() =~= pre_pairs.remove(i as int)) by {
                    pre_pairs.remove_ensures(i as int);
                    old(st).conns@.remove_ensures(i as int);
                }
            }
            return ;
        }
        i += 1;
    }
    proof {
        assert(forall|j: int|
            0 <= j < st.conn_pairs().len() ==> (#[trigger] st.conn_pairs()[j]).0 != id@);
        lemma_map_of_contains(st.conn_pairs(), id@);
        assert(st.registry() =~= st.registry().remove(id@));
    }
}

/// Binds a message type to its protocol-wide id and to the opaque payload
/// codec the hosting system supplies for it.
pub trait MsgIdBind: Sized {
    /// The protocol-wide id of this message type.
    fn id() -> u16;

    /// The bytes this message serializes to.
    fn encode_bytes(&self) -> Vec<u8>;

    /// Decodes a payload; `None` on malformed bytes.
    fn decode_bytes(buf: &[u8]) -> Option<Self>;
}

/// A request message knows its response message type.
pub trait ReqMsg: MsgIdBind {
    /// The message type answering this request.
    type Resp: MsgIdBind;
}

/// A steady-state frame header as the read loop parses it.
pub struct FrameHeader {
    /// Declared payload length; exactly this many bytes follow the header.
    pub payload_len: usize,
    /// Message-type tag.
    pub tag: u8,
    /// Correlation id.
    pub task_id: u32,
}

/// Joins four big-endian bytes into the value they denote.
pub fn be32_join(b0: u8, b1: u8, b2: u8, b3: u8) -> (x: u32)
    ensures
        x == be32_of(seq![b0, b1, b2, b3]),
{
    ((b0 as u32) << 24u32) | ((b1 as u32) << 16u32) | ((b2 as u32) << 8u32) | (b3 as u32)
}

/// Consumes the 9-byte header at the front of the buffer: payload length,
/// message-type tag, correlation id.  The payload and any following frames
/// stay buffered.
pub fn read_frame_header(buf: &mut ReadBuffer) -> (h: FrameHeader)
    requires
        old(buf).wf(),
        old(buf)@.len() >= FRAME_HEADER_LEN,
    ensures
        final(buf).wf(),
        h.payload_len == parsed_payload_len(old(buf)@) as usize,
        h.tag == parsed_tag(old(buf)@),
        h.task_id == parsed_task_id(old(buf)@),
        final(buf)@ == old(buf)@.skip(FRAME_HEADER_LEN as int),
{
    let l = be32_join(buf.peek(0), buf.peek(1), buf.peek(2), buf.peek(3));
    let tag = buf.peek(4);
    let task_id = be32_join(buf.peek(5), buf.peek(6), buf.peek(7), buf.peek(8));
    proof {
        assert(be32_of(seq![old(buf)@[0], old(buf)@[1], old(buf)@[2], old(buf)@[3]]) == be32_of(
            old(buf)@,
        ));
        assert(be32_of(seq![old(buf)@[5], old(buf)@[6], old(buf)@[7], old(buf)@[8]]) == be32_of(
            old(buf)@.skip(5),
        ));
    }
    buf.consume(FRAME_HEADER_LEN);
    FrameHeader { payload_len: l as usize, tag, task_id }
}

/// Consumes the 4-byte big-endian length prefix of a handshake frame.
pub fn read_len_prefix(buf: &mut ReadBuffer) -> (n: usize)
    requires
        old(buf).wf(),
        old(buf)@.len() >= 4,
    ensures
        final(buf).wf(),
        n == be32_of(old(buf)@) as usize,
        final(buf)@ == old(buf)@.skip(4),
{
    let l = be32_join(buf.peek(0), buf.peek(1), buf.peek(2), buf.peek(3));
    proof {
        assert(be32_of(seq![old(buf)@[0], old(buf)@[1], old(buf)@[2], old(buf)@[3]]) == be32_of(
            old(buf)@,
        ));
    }
    buf.consume(4);
    l as usize
}

/// Reads the byte at `off`, accounting for it in the caller's count of
/// bytes still to consume.
pub fn consume_u8(off: usize, buf: &[u8], len: &mut usize) -> (r: u8)
    requires
        off < buf@.len(),
        *old(len) >= 1,
    ensures
        r == buf@[off as int],
        *final(len) == *old(len) - 1,
{
    *len = *len - 1;
    buf[off]
}

/// Reads the 4-byte big-endian length field at `off`, accounting for it in
/// the caller's count of bytes still to consume.
pub fn consume_i32(off: usize, buf: &[u8], len: &mut usize) -> (r: usize)
    requires
        off + 4 <= buf@.len(),
        *old(len) >= 4,
    ensures
        r == be32_of(buf@.skip(off as int)) as usize,
        *final(len) == *old(len) - 4,
{
    *len = *len - 4;
    let x = be32_join(buf[off], buf[off + 1], buf[off + 2], buf[off + 3]);
    proof {
        assert(be32_of(seq![buf@[off as int], buf@[off + 1], buf@[off + 2], buf@[off + 3]])
            == be32_of(buf@.skip(off as int)));
    }
    x as usize
}

/// Ids of currently-pending calls are pairwise distinct, however many calls
/// run concurrently on however many connections.
pub proof fn lemma_pending_ids_distinct<S, W>(st: RpcState<S, W>)
    requires
        st.wf(),
    ensures
        forall|i: int, j: int|
            0 <= i < j < st.pending_seq().len() ==> st.pending_seq()[i].0
                != st.pending_seq()[j].0,
{
}

/// Once a timed-out call has taken its own entry out, a late reply keyed by
/// that correlation id finds no waiter any more: the read loop's dispatch
/// then drops the frame without delivering it to anyone.
pub proof fn lemma_late_reply_finds_no_waiter<S, W>(st: RpcState<S, W>, task_id: u32)
    requires
        st.pending() == st.pending().remove(task_id),
    ensures
        !st.pending().contains_key(task_id),
{
}

/// Teardown: once an identity's registry entry is removed, the identity is
/// no longer registered, so a later call against it resolves no sender and
/// fails with the connection-not-established error.
pub proof fn lemma_close_forgets_connection<S, W>(
    st: RpcState<S, W>,
    st2: RpcState<S, W>,
    id: HashKey,
)
    requires
        st2.registry() == st.registry().remove(id),
    ensures
        !st2.registry().contains_key(id),
{
}

} // verus!
