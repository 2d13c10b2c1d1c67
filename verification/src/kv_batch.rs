//! Batched key-value operations for the guest sandbox.
//!
//! A guest builds a batch of store operations and hands it to the host in
//! one call.  The library models each operation with owned bytes; the
//! host-call boundary itself — flattening to the host's argument layout and
//! the foreign call — stays outside the library.  For every operation the
//! batch keeps a result placeholder in the same position, so the host's
//! answers line up with the requests.

use vstd::prelude::*;

use vstd::slice::slice_to_vec;

verus! {

/// One key-value operation of a batch.
pub enum KvOp {
    /// Bind a value to a key.
    Put { key: Vec<u8>, value: Vec<u8> },
    /// Read a key's value.
    Get { key: Vec<u8> },
    /// Remove a key.
    Delete { key: Vec<u8> },
    /// Acquire the lock named by a key.
    Lock { key: Vec<u8> },
    /// Release the lock named by a key, presenting the lock's id.
    Unlock { key: Vec<u8>, lock_id: u32 },
}

/// The mathematical value of one operation.
pub enum KvOpView {
    Put { key: Seq<u8>, value: Seq<u8> },
    Get { key: Seq<u8> },
    Delete { key: Seq<u8> },
    Lock { key: Seq<u8> },
    Unlock { key: Seq<u8>, lock_id: u32 },
}

impl View for KvOp {
    type V = KvOpView;

    open spec fn view(&self) -> KvOpView {
        match self {
            KvOp::Put { key, value } => KvOpView::Put { key: key@, value: value@ },
            KvOp::Get { key } => KvOpView::Get { key: key@ },
            KvOp::Delete { key } => KvOpView::Delete { key: key@ },
            KvOp::Lock { key } => KvOpView::Lock { key: key@ },
            KvOp::Unlock { key, lock_id } => KvOpView::Unlock { key: key@, lock_id: *lock_id },
        }
    }
}

/// The host's answer to one operation, or its placeholder while the batch
/// is still being built.
pub enum KvResult {
    /// A set completed.
    Put,
    /// The host reported the length of a value; negative means absent.
    GetLen(i32),
    /// A get resolved into the buffer the host fills, or `None` if the key
    /// was absent.
    Get(Option<Vec<u8>>),
    /// A delete completed.
    Delete,
    /// A lock was acquired under this id.
    Lock(u32),
    /// An unlock completed.
    Unlock,
}

/// The mathematical value of one result.
pub enum KvResultView {
    Put,
    GetLen(i32),
    Get(Option<Seq<u8>>),
    Delete,
    Lock(u32),
    Unlock,
}

impl View for KvResult {
    type V = KvResultView;

    open spec fn view(&self) -> KvResultView {
        match self {
            KvResult::Put => KvResultView::Put,
            KvResult::GetLen(n) => KvResultView::GetLen(*n),
            KvResult::Get(o) => KvResultView::Get(
                match o {
                    Some(v) => Some(v@),
                    None => None,
                },
            ),
            KvResult::Delete => KvResultView::Delete,
            KvResult::Lock(id) => KvResultView::Lock(*id),
            KvResult::Unlock => KvResultView::Unlock,
        }
    }
}

/// The placeholder a freshly queued operation leaves in the result list.
pub open spec fn placeholder_of(op: KvOpView) -> KvResultView {
    match op {
        KvOpView::Put { .. } => KvResultView::Put,
        KvOpView::Get { .. } => KvResultView::GetLen(0),
        KvOpView::Delete { .. } => KvResultView::Delete,
        KvOpView::Lock { .. } => KvResultView::Lock(0),
        KvOpView::Unlock { .. } => KvResultView::Unlock,
    }
}

/// How one result looks after the host reported value lengths: a length
/// probe becomes the allocated, zeroed buffer the host fills, or `None`
/// for an absent key; every other result is untouched.
pub open spec fn resolved(r: KvResultView) -> KvResultView {
    match r {
        KvResultView::GetLen(len) => if len >= 0 {
            KvResultView::Get(Some(Seq::new(len as nat, |i: int| 0u8)))
        } else {
            KvResultView::Get(None)
        },
        other => other,
    }
}

/// A batch of operations under construction, with one result placeholder
/// per operation.
pub struct KvBatch {
    ops: Vec<KvOp>,
    results: Vec<KvResult>,
}

impl KvBatch {
    /// The queued operations, in order.
    pub closed spec fn ops_view(self) -> Seq<KvOpView> {
        self.ops@.map(|i: int, op: KvOp| op@)
    }

    /// The result slots, in operation order.
    pub closed spec fn results_view(self) -> Seq<KvResultView> {
        self.results@.map(|i: int, r: KvResult| r@)
    }

    /// Each operation has exactly its placeholder in the same position.
    pub open spec fn wf(self) -> bool {
        &&& self.results_view().len() == self.ops_view().len()
        &&& forall|i: int|
            0 <= i < self.ops_view().len() ==> self.results_view()[i] == placeholder_of(
                #[trigger] self.ops_view()[i],
            )
    }

    /// An empty batch.
    pub fn new() -> (r: KvBatch)
        ensures
            r.wf(),
            r.ops_view() == Seq::<KvOpView>::empty(),
    {
        let r = KvBatch { ops: Vec::new(), results: Vec::new() };
        proof {
            assert(r.ops_view() =~= Seq::<KvOpView>::empty());
            assert(r.results_view() =~= Seq::<KvResultView>::empty());
        }
        r
    }

    /// Drops everything queued so far and starts over.
    pub fn reset(self) -> (r: KvBatch)
        ensures
            r.wf(),
            r.ops_view() == Seq::<KvOpView>::empty(),
    {
        let mut this = self;
        this.ops.clear();
        this.results.clear();
        proof {
            assert(this.ops_view() =~= Seq::<KvOpView>::empty());
            assert(this.results_view() =~= Seq::<KvResultView>::empty());
        }
        this
    }

    /// Queues one operation together with its placeholder.
    fn then_op(self, op: KvOp) -> (r: KvBatch)
        requires
            self.wf(),
        ensures
            r.wf(),
            r.ops_view() == self.ops_view().push(op@),
            r.results_view() == self.results_view().push(placeholder_of(op@)),
    {
        let mut this = self;
        let ghost pre = this;
        let placeholder = match &op {
            KvOp::Put { .. } => KvResult::Put,
            KvOp::Get { .. } => KvResult::GetLen(0),
            KvOp::Delete { .. } => KvResult::Delete,
            KvOp::Lock { .. } => KvResult::Lock(0),
            KvOp::Unlock { .. } => KvResult::Unlock,
        };
        this.ops.push(op);
        this.results.push(placeholder);
        proof {
            assert(this.ops_view() =~= pre.ops_view().push(op@));
            assert(this.results_view() =~= pre.results_view().push(placeholder_of(op@)));
        }
        this
    }

    /// Queues a set of `key` to `value`.
    pub fn then_set(self, key: &[u8], value: &[u8]) -> (r: KvBatch)
        requires
            self.wf(),
        ensures
            r.wf(),
            r.ops_view() == self.ops_view().push(
                KvOpView::Put { key: key@, value: value@ },
            ),
    {
        self.then_op(KvOp::Put { key: slice_to_vec(key), value: slice_to_vec(value) })
    }

    /// Queues a read of `key`; its slot starts as a length probe.
    pub fn then_get(self, key: &[u8]) -> (r: KvBatch)
        requires
            self.wf(),
        ensures
            r.wf(),
            r.ops_view() == self.ops_view().push(KvOpView::Get { key: key@ }),
    {
        self.then_op(KvOp::Get { key: slice_to_vec(key) })
    }

    /// Queues a delete of `key`.
    pub fn then_delete(self, key: &[u8]) -> (r: KvBatch)
        requires
            self.wf(),
        ensures
            r.wf(),
            r.ops_view() == self.ops_view().push(KvOpView::Delete { key: key@ }),
    {
        self.then_op(KvOp::Delete { key: slice_to_vec(key) })
    }

    /// Queues acquiring the lock named by `key`.
    pub fn then_lock(self, key: &[u8]) -> (r: KvBatch)
        requires
            self.wf(),
        ensures
            r.wf(),
            r.ops_view() == self.ops_view().push(KvOpView::Lock { key: key@ }),
    {
        self.then_op(KvOp::Lock { key: slice_to_vec(key) })
    }

    /// Queues releasing the lock named by `key`, presenting its id.
    pub fn then_unlock(self, key: &[u8], id: u32) -> (r: KvBatch)
        requires
            self.wf(),
        ensures
            r.wf(),
            r.ops_view() == self.ops_view().push(KvOpView::Unlock { key: key@, lock_id: id }),
    {
        self.then_op(KvOp::Unlock { key: slice_to_vec(key), lock_id: id })
    }

    /// Hands the queued operations and their slots to the host-call
    /// boundary, which flattens them into the host's argument layout.
    pub fn into_parts(self) -> (r: (Vec<KvOp>, Vec<KvResult>))
        ensures
            r.0@.map(|i: int, op: KvOp| op@) == self.ops_view(),
            r.1@.map(|i: int, res: KvResult| res@) == self.results_view(),
    {
        (self.ops, self.results)
    }
}

/// After the host reported lengths, resolves every length probe in place:
/// a nonnegative length becomes a zeroed buffer of that size for the host
/// to fill, a negative one records an absent key.  Returns the positions
/// of the buffers to hand back, in increasing order.
pub fn resolve_get_results(results: &mut Vec<KvResult>) -> (idxs: Vec<usize>)
    ensures
        final(results)@.len() == old(results)@.len(),
        forall|i: int|
            0 <= i < old(results)@.len() ==> final(results)@[i]@ == resolved(
                #[trigger] old(results)@[i]@,
            ),
        forall|k: int|
            0 <= k < idxs@.len() ==> 0 <= #[trigger] idxs@[k] < old(results)@.len()
                && (old(results)@[idxs@[k] as int]@ matches KvResultView::GetLen(len) && len
                >= 0),
        forall|i: int|
            0 <= i < old(results)@.len() && (#[trigger] old(results)@[i]@ matches
                KvResultView::GetLen(len) && len >= 0) ==> idxs@.contains(i as usize),
        forall|k1: int, k2: int| 0 <= k1 < k2 < idxs@.len() ==> idxs@[k1] < idxs@[k2],
{
    let n = results.len();
    let mut idxs: Vec<usize> = Vec::new();
    let mut i: usize = 0;
    while i < n
        invariant
            n == results@.len(),
            n == old(results)@.len(),
            i <= n,
            forall|j: int| i <= j < n ==> results@[j] == old(results)@[j],
            forall|j: int|
                0 <= j < i ==> results@[j]@ == resolved(#[trigger] old(results)@[j]@),
            forall|k: int|
                0 <= k < idxs@.len() ==> 0 <= #[trigger] idxs@[k] < i
                    && (old(results)@[idxs@[k] as int]@ matches KvResultView::GetLen(len)
                    && len >= 0),
            forall|j: int|
                0 <= j < i && (#[trigger] old(results)@[j]@ matches KvResultView::GetLen(len)
                    && len >= 0) ==> idxs@.contains(j as usize),
            forall|k1: int, k2: int| 0 <= k1 < k2 < idxs@.len() ==> idxs@[k1] < idxs@[k2],
        decreases n - i,
    {
        let mut probe: Option<i32> = None;
        match &results[i] {
            KvResult::GetLen(len) => {
                probe = Some(*len);
            },
            _ => {},
        }
        match probe {
            Some(len) => {
                if len >= 0 {
                    let buf = vec![0u8; len as usize];
                    assert(buf@ =~= Seq::new(len as nat, |k: int| 0u8));
                    results.set(i, KvResult::Get(Some(buf)));
                    let ghost pre_idxs = idxs@;
                    idxs.push(i);
                    proof {
                        assert(idxs@[idxs@.len() - 1] == i as usize);
                        assert forall|j: int|
                            0 <= j < i + 1 && (#[trigger] old(results)@[j]@ matches
                                KvResultView::GetLen(l) && l >= 0) implies idxs@.contains(
                            j as usize,
                        ) by {
                            if j < i {
                                let k = choose|k: int|
                                    0 <= k < pre_idxs.len() && pre_idxs[k] == j as usize;
                                assert(idxs@[k] == j as usize);
                            } else {
                                assert(idxs@[idxs@.len() - 1] == j as usize);
                            }
                        }
                    }
                } else {
                    results.set(i, KvResult::Get(None));
                }
            },
            None => {
                proof {
                    assert(results@[i as int]@ == resolved(old(results)@[i as int]@));
                }
            },
        }
        i += 1;
    }
    idxs
}

} // verus!
