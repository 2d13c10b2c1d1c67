use ws_rpc::kv_batch::resolve_get_results;
use ws_rpc::kv_batch::KvBatch;
use ws_rpc::kv_batch::KvOp;
use ws_rpc::kv_batch::KvResult;

#[test]
fn batch_queues_ops_with_placeholders() {
    let batch = KvBatch::new()
        .then_set(b"alpha", b"one")
        .then_get(b"alpha")
        .then_delete(b"beta")
        .then_lock(b"gate")
        .then_unlock(b"gate", 99);
    let (ops, results) = batch.into_parts();
    assert_eq!(ops.len(), 5);
    assert_eq!(results.len(), 5);
    match &ops[0] {
        KvOp::Put { key, value } => {
            assert_eq!(key.as_slice(), b"alpha");
            assert_eq!(value.as_slice(), b"one");
        }
        _ => panic!("first op is the set"),
    }
    match &ops[4] {
        KvOp::Unlock { key, lock_id } => {
            assert_eq!(key.as_slice(), b"gate");
            assert_eq!(*lock_id, 99);
        }
        _ => panic!("last op is the unlock"),
    }
    assert!(matches!(results[0], KvResult::Put));
    assert!(matches!(results[1], KvResult::GetLen(0)));
    assert!(matches!(results[2], KvResult::Delete));
    assert!(matches!(results[3], KvResult::Lock(0)));
    assert!(matches!(results[4], KvResult::Unlock));
}

#[test]
fn reset_drops_everything_queued() {
    let batch = KvBatch::new().then_set(b"k", b"v").then_get(b"k").reset();
    let (ops, results) = batch.into_parts();
    assert!(ops.is_empty());
    assert!(results.is_empty());
}

#[test]
fn length_probes_resolve_into_buffers() {
    let mut results = vec![
        KvResult::GetLen(3),
        KvResult::Put,
        KvResult::GetLen(-1),
        KvResult::GetLen(0),
    ];
    let idxs = resolve_get_results(&mut results);
    assert_eq!(idxs, vec![0, 3]);
    match &results[0] {
        KvResult::Get(Some(buf)) => assert_eq!(buf.as_slice(), &[0u8, 0, 0]),
        _ => panic!("a found key gets its buffer"),
    }
    assert!(matches!(results[1], KvResult::Put));
    assert!(matches!(results[2], KvResult::Get(None)));
    match &results[3] {
        KvResult::Get(Some(buf)) => assert!(buf.is_empty()),
        _ => panic!("a zero-length value still gets a buffer"),
    }
}
