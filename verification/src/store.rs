//! The trusted boundary to the backing key-value store.
//!
//! The store itself and the write batch are values of an outside crate; what
//! they hold is named by `store_map` and `batch_ops`, and every call the
//! adapter makes goes through one of the wrappers below.

use vstd::prelude::*;
use linera_views::store::ReadableKeyValueStore;
use linera_views::store::WritableKeyValueStore;
use crate::error::DbError;

verus! {

#[verifier::external_type_specification]
#[verifier::external_body]
pub struct ExMemoryStore(linera_views::memory::MemoryStore);

#[verifier::external_type_specification]
#[verifier::external_body]
pub struct ExBatch(linera_views::batch::Batch);

/// One batch operation: a discriminant (0 put, 1 delete, 2 delete-prefix),
/// the key or prefix, and for a put the value.
pub type StoreOp = (u8, Seq<u8>, Seq<u8>);

/// The full key-value contents of a backing store.
pub uninterp spec fn store_map(store: linera_views::memory::MemoryStore) -> Map<Seq<u8>, Seq<u8>>;

/// The operations a batch holds, in insertion order.
pub uninterp spec fn batch_ops(batch: linera_views::batch::Batch) -> Seq<StoreOp>;

/// A put operation.
pub open spec fn op_put(key: Seq<u8>, value: Seq<u8>) -> StoreOp {
    (0u8, key, value)
}

/// A point-delete operation.
pub open spec fn op_delete(key: Seq<u8>) -> StoreOp {
    (1u8, key, Seq::<u8>::empty())
}

/// A prefix-delete operation.
pub open spec fn op_delete_prefix(prefix: Seq<u8>) -> StoreOp {
    (2u8, prefix, Seq::<u8>::empty())
}

/// The empty store contents.
pub open spec fn empty_contents() -> Map<Seq<u8>, Seq<u8>> {
    Map::empty()
}

/// The set of keys that start with the given prefix.
pub open spec fn keys_with_prefix(prefix: Seq<u8>) -> Set<Seq<u8>> {
    Set::new(|key: Seq<u8>| prefix.is_prefix_of(key))
}

/// The store contents after one batch operation.
pub open spec fn apply_op(
    contents: Map<Seq<u8>, Seq<u8>>,
    op: StoreOp,
) -> Map<Seq<u8>, Seq<u8>> {
    if op.0 == 0u8 {
        contents.insert(op.1, op.2)
    } else if op.0 == 1u8 {
        contents.remove(op.1)
    } else {
        contents.remove_keys(keys_with_prefix(op.1))
    }
}

/// The store contents after a sequence of batch operations, applied in order.
pub open spec fn apply_ops(
    contents: Map<Seq<u8>, Seq<u8>>,
    ops: Seq<StoreOp>,
) -> Map<Seq<u8>, Seq<u8>>
    decreases ops.len(),
{
    if ops.len() == 0 {
        contents
    } else {
        apply_op(apply_ops(contents, ops.drop_last()), ops.last())
    }
}

/// Applying no operations changes nothing.
pub proof fn lemma_apply_ops_empty(contents: Map<Seq<u8>, Seq<u8>>)
    ensures
        apply_ops(contents, Seq::<StoreOp>::empty()) == contents,
{
}

/// Applying a non-empty operation sequence applies its last operation after
/// the rest.
pub proof fn lemma_apply_ops_step(contents: Map<Seq<u8>, Seq<u8>>, ops: Seq<StoreOp>)
    requires
        ops.len() > 0,
    ensures
        apply_ops(contents, ops) == apply_op(
            apply_ops(contents, ops.drop_last()),
            ops.last(),
        ),
{
}

/// Applying concatenated operation sequences applies them in order.
pub proof fn lemma_apply_ops_concat(
    contents: Map<Seq<u8>, Seq<u8>>,
    first: Seq<StoreOp>,
    second: Seq<StoreOp>,
)
    ensures
        apply_ops(contents, first + second) == apply_ops(apply_ops(contents, first), second),
    decreases second.len(),
{
    if second.len() == 0 {
        assert(first + second =~= first);
    } else {
        assert((first + second).drop_last() =~= first + second.drop_last());
        assert((first + second).last() == second.last());
        lemma_apply_ops_concat(contents, first, second.drop_last());
    }
}

/// Relies on `linera_views::memory::MemoryStore::new_for_testing`: it returns
/// a store over a fresh empty map.
#[verifier::external_body]
pub fn new_memory_store() -> (st: linera_views::memory::MemoryStore)
    ensures
        store_map(st) == empty_contents(),
{
    linera_views::memory::MemoryStore::new_for_testing()
}

/// Relies on `linera_views::batch::Batch::new`: a fresh batch holds no
/// operations.
#[verifier::external_body]
pub fn batch_new() -> (batch: linera_views::batch::Batch)
    ensures
        batch_ops(batch) == Seq::<StoreOp>::empty(),
{
    linera_views::batch::Batch::new()
}

/// Relies on `linera_views::batch::Batch::put_key_value_bytes`: it appends
/// one put operation to the batch.
#[verifier::external_body]
pub fn batch_put_key_value_bytes(
    batch: &mut linera_views::batch::Batch,
    key: Vec<u8>,
    value: Vec<u8>,
)
    ensures
        batch_ops(*final(batch)) == batch_ops(*old(batch)).push(op_put(key@, value@)),
{
    batch.put_key_value_bytes(key, value)
}

/// Relies on `linera_views::batch::Batch::delete_key`: it appends one
/// point-delete operation to the batch.
#[verifier::external_body]
pub fn batch_delete_key(batch: &mut linera_views::batch::Batch, key: Vec<u8>)
    ensures
        batch_ops(*final(batch)) == batch_ops(*old(batch)).push(op_delete(key@)),
{
    batch.delete_key(key)
}

/// Relies on `linera_views::batch::Batch::delete_key_prefix`: it appends one
/// prefix-delete operation to the batch.
#[verifier::external_body]
pub fn batch_delete_key_prefix(batch: &mut linera_views::batch::Batch, key_prefix: Vec<u8>)
    ensures
        batch_ops(*final(batch)) == batch_ops(*old(batch)).push(op_delete_prefix(key_prefix@)),
{
    batch.delete_key_prefix(key_prefix)
}

/// Relies on `MemoryStore::read_value_bytes`, awaited through
/// `futures::executor::block_on`: a side-effect-free point read of the value
/// held under the key.
#[verifier::external_body]
pub fn store_read_value_bytes(
    store: &linera_views::memory::MemoryStore,
    key: &Vec<u8>,
) -> (r: Result<Option<Vec<u8>>, DbError>)
    ensures
        r matches Ok(found) ==> match found {
            Some(bytes) => store_map(*store).contains_key(key@) && store_map(*store)[key@]
                == bytes@,
            None => !store_map(*store).contains_key(key@),
        },
        r matches Err(e) ==> e == DbError::StoreFailure,
{
    match futures::executor::block_on(store.read_value_bytes(key.as_slice())) {
        Ok(value) => Ok(value),
        Err(_) => Err(DbError::StoreFailure),
    }
}

/// Relies on `MemoryStore::write_batch`, awaited through
/// `futures::executor::block_on`: the batch is applied atomically, in
/// operation order, under one exclusive lock; on failure nothing is applied.
#[verifier::external_body]
pub fn store_write_batch(
    store: &mut linera_views::memory::MemoryStore,
    batch: linera_views::batch::Batch,
) -> (r: Result<(), DbError>)
    ensures
        r is Ok ==> store_map(*final(store)) == apply_ops(
            store_map(*old(store)),
            batch_ops(batch),
        ),
        r is Err ==> store_map(*final(store)) == store_map(*old(store)),
        r matches Err(e) ==> e == DbError::StoreFailure,
{
    match futures::executor::block_on(store.write_batch(batch)) {
        Ok(()) => Ok(()),
        Err(_) => Err(DbError::StoreFailure),
    }
}

} // verus!
