//! Laws of checkpoints and of their storage.
use std::collections::BTreeMap;
use vstd::prelude::*;

use crate::checkpoint::{DcpCheckpoint, Position};
use crate::checkpoint_store::{
    batch, batch_holds_every_position, check_existing, checkpoint_positions, checkpoint_xattr,
    collect_write_failures, document_fault, documents_of, foreign, name_temporary, requested,
    serialize_checkpoint_batch, validate_vbuckets, CheckpointDocuments, CheckpointStore,
    CouchbaseCheckpointStore, DocumentModel, NoopCheckpointStore, StoredCheckpointDocument,
};
use crate::error::Result;
use crate::lists::first_where_ensures;
use crate::maps::keyed_fault_is_of_a_key;
use crate::text::{blank, dec, opt_text};

verus! {

broadcast use {vstd::std_specs::btree::group_btree_axioms, vstd::laws_cmp::group_laws_cmp};

/// The sequence number lies inside the snapshot.
pub open spec fn inside(c: DcpCheckpoint) -> bool {
    c.snapshot_start <= c.seqno && c.seqno <= c.snapshot_end
}

/// A checkpoint is sound exactly when its sequence number lies inside its
/// snapshot.
pub proof fn sound_checkpoints_lie_in_their_snapshot(c: DcpCheckpoint, result: Result<()>)
    requires
        call_ensures(DcpCheckpoint::validate, (&c,), result),
    ensures
        result is Ok <==> inside(c),
        result matches Err(e) ==> e is Checkpoint,
{
}

/// A checkpoint advances to a sequence number that is not smaller, inside the
/// new snapshot, and keeps everything else.
pub proof fn checkpoints_advance(
    c: DcpCheckpoint,
    seqno: u64,
    snapshot_start: u64,
    snapshot_end: u64,
    result: Result<DcpCheckpoint>,
)
    requires
        call_ensures(
            DcpCheckpoint::advanced_to,
            (&c, seqno, snapshot_start, snapshot_end),
            result,
        ),
    ensures
        result is Ok <==> c.seqno <= seqno && snapshot_start <= seqno && seqno <= snapshot_end,
        result matches Ok(next) ==> {
            &&& next.seqno == seqno
            &&& next.snapshot_start == snapshot_start
            &&& next.snapshot_end == snapshot_end
            &&& next.vbucket == c.vbucket
            &&& next.vbucket_uuid == c.vbucket_uuid
            &&& next.manifest_uid == c.manifest_uid
            &&& opt_text(next.bucket_uuid) == opt_text(c.bucket_uuid)
        },
        result matches Err(e) ==> e is Checkpoint,
{
    if let Ok(next) = result {
        assert(next@.seqno == next.seqno);
        assert(next@.bucket_uuid == c@.bucket_uuid);
    }
}

/// The earliest checkpoint is the origin of its vBucket, of no known history.
pub proof fn earliest_is_the_origin(vbucket: u16, c: DcpCheckpoint)
    requires
        call_ensures(DcpCheckpoint::earliest, (vbucket,), c),
    ensures
        c.vbucket == vbucket,
        c.seqno == 0,
        c.snapshot_start == 0,
        c.snapshot_end == 0,
        c.vbucket_uuid == 0,
        c.bucket_uuid is None,
        c.manifest_uid is None,
{
    assert(c@.bucket_uuid == opt_text(c.bucket_uuid));
}

/// Two checkpoints are the same exactly when all their fields are.
pub proof fn same_checkpoints_agree_in_every_field(a: DcpCheckpoint, b: DcpCheckpoint, same: bool)
    requires
        call_ensures(DcpCheckpoint::same, (&a, &b), same),
    ensures
        same <==> {
            &&& opt_text(a.bucket_uuid) == opt_text(b.bucket_uuid)
            &&& a.vbucket == b.vbucket
            &&& a.vbucket_uuid == b.vbucket_uuid
            &&& a.seqno == b.seqno
            &&& a.snapshot_start == b.snapshot_start
            &&& a.snapshot_end == b.snapshot_end
            &&& a.manifest_uid == b.manifest_uid
        },
{
}

/// The document stores the checkpoint: every field of it but the vBucket,
/// which its key names.
pub open spec fn stores(d: DocumentModel, c: DcpCheckpoint) -> bool {
    &&& d.start_seqno == c.snapshot_start
    &&& d.end_seqno == c.snapshot_end
    &&& d.vbucket_uuid == c.vbucket_uuid
    &&& d.seqno == c.seqno
    &&& Some(d.bucket_uuid) == opt_text(c.bucket_uuid)
    &&& d.manifest_uid == c.manifest_uid
}

/// A sound checkpoint of a known bucket is stored with every field.
pub proof fn documents_store_checkpoints(
    c: DcpCheckpoint,
    result: Result<StoredCheckpointDocument>,
)
    requires
        call_ensures(StoredCheckpointDocument::from_checkpoint, (&c,), result),
    ensures
        result is Ok <==> inside(c) && c.bucket_uuid is Some,
        result matches Ok(d) ==> {
            &&& d.start_seqno == c.snapshot_start
            &&& d.end_seqno == c.snapshot_end
            &&& d.vbucket_uuid == c.vbucket_uuid
            &&& d.seqno == c.seqno
            &&& d.bucket_uuid@ == c.bucket_uuid->0@
            &&& d.manifest_uid == c.manifest_uid
        },
        result matches Err(e) ==> e is Checkpoint,
{
    if let Ok(d) = result {
        assert(stores(d@, c));
    }
}

/// A document is read as the checkpoint of its vBucket, with every field, and
/// only for the bucket that it was stored for.
pub proof fn documents_are_read_as_checkpoints(
    d: StoredCheckpointDocument,
    vbucket: u16,
    bucket_uuid: &str,
    result: Result<DcpCheckpoint>,
)
    requires
        call_ensures(StoredCheckpointDocument::to_checkpoint, (&d, vbucket, bucket_uuid), result),
    ensures
        result is Ok <==> d.bucket_uuid@ == bucket_uuid@ && d.start_seqno <= d.seqno && d.seqno
            <= d.end_seqno,
        result matches Ok(c) ==> {
            &&& c.vbucket == vbucket
            &&& c.vbucket_uuid == d.vbucket_uuid
            &&& c.seqno == d.seqno
            &&& c.snapshot_start == d.start_seqno
            &&& c.snapshot_end == d.end_seqno
            &&& c.manifest_uid == d.manifest_uid
            &&& opt_text(c.bucket_uuid) == Some(bucket_uuid@)
        },
        result matches Err(e) ==> e is Checkpoint,
{
    if let Ok(c) = result {
        assert(c@.seqno == c.seqno);
    }
}

/// What was stored of a checkpoint is read back as that checkpoint.
pub proof fn stored_checkpoints_are_read_back(
    c: DcpCheckpoint,
    d: StoredCheckpointDocument,
    bucket_uuid: &str,
    result: Result<DcpCheckpoint>,
)
    requires
        call_ensures(StoredCheckpointDocument::from_checkpoint, (&c,), Ok(d)),
        opt_text(c.bucket_uuid) == Some(bucket_uuid@),
        call_ensures(
            StoredCheckpointDocument::to_checkpoint,
            (&d, c.vbucket, bucket_uuid),
            result,
        ),
    ensures
        result is Ok,
        result->Ok_0@ == c@,
{
}

proof fn batch_is_of_its_positions(list: Seq<Position>)
    ensures
        batch(list) is Ok <==> {
            &&& forall|i: int|
                0 <= i < list.len() ==> (#[trigger] list[i]).valid() && list[i].bucket_uuid is Some
                    && list[i].bucket_uuid == list[0].bucket_uuid
            &&& forall|i: int, j: int|
                0 <= i < j < list.len() ==> (#[trigger] list[i]).vbucket != (
                #[trigger] list[j]).vbucket
        },
        batch(list) matches Ok(m) ==> forall|v: u16| #[trigger]
            m.contains_key(v) <==> exists|i: int|
                0 <= i < list.len() && (#[trigger] list[i]).vbucket == v,
    decreases list.len(),
{
    if list.len() > 0 {
        let shorter = list.drop_last();
        let n = list.len() - 1;
        let p = list.last();
        assert(list[n] == p);
        batch_is_of_its_positions(shorter);
        assert forall|i: int| 0 <= i < n implies shorter[i] == list[i] by {}
        if n > 0 {
            assert(shorter[0] == list[0]);
        }
        crate::checkpoint::fault_free_is_valid(p);
        let sound = {
            &&& forall|i: int|
                0 <= i < list.len() ==> (#[trigger] list[i]).valid() && list[i].bucket_uuid is Some
                    && list[i].bucket_uuid == list[0].bucket_uuid
            &&& forall|i: int, j: int|
                0 <= i < j < list.len() ==> (#[trigger] list[i]).vbucket != (
                #[trigger] list[j]).vbucket
        };
        if sound {
            assert forall|i: int| 0 <= i < shorter.len() implies (#[trigger] shorter[i]).valid()
                && shorter[i].bucket_uuid is Some && shorter[i].bucket_uuid
                == shorter[0].bucket_uuid by {
                assert(list[i].valid());
            }
            assert forall|i: int, j: int| 0 <= i < j < shorter.len() implies (
            #[trigger] shorter[i]).vbucket != (#[trigger] shorter[j]).vbucket by {
                assert(list[i].vbucket != list[j].vbucket);
            }
            assert(batch(shorter) is Ok);
            let m = batch(shorter)->Ok_0;
            assert(p.valid() && p.bucket_uuid is Some);
            if n > 0 {
                assert(list[n - 1].bucket_uuid == list[0].bucket_uuid);
            }
            if m.contains_key(p.vbucket) {
                let i = choose|i: int|
                    0 <= i < shorter.len() && (#[trigger] shorter[i]).vbucket == p.vbucket;
                assert(list[i].vbucket == list[n].vbucket);
            }
        }
        if batch(list) is Ok {
            let m = batch(shorter)->Ok_0;
            assert forall|i: int| 0 <= i < list.len() implies (#[trigger] list[i]).valid()
                && list[i].bucket_uuid is Some && list[i].bucket_uuid == list[0].bucket_uuid by {
                if i < n {
                    assert(shorter[i].valid());
                } else if n > 0 {
                    assert(shorter[n - 1].bucket_uuid == shorter[0].bucket_uuid);
                }
            }
            assert forall|i: int, j: int| 0 <= i < j < list.len() implies (
            #[trigger] list[i]).vbucket != (#[trigger] list[j]).vbucket by {
                if j < n {
                    assert(shorter[i].vbucket != shorter[j].vbucket);
                } else if list[i].vbucket == p.vbucket {
                    assert(shorter[i].vbucket == p.vbucket);
                    assert(m.contains_key(p.vbucket));
                }
            }
            let whole = batch(list)->Ok_0;
            assert forall|v: u16| #[trigger] whole.contains_key(v) <==> exists|i: int|
                0 <= i < list.len() && (#[trigger] list[i]).vbucket == v by {
                if m.contains_key(v) {
                    let i = choose|i: int|
                        0 <= i < shorter.len() && (#[trigger] shorter[i]).vbucket == v;
                    assert(list[i].vbucket == v);
                }
                if exists|i: int| 0 <= i < list.len() && (#[trigger] list[i]).vbucket == v {
                    let i = choose|i: int|
                        0 <= i < list.len() && (#[trigger] list[i]).vbucket == v;
                    if i < n {
                        assert(shorter[i].vbucket == v);
                    }
                }
            }
        }
    }
}

/// The checkpoints can be stored together: each lies in its snapshot, all are
/// of one known bucket, and no vBucket occurs twice.
pub open spec fn storable(list: Seq<DcpCheckpoint>) -> bool {
    &&& forall|i: int|
        0 <= i < list.len() ==> inside(#[trigger] list[i]) && list[i].bucket_uuid is Some
            && list[i].bucket_uuid->0@ == list[0].bucket_uuid->0@
    &&& forall|i: int, j: int|
        0 <= i < j < list.len() ==> (#[trigger] list[i]).vbucket != (#[trigger] list[j]).vbucket
}

proof fn storable_positions(list: Seq<DcpCheckpoint>)
    ensures
        storable(list) <==> batch(checkpoint_positions(list)) is Ok,
{
    let positions = checkpoint_positions(list);
    batch_is_of_its_positions(positions);
    assert forall|i: int| 0 <= i < list.len() implies #[trigger] positions[i] == list[i]@ by {}
    if storable(list) {
        assert forall|i: int| 0 <= i < positions.len() implies (#[trigger] positions[i]).valid()
            && positions[i].bucket_uuid is Some && positions[i].bucket_uuid
            == positions[0].bucket_uuid by {
            assert(inside(list[i]));
        }
        assert forall|i: int, j: int| 0 <= i < j < positions.len() implies (
        #[trigger] positions[i]).vbucket != (#[trigger] positions[j]).vbucket by {
            assert(list[i].vbucket != list[j].vbucket);
        }
    }
    if batch(positions) is Ok {
        assert forall|i: int| 0 <= i < list.len() implies inside(#[trigger] list[i])
            && list[i].bucket_uuid is Some && list[i].bucket_uuid->0@ == list[0].bucket_uuid->0@ by {
            assert(positions[i].valid());
            assert(positions[0] == list[0]@);
        }
        assert forall|i: int, j: int| 0 <= i < j < list.len() implies (#[trigger] list[i]).vbucket
            != (#[trigger] list[j]).vbucket by {
            assert(positions[i].vbucket != positions[j].vbucket);
        }
    }
}

/// A batch is stored whole, one document for each checkpoint with every field
/// of it, exactly when it can be stored together.
pub proof fn batches_store_every_checkpoint(
    checkpoints: &[DcpCheckpoint],
    result: Result<BTreeMap<u16, StoredCheckpointDocument>>,
)
    requires
        call_ensures(serialize_checkpoint_batch, (checkpoints,), result),
    ensures
        result is Ok <==> storable(checkpoints@),
        result matches Ok(documents) ==> {
            &&& forall|i: int|
                0 <= i < checkpoints@.len() ==> documents@.contains_key(
                    (#[trigger] checkpoints@[i]).vbucket,
                ) && stores(documents@[checkpoints@[i].vbucket]@, checkpoints@[i])
            &&& forall|v: u16| #[trigger]
                documents@.contains_key(v) ==> exists|i: int|
                    0 <= i < checkpoints@.len() && (#[trigger] checkpoints@[i]).vbucket == v
        },
{
    let list = checkpoints@;
    let positions = checkpoint_positions(list);
    storable_positions(list);
    batch_is_of_its_positions(positions);
    if let Ok(documents) = result {
        let models = documents_of(documents@);
        assert(models.dom() =~= documents@.dom());
        assert forall|i: int| 0 <= i < list.len() implies documents@.contains_key(
            (#[trigger] list[i]).vbucket,
        ) && stores(documents@[list[i].vbucket]@, list[i]) by {
            batch_holds_every_position(positions, i);
            assert(positions[i] == list[i]@);
            assert(models.dom().contains(list[i].vbucket));
            assert(models[list[i].vbucket] == documents@[list[i].vbucket]@);
        }
        assert forall|v: u16| #[trigger] documents@.contains_key(v) implies exists|i: int|
            0 <= i < list.len() && (#[trigger] list[i]).vbucket == v by {
            assert(models.dom().contains(v));
            let i = choose|i: int|
                0 <= i < positions.len() && (#[trigger] positions[i]).vbucket == v;
            assert(list[i].vbucket == v);
        }
    }
}

/// A list of vBuckets is accepted exactly when none occurs twice.
pub proof fn vbucket_lists_have_no_duplicates(vbuckets: &[u16], result: Result<()>)
    requires
        call_ensures(validate_vbuckets, (vbuckets,), result),
    ensures
        result is Ok <==> forall|i: int, j: int|
            0 <= i < j < vbuckets@.len() ==> #[trigger] vbuckets@[i] != #[trigger] vbuckets@[j],
        result matches Err(e) ==> e is Checkpoint,
{
    if forall|i: int, j: int|
        0 <= i < j < vbuckets@.len() ==> #[trigger] vbuckets@[i] != #[trigger] vbuckets@[j] {
        assert(vbuckets@.no_duplicates()) by {
            assert forall|i: int, j: int|
                0 <= i < vbuckets@.len() && 0 <= j < vbuckets@.len() && i
                    != j implies vbuckets@[i] != vbuckets@[j] by {
                if i < j {
                    assert(vbuckets@[i] != vbuckets@[j]);
                } else {
                    assert(vbuckets@[j] != vbuckets@[i]);
                }
            }
        }
    }
}

/// Saving stores every checkpoint of the batch and touches nothing else. A
/// batch that cannot be stored together, or would take the place of another
/// bucket's checkpoint, changes nothing.
pub proof fn saving_stores_the_batch(
    store: &mut CheckpointDocuments,
    checkpoints: &[DcpCheckpoint],
    result: Result<()>,
)
    requires
        call_ensures(<CheckpointDocuments as CheckpointStore>::save, (store, checkpoints), result),
    ensures
        result is Ok <==> storable(checkpoints@) && forall|i: int|
            #![trigger checkpoints@[i]]
            0 <= i < checkpoints@.len() && old(store)@.contains_key(checkpoints@[i].vbucket)
                ==> Some(old(store)@[checkpoints@[i].vbucket].bucket_uuid) == opt_text(
                checkpoints@[i].bucket_uuid,
            ),
        result is Err ==> final(store)@ == old(store)@,
        result is Ok ==> forall|i: int|
            0 <= i < checkpoints@.len() ==> final(store)@.contains_key(
                (#[trigger] checkpoints@[i]).vbucket,
            ) && stores(final(store)@[checkpoints@[i].vbucket], checkpoints@[i]),
        forall|v: u16|
            #![trigger final(store)@.contains_key(v)]
            (forall|i: int|
                0 <= i < checkpoints@.len() ==> (#[trigger] checkpoints@[i]).vbucket != v) ==> (
            final(store)@.contains_key(v) <==> old(store)@.contains_key(v)) && (old(
                store)@.contains_key(v) ==> final(store)@[v] == old(store)@[v]),
{
    let list = checkpoints@;
    let positions = checkpoint_positions(list);
    let before = old(store)@;
    storable_positions(list);
    batch_is_of_its_positions(positions);
    assert forall|i: int| 0 <= i < list.len() implies #[trigger] positions[i] == list[i]@ by {}
    if batch(positions) is Ok {
        let updates = batch(positions)->Ok_0;
        let fault = |v: u16| foreign(before, v, updates[v].bucket_uuid);
        keyed_fault_is_of_a_key(updates.dom(), fault);
        assert forall|i: int| 0 <= i < list.len() implies updates.contains_key(
            (#[trigger] list[i]).vbucket,
        ) && stores(updates[list[i].vbucket], list[i]) by {
            batch_holds_every_position(positions, i);
            assert(positions[i] == list[i]@);
        }
        let own = forall|i: int|
            #![trigger list[i]]
            0 <= i < list.len() && before.contains_key(list[i].vbucket) ==> Some(
                before[list[i].vbucket].bucket_uuid,
            ) == opt_text(list[i].bucket_uuid);
        if own {
            assert forall|v: u16| #[trigger] updates.dom().contains(v) implies fault(v) is None by {
                assert(updates.contains_key(v));
                let i = choose|i: int|
                    0 <= i < positions.len() && (#[trigger] positions[i]).vbucket == v;
                assert(list[i].vbucket == v);
            }
        }
        if result is Ok {
            assert forall|i: int|
                #![trigger list[i]]
                0 <= i < list.len() && before.contains_key(list[i].vbucket) implies Some(
                before[list[i].vbucket].bucket_uuid,
            ) == opt_text(list[i].bucket_uuid) by {
                assert(updates.contains_key(list[i].vbucket));
                assert(updates.dom().contains(list[i].vbucket));
                assert(fault(list[i].vbucket) is None);
            }
            let after = final(store)@;
            assert forall|v: u16|
                #![trigger after.contains_key(v)]
                (forall|i: int|
                    0 <= i < list.len() ==> (#[trigger] list[i]).vbucket != v) implies (
            after.contains_key(v) <==> before.contains_key(v)) && (before.contains_key(v)
                ==> after[v] == before[v]) by {
                if updates.contains_key(v) {
                    let i = choose|i: int|
                        0 <= i < positions.len() && (#[trigger] positions[i]).vbucket == v;
                    assert(list[i].vbucket == v);
                }
            }
            assert forall|i: int| 0 <= i < list.len() implies after.contains_key(
                (#[trigger] list[i]).vbucket,
            ) && stores(after[list[i].vbucket], list[i]) by {
                assert(updates.contains_key(list[i].vbucket));
            }
        }
    }
}

/// Loading gives the stored checkpoints of the requested vBuckets, with every
/// field, and only for the bucket that they were stored for.
pub proof fn loading_reads_what_is_stored(
    store: CheckpointDocuments,
    bucket_uuid: &str,
    vbuckets: &[u16],
    result: Result<BTreeMap<u16, DcpCheckpoint>>,
)
    requires
        call_ensures(
            <CheckpointDocuments as CheckpointStore>::load,
            (&store, bucket_uuid, vbuckets),
            result,
        ),
    ensures
        result matches Ok(map) ==> {
            &&& forall|v: u16| #[trigger]
                map@.contains_key(v) <==> store@.contains_key(v) && vbuckets@.contains(v)
            &&& forall|v: u16| #[trigger]
                map@.contains_key(v) ==> map@[v].vbucket == v && stores(store@[v], map@[v])
                    && opt_text(map@[v].bucket_uuid) == Some(bucket_uuid@) && inside(map@[v])
        },
        result is Ok <==> vbuckets@.no_duplicates() && forall|v: u16| #[trigger]
            store@.contains_key(v) && vbuckets@.contains(v) ==> store@[v].bucket_uuid
                == bucket_uuid@ && store@[v].start_seqno <= store@[v].seqno && store@[v].seqno
                <= store@[v].end_seqno,
{
    let wanted = requested(store@, vbuckets@);
    let fault = |v: u16| document_fault(store@, bucket_uuid@, v);
    keyed_fault_is_of_a_key(wanted, fault);
    if let Ok(map) = result {
        assert forall|v: u16| #[trigger]
            map@.contains_key(v) <==> store@.contains_key(v) && vbuckets@.contains(v) by {
            assert(map@.dom().contains(v) <==> wanted.contains(v));
        }
        assert forall|v: u16| #[trigger] map@.contains_key(v) implies map@[v].vbucket == v
            && stores(store@[v], map@[v]) && opt_text(map@[v].bucket_uuid) == Some(bucket_uuid@)
            && inside(map@[v]) by {
            assert(map@[v]@.vbucket == v);
        }
        assert forall|v: u16| #[trigger]
            store@.contains_key(v) && vbuckets@.contains(v) implies store@[v].bucket_uuid
            == bucket_uuid@ && store@[v].start_seqno <= store@[v].seqno && store@[v].seqno
            <= store@[v].end_seqno by {
            assert(wanted.contains(v));
            assert(fault(v) is None);
        }
    } else if vbuckets@.no_duplicates() {
        let v = choose|v: u16| #[trigger]
            wanted.contains(v) && fault(v) == crate::maps::keyed_fault(wanted, fault);
        assert(store@.contains_key(v));
    }
}

/// A checkpoint that was saved is what a load gives back for its vBucket.
pub proof fn saved_checkpoints_are_loaded(
    store: &mut CheckpointDocuments,
    checkpoints: &[DcpCheckpoint],
    bucket_uuid: &str,
    vbuckets: &[u16],
    loaded: BTreeMap<u16, DcpCheckpoint>,
    i: int,
)
    requires
        call_ensures(<CheckpointDocuments as CheckpointStore>::save, (store, checkpoints), Ok(())),
        call_ensures(
            <CheckpointDocuments as CheckpointStore>::load,
            (final(store), bucket_uuid, vbuckets),
            Ok(loaded),
        ),
        0 <= i < checkpoints@.len(),
        vbuckets@.contains(checkpoints@[i].vbucket),
    ensures
        loaded@.contains_key(checkpoints@[i].vbucket),
        loaded@[checkpoints@[i].vbucket]@ == checkpoints@[i]@,
{
    saving_stores_the_batch(store, checkpoints, Ok(()));
    loading_reads_what_is_stored(*final(store), bucket_uuid, vbuckets, Ok(loaded));
    let v = checkpoints@[i].vbucket;
    assert(loaded@.contains_key(v));
    assert(stores(final(store)@[v], checkpoints@[i]));
    assert(stores(final(store)@[v], loaded@[v]));
}

/// Clearing removes the vBuckets that it names and no other; where one of them
/// is another bucket's, nothing is removed.
pub proof fn clearing_removes_only_its_vbuckets(
    store: &mut CheckpointDocuments,
    bucket_uuid: &str,
    vbuckets: &[u16],
    result: Result<()>,
    v: u16,
)
    requires
        call_ensures(
            <CheckpointDocuments as CheckpointStore>::clear,
            (store, bucket_uuid, vbuckets),
            result,
        ),
    ensures
        result is Ok <==> vbuckets@.no_duplicates() && forall|i: int|
            #![trigger vbuckets@[i]]
            0 <= i < vbuckets@.len() && old(store)@.contains_key(vbuckets@[i]) ==> old(
                store)@[vbuckets@[i]].bucket_uuid == bucket_uuid@,
        result is Err ==> final(store)@ == old(store)@,
        result is Ok && vbuckets@.contains(v) ==> !final(store)@.contains_key(v),
        !vbuckets@.contains(v) ==> (final(store)@.contains_key(v) <==> old(store)@.contains_key(v)),
        !vbuckets@.contains(v) && old(store)@.contains_key(v) ==> final(store)@[v] == old(
            store)@[v],
{
    let m = old(store)@;
    let bad = |w: u16| foreign(m, w, bucket_uuid@) is Some;
    first_where_ensures(vbuckets@, bad);
    if result is Ok {
        assert forall|i: int|
            #![trigger vbuckets@[i]]
            0 <= i < vbuckets@.len() && m.contains_key(vbuckets@[i]) implies m[vbuckets@[i]].bucket_uuid
            == bucket_uuid@ by {
            assert(!bad(vbuckets@[i]));
        }
    } else if vbuckets@.no_duplicates() {
        let i = crate::lists::first_where(vbuckets@, bad)->0;
        assert(bad(vbuckets@[i]));
    }
}

/// The store that keeps nothing loads nothing and accepts everything.
pub proof fn noop_store_keeps_nothing(
    store: &mut NoopCheckpointStore,
    bucket_uuid: &str,
    vbuckets: &[u16],
    checkpoints: &[DcpCheckpoint],
    loaded: Result<BTreeMap<u16, DcpCheckpoint>>,
    saved: Result<()>,
)
    requires
        call_ensures(<NoopCheckpointStore as CheckpointStore>::save, (store, checkpoints), saved),
        call_ensures(
            <NoopCheckpointStore as CheckpointStore>::load,
            (final(store), bucket_uuid, vbuckets),
            loaded,
        ),
    ensures
        saved is Ok,
        loaded matches Ok(map) && map@.dom().is_empty(),
{
}

/// Groups have distinct keys for distinct vBuckets, in the published form.
pub proof fn keys_name_group_and_vbucket<C>(
    collection: C,
    group: &str,
    store: CouchbaseCheckpointStore<C>,
    vbucket: u16,
    key: String,
    xattr: &'static str,
)
    requires
        call_ensures(CouchbaseCheckpointStore::<C>::new, (collection, group), Ok(store)),
        call_ensures(CouchbaseCheckpointStore::<C>::checkpoint_key, (&store, vbucket), key),
        call_ensures(checkpoint_xattr, (), xattr),
    ensures
        key@ == "_connector:cbgo:"@ + group@ + ":checkpoint:"@ + dec(vbucket as nat),
        xattr@ == "cbgo"@,
        !blank(group@),
        !group@.contains('.'),
{
}

/// A group is refused exactly when it is blank or holds a dot.
pub proof fn groups_are_checked<C>(
    collection: C,
    group: &str,
    result: Result<CouchbaseCheckpointStore<C>>,
    inner: &C,
)
    requires
        call_ensures(CouchbaseCheckpointStore::<C>::new, (collection, group), result),
        result matches Ok(store) ==> call_ensures(
            CouchbaseCheckpointStore::<C>::collection,
            (&store,),
            inner,
        ),
    ensures
        result is Ok <==> !blank(group@) && !group@.contains('.'),
        result is Ok ==> *inner == collection,
        result matches Err(e) ==> e is InvalidConfiguration,
{
}

/// A stored checkpoint may be replaced only for its own bucket.
pub proof fn only_the_own_bucket_is_replaced(
    vbucket: u16,
    bucket_uuid: &str,
    existing: Option<&StoredCheckpointDocument>,
    result: Result<()>,
)
    requires
        call_ensures(check_existing, (vbucket, bucket_uuid, existing), result),
    ensures
        result is Ok <==> existing is None || existing->0.bucket_uuid@ == bucket_uuid@,
        result matches Err(e) ==> e is Checkpoint,
{
}

/// Write failures are reported exactly when there are any.
pub proof fn write_failures_are_reported(
    operation: &str,
    failures: Vec<String>,
    result: Result<()>,
)
    requires
        call_ensures(collect_write_failures, (operation, &failures), result),
    ensures
        result is Ok <==> failures@.len() == 0,
        result matches Err(e) ==> e is CheckpointStore,
{
}

/// A temporary file is named after the file that it will replace, hidden, and
/// after the process that writes it.
pub proof fn temporary_files_are_named(
    path: &str,
    file_name: Option<&str>,
    process: u32,
    random: &[u8],
    result: Result<String>,
)
    requires
        call_ensures(name_temporary, (path, file_name, process, random), result),
    ensures
        result is Ok <==> file_name is Some,
        result matches Ok(name) ==> ("."@ + file_name->0@ + ".tmp-"@ + dec(process as nat)
            + "-"@).is_prefix_of(name@),
        result matches Err(e) ==> e is CheckpointStore,
{
    if let Ok(name) = result {
        let head = "."@ + file_name->0@ + ".tmp-"@ + dec(process as nat) + "-"@;
        let tail = dec(crate::checkpoint_store::big_endian(random@));
        assert(name@ =~= head + tail);
    }
}

} // verus!
