//! Checkpoint documents and the policy of the stores that keep them.
use std::collections::BTreeMap;
use vstd::prelude::*;

use crate::checkpoint::{DcpCheckpoint, Position};
use crate::checkpoint_couchbase::{
    CouchbaseCheckpointCollectionSpec, CouchbaseKvCheckpointCollection,
};
use crate::checkpoint_runtime::{checkpoint_fault, has_duplicates};
use crate::config::DcpConfig;
use crate::crypto::random_bytes;
use crate::error::{agrees, checked, DcpError, DcpFault, Outcome, Result};
use crate::lists::{first_where, first_where_is, first_where_is_none};
use crate::maps::{
    ascending, keyed_fault, sorted_keys, walked_to_fault, walked_without_fault,
};
use crate::text::{
    blank, dec, dec_text, first_index, is_blank, join2, join3, join4, join6, same_text, texts,
};

verus! {

broadcast use {vstd::std_specs::btree::group_btree_axioms, vstd::laws_cmp::group_laws_cmp};

/// Stored position of one vBucket.
#[derive(Debug, Eq, PartialEq)]
pub struct StoredCheckpointDocument {
    /// Start of the snapshot.
    pub start_seqno: u64,
    /// End of the snapshot.
    pub end_seqno: u64,
    /// History branch.
    pub vbucket_uuid: u64,
    /// Sequence number.
    pub seqno: u64,
    /// Bucket that the position belongs to.
    pub bucket_uuid: String,
    /// Manifest observed at the position.
    pub manifest_uid: Option<u64>,
}

/// Content of a stored position.
pub struct DocumentModel {
    pub start_seqno: u64,
    pub end_seqno: u64,
    pub vbucket_uuid: u64,
    pub seqno: u64,
    pub bucket_uuid: Seq<char>,
    pub manifest_uid: Option<u64>,
}

impl View for StoredCheckpointDocument {
    type V = DocumentModel;

    open spec fn view(&self) -> DocumentModel {
        DocumentModel {
            start_seqno: self.start_seqno,
            end_seqno: self.end_seqno,
            vbucket_uuid: self.vbucket_uuid,
            seqno: self.seqno,
            bucket_uuid: self.bucket_uuid@,
            manifest_uid: self.manifest_uid,
        }
    }
}

impl Clone for StoredCheckpointDocument {
    fn clone(&self) -> (result: Self)
        ensures
            result == *self,
    {
        StoredCheckpointDocument {
            start_seqno: self.start_seqno,
            end_seqno: self.end_seqno,
            vbucket_uuid: self.vbucket_uuid,
            seqno: self.seqno,
            bucket_uuid: self.bucket_uuid.clone(),
            manifest_uid: self.manifest_uid,
        }
    }
}

/// A position without a bucket.
pub open spec fn no_bucket(vbucket: u16) -> DcpFault {
    checkpoint_fault("vBucket "@ + dec(vbucket as nat) + " checkpoint has no bucket UUID"@)
}

fn no_bucket_error(vbucket: u16) -> (result: DcpError)
    ensures
        result@ == no_bucket(vbucket),
{
    DcpError::Checkpoint(
        join3("vBucket ", dec_text(vbucket as u64).as_str(), " checkpoint has no bucket UUID"),
    )
}

/// A position of another bucket.
pub open spec fn other_bucket(vbucket: u16, expected: Seq<char>, observed: Seq<char>) -> DcpFault {
    checkpoint_fault(
        "vBucket "@ + dec(vbucket as nat) + " checkpoint bucket UUID "@ + observed
            + " does not match current bucket "@ + expected,
    )
}

fn bucket_mismatch(vbucket: u16, expected: &str, observed: &str) -> (result: DcpError)
    ensures
        result@ == other_bucket(vbucket, expected@, observed@),
{
    DcpError::Checkpoint(
        join6(
            "vBucket ",
            dec_text(vbucket as u64).as_str(),
            " checkpoint bucket UUID ",
            observed,
            " does not match current bucket ",
            expected,
        ),
    )
}

/// Document that stores a position.
pub open spec fn document_of(p: Position) -> Outcome<DocumentModel> {
    if p.fault() is Some {
        Err(p.fault()->0)
    } else {
        match p.bucket_uuid {
            None => Err(no_bucket(p.vbucket)),
            Some(bucket_uuid) => Ok(
                DocumentModel {
                    start_seqno: p.snapshot_start,
                    end_seqno: p.snapshot_end,
                    vbucket_uuid: p.vbucket_uuid,
                    seqno: p.seqno,
                    bucket_uuid,
                    manifest_uid: p.manifest_uid,
                },
            ),
        }
    }
}

/// Position stored by a document, in the terms of a bucket.
pub open spec fn position_of(d: DocumentModel, vbucket: u16, expected: Seq<char>) -> Outcome<
    Position,
> {
    let p = Position {
        bucket_uuid: Some(d.bucket_uuid),
        vbucket,
        vbucket_uuid: d.vbucket_uuid,
        seqno: d.seqno,
        snapshot_start: d.start_seqno,
        snapshot_end: d.end_seqno,
        manifest_uid: d.manifest_uid,
    };
    if d.bucket_uuid != expected {
        Err(other_bucket(vbucket, expected, d.bucket_uuid))
    } else if p.fault() is Some {
        Err(p.fault()->0)
    } else {
        Ok(p)
    }
}

/// What is stored is what is read back, for the same bucket; for any other
/// bucket reading it is an error.
pub proof fn stored_position_reads_back(p: Position, bucket: Seq<char>)
    requires
        document_of(p) is Ok,
    ensures
        p.bucket_uuid == Some(bucket) ==> position_of(
            document_of(p)->Ok_0,
            p.vbucket,
            bucket,
        ) == Outcome::<Position>::Ok(p),
        p.bucket_uuid != Some(bucket) ==> position_of(
            document_of(p)->Ok_0,
            p.vbucket,
            bucket,
        ) == Outcome::<Position>::Err(other_bucket(p.vbucket, bucket, p.bucket_uuid->0)),
{
}

impl StoredCheckpointDocument {
    /// Document that stores a checkpoint.
    pub fn from_checkpoint(checkpoint: &DcpCheckpoint) -> (result: Result<Self>)
        ensures
            agrees(result, document_of(checkpoint@)),
    {
        checkpoint.validate()?;
        match &checkpoint.bucket_uuid {
            None => Err(no_bucket_error(checkpoint.vbucket)),
            Some(bucket_uuid) => Ok(
                StoredCheckpointDocument {
                    start_seqno: checkpoint.snapshot_start,
                    end_seqno: checkpoint.snapshot_end,
                    vbucket_uuid: checkpoint.vbucket_uuid,
                    seqno: checkpoint.seqno,
                    bucket_uuid: bucket_uuid.clone(),
                    manifest_uid: checkpoint.manifest_uid,
                },
            ),
        }
    }

    /// Checkpoint that the document stores, in the terms of a bucket.
    pub fn to_checkpoint(&self, vbucket: u16, expected_bucket_uuid: &str) -> (result: Result<
        DcpCheckpoint,
    >)
        ensures
            agrees(result, position_of(self@, vbucket, expected_bucket_uuid@)),
    {
        if !same_text(self.bucket_uuid.as_str(), expected_bucket_uuid) {
            return Err(bucket_mismatch(vbucket, expected_bucket_uuid, self.bucket_uuid.as_str()));
        }
        let checkpoint = DcpCheckpoint {
            bucket_uuid: Some(self.bucket_uuid.clone()),
            vbucket,
            vbucket_uuid: self.vbucket_uuid,
            seqno: self.seqno,
            snapshot_start: self.start_seqno,
            snapshot_end: self.end_seqno,
            manifest_uid: self.manifest_uid,
        };
        checkpoint.validate()?;
        Ok(checkpoint)
    }
}

/// Contents of a list of checkpoints.
pub open spec fn checkpoint_positions(list: Seq<DcpCheckpoint>) -> Seq<Position> {
    list.map_values(|c: DcpCheckpoint| c@)
}

/// Contents of a map of documents.
pub open spec fn documents_of(m: Map<u16, StoredCheckpointDocument>) -> Map<u16, DocumentModel> {
    m.map_values(|d: StoredCheckpointDocument| d@)
}

/// Documents of a batch of positions of one bucket, or the first position that
/// does not fit.
pub open spec fn batch(list: Seq<Position>) -> Outcome<Map<u16, DocumentModel>>
    decreases list.len(),
{
    if list.len() == 0 {
        Ok(Map::empty())
    } else {
        match batch(list.drop_last()) {
            Err(e) => Err(e),
            Ok(documents) => {
                let p = list.last();
                match p.bucket_uuid {
                    None => Err(no_bucket(p.vbucket)),
                    Some(observed) => if list.len() > 1 && list[list.len() - 2].bucket_uuid
                        != Some(observed) {
                        Err(
                            checkpoint_fault(
                                "checkpoint batch mixes bucket UUID "@ + (list[list.len()
                                    - 2].bucket_uuid->0) + " and "@ + observed,
                            ),
                        )
                    } else {
                        match document_of(p) {
                            Err(e) => Err(e),
                            Ok(d) => if documents.contains_key(p.vbucket) {
                                Err(
                                    checkpoint_fault(
                                        "duplicate vBucket "@ + dec(p.vbucket as nat)
                                            + " in checkpoint batch"@,
                                    ),
                                )
                            } else {
                                Ok(documents.insert(p.vbucket, d))
                            },
                        }
                    },
                }
            },
        }
    }
}

proof fn batch_stops(list: Seq<Position>, k: int)
    requires
        0 <= k <= list.len(),
        batch(list.take(k)) is Err,
    ensures
        batch(list) == batch(list.take(k)),
    decreases list.len(),
{
    if k == list.len() {
        assert(list.take(k) =~= list);
    } else {
        assert(list.drop_last().take(k) =~= list.take(k));
        batch_stops(list.drop_last(), k);
    }
}

/// A batch holds the document of each of its positions, and all positions
/// belong to one bucket.
pub proof fn batch_holds_every_position(list: Seq<Position>, i: int)
    requires
        batch(list) is Ok,
        0 <= i < list.len(),
    ensures
        document_of(list[i]) is Ok,
        batch(list)->Ok_0.contains_key(list[i].vbucket),
        batch(list)->Ok_0[list[i].vbucket] == document_of(list[i])->Ok_0,
        list[i].bucket_uuid == list[0].bucket_uuid,
    decreases list.len(),
{
    let shorter = list.drop_last();
    if i < list.len() - 1 {
        assert(shorter[i] == list[i]);
        batch_holds_every_position(shorter, i);
        assert(shorter[0] == list[0]);
    } else if list.len() > 1 {
        assert(shorter[list.len() - 2] == list[list.len() - 2]);
        batch_holds_every_position(shorter, list.len() - 2);
        assert(shorter[0] == list[0]);
    }
}

/// Documents of a batch of checkpoints of one bucket.
pub fn serialize_checkpoint_batch(checkpoints: &[DcpCheckpoint]) -> (result: Result<
    BTreeMap<u16, StoredCheckpointDocument>,
>)
    ensures
        match (result, batch(checkpoint_positions(checkpoints@))) {
            (Ok(documents), Ok(models)) => documents_of(documents@) == models,
            (Err(e), Err(fault)) => e@ == fault,
            _ => false,
        },
{
    let ghost list = checkpoint_positions(checkpoints@);
    let mut documents: BTreeMap<u16, StoredCheckpointDocument> = BTreeMap::new();
    let mut i: usize = 0;
    assert(list.take(0) =~= Seq::empty());
    assert(documents_of(documents@) =~= Map::empty());
    while i < checkpoints.len()
        invariant
            i <= checkpoints@.len(),
            list == checkpoint_positions(checkpoints@),
            batch(list.take(i as int)) == Outcome::<Map<u16, DocumentModel>>::Ok(
                documents_of(documents@),
            ),
        decreases checkpoints@.len() - i,
    {
        let checkpoint = &checkpoints[i];
        let ghost next = list.take(i + 1);
        proof {
            assert(list[i as int] == checkpoint@);
            assert(next.drop_last() =~= list.take(i as int));
            assert(next.last() == checkpoint@);
            if i > 0 {
                assert(next[next.len() - 2] == list[i - 1]);
                assert(list[i - 1] == checkpoints@[i - 1]@);
                assert(list.take(i as int).last() == list[i - 1]);
                assert(list[i - 1].bucket_uuid is Some);
            }
        }
        let observed = match &checkpoint.bucket_uuid {
            Some(observed) => observed,
            None => {
                proof {
                    batch_stops(list, i + 1);
                }
                return Err(no_bucket_error(checkpoint.vbucket));
            },
        };
        if i > 0 {
            if let Some(expected) = &checkpoints[i - 1].bucket_uuid {
                if !same_text(expected.as_str(), observed.as_str()) {
                    proof {
                        batch_stops(list, i + 1);
                    }
                    return Err(
                        DcpError::Checkpoint(
                            join4(
                                "checkpoint batch mixes bucket UUID ",
                                expected.as_str(),
                                " and ",
                                observed.as_str(),
                            ),
                        ),
                    );
                }
            }
        }
        match StoredCheckpointDocument::from_checkpoint(checkpoint) {
            Err(e) => {
                proof {
                    batch_stops(list, i + 1);
                }
                return Err(e);
            },
            Ok(document) => {
                if documents.contains_key(&checkpoint.vbucket) {
                    proof {
                        batch_stops(list, i + 1);
                    }
                    return Err(
                        DcpError::Checkpoint(
                            join3(
                                "duplicate vBucket ",
                                dec_text(checkpoint.vbucket as u64).as_str(),
                                " in checkpoint batch",
                            ),
                        ),
                    );
                }
                let ghost before = documents_of(documents@);
                let ghost model = document@;
                documents.insert(checkpoint.vbucket, document);
                assert(documents_of(documents@) =~= before.insert(checkpoint.vbucket, model));
            },
        }
        i = i + 1;
    }
    assert(list.take(list.len() as int) =~= list);
    Ok(documents)
}

/// Why a list of vBuckets is refused, if it is.
pub open spec fn vbuckets_fault(vbuckets: Seq<u16>) -> Option<DcpFault> {
    if vbuckets.no_duplicates() {
        None
    } else {
        Some(checkpoint_fault("checkpoint vBucket list contains duplicates"@))
    }
}

/// Refuses a list that names a vBucket twice.
pub fn validate_vbuckets(vbuckets: &[u16]) -> (result: Result<()>)
    ensures
        checked(result, vbuckets_fault(vbuckets@)),
{
    if has_duplicates(vbuckets) {
        return Err(
            DcpError::Checkpoint("checkpoint vBucket list contains duplicates".to_owned()),
        );
    }
    Ok(())
}

/// Persistence contract for durable checkpoints.
///
/// Implementations may partially persist a batch before returning an error.
/// The coordinator conservatively keeps the whole batch dirty in that case;
/// partial writes are safe because every supplied position was already
/// acknowledged as processed.
pub trait CheckpointStore {
    /// Loads the subset of requested vBuckets that currently exists.
    fn load(&self, bucket_uuid: &str, vbuckets: &[u16]) -> (result: Result<
        BTreeMap<u16, DcpCheckpoint>,
    >);

    /// Persists one batch of processed checkpoints.
    fn save(&mut self, checkpoints: &[DcpCheckpoint]) -> (result: Result<()>);

    /// Removes checkpoints for the supplied vBuckets.
    fn clear(&mut self, bucket_uuid: &str, vbuckets: &[u16]) -> (result: Result<()>);
}

/// Checkpoint store that deliberately never persists state.
///
/// Loads always return an empty map so the configured start-position fallback
/// applies. Saves and clears succeed without side effects.
#[derive(Clone, Copy, Debug, Default, PartialEq, Eq, Structural)]
pub struct NoopCheckpointStore;

impl NoopCheckpointStore {
    /// Creates a no-op checkpoint store.
    #[must_use]
    pub fn new() -> (result: Self)
        ensures
            result == NoopCheckpointStore,
    {
        NoopCheckpointStore
    }
}

impl CheckpointStore for NoopCheckpointStore {
    fn load(&self, bucket_uuid: &str, vbuckets: &[u16]) -> (result: Result<
        BTreeMap<u16, DcpCheckpoint>,
    >)
        ensures
            result matches Ok(map) && map@ == Map::<u16, DcpCheckpoint>::empty(),
    {
        Ok(BTreeMap::new())
    }

    fn save(&mut self, checkpoints: &[DcpCheckpoint]) -> (result: Result<()>)
        ensures
            result is Ok,
            *final(self) == *old(self),
    {
        Ok(())
    }

    fn clear(&mut self, bucket_uuid: &str, vbuckets: &[u16]) -> (result: Result<()>)
        ensures
            result is Ok,
            *final(self) == *old(self),
    {
        Ok(())
    }
}

/// Read-only checkpoint adapter over another store.
///
/// Loads are delegated to the wrapped store. Saves and clears succeed without
/// touching it, allowing repeatable replay/debug sessions from a durable
/// checkpoint without mutating that checkpoint.
#[derive(Debug)]
pub struct ReadOnlyCheckpointStore<S> {
    inner: S,
}

impl<S> ReadOnlyCheckpointStore<S> {
    /// The wrapped store.
    pub closed spec fn wrapped(&self) -> S {
        self.inner
    }

    /// Wraps a checkpoint store and suppresses all mutations.
    #[must_use]
    pub fn new(inner: S) -> (result: Self)
        ensures
            result.wrapped() == inner,
    {
        ReadOnlyCheckpointStore { inner }
    }

    /// Releases the wrapped store.
    pub fn into_inner(self) -> (result: S)
        ensures
            result == self.wrapped(),
    {
        self.inner
    }
}

impl<S: CheckpointStore> CheckpointStore for ReadOnlyCheckpointStore<S> {
    fn load(&self, bucket_uuid: &str, vbuckets: &[u16]) -> (result: Result<
        BTreeMap<u16, DcpCheckpoint>,
    >)
        ensures
            call_ensures(S::load, (&self.wrapped(), bucket_uuid, vbuckets), result),
    {
        self.inner.load(bucket_uuid, vbuckets)
    }

    fn save(&mut self, checkpoints: &[DcpCheckpoint]) -> (result: Result<()>)
        ensures
            result is Ok,
            final(self).wrapped() == old(self).wrapped(),
    {
        Ok(())
    }

    fn clear(&mut self, bucket_uuid: &str, vbuckets: &[u16]) -> (result: Result<()>)
        ensures
            result is Ok,
            final(self).wrapped() == old(self).wrapped(),
    {
        Ok(())
    }
}

/// Checkpoint documents by vBucket, as one file holds them.
#[derive(Debug)]
pub struct CheckpointDocuments {
    documents: BTreeMap<u16, StoredCheckpointDocument>,
}

impl View for CheckpointDocuments {
    type V = Map<u16, DocumentModel>;

    closed spec fn view(&self) -> Map<u16, DocumentModel> {
        documents_of(self.documents@)
    }
}

/// Requested documents.
pub open spec fn requested(m: Map<u16, DocumentModel>, vbuckets: Seq<u16>) -> Set<u16> {
    Set::new(|v: u16| m.contains_key(v) && vbuckets.contains(v))
}

/// What is wrong with a requested document, if anything.
pub open spec fn document_fault(m: Map<u16, DocumentModel>, bucket: Seq<char>, v: u16) -> Option<
    DcpFault,
> {
    match position_of(m[v], v, bucket) {
        Ok(_) => None,
        Err(fault) => Some(fault),
    }
}

/// Why documents cannot be loaded, if they cannot.
pub open spec fn load_fault(m: Map<u16, DocumentModel>, bucket: Seq<char>, vbuckets: Seq<u16>) -> Option<
    DcpFault,
> {
    if vbuckets_fault(vbuckets) is Some {
        vbuckets_fault(vbuckets)
    } else {
        keyed_fault(requested(m, vbuckets), |v: u16| document_fault(m, bucket, v))
    }
}

/// A stored document of another bucket than the one expected.
pub open spec fn foreign(m: Map<u16, DocumentModel>, v: u16, bucket: Seq<char>) -> Option<
    DcpFault,
> {
    if m.contains_key(v) && m[v].bucket_uuid != bucket {
        Some(other_bucket(v, bucket, m[v].bucket_uuid))
    } else {
        None
    }
}

/// Documents after a batch was saved, or why it cannot be saved. A document of
/// another bucket is never overwritten.
pub open spec fn after_save(m: Map<u16, DocumentModel>, list: Seq<Position>) -> Outcome<
    Map<u16, DocumentModel>,
> {
    match batch(list) {
        Err(e) => Err(e),
        Ok(updates) => match keyed_fault(
            updates.dom(),
            |v: u16| foreign(m, v, updates[v].bucket_uuid),
        ) {
            Some(fault) => Err(fault),
            None => Ok(m.union_prefer_right(updates)),
        },
    }
}

/// Documents after some were cleared, or why they cannot be cleared. A
/// document of another bucket is never removed.
pub open spec fn after_clear(m: Map<u16, DocumentModel>, bucket: Seq<char>, vbuckets: Seq<u16>) -> Outcome<
    Map<u16, DocumentModel>,
> {
    if vbuckets_fault(vbuckets) is Some {
        Err(vbuckets_fault(vbuckets)->0)
    } else {
        match first_where(vbuckets, |v: u16| foreign(m, v, bucket) is Some) {
            Some(i) => Err(foreign(m, vbuckets[i], bucket)->0),
            None => Ok(m.remove_keys(vbuckets.to_set())),
        }
    }
}

/// What was saved is what is loaded.
pub proof fn saved_batch_loads_back(m: Map<u16, DocumentModel>, list: Seq<Position>, i: int)
    requires
        after_save(m, list) is Ok,
        0 <= i < list.len(),
    ensures
        after_save(m, list)->Ok_0.contains_key(list[i].vbucket),
        position_of(
            after_save(m, list)->Ok_0[list[i].vbucket],
            list[i].vbucket,
            list[i].bucket_uuid->0,
        ) == Outcome::<Position>::Ok(list[i]),
{
    batch_holds_every_position(list, i);
    stored_position_reads_back(list[i], list[i].bucket_uuid->0);
}

/// After a save, loading any of the saved vBuckets for their bucket succeeds.
pub proof fn saved_vbuckets_load_without_fault(
    m: Map<u16, DocumentModel>,
    list: Seq<Position>,
    vbuckets: Seq<u16>,
)
    requires
        after_save(m, list) is Ok,
        list.len() > 0,
        vbuckets.no_duplicates(),
        forall|v: u16| #[trigger]
            vbuckets.contains(v) ==> exists|i: int|
                0 <= i < list.len() && (#[trigger] list[i]).vbucket == v,
    ensures
        load_fault(after_save(m, list)->Ok_0, list[0].bucket_uuid->0, vbuckets) is None,
{
    let next = after_save(m, list)->Ok_0;
    let bucket = list[0].bucket_uuid->0;
    let fault = |v: u16| document_fault(next, bucket, v);
    assert forall|v: u16| #[trigger] requested(next, vbuckets).contains(v) implies fault(
        v,
    ) is None by {
        assert(vbuckets.contains(v));
        let i = choose|i: int| 0 <= i < list.len() && (#[trigger] list[i]).vbucket == v;
        saved_batch_loads_back(m, list, i);
        batch_holds_every_position(list, i);
    }
    crate::maps::keyed_fault_is_none(requested(next, vbuckets), fault);
}

/// Saving touches no vBucket outside the batch, and clearing leaves none of
/// the vBuckets it names and touches no other.
pub proof fn writes_touch_only_their_vbuckets(
    m: Map<u16, DocumentModel>,
    list: Seq<Position>,
    bucket: Seq<char>,
    vbuckets: Seq<u16>,
    v: u16,
)
    ensures
        after_save(m, list) matches Ok(n) ==> (!batch(list)->Ok_0.contains_key(v) ==> (
        n.contains_key(v) == m.contains_key(v) && (m.contains_key(v) ==> n[v] == m[v]))),
        after_clear(m, bucket, vbuckets) matches Ok(n) ==> (if vbuckets.contains(v) {
            !n.contains_key(v)
        } else {
            n.contains_key(v) == m.contains_key(v) && (m.contains_key(v) ==> n[v] == m[v])
        }),
{
}

impl CheckpointDocuments {
    /// No documents.
    pub fn new() -> (result: Self)
        ensures
            result@ == Map::<u16, DocumentModel>::empty(),
    {
        let documents: BTreeMap<u16, StoredCheckpointDocument> = BTreeMap::new();
        assert(documents_of(documents@) =~= Map::empty());
        CheckpointDocuments { documents }
    }

    /// Documents read from a file.
    pub fn from_documents(documents: BTreeMap<u16, StoredCheckpointDocument>) -> (result: Self)
        ensures
            result@ == documents_of(documents@),
    {
        CheckpointDocuments { documents }
    }

    /// Documents to write to a file.
    pub fn documents(&self) -> (result: &BTreeMap<u16, StoredCheckpointDocument>)
        ensures
            documents_of(result@) == self@,
    {
        &self.documents
    }

    /// Tells whether there is nothing to keep.
    pub fn is_empty(&self) -> (result: bool)
        ensures
            result == self@.dom().is_empty(),
    {
        assert(self@.dom() =~= self.documents@.dom());
        self.documents.is_empty()
    }
}

fn lists_id(ids: &[u16], id: u16) -> (result: bool)
    ensures
        result == ids@.contains(id),
{
    let mut i: usize = 0;
    while i < ids.len()
        invariant
            i <= ids@.len(),
            forall|j: int| 0 <= j < i ==> #[trigger] ids@[j] != id,
        decreases ids@.len() - i,
    {
        if ids[i] == id {
            assert(ids@[i as int] == id);
            return true;
        }
        i = i + 1;
    }
    false
}

impl CheckpointStore for CheckpointDocuments {
    fn load(&self, bucket_uuid: &str, vbuckets: &[u16]) -> (result: Result<
        BTreeMap<u16, DcpCheckpoint>,
    >)
        ensures
            match result {
                Ok(map) => {
                    &&& load_fault(self@, bucket_uuid@, vbuckets@) is None
                    &&& map@.dom() == requested(self@, vbuckets@)
                    &&& forall|v: u16| #[trigger]
                        map@.contains_key(v) ==> position_of(
                            self@[v],
                            v,
                            bucket_uuid@,
                        ) == Outcome::<Position>::Ok(map@[v]@)
                },
                Err(e) => load_fault(self@, bucket_uuid@, vbuckets@) == Some(e@),
            },
    {
        validate_vbuckets(vbuckets)?;
        let ghost wanted = requested(self@, vbuckets@);
        let ghost fault = |v: u16| document_fault(self@, bucket_uuid@, v);
        let all = sorted_keys(&self.documents);
        let mut keys: Vec<u16> = Vec::new();
        let mut i: usize = 0;
        while i < all.len()
            invariant
                i <= all@.len(),
                ascending(all@),
                forall|v: u16| all@.contains(v) <==> #[trigger] self.documents@.contains_key(v),
                ascending(keys@),
                forall|j: int| 0 <= j < keys@.len() ==> all@.take(i as int).contains(
                    #[trigger] keys@[j],
                ),
                forall|v: u16|
                    keys@.contains(v) <==> (#[trigger] all@.take(i as int).contains(v)
                        && vbuckets@.contains(v)),
            decreases all@.len() - i,
        {
            let v: u16 = all[i];
            let ghost done = all@.take(i as int);
            let ghost next = all@.take(i + 1);
            let ghost before = keys@;
            proof {
                assert(next =~= done.push(v));
                assert forall|w: u16| next.contains(w) <==> (#[trigger] done.contains(w) || w
                    == v) by {
                    if done.contains(w) {
                        let k = choose|k: int| 0 <= k < done.len() && done[k] == w;
                        assert(next[k] == w);
                    }
                    if w == v {
                        assert(next[i as int] == w);
                    }
                }
                assert forall|j: int| 0 <= j < before.len() implies #[trigger] before[j] < v by {
                    assert(done.contains(before[j]));
                    let k = choose|k: int| 0 <= k < done.len() && done[k] == before[j];
                    assert(all@[k] < all@[i as int]);
                }
            }
            let wants: bool = lists_id(vbuckets, v);
            if wants {
                keys.push(v);
            }
            proof {
                assert forall|w: u16|
                    keys@.contains(w) <==> (#[trigger] next.contains(w) && vbuckets@.contains(
                        w,
                    )) by {
                    assert(next.contains(w) <==> (done.contains(w) || w == v));
                    if before.contains(w) {
                        let k = choose|k: int| 0 <= k < before.len() && before[k] == w;
                        assert(keys@[k] == w);
                    }
                    if wants && w == v {
                        assert(keys@[before.len() as int] == w);
                    }
                    if keys@.contains(w) && !(wants && w == v) {
                        let k = choose|k: int| 0 <= k < keys@.len() && keys@[k] == w;
                        assert(before[k] == w);
                    }
                }
                assert forall|j: int| 0 <= j < keys@.len() implies next.contains(
                    #[trigger] keys@[j],
                ) by {
                    if j < before.len() {
                        assert(keys@[j] == before[j]);
                        assert(done.contains(before[j]));
                    }
                }
            }
            i = i + 1;
        }
        proof {
            assert(all@.take(all@.len() as int) =~= all@);
            assert forall|v: u16| keys@.contains(v) <==> #[trigger] wanted.contains(v) by {
                assert(all@.contains(v) <==> self.documents@.contains_key(v));
            }
        }
        let mut map: BTreeMap<u16, DcpCheckpoint> = BTreeMap::new();
        let mut k: usize = 0;
        while k < keys.len()
            invariant
                k <= keys@.len(),
                ascending(keys@),
                wanted == requested(self@, vbuckets@),
                vbuckets_fault(vbuckets@) is None,
                fault == (|v: u16| document_fault(self@, bucket_uuid@, v)),
                forall|v: u16| keys@.contains(v) <==> #[trigger] wanted.contains(v),
                forall|j: int| 0 <= j < k ==> fault(#[trigger] keys@[j]) is None,
                forall|v: u16| #[trigger] map@.contains_key(v) <==> keys@.take(k as int).contains(v),
                forall|v: u16| #[trigger]
                    map@.contains_key(v) ==> position_of(self@[v], v, bucket_uuid@) == Outcome::<
                        Position,
                    >::Ok(map@[v]@),
            decreases keys@.len() - k,
        {
            let v: u16 = keys[k];
            let ghost done = keys@.take(k as int);
            let ghost next = keys@.take(k + 1);
            proof {
                assert(keys@.contains(v));
                assert(wanted.contains(v));
            }
            if let Some(document) = self.documents.get(&v) {
                assert(self@[v] == document@);
                match document.to_checkpoint(v, bucket_uuid) {
                    Err(e) => {
                        proof {
                            assert(fault(keys@[k as int]) == Some(e@));
                            walked_to_fault(keys@, wanted, fault, k as int);
                        }
                        return Err(e);
                    },
                    Ok(checkpoint) => {
                        assert(fault(keys@[k as int]) is None);
                        map.insert(v, checkpoint);
                    },
                }
            }
            proof {
                assert(next =~= done.push(v));
                assert forall|w: u16| #[trigger] map@.contains_key(w) <==> next.contains(w) by {
                    if done.contains(w) {
                        let x = choose|x: int| 0 <= x < done.len() && done[x] == w;
                        assert(next[x] == w);
                    }
                    if w == v {
                        assert(next[k as int] == w);
                    }
                }
            }
            k = k + 1;
        }
        proof {
            walked_without_fault(keys@, wanted, fault);
            assert(keys@.take(keys@.len() as int) =~= keys@);
            assert forall|v: u16| map@.contains_key(v) == #[trigger] wanted.contains(v) by {
                assert(keys@.contains(v) <==> wanted.contains(v));
            }
            assert(map@.dom() =~= wanted);
        }
        Ok(map)
    }

    fn save(&mut self, checkpoints: &[DcpCheckpoint]) -> (result: Result<()>)
        ensures
            match after_save(old(self)@, checkpoint_positions(checkpoints@)) {
                Ok(next) => result is Ok && final(self)@ == next,
                Err(fault) => result is Err && result->Err_0@ == fault && *final(self) == *old(
                    self,
                ),
            },
    {
        let updates = serialize_checkpoint_batch(checkpoints)?;
        let ghost models = documents_of(updates@);
        let ghost start = self@;
        let ghost fault = |v: u16| foreign(start, v, models[v].bucket_uuid);
        assert(models.dom() =~= updates@.dom());
        let keys = sorted_keys(&updates);
        let mut i: usize = 0;
        while i < keys.len()
            invariant
                i <= keys@.len(),
                *self == *old(self),
                start == self@,
                models == documents_of(updates@),
                models.dom() == updates@.dom(),
                batch(checkpoint_positions(checkpoints@)) == Outcome::<
                    Map<u16, DocumentModel>,
                >::Ok(models),
                fault == (|v: u16| foreign(start, v, models[v].bucket_uuid)),
                ascending(keys@),
                forall|v: u16| keys@.contains(v) <==> #[trigger] updates@.contains_key(v),
                forall|j: int| 0 <= j < i ==> fault(#[trigger] keys@[j]) is None,
            decreases keys@.len() - i,
        {
            let v: u16 = keys[i];
            proof {
                assert(keys@.contains(v));
                assert(updates@.contains_key(v));
            }
            if let Some(update) = updates.get(&v) {
                assert(models[v] == update@);
                if let Some(existing) = self.documents.get(&v) {
                    assert(start[v] == existing@);
                    if !same_text(existing.bucket_uuid.as_str(), update.bucket_uuid.as_str()) {
                        proof {
                            walked_to_fault(keys@, models.dom(), fault, i as int);
                        }
                        return Err(
                            bucket_mismatch(
                                v,
                                update.bucket_uuid.as_str(),
                                existing.bucket_uuid.as_str(),
                            ),
                        );
                    }
                }
                assert(fault(keys@[i as int]) is None);
            }
            i = i + 1;
        }
        proof {
            walked_without_fault(keys@, models.dom(), fault);
        }
        i = 0;
        while i < keys.len()
            invariant
                i <= keys@.len(),
                start == old(self)@,
                models == documents_of(updates@),
                models.dom() == updates@.dom(),
                forall|v: u16| keys@.contains(v) <==> #[trigger] updates@.contains_key(v),
                forall|v: u16| #[trigger]
                    self@.contains_key(v) <==> (start.contains_key(v) || keys@.take(
                        i as int,
                    ).contains(v)),
                forall|v: u16| #[trigger]
                    self@.contains_key(v) ==> self@[v] == if keys@.take(i as int).contains(v) {
                        models[v]
                    } else {
                        start[v]
                    },
            decreases keys@.len() - i,
        {
            let v: u16 = keys[i];
            let ghost done = keys@.take(i as int);
            let ghost next = keys@.take(i + 1);
            let ghost prior = self@;
            proof {
                assert(keys@.contains(v));
                assert(updates@.contains_key(v));
                assert(next =~= done.push(v));
                assert forall|w: u16| next.contains(w) <==> (#[trigger] done.contains(w) || w
                    == v) by {
                    if done.contains(w) {
                        let k = choose|k: int| 0 <= k < done.len() && done[k] == w;
                        assert(next[k] == w);
                    }
                    if w == v {
                        assert(next[i as int] == w);
                    }
                }
            }
            if let Some(update) = updates.get(&v) {
                assert(models[v] == update@);
                let copy = update.clone();
                self.documents.insert(v, copy);
                assert(self@ =~= prior.insert(v, models[v]));
            }
            proof {
                assert forall|w: u16| #[trigger] self@.contains_key(w) implies self@[w]
                    == if next.contains(w) {
                    models[w]
                } else {
                    start[w]
                } by {
                    assert(next.contains(w) <==> (done.contains(w) || w == v));
                    if w != v {
                        assert(prior.contains_key(w));
                    }
                }
                assert forall|w: u16| #[trigger] self@.contains_key(w) <==> (start.contains_key(w)
                    || next.contains(w)) by {
                    assert(next.contains(w) <==> (done.contains(w) || w == v));
                    if w != v {
                        assert(self@.contains_key(w) <==> prior.contains_key(w));
                    }
                }
            }
            i = i + 1;
        }
        proof {
            assert(keys@.take(keys@.len() as int) =~= keys@);
            assert(self@ =~= start.union_prefer_right(models)) by {
                assert forall|v: u16| #[trigger] self@.contains_key(v) <==> (start.contains_key(v)
                    || models.contains_key(v)) by {
                    assert(keys@.contains(v) <==> updates@.contains_key(v));
                }
            }
        }
        Ok(())
    }

    fn clear(&mut self, bucket_uuid: &str, vbuckets: &[u16]) -> (result: Result<()>)
        ensures
            match after_clear(old(self)@, bucket_uuid@, vbuckets@) {
                Ok(next) => result is Ok && final(self)@ == next,
                Err(fault) => result is Err && result->Err_0@ == fault && *final(self) == *old(
                    self,
                ),
            },
    {
        validate_vbuckets(vbuckets)?;
        let ghost start = self@;
        let ghost p = |v: u16| foreign(start, v, bucket_uuid@) is Some;
        let mut i: usize = 0;
        while i < vbuckets.len()
            invariant
                i <= vbuckets@.len(),
                *self == *old(self),
                start == self@,
                vbuckets_fault(vbuckets@) is None,
                p == (|v: u16| foreign(start, v, bucket_uuid@) is Some),
                forall|j: int| 0 <= j < i ==> !p(#[trigger] vbuckets@[j]),
            decreases vbuckets@.len() - i,
        {
            let v: u16 = vbuckets[i];
            if let Some(document) = self.documents.get(&v) {
                assert(start[v] == document@);
                if !same_text(document.bucket_uuid.as_str(), bucket_uuid) {
                    proof {
                        first_where_is(vbuckets@, p, i as int);
                    }
                    return Err(bucket_mismatch(v, bucket_uuid, document.bucket_uuid.as_str()));
                }
            }
            i = i + 1;
        }
        proof {
            first_where_is_none(vbuckets@, p);
        }
        i = 0;
        while i < vbuckets.len()
            invariant
                i <= vbuckets@.len(),
                start == old(self)@,
                forall|v: u16| #[trigger]
                    self@.contains_key(v) <==> (start.contains_key(v) && !vbuckets@.take(
                        i as int,
                    ).contains(v)),
                forall|v: u16| #[trigger] self@.contains_key(v) ==> self@[v] == start[v],
            decreases vbuckets@.len() - i,
        {
            let v: u16 = vbuckets[i];
            let ghost done = vbuckets@.take(i as int);
            let ghost next = vbuckets@.take(i + 1);
            let ghost prior = self@;
            self.documents.remove(&v);
            proof {
                assert(self@ =~= prior.remove(v));
                assert(next =~= done.push(v));
                assert forall|w: u16| #[trigger] self@.contains_key(w) <==> (start.contains_key(w)
                    && !next.contains(w)) by {
                    if done.contains(w) {
                        let k = choose|k: int| 0 <= k < done.len() && done[k] == w;
                        assert(next[k] == w);
                    }
                    if w == v {
                        assert(next[i as int] == w);
                    }
                    if w != v {
                        assert(self@.contains_key(w) <==> prior.contains_key(w));
                    }
                }
                assert forall|w: u16| #[trigger] self@.contains_key(w) implies self@[w]
                    == start[w] by {
                    assert(prior.contains_key(w));
                }
            }
            i = i + 1;
        }
        proof {
            assert(vbuckets@.take(vbuckets@.len() as int) =~= vbuckets@);
            assert(self@ =~= start.remove_keys(vbuckets@.to_set()));
        }
        Ok(())
    }
}

/// Attribute that holds the checkpoint of a metadata document.
pub fn checkpoint_xattr() -> (result: &'static str)
    ensures
        result@ == "cbgo"@,
{
    "cbgo"
}

/// Checkpoints as extended attributes of metadata documents in a Couchbase
/// collection.
#[derive(Debug)]
pub struct CouchbaseCheckpointStore<C> {
    collection: C,
    group: String,
}

/// Why a consumer group is refused, if it is.
pub open spec fn group_fault(group: Seq<char>) -> Option<DcpFault> {
    if blank(group) || group.contains('.') {
        Some(
            DcpFault::InvalidConfiguration(
                "checkpoint group must be non-empty and must not contain '.'"@,
            ),
        )
    } else {
        None
    }
}

impl<C> CouchbaseCheckpointStore<C> {
    /// Consumer group.
    pub closed spec fn consumer_group(&self) -> Seq<char> {
        self.group@
    }

    /// Adapter of the collection.
    pub closed spec fn adapter(&self) -> C {
        self.collection
    }

    /// Creates a store for one consumer group; the group is neither blank nor
    /// does it hold a dot.
    pub fn new(collection: C, group: &str) -> (result: Result<Self>)
        ensures
            match result {
                Ok(store) => {
                    &&& group_fault(group@) is None
                    &&& store.consumer_group() == group@
                    &&& store.adapter() == collection
                },
                Err(e) => group_fault(group@) == Some(e@),
            },
    {
        let dotted: bool = match first_index(group, '.') {
            Some(_) => {
                proof {
                    group@.index_of_first_ensures('.');
                }
                true
            },
            None => false,
        };
        if is_blank(group) || dotted {
            return Err(
                DcpError::InvalidConfiguration(
                    "checkpoint group must be non-empty and must not contain '.'".to_owned(),
                ),
            );
        }
        Ok(CouchbaseCheckpointStore { collection, group: group.to_owned() })
    }

    /// Adapter of the collection.
    pub fn collection(&self) -> (result: &C)
        ensures
            *result == self.adapter(),
    {
        &self.collection
    }

    /// Returns the exact metadata document key for a vBucket.
    #[must_use]
    pub fn checkpoint_key(&self, vbucket: u16) -> (result: String)
        ensures
            result@ == key_of(self.consumer_group(), vbucket),
    {
        join4(
            "_connector:cbgo:",
            self.group.as_str(),
            ":checkpoint:",
            dec_text(vbucket as u64).as_str(),
        )
    }
}

impl CouchbaseCheckpointStore<CouchbaseKvCheckpointCollection> {
    /// Creates a store over the default collection and the built-in KV
    /// adapter.
    pub fn from_config(config: DcpConfig, group: &str) -> (result: Result<Self>)
        ensures
            match result {
                Ok(store) => {
                    &&& config.fault() is None && group_fault(group@) is None
                    &&& store.consumer_group() == group@
                    &&& store.adapter().client() == config
                    &&& store.adapter().place().default_one()
                },
                Err(e) => Some(e@) == if config.fault() is Some {
                    config.fault()
                } else {
                    group_fault(group@)
                },
            },
    {
        let collection = CouchbaseKvCheckpointCollection::new(config)?;
        CouchbaseCheckpointStore::new(collection, group)
    }

    /// Creates a store over a named collection and the built-in KV adapter.
    pub fn from_config_in_collection(
        config: DcpConfig,
        collection: CouchbaseCheckpointCollectionSpec,
        group: &str,
    ) -> (result: Result<Self>)
        ensures
            match result {
                Ok(store) => {
                    &&& config.fault() is None && group_fault(group@) is None
                    &&& store.consumer_group() == group@
                    &&& store.adapter().client() == config
                    &&& store.adapter().place() == collection
                },
                Err(e) => Some(e@) == if config.fault() is Some {
                    config.fault()
                } else {
                    group_fault(group@)
                },
            },
    {
        let collection = CouchbaseKvCheckpointCollection::in_collection(config, collection)?;
        CouchbaseCheckpointStore::new(collection, group)
    }
}

/// Metadata document key of a vBucket.
pub open spec fn key_of(group: Seq<char>, vbucket: u16) -> Seq<char> {
    "_connector:cbgo:"@ + group + ":checkpoint:"@ + dec(vbucket as nat)
}

/// Checks the stored document of a vBucket before it is replaced or removed:
/// one of another bucket is left alone.
pub fn check_existing(vbucket: u16, expected_bucket_uuid: &str, existing: Option<
    &StoredCheckpointDocument,
>) -> (result: Result<()>)
    ensures
        match existing {
            Some(document) => checked(
                result,
                if document@.bucket_uuid != expected_bucket_uuid@ {
                    Some(other_bucket(vbucket, expected_bucket_uuid@, document@.bucket_uuid))
                } else {
                    None
                },
            ),
            None => result is Ok,
        },
{
    if let Some(document) = existing {
        if !same_text(document.bucket_uuid.as_str(), expected_bucket_uuid) {
            return Err(
                bucket_mismatch(vbucket, expected_bucket_uuid, document.bucket_uuid.as_str()),
            );
        }
    }
    Ok(())
}

/// Renders the failed write of one vBucket.
pub fn write_failure(vbucket: u16, error: &DcpError) -> (result: String)
    ensures
        result@ == "vBucket "@ + dec(vbucket as nat) + ": "@ + error@.text(),
{
    join4("vBucket ", dec_text(vbucket as u64).as_str(), ": ", error.to_text().as_str())
}

/// Number that bytes stand for, the most significant first.
pub open spec fn big_endian(bytes: Seq<u8>) -> nat
    decreases bytes.len(),
{
    if bytes.len() == 0 {
        0
    } else {
        big_endian(bytes.drop_last()) * 256 + bytes.last() as nat
    }
}

spec fn byte_range(count: nat) -> nat
    decreases count,
{
    if count == 0 {
        1
    } else {
        byte_range((count - 1) as nat) * 256
    }
}

proof fn big_endian_is_bounded(bytes: Seq<u8>)
    ensures
        big_endian(bytes) < byte_range(bytes.len()),
    decreases bytes.len(),
{
    if bytes.len() > 0 {
        big_endian_is_bounded(bytes.drop_last());
    }
}

fn big_endian_number(bytes: &[u8]) -> (result: u64)
    requires
        bytes@.len() == 8,
    ensures
        result == big_endian(bytes@),
{
    let mut value: u64 = 0;
    let mut i: usize = 0;
    assert(bytes@.take(0) =~= Seq::empty());
    while i < 8
        invariant
            i <= 8 == bytes@.len(),
            value == big_endian(bytes@.take(i as int)),
        decreases 8 - i,
    {
        proof {
            let next = bytes@.take(i + 1);
            assert(next.drop_last() =~= bytes@.take(i as int));
            assert(next.last() == bytes@[i as int]);
            big_endian_is_bounded(next);
            reveal_with_fuel(byte_range, 9);
        }
        value = value * 256 + bytes[i] as u64;
        i = i + 1;
    }
    assert(bytes@.take(8) =~= bytes@);
    value
}

/// Name of the file that replaces a checkpoint file, next to it.
pub open spec fn temporary_text(file_name: Seq<char>, process: u32, random: Seq<u8>) -> Seq<char> {
    "."@ + file_name + ".tmp-"@ + dec(process as nat) + "-"@ + dec(big_endian(random))
}

/// Content of the complaint about a file name that is not text.
pub open spec fn unnamed_fault(path: Seq<char>) -> DcpFault {
    DcpFault::CheckpointStore("checkpoint path "@ + path + " has a non-UTF-8 file name"@)
}

/// Names the file that replaces a checkpoint file, from eight random bytes.
pub fn name_temporary(path: &str, file_name: Option<&str>, process: u32, random: &[u8]) -> (result:
    Result<String>)
    requires
        random@.len() == 8,
    ensures
        match (result, file_name) {
            (Ok(name), Some(file_name)) => name@ == temporary_text(file_name@, process, random@),
            (Err(e), None) => e@ == unnamed_fault(path@),
            _ => false,
        },
{
    match file_name {
        Some(file_name) => Ok(
            join6(
                ".",
                file_name,
                ".tmp-",
                dec_text(process as u64).as_str(),
                "-",
                dec_text(big_endian_number(random)).as_str(),
            ),
        ),
        None => Err(
            DcpError::CheckpointStore(
                join3("checkpoint path ", path, " has a non-UTF-8 file name"),
            ),
        ),
    }
}

/// Names the file that replaces a checkpoint file, afresh for every write.
pub fn fresh_temporary(path: &str, file_name: Option<&str>, process: u32) -> (result: Result<String>)
    ensures
        match result {
            Ok(name) => file_name is Some && exists|random: Seq<u8>|
                random.len() == 8 && name@ == #[trigger] temporary_text(
                    file_name->0@,
                    process,
                    random,
                ),
            Err(e) => (file_name is None && e@ == unnamed_fault(path@)) || exists|text: Seq<char>|
                e@ == DcpFault::CheckpointStore(
                    #[trigger] ("cannot generate temporary file name: "@ + text),
                ),
        },
{
    match random_bytes(8) {
        Ok(random) => name_temporary(path, file_name, process, random.as_slice()),
        Err(text) => {
            let e = DcpError::CheckpointStore(
                join2("cannot generate temporary file name: ", text.as_str()),
            );
            assert(e@ == DcpFault::CheckpointStore(
                "cannot generate temporary file name: "@ + text@,
            ));
            Err(e)
        },
    }
}

/// Summarizes the failed writes of a batch, each rendered with its vBucket.
pub fn collect_write_failures(operation: &str, failures: &Vec<String>) -> (result: Result<()>)
    ensures
        checked(
            result,
            if failures@.len() == 0 {
                None
            } else {
                Some(
                    DcpFault::CheckpointStore(
                        "Couchbase checkpoint "@ + operation@ + " failed: "@
                            + crate::bootstrap::failure_list(texts(failures@)),
                    ),
                )
            },
        ),
{
    if failures.len() == 0 {
        return Ok(());
    }
    let list = crate::bootstrap::failure_text(failures);
    Err(
        DcpError::CheckpointStore(
            join4("Couchbase checkpoint ", operation, " failed: ", list.as_str()),
        ),
    )
}

} // verus!
