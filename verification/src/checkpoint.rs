//! Durable resume positions.
use vstd::prelude::*;

use crate::error::{checked, DcpError, DcpFault, Result};
use crate::text::{copy_opt_text, dec, dec_text, join6, opt_text, same_opt_text};

verus! {

/// A branch in a vBucket failover history.
#[derive(Clone, Copy, Debug, PartialEq, Eq, Structural)]
pub struct FailoverEntry {
    /// UUID identifying the history branch.
    pub vbucket_uuid: u64,
    /// First sequence number on the history branch.
    pub seqno: u64,
}

/// Durable resume position for one vBucket.
#[derive(Debug, Eq, PartialEq)]
pub struct DcpCheckpoint {
    /// Bucket UUID used to reject checkpoints from a recreated bucket.
    pub bucket_uuid: Option<String>,
    /// Partition identifier.
    pub vbucket: u16,
    /// Failover history branch UUID.
    pub vbucket_uuid: u64,
    /// Last contiguously processed sequence number.
    pub seqno: u64,
    /// Start of the DCP snapshot containing `seqno`.
    pub snapshot_start: u64,
    /// End of the DCP snapshot containing `seqno`.
    pub snapshot_end: u64,
    /// Collection manifest UID observed at this position.
    pub manifest_uid: Option<u64>,
}

/// Content of a checkpoint.
pub struct Position {
    pub bucket_uuid: Option<Seq<char>>,
    pub vbucket: u16,
    pub vbucket_uuid: u64,
    pub seqno: u64,
    pub snapshot_start: u64,
    pub snapshot_end: u64,
    pub manifest_uid: Option<u64>,
}

impl View for DcpCheckpoint {
    type V = Position;

    open spec fn view(&self) -> Position {
        Position {
            bucket_uuid: opt_text(self.bucket_uuid),
            vbucket: self.vbucket,
            vbucket_uuid: self.vbucket_uuid,
            seqno: self.seqno,
            snapshot_start: self.snapshot_start,
            snapshot_end: self.snapshot_end,
            manifest_uid: self.manifest_uid,
        }
    }
}

impl Position {
    /// What is wrong with the ordering of the position, if anything.
    pub open spec fn fault(self) -> Option<DcpFault> {
        if self.snapshot_start > self.snapshot_end {
            Some(
                DcpFault::Checkpoint(
                    "snapshot start "@ + dec(self.snapshot_start as nat) + " exceeds snapshot end "@
                        + dec(self.snapshot_end as nat) + " for vBucket "@ + dec(
                        self.vbucket as nat,
                    ),
                ),
            )
        } else if self.seqno > self.snapshot_end {
            Some(
                DcpFault::Checkpoint(
                    "seqno "@ + dec(self.seqno as nat) + " exceeds snapshot end "@ + dec(
                        self.snapshot_end as nat,
                    ) + " for vBucket "@ + dec(self.vbucket as nat),
                ),
            )
        } else if self.seqno < self.snapshot_start {
            Some(
                DcpFault::Checkpoint(
                    "seqno "@ + dec(self.seqno as nat) + " precedes snapshot start "@ + dec(
                        self.snapshot_start as nat,
                    ) + " for vBucket "@ + dec(self.vbucket as nat),
                ),
            )
        } else {
            None
        }
    }

    /// The sequence number lies within a well-ordered snapshot.
    pub open spec fn valid(self) -> bool {
        &&& self.snapshot_start <= self.snapshot_end
        &&& self.seqno <= self.snapshot_end
        &&& self.snapshot_start <= self.seqno
    }

    /// The position moved within a snapshot.
    pub open spec fn moved(self, seqno: u64, snapshot_start: u64, snapshot_end: u64) -> Position {
        Position { seqno, snapshot_start, snapshot_end, ..self }
    }

    /// What forbids moving forward to a position, if anything.
    pub open spec fn move_fault(
        self,
        seqno: u64,
        snapshot_start: u64,
        snapshot_end: u64,
    ) -> Option<DcpFault> {
        if seqno < self.seqno {
            Some(
                DcpFault::Checkpoint(
                    "cannot move vBucket "@ + dec(self.vbucket as nat)
                        + " checkpoint backwards from "@ + dec(self.seqno as nat) + " to "@ + dec(
                        seqno as nat,
                    ),
                ),
            )
        } else {
            self.moved(seqno, snapshot_start, snapshot_end).fault()
        }
    }
}

/// A position is free of faults exactly when it is valid.
pub proof fn fault_free_is_valid(p: Position)
    ensures
        p.fault() is None <==> p.valid(),
{
}

/// An accepted move never goes backwards and lands on a valid position.
pub proof fn moves_are_forward(p: Position, seqno: u64, snapshot_start: u64, snapshot_end: u64)
    requires
        p.move_fault(seqno, snapshot_start, snapshot_end) is None,
    ensures
        p.seqno <= p.moved(seqno, snapshot_start, snapshot_end).seqno,
        p.moved(seqno, snapshot_start, snapshot_end).valid(),
{
}

impl Clone for DcpCheckpoint {
    fn clone(&self) -> (result: Self)
        ensures
            result == *self,
    {
        DcpCheckpoint {
            bucket_uuid: copy_opt_text(&self.bucket_uuid),
            vbucket: self.vbucket,
            vbucket_uuid: self.vbucket_uuid,
            seqno: self.seqno,
            snapshot_start: self.snapshot_start,
            snapshot_end: self.snapshot_end,
            manifest_uid: self.manifest_uid,
        }
    }
}

impl DcpCheckpoint {
    /// Creates an empty earliest checkpoint for a vBucket.
    #[must_use]
    pub fn earliest(vbucket: u16) -> (result: Self)
        ensures
            result@ == (Position {
                bucket_uuid: None,
                vbucket,
                vbucket_uuid: 0,
                seqno: 0,
                snapshot_start: 0,
                snapshot_end: 0,
                manifest_uid: None,
            }),
            result@.valid(),
    {
        DcpCheckpoint {
            bucket_uuid: None,
            vbucket,
            vbucket_uuid: 0,
            seqno: 0,
            snapshot_start: 0,
            snapshot_end: 0,
            manifest_uid: None,
        }
    }

    /// Validates ordering and snapshot invariants.
    pub fn validate(&self) -> (result: Result<()>)
        ensures
            checked(result, self@.fault()),
            result is Ok <==> self@.valid(),
    {
        if self.snapshot_start > self.snapshot_end {
            return Err(
                DcpError::Checkpoint(
                    join6(
                        "snapshot start ",
                        dec_text(self.snapshot_start).as_str(),
                        " exceeds snapshot end ",
                        dec_text(self.snapshot_end).as_str(),
                        " for vBucket ",
                        dec_text(self.vbucket as u64).as_str(),
                    ),
                ),
            );
        }
        if self.seqno > self.snapshot_end {
            return Err(
                DcpError::Checkpoint(
                    join6(
                        "seqno ",
                        dec_text(self.seqno).as_str(),
                        " exceeds snapshot end ",
                        dec_text(self.snapshot_end).as_str(),
                        " for vBucket ",
                        dec_text(self.vbucket as u64).as_str(),
                    ),
                ),
            );
        }
        if self.seqno < self.snapshot_start {
            return Err(
                DcpError::Checkpoint(
                    join6(
                        "seqno ",
                        dec_text(self.seqno).as_str(),
                        " precedes snapshot start ",
                        dec_text(self.snapshot_start).as_str(),
                        " for vBucket ",
                        dec_text(self.vbucket as u64).as_str(),
                    ),
                ),
            );
        }
        Ok(())
    }

    /// Returns a copy advanced within the supplied snapshot.
    pub fn advanced_to(&self, seqno: u64, snapshot_start: u64, snapshot_end: u64) -> (result: Result<
        Self,
    >)
        ensures
            match result {
                Ok(next) => {
                    &&& self@.move_fault(seqno, snapshot_start, snapshot_end) is None
                    &&& next@ == self@.moved(seqno, snapshot_start, snapshot_end)
                },
                Err(e) => self@.move_fault(seqno, snapshot_start, snapshot_end) == Some(e@),
            },
    {
        if seqno < self.seqno {
            return Err(
                DcpError::Checkpoint(
                    join6(
                        "cannot move vBucket ",
                        dec_text(self.vbucket as u64).as_str(),
                        " checkpoint backwards from ",
                        dec_text(self.seqno).as_str(),
                        " to ",
                        dec_text(seqno).as_str(),
                    ),
                ),
            );
        }
        let next = DcpCheckpoint {
            bucket_uuid: copy_opt_text(&self.bucket_uuid),
            vbucket: self.vbucket,
            vbucket_uuid: self.vbucket_uuid,
            seqno,
            snapshot_start,
            snapshot_end,
            manifest_uid: self.manifest_uid,
        };
        next.validate()?;
        Ok(next)
    }

    /// Tests whether two checkpoints record the same position.
    pub fn same(&self, other: &Self) -> (result: bool)
        ensures
            result == (self@ == other@),
    {
        same_opt_text(&self.bucket_uuid, &other.bucket_uuid) && self.vbucket == other.vbucket
            && self.vbucket_uuid == other.vbucket_uuid && self.seqno == other.seqno
            && self.snapshot_start == other.snapshot_start && self.snapshot_end
            == other.snapshot_end && self.manifest_uid == other.manifest_uid
    }
}

} // verus!
