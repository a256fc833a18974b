//! Delivery gate: an event is safe once every available copy of its vBucket
//! has persisted it on the expected history branch.
use std::collections::BTreeMap;
use vstd::prelude::*;

use crate::error::{DcpError, DcpFault, Outcome, Result};
use crate::event::DcpEvent;
use crate::maps::{ascending, sorted_keys};
use crate::protocol::ObserveSeqNoResponse;
use crate::text::{dec, dec_count, dec_text, join2, join4, join5, opt_text, same_text, text_less};
use crate::topology::{
    absent_vbucket, add_to_groups, ids_of, ordered_groups, places, ClusterTopology, NodeId,
    NodeVBuckets, Topology,
};

verus! {

broadcast use {vstd::std_specs::btree::group_btree_axioms, vstd::laws_cmp::group_laws_cmp};

/// One copy of a vBucket to observe.
#[derive(Clone, Copy, Debug, PartialEq, Eq, Structural)]
pub struct ObservationTarget {
    /// vBucket to observe.
    pub vbucket: u16,
    /// History branch that the stream follows.
    pub expected_vbucket_uuid: u64,
}

/// Observation of one copy, or the complaint of the node.
#[derive(Debug)]
pub struct RawObservation {
    /// What was observed.
    pub target: ObservationTarget,
    /// What came back.
    pub result: std::result::Result<ObserveSeqNoResponse, String>,
}

/// Outcome of one observation cycle for one vBucket.
#[derive(Debug, Eq, PartialEq)]
pub enum ObservationOutcome {
    /// Every copy persisted this much of the branch.
    Persisted {
        /// Expected branch.
        vbucket_uuid: u64,
        /// Smallest persisted sequence number.
        persisted_seqno: u64,
    },
    /// The cycle says nothing.
    Transient {
        /// Why.
        message: String,
    },
    /// A copy follows another branch.
    BranchChanged {
        /// Branch of the copy.
        observed_vbucket_uuid: u64,
    },
}

/// Content of an outcome.
pub enum OutcomeModel {
    Persisted { vbucket_uuid: u64, persisted_seqno: u64 },
    Transient { message: Seq<char> },
    BranchChanged { observed_vbucket_uuid: u64 },
}

impl View for ObservationOutcome {
    type V = OutcomeModel;

    open spec fn view(&self) -> OutcomeModel {
        match *self {
            ObservationOutcome::Persisted {
                vbucket_uuid,
                persisted_seqno,
            } => OutcomeModel::Persisted { vbucket_uuid, persisted_seqno },
            ObservationOutcome::Transient { message } => OutcomeModel::Transient {
                message: message@,
            },
            ObservationOutcome::BranchChanged {
                observed_vbucket_uuid,
            } => OutcomeModel::BranchChanged { observed_vbucket_uuid },
        }
    }
}

/// A copy answered from another history.
pub open spec fn left_branch(o: RawObservation) -> Option<u64> {
    match o.result {
        Ok(r) => if r.did_failover || r.vbucket_uuid != o.target.expected_vbucket_uuid {
            Some(r.vbucket_uuid)
        } else {
            None
        },
        Err(_) => None,
    }
}

/// Why the answer of a copy on the expected branch says nothing, if it does
/// not.
pub open spec fn inconclusive(o: RawObservation) -> Option<Seq<char>> {
    match o.result {
        Ok(r) => if r.vbucket != o.target.vbucket {
            Some(
                "node returned vBucket "@ + dec(r.vbucket as nat) + " for requested vBucket "@
                    + dec(o.target.vbucket as nat),
            )
        } else if r.persisted_seqno > r.current_seqno {
            Some(
                "persisted seqno "@ + dec(r.persisted_seqno as nat) + " exceeds current seqno "@
                    + dec(r.current_seqno as nat),
            )
        } else {
            None
        },
        Err(message) => Some(message@),
    }
}

/// What the observations of one vBucket amount to.
pub struct Summary {
    pub count: nat,
    pub branch: Option<u64>,
    pub minimum: Option<u64>,
    pub complaint: Option<Seq<char>>,
    pub left: Option<u64>,
}

/// Smaller of an optional number and a number.
pub open spec fn lowered(a: Option<u64>, b: u64) -> u64 {
    match a {
        Some(x) => if x < b {
            x
        } else {
            b
        },
        None => b,
    }
}

/// Observations of one vBucket, taken in order: how many there are, the branch
/// that they expect, the smallest conclusive persisted sequence number, the
/// latest complaint and the latest change of branch.
pub open spec fn summary(observations: Seq<RawObservation>, vbucket: u16) -> Summary
    decreases observations.len(),
{
    if observations.len() == 0 {
        Summary { count: 0, branch: None, minimum: None, complaint: None, left: None }
    } else {
        let s = summary(observations.drop_last(), vbucket);
        let o = observations.last();
        if o.target.vbucket != vbucket {
            s
        } else {
            let counted = Summary {
                count: s.count + 1,
                branch: if s.branch is None {
                    Some(o.target.expected_vbucket_uuid)
                } else {
                    s.branch
                },
                ..s
            };
            if left_branch(o) is Some {
                Summary { left: left_branch(o), ..counted }
            } else if inconclusive(o) is Some {
                Summary { complaint: inconclusive(o), ..counted }
            } else {
                Summary {
                    minimum: Some(lowered(s.minimum, o.result->Ok_0.persisted_seqno)),
                    ..counted
                }
            }
        }
    }
}

/// Outcome of a cycle for a vBucket that has `expected` available copies.
pub open spec fn judged(s: Summary, expected: nat) -> OutcomeModel {
    if s.left is Some {
        OutcomeModel::BranchChanged { observed_vbucket_uuid: s.left->0 }
    } else if s.count != expected {
        OutcomeModel::Transient {
            message: "received "@ + dec(s.count) + " of "@ + dec(expected)
                + " required copy observations"@,
        }
    } else if s.complaint is Some {
        OutcomeModel::Transient { message: s.complaint->0 }
    } else if s.branch is Some && s.minimum is Some {
        OutcomeModel::Persisted { vbucket_uuid: s.branch->0, persisted_seqno: s.minimum->0 }
    } else {
        OutcomeModel::Transient {
            message: "observation cycle contained no successful copy result"@,
        }
    }
}

/// The observation shows a sequence number persisted on the expected branch.
pub open spec fn shows_persisted(o: RawObservation, seqno: u64) -> bool {
    o.result matches Ok(r) && !r.did_failover && r.vbucket_uuid == o.target.expected_vbucket_uuid
        && r.vbucket == o.target.vbucket && seqno <= r.persisted_seqno <= r.current_seqno
}

proof fn summary_covers(observations: Seq<RawObservation>, vbucket: u16)
    ensures
        ({
            let s = summary(observations, vbucket);
            &&& s.left is None && s.complaint is None ==> forall|i: int|
                0 <= i < observations.len() && (#[trigger] observations[i]).target.vbucket
                    == vbucket ==> s.minimum is Some && shows_persisted(
                    observations[i],
                    s.minimum->0,
                )
            &&& s.count == observations.filter(
                |o: RawObservation| o.target.vbucket == vbucket,
            ).len()
        }),
    decreases observations.len(),
{
    reveal(Seq::filter);
    if observations.len() > 0 {
        let shorter = observations.drop_last();
        summary_covers(shorter, vbucket);
        let s = summary(observations, vbucket);
        let t = summary(shorter, vbucket);
        if s.left is None && s.complaint is None {
            assert forall|i: int|
                0 <= i < observations.len() && (#[trigger] observations[i]).target.vbucket
                    == vbucket implies s.minimum is Some && shows_persisted(
                observations[i],
                s.minimum->0,
            ) by {
                if i < shorter.len() {
                    assert(observations[i] == shorter[i]);
                    assert(t.minimum is Some && shows_persisted(shorter[i], t.minimum->0));
                }
            }
        }
    }
}

/// A cycle reports a persisted sequence number only if every available copy
/// was observed and each of them persisted it on the expected branch.
pub proof fn persisted_means_every_copy(
    observations: Seq<RawObservation>,
    vbucket: u16,
    expected: nat,
    uuid: u64,
    seqno: u64,
)
    requires
        judged(summary(observations, vbucket), expected) == (OutcomeModel::Persisted {
            vbucket_uuid: uuid,
            persisted_seqno: seqno,
        }),
    ensures
        observations.filter(|o: RawObservation| o.target.vbucket == vbucket).len() == expected,
        forall|i: int|
            0 <= i < observations.len() && (#[trigger] observations[i]).target.vbucket == vbucket
                ==> shows_persisted(observations[i], seqno),
{
    summary_covers(observations, vbucket);
}

/// Outcome of a cycle for one vBucket.
pub fn aggregate_vbucket(observations: &Vec<RawObservation>, vbucket: u16, expected: usize) -> (result:
    ObservationOutcome)
    ensures
        result@ == judged(summary(observations@, vbucket), expected as nat),
{
    let mut count: usize = 0;
    let mut branch: Option<u64> = None;
    let mut minimum: Option<u64> = None;
    let mut complaint: Option<String> = None;
    let mut left: Option<u64> = None;
    let mut i: usize = 0;
    assert(observations@.take(0) =~= Seq::empty());
    while i < observations.len()
        invariant
            i <= observations@.len(),
            count <= i,
            summary(observations@.take(i as int), vbucket) == (Summary {
                count: count as nat,
                branch,
                minimum,
                complaint: opt_text(complaint),
                left,
            }),
        decreases observations@.len() - i,
    {
        let o = &observations[i];
        assert(observations@.take(i + 1).drop_last() =~= observations@.take(i as int));
        assert(observations@.take(i + 1).last() == *o);
        if o.target.vbucket == vbucket {
            count = count + 1;
            if branch.is_none() {
                branch = Some(o.target.expected_vbucket_uuid);
            }
            match &o.result {
                Ok(r) => {
                    if r.did_failover || r.vbucket_uuid != o.target.expected_vbucket_uuid {
                        left = Some(r.vbucket_uuid);
                    } else if r.vbucket != vbucket {
                        complaint = Some(
                            join4(
                                "node returned vBucket ",
                                dec_text(r.vbucket as u64).as_str(),
                                " for requested vBucket ",
                                dec_text(vbucket as u64).as_str(),
                            ),
                        );
                    } else if r.persisted_seqno > r.current_seqno {
                        complaint = Some(
                            join4(
                                "persisted seqno ",
                                dec_text(r.persisted_seqno).as_str(),
                                " exceeds current seqno ",
                                dec_text(r.current_seqno).as_str(),
                            ),
                        );
                    } else {
                        let seqno: u64 = match minimum {
                            Some(x) => if x < r.persisted_seqno {
                                x
                            } else {
                                r.persisted_seqno
                            },
                            None => r.persisted_seqno,
                        };
                        minimum = Some(seqno);
                    }
                },
                Err(message) => {
                    complaint = Some(message.clone());
                },
            }
        }
        i = i + 1;
    }
    assert(observations@.take(observations@.len() as int) =~= observations@);
    if let Some(observed_vbucket_uuid) = left {
        return ObservationOutcome::BranchChanged { observed_vbucket_uuid };
    }
    if count != expected {
        return ObservationOutcome::Transient {
            message: join5(
                "received ",
                dec_count(count).as_str(),
                " of ",
                dec_count(expected).as_str(),
                " required copy observations",
            ),
        };
    }
    if let Some(message) = complaint {
        return ObservationOutcome::Transient { message };
    }
    match (branch, minimum) {
        (Some(vbucket_uuid), Some(persisted_seqno)) => ObservationOutcome::Persisted {
            vbucket_uuid,
            persisted_seqno,
        },
        _ => ObservationOutcome::Transient {
            message: "observation cycle contained no successful copy result".to_owned(),
        },
    }
}

/// Outcome of a cycle for every observed vBucket.
pub fn aggregate_observations(
    expected_copies: &BTreeMap<u16, usize>,
    observations: &Vec<RawObservation>,
) -> (result: BTreeMap<u16, ObservationOutcome>)
    ensures
        result@.dom() == expected_copies@.dom(),
        forall|v: u16| #[trigger]
            expected_copies@.contains_key(v) ==> result@[v]@ == judged(
                summary(observations@, v),
                expected_copies@[v] as nat,
            ),
{
    let keys = sorted_keys(expected_copies);
    let mut batch: BTreeMap<u16, ObservationOutcome> = BTreeMap::new();
    let mut i: usize = 0;
    while i < keys.len()
        invariant
            i <= keys@.len(),
            forall|v: u16| keys@.contains(v) <==> #[trigger] expected_copies@.contains_key(v),
            forall|v: u16| #[trigger] batch@.contains_key(v) <==> keys@.take(i as int).contains(v),
            forall|v: u16| #[trigger]
                batch@.contains_key(v) ==> batch@[v]@ == judged(
                    summary(observations@, v),
                    expected_copies@[v] as nat,
                ),
        decreases keys@.len() - i,
    {
        let v: u16 = keys[i];
        let ghost done = keys@.take(i as int);
        let ghost next = keys@.take(i + 1);
        assert(keys@.contains(v));
        let expected: usize = match expected_copies.get(&v) {
            Some(count) => *count,
            None => 0,
        };
        let outcome = aggregate_vbucket(observations, v, expected);
        batch.insert(v, outcome);
        proof {
            assert(next =~= done.push(v));
            assert forall|w: u16| #[trigger] batch@.contains_key(w) <==> next.contains(w) by {
                if done.contains(w) {
                    let k = choose|k: int| 0 <= k < done.len() && done[k] == w;
                    assert(next[k] == w);
                }
                if w == v {
                    assert(next[i as int] == w);
                }
            }
        }
        i = i + 1;
    }
    proof {
        assert(keys@.take(keys@.len() as int) =~= keys@);
        assert forall|v: u16| batch@.contains_key(v) == #[trigger] expected_copies@.contains_key(
            v,
        ) by {
            assert(keys@.contains(v) || !keys@.contains(v));
        }
        assert(batch@.dom() =~= expected_copies@.dom());
    }
    batch
}

/// Observations that fail because their node failed.
pub fn push_node_failure(
    observations: &mut Vec<RawObservation>,
    targets: &Vec<ObservationTarget>,
    message: &str,
)
    ensures
        final(observations)@.len() == old(observations)@.len() + targets@.len(),
        forall|i: int|
            0 <= i < old(observations)@.len() ==> #[trigger] final(observations)@[i] == old(
                observations,
            )@[i],
        forall|i: int|
            0 <= i < targets@.len() ==> {
                let o = #[trigger] final(observations)@[old(observations)@.len() + i];
                o.target == targets@[i] && (o.result matches Err(text) && text@ == message@)
            },
{
    let ghost start = observations@;
    let mut i: usize = 0;
    while i < targets.len()
        invariant
            i <= targets@.len(),
            start == old(observations)@,
            observations@.len() == start.len() + i,
            forall|j: int| 0 <= j < start.len() ==> #[trigger] observations@[j] == start[j],
            forall|j: int|
                0 <= j < i ==> {
                    let o = #[trigger] observations@[start.len() + j];
                    o.target == targets@[j] && (o.result matches Err(text) && text@ == message@)
                },
        decreases targets@.len() - i,
    {
        observations.push(
            RawObservation { target: targets[i], result: Err(message.to_owned()) },
        );
        i = i + 1;
    }
}

/// What is known of the persistence of one vBucket.
#[derive(Debug)]
pub struct MitigationState {
    /// Branch that the stream follows.
    pub expected_vbucket_uuid: u64,
    /// Sequence number persisted by every copy, if it is known.
    pub persisted_seqno: Option<u64>,
    /// Latest complaint.
    pub last_error: Option<String>,
}

/// Content of what is known of one vBucket.
pub struct StateModel {
    pub expected_vbucket_uuid: u64,
    pub persisted_seqno: Option<u64>,
    pub last_error: Option<Seq<char>>,
}

impl View for MitigationState {
    type V = StateModel;

    open spec fn view(&self) -> StateModel {
        StateModel {
            expected_vbucket_uuid: self.expected_vbucket_uuid,
            persisted_seqno: self.persisted_seqno,
            last_error: opt_text(self.last_error),
        }
    }
}

/// Complaint about another branch.
pub open spec fn other_branch(expected: u64, observed: u64) -> Seq<char> {
    "expected history branch "@ + dec(expected as nat) + ", observed "@ + dec(observed as nat)
}

/// What is known of a vBucket after a cycle.
pub open spec fn learned(s: StateModel, outcome: Option<OutcomeModel>) -> StateModel {
    match outcome {
        None => StateModel {
            last_error: Some("observation cycle omitted the vBucket"@),
            ..s
        },
        Some(OutcomeModel::Transient { message }) => StateModel { last_error: Some(message), ..s },
        Some(OutcomeModel::BranchChanged { observed_vbucket_uuid }) => StateModel {
            persisted_seqno: None,
            last_error: Some(other_branch(s.expected_vbucket_uuid, observed_vbucket_uuid)),
            ..s
        },
        Some(OutcomeModel::Persisted { vbucket_uuid, persisted_seqno }) => if vbucket_uuid
            != s.expected_vbucket_uuid {
            StateModel {
                persisted_seqno: None,
                last_error: Some(other_branch(s.expected_vbucket_uuid, vbucket_uuid)),
                ..s
            }
        } else if s.persisted_seqno matches Some(previous) && persisted_seqno < previous {
            StateModel {
                persisted_seqno: None,
                last_error: Some(
                    "persisted sequence number regressed from "@ + dec(
                        s.persisted_seqno->0 as nat,
                    ) + " to "@ + dec(persisted_seqno as nat),
                ),
                ..s
            }
        } else {
            StateModel { persisted_seqno: Some(persisted_seqno), last_error: None, ..s }
        },
    }
}

/// The event at `seqno` may be delivered.
pub open spec fn safe(s: StateModel, seqno: u64) -> bool {
    s.persisted_seqno matches Some(persisted) && persisted >= seqno
}

/// A change of branch, or a persisted sequence number that goes back, makes
/// nothing safe any more.
pub proof fn changed_history_invalidates(s: StateModel, outcome: OutcomeModel, seqno: u64)
    requires
        outcome is BranchChanged || (outcome matches OutcomeModel::Persisted {
            vbucket_uuid,
            persisted_seqno,
        } && (vbucket_uuid != s.expected_vbucket_uuid || (s.persisted_seqno matches Some(previous)
            && persisted_seqno < previous))),
    ensures
        !safe(learned(s, Some(outcome)), seqno),
        learned(s, Some(outcome)).last_error is Some,
{
}

/// What becomes safe in a cycle is covered by the cycle's persisted sequence
/// number on the expected branch.
pub proof fn newly_safe_is_persisted(s: StateModel, outcome: Option<OutcomeModel>, seqno: u64)
    requires
        !safe(s, seqno),
        safe(learned(s, outcome), seqno),
    ensures
        outcome matches Some(OutcomeModel::Persisted { vbucket_uuid, persisted_seqno })
            && vbucket_uuid == s.expected_vbucket_uuid && seqno <= persisted_seqno,
{
}

impl MitigationState {
    /// Takes the outcome of a cycle into account.
    pub fn learn(&mut self, outcome: Option<&ObservationOutcome>)
        ensures
            final(self)@ == learned(
                old(self)@,
                match outcome {
                    Some(o) => Some(o@),
                    None => None,
                },
            ),
    {
        match outcome {
            None => {
                self.last_error = Some("observation cycle omitted the vBucket".to_owned());
            },
            Some(ObservationOutcome::Transient { message }) => {
                self.last_error = Some(message.clone());
            },
            Some(ObservationOutcome::BranchChanged { observed_vbucket_uuid }) => {
                self.persisted_seqno = None;
                self.last_error = Some(
                    other_branch_text(self.expected_vbucket_uuid, *observed_vbucket_uuid),
                );
            },
            Some(ObservationOutcome::Persisted { vbucket_uuid, persisted_seqno }) => {
                if *vbucket_uuid != self.expected_vbucket_uuid {
                    self.persisted_seqno = None;
                    self.last_error = Some(
                        other_branch_text(self.expected_vbucket_uuid, *vbucket_uuid),
                    );
                    return ;
                }
                if let Some(previous) = self.persisted_seqno {
                    if *persisted_seqno < previous {
                        self.persisted_seqno = None;
                        self.last_error = Some(
                            join4(
                                "persisted sequence number regressed from ",
                                dec_text(previous).as_str(),
                                " to ",
                                dec_text(*persisted_seqno).as_str(),
                            ),
                        );
                        return ;
                    }
                }
                self.persisted_seqno = Some(*persisted_seqno);
                self.last_error = None;
            },
        }
    }
}

fn other_branch_text(expected: u64, observed: u64) -> (result: String)
    ensures
        result@ == other_branch(expected, observed),
{
    join4(
        "expected history branch ",
        dec_text(expected).as_str(),
        ", observed ",
        dec_text(observed).as_str(),
    )
}

/// What is known of every vBucket of a stream generation.
#[derive(Debug)]
pub struct MitigationSnapshot {
    partitions: BTreeMap<u16, MitigationState>,
}

/// Content of a state map.
pub open spec fn states_of(m: Map<u16, MitigationState>) -> Map<u16, StateModel> {
    m.map_values(|s: MitigationState| s@)
}

impl View for MitigationSnapshot {
    type V = Map<u16, StateModel>;

    closed spec fn view(&self) -> Map<u16, StateModel> {
        states_of(self.partitions@)
    }
}

/// Content of an outcome of a batch, if the batch has one.
pub open spec fn outcome_at(batch: Map<u16, ObservationOutcome>, v: u16) -> Option<OutcomeModel> {
    if batch.contains_key(v) {
        Some(batch[v]@)
    } else {
        None
    }
}

/// Next step of a wait for safety.
#[derive(Clone, Copy, Debug, PartialEq, Eq, Structural)]
pub enum WaitStep {
    /// Deliver; tells whether the delivery was delayed.
    Deliver {
        /// The delivery was delayed.
        delayed: bool,
    },
    /// Wait for the next cycle or the deadline.
    Wait,
}

/// Content of a mitigation error.
pub open spec fn mitigation_fault(vbucket: u16, message: Seq<char>) -> DcpFault {
    DcpFault::RollbackMitigation { vbucket, message }
}

/// Decision about the delivery of an event.
pub open spec fn gate(
    states: Map<u16, StateModel>,
    vbucket: u16,
    seqno: u64,
    delayed: bool,
    expired: bool,
    stall: Seq<char>,
) -> Outcome<WaitStep> {
    if seqno == 0 {
        Ok(WaitStep::Deliver { delayed: false })
    } else if !states.contains_key(vbucket) {
        Err(
            mitigation_fault(vbucket, "vBucket is absent from the mitigation generation"@),
        )
    } else if safe(states[vbucket], seqno) {
        Ok(WaitStep::Deliver { delayed })
    } else if expired {
        Err(
            mitigation_fault(
                vbucket,
                "delivery did not become persistence-safe within "@ + stall + ": "@ + (
                match states[vbucket].last_error {
                    Some(e) => e,
                    None => "persisted sequence number did not reach "@ + dec(seqno as nat),
                }),
            ),
        )
    } else {
        Ok(WaitStep::Wait)
    }
}

/// An event with a sequence number is released only when it is safe.
pub proof fn gate_opens_only_when_safe(
    states: Map<u16, StateModel>,
    vbucket: u16,
    seqno: u64,
    delayed: bool,
    expired: bool,
    stall: Seq<char>,
)
    requires
        seqno != 0,
        gate(states, vbucket, seqno, delayed, expired, stall) matches Ok(
            WaitStep::Deliver { .. },
        ),
    ensures
        states.contains_key(vbucket),
        safe(states[vbucket], seqno),
{
}

impl MitigationSnapshot {
    /// Nothing is known yet of the given branches.
    pub fn new(branches: &BTreeMap<u16, u64>) -> (result: Result<Self>)
        ensures
            match result {
                Ok(snapshot) => {
                    &&& branches@.len() > 0
                    &&& snapshot@.dom() == branches@.dom()
                    &&& forall|v: u16| #[trigger]
                        branches@.contains_key(v) ==> snapshot@[v] == (StateModel {
                            expected_vbucket_uuid: branches@[v],
                            persisted_seqno: None,
                            last_error: None,
                        })
                },
                Err(e) => {
                    &&& branches@.len() == 0
                    &&& e@ == DcpFault::InvalidConfiguration(
                        "rollback mitigation requires at least one vBucket"@,
                    )
                },
            },
    {
        if branches.len() == 0 {
            return Err(
                DcpError::InvalidConfiguration(
                    "rollback mitigation requires at least one vBucket".to_owned(),
                ),
            );
        }
        let keys = sorted_keys(branches);
        let mut partitions: BTreeMap<u16, MitigationState> = BTreeMap::new();
        let mut i: usize = 0;
        while i < keys.len()
            invariant
                i <= keys@.len(),
                forall|v: u16| keys@.contains(v) <==> #[trigger] branches@.contains_key(v),
                forall|v: u16| #[trigger]
                    partitions@.contains_key(v) <==> keys@.take(i as int).contains(v),
                forall|v: u16| #[trigger]
                    partitions@.contains_key(v) ==> partitions@[v]@ == (StateModel {
                        expected_vbucket_uuid: branches@[v],
                        persisted_seqno: None,
                        last_error: None,
                    }),
            decreases keys@.len() - i,
        {
            let v: u16 = keys[i];
            let ghost done = keys@.take(i as int);
            let ghost next = keys@.take(i + 1);
            assert(keys@.contains(v));
            let uuid: u64 = match branches.get(&v) {
                Some(uuid) => *uuid,
                None => 0,
            };
            partitions.insert(
                v,
                MitigationState {
                    expected_vbucket_uuid: uuid,
                    persisted_seqno: None,
                    last_error: None,
                },
            );
            proof {
                assert(next =~= done.push(v));
                assert forall|w: u16| #[trigger]
                    partitions@.contains_key(w) <==> next.contains(w) by {
                    if done.contains(w) {
                        let k = choose|k: int| 0 <= k < done.len() && done[k] == w;
                        assert(next[k] == w);
                    }
                    if w == v {
                        assert(next[i as int] == w);
                    }
                }
            }
            i = i + 1;
        }
        let snapshot = MitigationSnapshot { partitions };
        proof {
            assert(keys@.take(keys@.len() as int) =~= keys@);
            assert forall|v: u16| #[trigger] branches@.contains_key(v) implies snapshot@[v]
                == (StateModel {
                expected_vbucket_uuid: branches@[v],
                persisted_seqno: None,
                last_error: None,
            }) by {
                assert(keys@.contains(v));
                assert(partitions@.contains_key(v));
            }
            assert(snapshot@.dom() =~= branches@.dom());
        }
        Ok(snapshot)
    }

    /// Takes the outcomes of a cycle into account.
    pub fn apply(&mut self, batch: &BTreeMap<u16, ObservationOutcome>)
        ensures
            final(self)@.dom() == old(self)@.dom(),
            forall|v: u16| #[trigger]
                old(self)@.contains_key(v) ==> final(self)@[v] == learned(
                    old(self)@[v],
                    outcome_at(batch@, v),
                ),
    {
        let keys = sorted_keys(&self.partitions);
        let ghost before = self.partitions@;
        let mut i: usize = 0;
        while i < keys.len()
            invariant
                i <= keys@.len(),
                ascending(keys@),
                forall|v: u16| keys@.contains(v) <==> #[trigger] before.contains_key(v),
                self.partitions@.dom() == before.dom(),
                forall|v: u16| #[trigger]
                    before.contains_key(v) ==> self.partitions@[v]@ == if keys@.take(
                        i as int,
                    ).contains(v) {
                        learned(before[v]@, outcome_at(batch@, v))
                    } else {
                        before[v]@
                    },
            decreases keys@.len() - i,
        {
            let v: u16 = keys[i];
            let ghost done = keys@.take(i as int);
            let ghost next = keys@.take(i + 1);
            let ghost prior = self.partitions@;
            proof {
                assert(keys@.contains(v));
                assert(!done.contains(v)) by {
                    if done.contains(v) {
                        let k = choose|k: int| 0 <= k < done.len() && done[k] == v;
                        assert(keys@[k] < keys@[i as int]);
                    }
                }
            }
            if let Some(state) = self.partitions.remove(&v) {
                let mut state = state;
                state.learn(batch.get(&v));
                self.partitions.insert(v, state);
            }
            proof {
                assert(self.partitions@.dom() =~= before.dom());
                assert(next =~= done.push(v));
                assert forall|w: u16| #[trigger]
                    before.contains_key(w) implies self.partitions@[w]@ == if next.contains(w) {
                    learned(before[w]@, outcome_at(batch@, w))
                } else {
                    before[w]@
                } by {
                    if w == v {
                        assert(next[i as int] == w);
                    } else {
                        assert(self.partitions@[w] == prior[w]);
                        if done.contains(w) {
                            let k = choose|k: int| 0 <= k < done.len() && done[k] == w;
                            assert(next[k] == w);
                        }
                    }
                }
            }
            i = i + 1;
        }
        proof {
            assert(keys@.take(keys@.len() as int) =~= keys@);
            assert forall|v: u16| #[trigger] old(self)@.contains_key(v) implies self@[v] == learned(
                old(self)@[v],
                outcome_at(batch@, v),
            ) by {
                assert(before.contains_key(v));
                assert(keys@.contains(v));
            }
            assert(self@.dom() =~= old(self)@.dom());
        }
    }

    /// Decides about the delivery of an event: at once, after a further cycle,
    /// or not at all once the longest delay is over. `stall` renders that
    /// delay.
    pub fn wait_step(
        &self,
        vbucket: u16,
        seqno: u64,
        delayed: bool,
        expired: bool,
        stall: &str,
    ) -> (result: Result<WaitStep>)
        ensures
            crate::auth::yields(
                result,
                gate(self@, vbucket, seqno, delayed, expired, stall@),
            ),
    {
        if seqno == 0 {
            return Ok(WaitStep::Deliver { delayed: false });
        }
        let state = match self.partitions.get(&vbucket) {
            Some(state) => state,
            None => {
                return Err(
                    DcpError::RollbackMitigation {
                        vbucket,
                        message: "vBucket is absent from the mitigation generation".to_owned(),
                    },
                );
            },
        };
        assert(self@[vbucket] == state@);
        if let Some(persisted) = state.persisted_seqno {
            if persisted >= seqno {
                return Ok(WaitStep::Deliver { delayed });
            }
        }
        if expired {
            let context = match &state.last_error {
                Some(e) => e.clone(),
                None => join2(
                    "persisted sequence number did not reach ",
                    dec_text(seqno).as_str(),
                ),
            };
            return Err(
                DcpError::RollbackMitigation {
                    vbucket,
                    message: join4(
                        "delivery did not become persistence-safe within ",
                        stall,
                        ": ",
                        context.as_str(),
                    ),
                },
            );
        }
        Ok(WaitStep::Wait)
    }
}

/// Position that an event waits for, if it waits at all.
pub open spec fn position_of(event: DcpEvent) -> Option<(u16, u64)> {
    match event {
        DcpEvent::SnapshotMarker(marker) => Some((marker.vbucket, marker.start_seqno)),
        _ => match event.progress() {
            Some(seqno) => Some((event.partition(), seqno)),
            None => None,
        },
    }
}

/// Position that an event waits for; stream ends and out-of-sequence markers
/// wait for none.
pub fn mitigation_position(event: &DcpEvent) -> (result: Option<(u16, u64)>)
    ensures
        result == position_of(*event),
{
    match event {
        DcpEvent::SnapshotMarker(marker) => Some((marker.vbucket, marker.start_seqno)),
        other => match other.seqno() {
            Some(seqno) => Some((other.vbucket(), seqno)),
            None => None,
        },
    }
}

/// Copies of a vBucket: its active node and every available replica.
pub open spec fn copies(topology: Topology, vbucket: u16) -> Set<Seq<char>> {
    topology.routes[vbucket as int].replicas.to_set().insert(
        topology.routes[vbucket as int].active,
    )
}

/// Observations of one node.
#[derive(Debug)]
pub struct NodeObservationPlan {
    /// Node to ask.
    pub node: NodeId,
    /// Its dial address.
    pub address: String,
    /// What to observe there, by increasing vBucket.
    pub targets: Vec<ObservationTarget>,
}

/// Observations of one cycle.
#[derive(Debug)]
pub struct ObservationPlan {
    /// Number of available copies by vBucket.
    pub expected_copies: BTreeMap<u16, usize>,
    /// Observations by node, in increasing order of the nodes.
    pub nodes: Vec<NodeObservationPlan>,
}

/// The plan observes a target at a node.
pub open spec fn observes(
    nodes: Seq<NodeObservationPlan>,
    node: Seq<char>,
    target: ObservationTarget,
) -> bool {
    exists|i: int|
        0 <= i < nodes.len() && #[trigger] nodes[i].node@ == node && nodes[i].targets@.contains(
            target,
        )
}

/// Why a vBucket cannot be observed, if it cannot.
pub open spec fn plan_fault(topology: Topology, vbucket: u16, uuid: u64) -> Option<DcpFault> {
    if uuid == 0 {
        Some(
            mitigation_fault(vbucket, "effective checkpoint has no history branch UUID"@),
        )
    } else if topology.active_at(vbucket) is None {
        Some(absent_vbucket(vbucket))
    } else {
        None
    }
}

fn lists_node(list: &Vec<NodeId>, node: &NodeId) -> (result: bool)
    ensures
        result == ids_of(list@).contains(node@),
{
    let mut i: usize = 0;
    while i < list.len()
        invariant
            i <= list@.len(),
            forall|j: int| 0 <= j < i ==> #[trigger] ids_of(list@)[j] != node@,
        decreases list@.len() - i,
    {
        assert(ids_of(list@)[i as int] == list@[i as int]@);
        if same_text(list[i].as_str(), node.as_str()) {
            return true;
        }
        i = i + 1;
    }
    false
}

fn copy_nodes(topology: &ClusterTopology, vbucket: u16) -> (result: Result<Vec<NodeId>>)
    ensures
        match result {
            Ok(list) => {
                &&& topology@.active_at(vbucket) is Some
                &&& ids_of(list@).no_duplicates()
                &&& ids_of(list@).to_set() == copies(topology@, vbucket)
            },
            Err(e) => topology@.active_at(vbucket) is None && e@ == absent_vbucket(vbucket),
        },
{
    let active = topology.active_node(vbucket)?;
    let replicas = topology.replica_nodes(vbucket)?;
    let ghost all = ids_of(replicas@);
    let mut list: Vec<NodeId> = Vec::new();
    list.push(active.clone());
    proof {
        assert(ids_of(list@) =~= seq![active@]);
        assert forall|n: Seq<char>| #[trigger] ids_of(list@).to_set().contains(n) <==> n
            == active@ by {
            if n == active@ {
                assert(ids_of(list@)[0] == n);
            }
        }
        assert(ids_of(list@).to_set() =~= all.take(0).to_set().insert(active@));
    }
    let mut i: usize = 0;
    while i < replicas.len()
        invariant
            i <= replicas@.len(),
            all == ids_of(replicas@),
            ids_of(list@).no_duplicates(),
            ids_of(list@).to_set() == all.take(i as int).to_set().insert(active@),
        decreases replicas@.len() - i,
    {
        let ghost before = ids_of(list@);
        let ghost node = all[i as int];
        assert(node == replicas@[i as int]@);
        let known = lists_node(&list, &replicas[i]);
        if !known {
            list.push(replicas[i].clone());
            assert(ids_of(list@) =~= before.push(node));
        }
        proof {
            let done = all.take(i as int);
            let next = all.take(i + 1);
            assert(next =~= done.push(node));
            assert forall|n: Seq<char>| #[trigger] next.to_set().contains(n) <==> (
            done.to_set().contains(n) || n == node) by {
                if done.contains(n) {
                    let k = choose|k: int| 0 <= k < done.len() && done[k] == n;
                    assert(next[k] == n);
                }
                if n == node {
                    assert(next[i as int] == n);
                }
            }
            assert forall|n: Seq<char>| #[trigger] ids_of(list@).to_set().contains(n) <==> (
            before.to_set().contains(n) || n == node) by {
                if known {
                    assert(before.contains(node));
                } else {
                    if before.contains(n) {
                        let k = choose|k: int| 0 <= k < before.len() && before[k] == n;
                        assert(ids_of(list@)[k] == n);
                    }
                    if n == node {
                        assert(ids_of(list@)[before.len() as int] == n);
                    }
                }
            }
            assert(ids_of(list@).to_set() =~= next.to_set().insert(active@));
        }
        i = i + 1;
    }
    assert(all.take(all.len() as int) =~= all);
    Ok(list)
}

proof fn distinct_count(s: Seq<Seq<char>>)
    requires
        s.no_duplicates(),
    ensures
        s.to_set().len() == s.len(),
{
    s.unique_seq_to_set();
}

impl ObservationPlan {
    /// Plans the observation of the active node and every available replica
    /// of each vBucket.
    pub fn new(topology: &ClusterTopology, branches: &BTreeMap<u16, u64>) -> (result: Result<Self>)
        ensures
            match result {
                Ok(plan) => {
                    &&& forall|v: u16| #[trigger]
                        branches@.contains_key(v) ==> plan_fault(
                            topology@,
                            v,
                            branches@[v],
                        ) is None
                    &&& plan.expected_copies@.dom() == branches@.dom()
                    &&& forall|v: u16| #[trigger]
                        branches@.contains_key(v) ==> plan.expected_copies@[v] == copies(
                            topology@,
                            v,
                        ).len()
                    &&& forall|i: int, j: int|
                        0 <= i < j < plan.nodes@.len() ==> text_less(
                            #[trigger] plan.nodes@[i].node@,
                            #[trigger] plan.nodes@[j].node@,
                        )
                    &&& forall|i: int|
                        0 <= i < plan.nodes@.len() ==> topology@.reachable(
                            (#[trigger] plan.nodes@[i]).node@,
                            plan.nodes@[i].address@,
                        )
                    &&& forall|n: Seq<char>, t: ObservationTarget|
                        #[trigger] observes(plan.nodes@, n, t) <==> (branches@.contains_key(
                            t.vbucket,
                        ) && branches@[t.vbucket] == t.expected_vbucket_uuid && copies(
                            topology@,
                            t.vbucket,
                        ).contains(n))
                },
                Err(e) => exists|v: u16| #[trigger]
                    branches@.contains_key(v) && plan_fault(topology@, v, branches@[v]) == Some(
                        e@,
                    ) && forall|w: u16| #[trigger]
                        branches@.contains_key(w) && w < v ==> plan_fault(
                            topology@,
                            w,
                            branches@[w],
                        ) is None,
            },
    {
        let keys = sorted_keys(branches);
        let mut expected_copies: BTreeMap<u16, usize> = BTreeMap::new();
        let mut groups: Vec<NodeVBuckets> = Vec::new();
        let mut i: usize = 0;
        while i < keys.len()
            invariant
                i <= keys@.len(),
                ascending(keys@),
                forall|v: u16| keys@.contains(v) <==> #[trigger] branches@.contains_key(v),
                forall|j: int|
                    0 <= j < i ==> plan_fault(
                        topology@,
                        #[trigger] keys@[j],
                        branches@[keys@[j]],
                    ) is None,
                forall|v: u16| #[trigger]
                    expected_copies@.contains_key(v) <==> keys@.take(i as int).contains(v),
                forall|v: u16| #[trigger]
                    expected_copies@.contains_key(v) ==> expected_copies@[v] == copies(
                        topology@,
                        v,
                    ).len(),
                ordered_groups(groups@),
                forall|n: Seq<char>, v: u16|
                    #[trigger] places(groups@, n, v) <==> (keys@.take(i as int).contains(v)
                        && copies(topology@, v).contains(n)),
            decreases keys@.len() - i,
        {
            let v: u16 = keys[i];
            let ghost done = keys@.take(i as int);
            let ghost next = keys@.take(i + 1);
            proof {
                assert(keys@.contains(v));
                assert(branches@.contains_key(v));
            }
            let uuid: u64 = match branches.get(&v) {
                Some(uuid) => *uuid,
                None => 0,
            };
            proof {
                assert forall|w: u16| #[trigger] branches@.contains_key(w) && w
                    < v implies plan_fault(topology@, w, branches@[w]) is None by {
                    assert(keys@.contains(w));
                    let k = choose|k: int| 0 <= k < keys@.len() && keys@[k] == w;
                    if k > i {
                        assert(keys@[i as int] < keys@[k]);
                    }
                    assert(k < i);
                    assert(plan_fault(topology@, keys@[k], branches@[keys@[k]]) is None);
                }
            }
            if uuid == 0 {
                return Err(
                    DcpError::RollbackMitigation {
                        vbucket: v,
                        message: "effective checkpoint has no history branch UUID".to_owned(),
                    },
                );
            }
            let nodes = copy_nodes(topology, v)?;
            proof {
                distinct_count(ids_of(nodes@));
            }
            expected_copies.insert(v, nodes.len());
            let ghost prior = groups@;
            let mut k: usize = 0;
            while k < nodes.len()
                invariant
                    k <= nodes@.len(),
                    ordered_groups(groups@),
                    forall|n: Seq<char>, w: u16|
                        #[trigger] places(groups@, n, w) <==> (places(prior, n, w) || (w == v
                            && ids_of(nodes@).take(k as int).contains(n))),
                decreases nodes@.len() - k,
            {
                let ghost listed = ids_of(nodes@).take(k as int);
                let ghost more = ids_of(nodes@).take(k + 1);
                let ghost name = nodes@[k as int]@;
                add_to_groups(&mut groups, &nodes[k], v);
                proof {
                    assert(ids_of(nodes@)[k as int] == name);
                    assert(more =~= listed.push(name));
                    assert forall|n: Seq<char>| more.contains(n) <==> (#[trigger] listed.contains(n)
                        || n == name) by {
                        if listed.contains(n) {
                            let x = choose|x: int| 0 <= x < listed.len() && listed[x] == n;
                            assert(more[x] == n);
                        }
                        if n == name {
                            assert(more[k as int] == n);
                        }
                    }
                }
                k = k + 1;
            }
            proof {
                assert(ids_of(nodes@).take(nodes@.len() as int) =~= ids_of(nodes@));
                assert(next =~= done.push(v));
                assert forall|w: u16| next.contains(w) <==> (#[trigger] done.contains(w) || w
                    == v) by {
                    if done.contains(w) {
                        let x = choose|x: int| 0 <= x < done.len() && done[x] == w;
                        assert(next[x] == w);
                    }
                    if w == v {
                        assert(next[i as int] == w);
                    }
                }
                assert forall|n: Seq<char>, w: u16|
                    #[trigger] places(groups@, n, w) <==> (next.contains(w) && copies(
                        topology@,
                        w,
                    ).contains(n)) by {
                    assert(places(prior, n, w) <==> (done.contains(w) && copies(
                        topology@,
                        w,
                    ).contains(n)));
                    assert(copies(topology@, v).contains(n) <==> ids_of(nodes@).contains(n));
                }
                assert forall|w: u16| #[trigger]
                    expected_copies@.contains_key(w) <==> next.contains(w) by {
                    assert(done.contains(w) || !done.contains(w));
                }
            }
            i = i + 1;
        }
        proof {
            assert(keys@.take(keys@.len() as int) =~= keys@);
            assert(expected_copies@.dom() =~= branches@.dom()) by {
                assert forall|v: u16| expected_copies@.contains_key(
                    v,
                ) == #[trigger] branches@.contains_key(v) by {
                    assert(keys@.contains(v) || !keys@.contains(v));
                }
            }
            assert forall|v: u16| #[trigger] branches@.contains_key(v) implies plan_fault(
                topology@,
                v,
                branches@[v],
            ) is None && expected_copies@[v] == copies(topology@, v).len() by {
                assert(keys@.contains(v));
                let k = choose|k: int| 0 <= k < keys@.len() && keys@[k] == v;
                assert(plan_fault(topology@, keys@[k], branches@[keys@[k]]) is None);
                assert(expected_copies@.contains_key(v));
            }
        }
        let nodes = node_plans(topology, branches, &groups);
        proof {
            assert forall|n: Seq<char>, t: ObservationTarget|
                #[trigger] observes(nodes@, n, t) <==> (branches@.contains_key(t.vbucket)
                    && branches@[t.vbucket] == t.expected_vbucket_uuid && copies(
                    topology@,
                    t.vbucket,
                ).contains(n)) by {
                assert(places(groups@, n, t.vbucket) <==> (keys@.contains(t.vbucket) && copies(
                    topology@,
                    t.vbucket,
                ).contains(n)));
                assert(keys@.contains(t.vbucket) <==> branches@.contains_key(t.vbucket));
            }
        }
        Ok(ObservationPlan { expected_copies, nodes })
    }
}

spec fn grouped(groups: Seq<NodeVBuckets>, topology: Topology, branches: Map<u16, u64>) -> bool {
    forall|n: Seq<char>, v: u16| #[trigger]
        places(groups, n, v) ==> branches.contains_key(v) && topology.active_at(v) is Some
            && copies(topology, v).contains(n)
}

fn node_targets(branches: &BTreeMap<u16, u64>, vbuckets: &Vec<u16>) -> (result: Vec<
    ObservationTarget,
>)
    requires
        forall|v: u16| #[trigger] vbuckets@.contains(v) ==> branches@.contains_key(v),
    ensures
        result@.len() == vbuckets@.len(),
        forall|i: int|
            0 <= i < result@.len() ==> #[trigger] result@[i] == (ObservationTarget {
                vbucket: vbuckets@[i],
                expected_vbucket_uuid: branches@[vbuckets@[i]],
            }),
{
    let mut targets: Vec<ObservationTarget> = Vec::new();
    let mut i: usize = 0;
    while i < vbuckets.len()
        invariant
            i <= vbuckets@.len(),
            targets@.len() == i,
            forall|v: u16| #[trigger] vbuckets@.contains(v) ==> branches@.contains_key(v),
            forall|j: int|
                0 <= j < i ==> #[trigger] targets@[j] == (ObservationTarget {
                    vbucket: vbuckets@[j],
                    expected_vbucket_uuid: branches@[vbuckets@[j]],
                }),
        decreases vbuckets@.len() - i,
    {
        let v: u16 = vbuckets[i];
        assert(vbuckets@.contains(v));
        let uuid: u64 = match branches.get(&v) {
            Some(uuid) => *uuid,
            None => 0,
        };
        targets.push(ObservationTarget { vbucket: v, expected_vbucket_uuid: uuid });
        i = i + 1;
    }
    targets
}

fn node_plans(
    topology: &ClusterTopology,
    branches: &BTreeMap<u16, u64>,
    groups: &Vec<NodeVBuckets>,
) -> (result: Vec<NodeObservationPlan>)
    requires
        ordered_groups(groups@),
        grouped(groups@, topology@, branches@),
    ensures
        result@.len() == groups@.len(),
        forall|i: int, j: int|
            0 <= i < j < result@.len() ==> text_less(
                #[trigger] result@[i].node@,
                #[trigger] result@[j].node@,
            ),
        forall|i: int|
            0 <= i < result@.len() ==> topology@.reachable(
                (#[trigger] result@[i]).node@,
                result@[i].address@,
            ),
        forall|n: Seq<char>, t: ObservationTarget|
            #[trigger] observes(result@, n, t) <==> (places(groups@, n, t.vbucket)
                && branches@[t.vbucket] == t.expected_vbucket_uuid),
{
    let mut nodes: Vec<NodeObservationPlan> = Vec::new();
    let endpoints = topology.endpoints();
    let mut i: usize = 0;
    while i < groups.len()
        invariant
            i <= groups@.len(),
            topology@.coherent(),
            ordered_groups(groups@),
            grouped(groups@, topology@, branches@),
            nodes@.len() == i,
            forall|j: int|
                0 <= j < i ==> {
                    let p = #[trigger] nodes@[j];
                    &&& p.node@ == groups@[j].node@
                    &&& topology@.reachable(p.node@, p.address@)
                    &&& p.targets@.len() == groups@[j].vbuckets@.len()
                    &&& forall|k: int|
                        0 <= k < p.targets@.len() ==> #[trigger] p.targets@[k]
                            == (ObservationTarget {
                            vbucket: groups@[j].vbuckets@[k],
                            expected_vbucket_uuid: branches@[groups@[j].vbuckets@[k]],
                        })
                },
        decreases groups@.len() - i,
    {
        let group = &groups[i];
        proof {
            assert forall|v: u16| #[trigger] group.vbuckets@.contains(v) implies branches@.contains_key(
                v,
            ) by {
                assert(groups@[i as int].node@ == group.node@);
                assert(places(groups@, group.node@, v));
            }
            let v = group.vbuckets@[0];
            assert(group.vbuckets@.contains(v));
            assert(groups@[i as int].node@ == group.node@);
            assert(places(groups@, group.node@, v));
            let route = topology@.routes[v as int];
            if group.node@ != route.active {
                assert(route.replicas.contains(group.node@));
                let r = choose|r: int|
                    0 <= r < route.replicas.len() && route.replicas[r] == group.node@;
                assert(topology@.nodes().contains(topology@.routes[v as int].replicas[r]));
            } else {
                assert(topology@.nodes().contains(topology@.routes[v as int].active));
            }
            assert(topology@.nodes().contains(group.node@));
        }
        match topology.endpoint(group.node.as_str()) {
            None => {},
            Some(endpoint) => {
                let address = endpoint.address().to_owned();
                proof {
                    assert(topology@.endpoints.contains(endpoint@));
                    assert(topology@.reachable(group.node@, address@));
                }
                nodes.push(
                    NodeObservationPlan {
                        node: group.node.clone(),
                        address,
                        targets: node_targets(branches, &group.vbuckets),
                    },
                );
            },
        }
        i = i + 1;
    }
    proof {
        assert forall|a: int, b: int| 0 <= a < b < nodes@.len() implies text_less(
            #[trigger] nodes@[a].node@,
            #[trigger] nodes@[b].node@,
        ) by {
            assert(text_less(groups@[a].node@, groups@[b].node@));
        }
        assert forall|n: Seq<char>, t: ObservationTarget|
            #[trigger] observes(nodes@, n, t) <==> (places(groups@, n, t.vbucket)
                && branches@[t.vbucket] == t.expected_vbucket_uuid) by {
            if observes(nodes@, n, t) {
                let a = choose|a: int|
                    0 <= a < nodes@.len() && #[trigger] nodes@[a].node@ == n
                        && nodes@[a].targets@.contains(t);
                let targets = nodes@[a].targets@;
                let k = choose|k: int| 0 <= k < targets.len() && targets[k] == t;
                assert(nodes@[a].targets@[k] == t);
                assert(groups@[a].vbuckets@[k] == t.vbucket);
                assert(groups@[a].node@ == n);
            }
            if places(groups@, n, t.vbucket) && branches@[t.vbucket] == t.expected_vbucket_uuid {
                let a = choose|a: int|
                    0 <= a < groups@.len() && #[trigger] groups@[a].node@ == n
                        && groups@[a].vbuckets@.contains(t.vbucket);
                let ids = groups@[a].vbuckets@;
                let k = choose|k: int| 0 <= k < ids.len() && ids[k] == t.vbucket;
                assert(nodes@[a].node@ == n);
                assert(nodes@[a].targets@[k] == t);
                assert(nodes@[a].targets@.contains(t));
            }
        }
    }
    nodes
}

} // verus!
