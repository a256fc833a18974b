//! Ownership of vBuckets and its generation fence.
use std::collections::BTreeSet;
use vstd::prelude::*;

use crate::error::{DcpError, DcpFault, Result};
use crate::maps::{ascending, set_of, sorted_members};

verus! {

broadcast use {vstd::std_specs::btree::group_btree_axioms, vstd::laws_cmp::group_laws_cmp};

/// Source of vBucket ownership for a subscription.
#[derive(Debug)]
pub enum AssignmentMode {
    /// Every vBucket reported by the bucket topology is owned.
    Standalone,
    /// An outer runtime supplies an explicitly fenced assignment.
    External(VBucketAssignment),
}

/// Fenced set of vBuckets owned by one consumer.
#[derive(Debug, Eq, PartialEq)]
pub struct VBucketAssignment {
    generation: u64,
    vbuckets: BTreeSet<u16>,
}

/// First vBucket of the share of member `index` (counted from zero) when
/// `count` vBuckets are dealt to `members` members in contiguous runs whose
/// lengths differ by at most one, the longer runs first.
pub open spec fn share_start(count: nat, members: nat, index: nat) -> nat {
    let extra = count % members;
    index * (count / members) + if index < extra {
        index
    } else {
        extra
    }
}

/// The share of member `index`, counted from zero.
pub open spec fn share(count: nat, members: nat, index: nat) -> Set<u16> {
    Set::new(
        |v: u16|
            share_start(count, members, index) <= v < share_start(count, members, (index + 1) as nat),
    )
}

/// Arguments of a balanced assignment that make no sense.
pub open spec fn balanced_fault(count: nat, member: nat, members: nat) -> Option<DcpFault> {
    if count == 0 || count > 0x1_0000 {
        Some(DcpFault::InvalidConfiguration("vBucket count must be in 1..=65536"@))
    } else if members == 0 || members > count {
        Some(
            DcpFault::InvalidConfiguration(
                "member count must be positive and must not exceed the vBucket count"@,
            ),
        )
    } else if member == 0 || member > members {
        Some(
            DcpFault::InvalidConfiguration(
                "member number must be positive and must not exceed the member count"@,
            ),
        )
    } else {
        None
    }
}

proof fn share_start_fits(count: nat, members: nat, index: nat)
    requires
        0 < members,
        index <= members,
    ensures
        share_start(count, members, index) <= count,
        share_start(count, members, 0) == 0,
        share_start(count, members, members) == count,
{
    let q = count / members;
    let extra = count % members;
    vstd::arithmetic::div_mod::lemma_fundamental_div_mod(count as int, members as int);
    assert(members * q + extra == count);
    assert(index * q <= members * q) by (nonlinear_arith)
        requires
            index <= members,
    ;
    assert(0 * q == 0);
    vstd::arithmetic::div_mod::lemma_mod_bound(count as int, members as int);
}

/// A later member's share starts no earlier.
pub proof fn share_start_monotonic(count: nat, members: nat, a: nat, b: nat)
    requires
        0 < members,
        a <= b,
    ensures
        share_start(count, members, a) <= share_start(count, members, b),
{
    let q = count / members;
    assert(a * q <= b * q) by (nonlinear_arith)
        requires
            a <= b,
    ;
}

/// Every vBucket belongs to exactly one member's share.
pub proof fn shares_partition(count: nat, members: nat, v: u16)
    requires
        0 < members <= count <= 0x1_0000,
    ensures
        (v as nat) < count <==> exists|i: nat| i < members && #[trigger] share(count, members, i).contains(v),
        forall|i: nat, j: nat|
            i < members && j < members && #[trigger] share(count, members, i).contains(v)
                && #[trigger] share(count, members, j).contains(v) ==> i == j,
{
    assert forall|i: nat, j: nat|
        i < members && j < members && #[trigger] share(count, members, i).contains(v)
            && #[trigger] share(count, members, j).contains(v) implies i == j by {
        if i < j {
            share_start_monotonic(count, members, (i + 1) as nat, j);
        } else if j < i {
            share_start_monotonic(count, members, (j + 1) as nat, i);
        }
    }
    if (v as nat) < count {
        share_covers(count, members, members, v);
    }
    assert forall|i: nat| i < members && #[trigger] share(count, members, i).contains(v) implies (
    v as nat) < count by {
        share_start_fits(count, members, (i + 1) as nat);
    }
}

proof fn share_covers(count: nat, members: nat, upto: nat, v: u16)
    requires
        0 < members,
        upto <= members,
        (v as nat) < share_start(count, members, upto) || (upto == members && (v as nat) < count),
    ensures
        exists|i: nat| i < upto && #[trigger] share(count, members, i).contains(v),
    decreases upto,
{
    share_start_fits(count, members, upto);
    if upto > 0 {
        let prior = (upto - 1) as nat;
        if share_start(count, members, prior) <= v {
            assert(share(count, members, prior).contains(v));
        } else {
            share_covers(count, members, prior, v);
            let i = choose|i: nat| i < prior && #[trigger] share(count, members, i).contains(v);
            assert(i < upto && share(count, members, i).contains(v));
        }
    }
}

/// Shares of one deal differ in length by at most one.
pub proof fn shares_balanced(count: nat, members: nat, i: nat, j: nat)
    requires
        0 < members,
        i < members,
        j < members,
    ensures
        share_start(count, members, (i + 1) as nat) - share_start(count, members, i) <= share_start(
            count,
            members,
            (j + 1) as nat,
        ) - share_start(count, members, j) + 1,
{
    let q = count / members;
    assert((i + 1) * q == i * q + q) by (nonlinear_arith);
    assert((j + 1) * q == j * q + q) by (nonlinear_arith);
}

impl Clone for VBucketAssignment {
    fn clone(&self) -> (result: Self)
        ensures
            result.fence() == self.fence(),
            result.owned() == self.owned(),
    {
        VBucketAssignment { generation: self.generation, vbuckets: self.vbuckets.clone() }
    }
}

impl VBucketAssignment {
    /// Fence attached to the assignment.
    pub closed spec fn fence(&self) -> u64 {
        self.generation
    }

    /// Owned vBuckets.
    pub closed spec fn owned(&self) -> Set<u16> {
        self.vbuckets@
    }

    /// Creates an assignment, deduplicating vBucket identifiers.
    #[must_use]
    pub fn new(generation: u64, vbuckets: &[u16]) -> (result: Self)
        ensures
            result.fence() == generation,
            result.owned() == vbuckets@.to_set(),
            forall|v: u16| #[trigger] result.owned().contains(v) <==> vbuckets@.contains(v),
    {
        VBucketAssignment { generation, vbuckets: set_of(vbuckets) }
    }

    /// The share of one member, numbered from one, in a deterministic deal of
    /// `vbucket_count` vBuckets to `members` members.
    pub fn balanced(generation: u64, vbucket_count: usize, member: usize, members: usize) -> (result:
        Result<Self>)
        ensures
            match result {
                Ok(assignment) => {
                    &&& balanced_fault(vbucket_count as nat, member as nat, members as nat) is None
                    &&& assignment.fence() == generation
                    &&& assignment.owned() == share(
                        vbucket_count as nat,
                        members as nat,
                        (member - 1) as nat,
                    )
                },
                Err(e) => balanced_fault(vbucket_count as nat, member as nat, members as nat)
                    == Some(e@),
            },
    {
        if vbucket_count == 0 || vbucket_count > 0x1_0000 {
            return Err(
                DcpError::InvalidConfiguration("vBucket count must be in 1..=65536".to_owned()),
            );
        }
        if members == 0 || members > vbucket_count {
            return Err(
                DcpError::InvalidConfiguration(
                    "member count must be positive and must not exceed the vBucket count".to_owned(),
                ),
            );
        }
        if member == 0 || member > members {
            return Err(
                DcpError::InvalidConfiguration(
                    "member number must be positive and must not exceed the member count".to_owned(),
                ),
            );
        }
        let index: usize = member - 1;
        let quotient: usize = vbucket_count / members;
        let extra: usize = vbucket_count % members;
        proof {
            share_start_fits(vbucket_count as nat, members as nat, index as nat);
            share_start_fits(vbucket_count as nat, members as nat, member as nat);
            share_start_monotonic(
                vbucket_count as nat,
                members as nat,
                index as nat,
                member as nat,
            );
            assert(index * quotient <= 0x1_0000);
            assert(member * quotient <= 0x1_0000);
        }
        let start: usize = index * quotient + if index < extra {
            index
        } else {
            extra
        };
        let end: usize = member * quotient + if member < extra {
            member
        } else {
            extra
        };
        let mut vbuckets: BTreeSet<u16> = BTreeSet::new();
        let mut v: usize = start;
        while v < end
            invariant
                start <= v <= end <= 0x1_0000,
                forall|x: u16| #[trigger] vbuckets@.contains(x) <==> start <= x < v,
            decreases end - v,
        {
            vbuckets.insert(v as u16);
            v = v + 1;
        }
        assert(vbuckets@ =~= share(vbucket_count as nat, members as nat, index as nat));
        Ok(VBucketAssignment { generation, vbuckets })
    }

    /// Monotonic fence supplied by the assignment owner.
    #[must_use]
    pub fn generation(&self) -> (result: u64)
        ensures
            result == self.fence(),
    {
        self.generation
    }

    /// Assigned vBuckets in increasing order.
    #[must_use]
    pub fn vbuckets(&self) -> (result: Vec<u16>)
        ensures
            ascending(result@),
            forall|v: u16| result@.contains(v) <==> #[trigger] self.owned().contains(v),
            result@.len() == self.owned().len(),
    {
        sorted_members(&self.vbuckets)
    }

    /// Returns whether this assignment owns `vbucket`.
    #[must_use]
    pub fn owns(&self, vbucket: u16) -> (result: bool)
        ensures
            result == self.owned().contains(vbucket),
    {
        self.vbuckets.contains(&vbucket)
    }

    /// Returns whether both assignments carry the same fence and vBuckets.
    pub fn same(&self, other: &Self) -> (result: bool)
        ensures
            result == (self.fence() == other.fence() && self.owned() == other.owned()),
    {
        if self.generation != other.generation {
            return false;
        }
        let mine = sorted_members(&self.vbuckets);
        let theirs = sorted_members(&other.vbuckets);
        if mine.len() != theirs.len() {
            return false;
        }
        let mut i: usize = 0;
        while i < mine.len()
            invariant
                i <= mine@.len(),
                mine@.len() == self.vbuckets@.len(),
                mine@.len() == other.vbuckets@.len(),
                self.vbuckets@.finite(),
                other.vbuckets@.finite(),
                forall|v: u16| mine@.contains(v) <==> #[trigger] self.vbuckets@.contains(v),
                forall|j: int| 0 <= j < i ==> other.vbuckets@.contains(#[trigger] mine@[j]),
            decreases mine@.len() - i,
        {
            if !other.vbuckets.contains(&mine[i]) {
                assert(mine@.contains(mine@[i as int]));
                assert(self.vbuckets@.contains(mine@[i as int]));
                return false;
            }
            i = i + 1;
        }
        proof {
            assert forall|v: u16| #[trigger] self.vbuckets@.contains(v) implies other.vbuckets@.contains(
                v,
            ) by {
                assert(mine@.contains(v));
                let k = choose|k: int| 0 <= k < mine@.len() && mine@[k] == v;
                assert(other.vbuckets@.contains(mine@[k]));
            }
            assert(self.vbuckets@.subset_of(other.vbuckets@));
            vstd::set_lib::lemma_subset_equality(self.vbuckets@, other.vbuckets@);
        }
        true
    }
}

} // verus!
