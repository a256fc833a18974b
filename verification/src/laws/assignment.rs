//! Laws of vBucket assignment.
use vstd::prelude::*;

use crate::assignment::{
    share, share_start, share_start_monotonic, shares_balanced, shares_partition,
    VBucketAssignment,
};
use crate::error::Result;

verus! {

/// An assignment owns exactly the vBuckets that it was made with, under its
/// generation.
pub proof fn assignments_own_their_vbuckets(
    generation: u64,
    vbuckets: &[u16],
    assignment: VBucketAssignment,
    v: u16,
    owned: bool,
    listed: Vec<u16>,
    fence: u64,
)
    requires
        call_ensures(VBucketAssignment::new, (generation, vbuckets), assignment),
        call_ensures(VBucketAssignment::owns, (&assignment, v), owned),
        call_ensures(VBucketAssignment::vbuckets, (&assignment,), listed),
        call_ensures(VBucketAssignment::generation, (&assignment,), fence),
    ensures
        owned <==> vbuckets@.contains(v),
        listed@.contains(v) <==> vbuckets@.contains(v),
        forall|i: int, j: int|
            0 <= i < j < listed@.len() ==> #[trigger] listed@[i] < #[trigger] listed@[j],
        fence == generation,
{
    assert(assignment.owned().contains(v) <==> vbuckets@.contains(v));
}

/// A balanced share is given exactly to a member among at least one and at
/// most as many members as there are vBuckets.
pub proof fn balanced_shares_are_for_members(
    generation: u64,
    count: usize,
    member: usize,
    members: usize,
    result: Result<VBucketAssignment>,
)
    requires
        call_ensures(VBucketAssignment::balanced, (generation, count, member, members), result),
    ensures
        result is Ok <==> 1 <= count <= 65536 && 1 <= members <= count && 1 <= member <= members,
        result matches Ok(assignment) ==> assignment.fence() == generation,
        result matches Err(e) ==> e is InvalidConfiguration,
{
}

/// The balanced shares of all members hold every vBucket once, and nothing
/// else: they are runs of consecutive vBuckets, in the order of the members.
pub proof fn balanced_shares_cover_every_vbucket_once(
    generation: u64,
    count: usize,
    members: usize,
    shares: Seq<VBucketAssignment>,
    v: u16,
)
    requires
        shares.len() == members,
        forall|i: int|
            0 <= i < shares.len() ==> call_ensures(
                VBucketAssignment::balanced,
                (generation, count, (i + 1) as usize, members),
                Ok(#[trigger] shares[i]),
            ),
        members > 0,
    ensures
        (v as int) < count ==> exists|i: int|
            0 <= i < shares.len() && (#[trigger] shares[i]).owned().contains(v),
        v as int >= count ==> forall|i: int|
            0 <= i < shares.len() ==> !(#[trigger] shares[i]).owned().contains(v),
        forall|i: int, j: int|
            0 <= i < shares.len() && 0 <= j < shares.len() && (
            #[trigger] shares[i]).owned().contains(v) && (#[trigger] shares[j]).owned().contains(v)
                ==> i == j,
        forall|i: int, j: int, w: u16|
            #![trigger shares[i].owned().contains(v), shares[j].owned().contains(w)]
            0 <= i < j < shares.len() && shares[i].owned().contains(v)
                && shares[j].owned().contains(w) ==> v < w,
{
    let n = count as nat;
    let m = members as nat;
    assert(shares[0].owned() == share(n, m, 0));
    assert forall|i: int| 0 <= i < shares.len() implies (#[trigger] shares[i]).owned() == share(
        n,
        m,
        i as nat,
    ) by {
        assert((i + 1) as usize == i + 1);
    }
    shares_partition(n, m, v);
    if (v as int) < count {
        let i = choose|i: nat| i < m && share(n, m, i).contains(v);
        assert(shares[i as int].owned().contains(v));
    } else {
        assert forall|i: int| 0 <= i < shares.len() implies !(
        #[trigger] shares[i]).owned().contains(v) by {
            share_start_monotonic(n, m, (i + 1) as nat, m);
            last_share_ends_at_the_count(n, m);
        }
    }
    assert forall|i: int, j: int, w: u16|
        #![trigger shares[i].owned().contains(v), shares[j].owned().contains(w)]
        0 <= i < j < shares.len() && shares[i].owned().contains(v) && shares[j].owned().contains(
            w,
        ) implies v < w by {
        share_start_monotonic(n, m, (i + 1) as nat, j as nat);
    }
    assert forall|i: int, j: int|
        0 <= i < shares.len() && 0 <= j < shares.len() && (#[trigger] shares[i]).owned().contains(v)
            && (#[trigger] shares[j]).owned().contains(v) implies i == j by {
        if i < j {
            share_start_monotonic(n, m, (i + 1) as nat, j as nat);
        } else if j < i {
            share_start_monotonic(n, m, (j + 1) as nat, i as nat);
        }
    }
}

proof fn last_share_ends_at_the_count(n: nat, m: nat)
    requires
        m > 0,
    ensures
        share_start(n, m, m) == n,
{
    let q = n / m;
    let r = n % m;
    assert(m * q + r == n) by (nonlinear_arith)
        requires
            m > 0,
            q == n / m,
            r == n % m,
    ;
    assert(r < m) by (nonlinear_arith)
        requires
            m > 0,
            r == n % m,
    ;
}

proof fn run_has_its_length(a: nat, b: nat)
    requires
        a <= b <= 0x1_0000,
    ensures
        Set::new(|v: u16| a <= v < b).finite(),
        Set::new(|v: u16| a <= v < b).len() == b - a,
    decreases b - a,
{
    let run = Set::new(|v: u16| a <= v < b);
    if a == b {
        assert(run =~= Set::<u16>::empty());
    } else {
        let last = (b - 1) as u16;
        let rest = Set::new(|v: u16| a <= v < (b - 1) as nat);
        run_has_its_length(a, (b - 1) as nat);
        assert(run =~= rest.insert(last));
    }
}

proof fn share_has_its_length(n: nat, m: nat, i: nat)
    requires
        0 < m <= n <= 0x1_0000,
        i < m,
    ensures
        share(n, m, i).len() == share_start(n, m, (i + 1) as nat) - share_start(n, m, i),
{
    share_start_monotonic(n, m, i, (i + 1) as nat);
    share_start_monotonic(n, m, (i + 1) as nat, m);
    last_share_ends_at_the_count(n, m);
    let a = share_start(n, m, i);
    let b = share_start(n, m, (i + 1) as nat);
    run_has_its_length(a, b);
    assert(share(n, m, i) =~= Set::new(|v: u16| a <= v < b));
}

/// Two balanced shares differ in size by at most one.
pub proof fn balanced_shares_are_even(
    generation: u64,
    count: usize,
    members: usize,
    a: usize,
    b: usize,
    first: VBucketAssignment,
    second: VBucketAssignment,
    listed_first: Vec<u16>,
    listed_second: Vec<u16>,
)
    requires
        call_ensures(VBucketAssignment::balanced, (generation, count, a, members), Ok(first)),
        call_ensures(VBucketAssignment::balanced, (generation, count, b, members), Ok(second)),
        call_ensures(VBucketAssignment::vbuckets, (&first,), listed_first),
        call_ensures(VBucketAssignment::vbuckets, (&second,), listed_second),
    ensures
        listed_first@.len() <= listed_second@.len() + 1,
        listed_second@.len() <= listed_first@.len() + 1,
{
    shares_balanced(count as nat, members as nat, (a - 1) as nat, (b - 1) as nat);
    shares_balanced(count as nat, members as nat, (b - 1) as nat, (a - 1) as nat);
    share_has_its_length(count as nat, members as nat, (a - 1) as nat);
    share_has_its_length(count as nat, members as nat, (b - 1) as nat);
}

/// Two assignments are the same exactly when generation and vBuckets are.
pub proof fn same_assignments_agree(
    a: VBucketAssignment,
    b: VBucketAssignment,
    same: bool,
)
    requires
        call_ensures(VBucketAssignment::same, (&a, &b), same),
    ensures
        same <==> a.fence() == b.fence() && forall|v: u16|
            a.owned().contains(v) <==> #[trigger] b.owned().contains(v),
{
    if forall|v: u16| a.owned().contains(v) <==> #[trigger] b.owned().contains(v) {
        assert(a.owned() =~= b.owned());
    }
}

} // verus!
