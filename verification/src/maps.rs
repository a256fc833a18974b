//! Ordered walks over maps and sets keyed by vBucket.
use std::collections::{BTreeMap, BTreeSet};
use vstd::prelude::*;
use vstd::std_specs::cmp::OrdSpec;
use vstd::std_specs::iter::IteratorSpec;

verus! {

broadcast use {vstd::std_specs::btree::group_btree_axioms, vstd::laws_cmp::group_laws_cmp};

/// Strictly increasing identifiers.
pub open spec fn ascending(s: Seq<u16>) -> bool {
    forall|i: int, j: int| 0 <= i < j < s.len() ==> #[trigger] s[i] < #[trigger] s[j]
}

proof fn ids_are_ordered()
    ensures
        vstd::laws_cmp::obeys_cmp::<&u16>(),
{
    reveal(vstd::laws_eq::obeys_eq_spec_properties);
    reveal(vstd::laws_cmp::obeys_partial_cmp_spec_properties);
    reveal(vstd::laws_cmp::obeys_cmp_partial_ord);
    reveal(vstd::laws_cmp::obeys_cmp_ord);
    assert(vstd::laws_eq::obeys_eq::<&u16>());
}

proof fn increasing_is_ascending(all: Seq<&u16>)
    requires
        vstd::std_specs::btree::increasing_seq(all),
    ensures
        ascending(all.unref()),
{
    ids_are_ordered();
    vstd::std_specs::btree::axiom_increasing_seq_meaning::<&u16>(all);
    assert forall|i: int, j: int| 0 <= i < j < all.len() implies #[trigger] all.unref()[i]
        < #[trigger] all.unref()[j] by {
        assert(OrdSpec::cmp_spec(&all[i], &all[j]) is Less);
    }
}

/// Keys of a map in increasing order.
pub fn sorted_keys<V>(m: &BTreeMap<u16, V>) -> (result: Vec<u16>)
    ensures
        ascending(result@),
        forall|v: u16| result@.contains(v) <==> #[trigger] m@.contains_key(v),
        result@.len() == m@.len(),
{
    let mut keys: Vec<u16> = Vec::new();
    for k in iter: m.keys()
        invariant
            iter.seq() == vstd::std_specs::btree::spec_keys_iter(m).remaining(),
            keys@.len() == iter.index(),
            forall|j: int| 0 <= j < keys@.len() ==> #[trigger] keys@[j] == *iter.seq()[j],
    {
        keys.push(*k);
    }
    proof {
        let all = vstd::std_specs::btree::spec_keys_iter(m).remaining();
        assert(keys@ =~= all.unref());
        assert forall|v: u16| keys@.contains(v) <==> #[trigger] m@.contains_key(v) by {
            assert(all.unref().to_set().contains(v) <==> all.unref().contains(v));
        }
        increasing_is_ascending(all);
    }
    keys
}

/// Strictly increasing collection identifiers.
pub open spec fn ascending_ids(s: Seq<u32>) -> bool {
    forall|i: int, j: int| 0 <= i < j < s.len() ==> #[trigger] s[i] < #[trigger] s[j]
}

proof fn collection_ids_are_ordered()
    ensures
        vstd::laws_cmp::obeys_cmp::<&u32>(),
{
    reveal(vstd::laws_eq::obeys_eq_spec_properties);
    reveal(vstd::laws_cmp::obeys_partial_cmp_spec_properties);
    reveal(vstd::laws_cmp::obeys_cmp_partial_ord);
    reveal(vstd::laws_cmp::obeys_cmp_ord);
    assert(vstd::laws_eq::obeys_eq::<&u32>());
}

/// Keys of a map of collections in increasing order.
pub fn sorted_ids<V>(m: &BTreeMap<u32, V>) -> (result: Vec<u32>)
    ensures
        ascending_ids(result@),
        forall|v: u32| result@.contains(v) <==> #[trigger] m@.contains_key(v),
        result@.len() == m@.len(),
{
    let mut keys: Vec<u32> = Vec::new();
    for k in iter: m.keys()
        invariant
            iter.seq() == vstd::std_specs::btree::spec_keys_iter(m).remaining(),
            keys@.len() == iter.index(),
            forall|j: int| 0 <= j < keys@.len() ==> #[trigger] keys@[j] == *iter.seq()[j],
    {
        keys.push(*k);
    }
    proof {
        let all = vstd::std_specs::btree::spec_keys_iter(m).remaining();
        assert(keys@ =~= all.unref());
        assert forall|v: u32| keys@.contains(v) <==> #[trigger] m@.contains_key(v) by {
            assert(all.unref().to_set().contains(v) <==> all.unref().contains(v));
        }
        collection_ids_are_ordered();
        vstd::std_specs::btree::axiom_increasing_seq_meaning::<&u32>(all);
        assert forall|i: int, j: int| 0 <= i < j < keys@.len() implies #[trigger] keys@[i]
            < #[trigger] keys@[j] by {
            assert(OrdSpec::cmp_spec(&all[i], &all[j]) is Less);
        }
    }
    keys
}

/// Members of a set in increasing order.
pub fn sorted_members(m: &BTreeSet<u16>) -> (result: Vec<u16>)
    ensures
        ascending(result@),
        forall|v: u16| result@.contains(v) <==> #[trigger] m@.contains(v),
        result@.len() == m@.len(),
        m@.finite(),
{
    let mut keys: Vec<u16> = Vec::new();
    for k in iter: m.iter()
        invariant
            iter.seq() == vstd::std_specs::btree::spec_btree_keys_iter(m).remaining(),
            keys@.len() == iter.index(),
            forall|j: int| 0 <= j < keys@.len() ==> #[trigger] keys@[j] == *iter.seq()[j],
    {
        keys.push(*k);
    }
    proof {
        let all = vstd::std_specs::btree::spec_btree_keys_iter(m).remaining();
        assert(keys@ =~= all.unref());
        vstd::seq_lib::seq_to_set_is_finite(all.unref());
        assert forall|v: u16| keys@.contains(v) <==> #[trigger] m@.contains(v) by {
            assert(all.unref().to_set().contains(v) <==> all.unref().contains(v));
        }
        increasing_is_ascending(all);
    }
    keys
}

/// Collects identifiers into a set.
pub fn set_of(ids: &[u16]) -> (result: BTreeSet<u16>)
    ensures
        result@ == ids@.to_set(),
        forall|v: u16| result@.contains(v) <==> #[trigger] ids@.contains(v),
{
    let mut set: BTreeSet<u16> = BTreeSet::new();
    let mut i: usize = 0;
    while i < ids.len()
        invariant
            i <= ids@.len(),
            forall|v: u16| #[trigger] set@.contains(v) <==> ids@.take(i as int).contains(v),
        decreases ids@.len() - i,
    {
        let ghost before = ids@.take(i as int);
        set.insert(ids[i]);
        proof {
            let after = ids@.take(i + 1);
            assert(after =~= before.push(ids@[i as int]));
            assert forall|v: u16| #[trigger] set@.contains(v) <==> after.contains(v) by {
                if before.contains(v) {
                    let k = choose|k: int| 0 <= k < before.len() && before[k] == v;
                    assert(after[k] == v);
                }
                if v == ids@[i as int] {
                    assert(after[i as int] == v);
                }
            }
        }
        i = i + 1;
    }
    assert(ids@.take(ids@.len() as int) =~= ids@);
    assert(set@ =~= ids@.to_set());
    set
}

/// The key is the smallest one with a fault.
pub open spec fn least_faulty<F>(
    keys: Set<u16>,
    fault: spec_fn(u16) -> Option<F>,
    v: u16,
) -> bool {
    keys.contains(v) && fault(v) is Some && forall|w: u16| #[trigger]
        keys.contains(w) && w < v ==> fault(w) is None
}

/// Fault of the smallest key that has one.
pub open spec fn keyed_fault<F>(keys: Set<u16>, fault: spec_fn(u16) -> Option<F>) -> Option<F> {
    if exists|v: u16| least_faulty(keys, fault, v) {
        fault(choose|v: u16| least_faulty(keys, fault, v))
    } else {
        None
    }
}

/// Recognizes the fault of the smallest key.
pub proof fn keyed_fault_is<F>(keys: Set<u16>, fault: spec_fn(u16) -> Option<F>, v: u16)
    requires
        least_faulty(keys, fault, v),
    ensures
        keyed_fault(keys, fault) == fault(v),
{
    let w = choose|w: u16| least_faulty(keys, fault, w);
    assert(least_faulty(keys, fault, w));
    assert(w == v);
}

proof fn some_key_is_least_faulty<F>(keys: Set<u16>, fault: spec_fn(u16) -> Option<F>, v: u16)
    requires
        keys.contains(v),
        fault(v) is Some,
    ensures
        exists|w: u16| least_faulty(keys, fault, w),
    decreases v,
{
    if exists|u: u16| u < v && #[trigger] keys.contains(u) && fault(u) is Some {
        let u = choose|u: u16| u < v && #[trigger] keys.contains(u) && fault(u) is Some;
        some_key_is_least_faulty(keys, fault, u);
    } else {
        assert(least_faulty(keys, fault, v));
    }
}

/// Without a fault, no key has one; a fault is that of a key.
pub proof fn keyed_fault_is_of_a_key<F>(keys: Set<u16>, fault: spec_fn(u16) -> Option<F>)
    ensures
        keyed_fault(keys, fault) is None <==> forall|v: u16| #[trigger]
            keys.contains(v) ==> fault(v) is None,
        keyed_fault(keys, fault) is Some ==> exists|v: u16| #[trigger]
            keys.contains(v) && fault(v) == keyed_fault(keys, fault),
{
    if exists|v: u16| #[trigger] keys.contains(v) && fault(v) is Some {
        let v = choose|v: u16| #[trigger] keys.contains(v) && fault(v) is Some;
        some_key_is_least_faulty(keys, fault, v);
        let w = choose|w: u16| least_faulty(keys, fault, w);
        assert(least_faulty(keys, fault, w));
        assert(keys.contains(w));
    } else {
        keyed_fault_is_none(keys, fault);
    }
}

/// Recognizes that no key has a fault.
pub proof fn keyed_fault_is_none<F>(keys: Set<u16>, fault: spec_fn(u16) -> Option<F>)
    requires
        forall|v: u16| #[trigger] keys.contains(v) ==> fault(v) is None,
    ensures
        keyed_fault(keys, fault) is None,
{
}

/// Recognizes the smallest faulty key on a walk in increasing order.
pub proof fn walked_to_fault<F>(
    list: Seq<u16>,
    keys: Set<u16>,
    fault: spec_fn(u16) -> Option<F>,
    i: int,
)
    requires
        ascending(list),
        forall|v: u16| list.contains(v) <==> #[trigger] keys.contains(v),
        0 <= i < list.len(),
        fault(list[i]) is Some,
        forall|j: int| 0 <= j < i ==> fault(#[trigger] list[j]) is None,
    ensures
        keyed_fault(keys, fault) == fault(list[i]),
{
    assert(list.contains(list[i]));
    assert forall|w: u16| #[trigger] keys.contains(w) && w < list[i] implies fault(w) is None by {
        assert(list.contains(w));
        let k = choose|k: int| 0 <= k < list.len() && list[k] == w;
        if k > i {
            assert(list[i] < list[k]);
        }
        assert(fault(list[k]) is None);
    }
    keyed_fault_is(keys, fault, list[i]);
}

/// Recognizes a walk that met no fault.
pub proof fn walked_without_fault<F>(
    list: Seq<u16>,
    keys: Set<u16>,
    fault: spec_fn(u16) -> Option<F>,
)
    requires
        forall|v: u16| list.contains(v) <==> #[trigger] keys.contains(v),
        forall|j: int| 0 <= j < list.len() ==> fault(#[trigger] list[j]) is None,
    ensures
        keyed_fault(keys, fault) is None,
        forall|v: u16| #[trigger] keys.contains(v) ==> fault(v) is None,
{
    assert forall|v: u16| #[trigger] keys.contains(v) implies fault(v) is None by {
        assert(list.contains(v));
        let k = choose|k: int| 0 <= k < list.len() && list[k] == v;
        assert(fault(list[k]) is None);
    }
    keyed_fault_is_none(keys, fault);
}

/// Increasing identifiers are as many as their set.
pub proof fn ascending_count(list: Seq<u16>, set: Set<u16>)
    requires
        ascending(list),
        forall|v: u16| list.contains(v) <==> #[trigger] set.contains(v),
    ensures
        set.finite(),
        set.len() == list.len(),
{
    assert(list.no_duplicates());
    list.unique_seq_to_set();
    assert(list.to_set() =~= set);
}

/// Members of a set below a bound, in increasing order.
pub open spec fn members_below(set: Set<u16>, n: nat) -> Seq<u16>
    decreases n,
{
    if n == 0 {
        Seq::empty()
    } else {
        let v = (n - 1) as u16;
        if set.contains(v) {
            members_below(set, (n - 1) as nat).push(v)
        } else {
            members_below(set, (n - 1) as nat)
        }
    }
}

/// Members of a set in increasing order.
pub open spec fn listed(set: Set<u16>) -> Seq<u16> {
    members_below(set, 0x1_0000)
}

proof fn members_are_prefix(list: Seq<u16>, set: Set<u16>, n: nat, k: int)
    requires
        ascending(list),
        forall|v: u16| list.contains(v) <==> #[trigger] set.contains(v),
        n <= 0x1_0000,
        0 <= k <= list.len(),
        forall|j: int| 0 <= j < k ==> (#[trigger] list[j] as nat) < n,
        forall|j: int| k <= j < list.len() ==> (#[trigger] list[j] as nat) >= n,
    ensures
        members_below(set, n) == list.take(k),
    decreases n,
{
    if n == 0 {
        assert(k == 0) by {
            if k > 0 {
                assert((list[0] as nat) < n);
            }
        }
        assert(list.take(0) =~= Seq::empty());
    } else {
        let v = (n - 1) as u16;
        if set.contains(v) {
            assert(list.contains(v));
            let i = choose|i: int| 0 <= i < list.len() && list[i] == v;
            assert(i < k) by {
                if i >= k {
                    assert((list[i] as nat) >= n);
                }
            }
            assert(i == k - 1) by {
                if i < k - 1 {
                    assert(list[i] < list[k - 1]);
                    assert((list[k - 1] as nat) < n);
                }
            }
            assert forall|j: int| 0 <= j < k - 1 implies (#[trigger] list[j] as nat) < n - 1 by {
                assert(list[j] < list[k - 1]);
            }
            members_are_prefix(list, set, (n - 1) as nat, k - 1);
            assert(list.take(k) =~= list.take(k - 1).push(v));
        } else {
            assert forall|j: int| 0 <= j < k implies (#[trigger] list[j] as nat) < n - 1 by {
                assert(list.contains(list[j]));
                assert(set.contains(list[j]));
            }
            members_are_prefix(list, set, (n - 1) as nat, k);
        }
    }
}

/// Increasing identifiers are the members of their set in increasing order.
pub proof fn ascending_is_listed(list: Seq<u16>, set: Set<u16>)
    requires
        ascending(list),
        forall|v: u16| list.contains(v) <==> #[trigger] set.contains(v),
    ensures
        listed(set) == list,
{
    members_are_prefix(list, set, 0x1_0000, list.len() as int);
    assert(list.take(list.len() as int) =~= list);
}

} // verus!
