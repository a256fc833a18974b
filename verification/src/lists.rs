//! Searches and collections over sequences.
use vstd::prelude::*;

use crate::error::Outcome;

verus! {

/// Position of the first item that satisfies a predicate.
pub open spec fn first_where<T>(s: Seq<T>, p: spec_fn(T) -> bool) -> Option<int>
    decreases s.len(),
{
    if s.len() == 0 {
        None
    } else {
        match first_where(s.drop_last(), p) {
            Some(i) => Some(i),
            None => if p(s.last()) {
                Some(s.len() - 1)
            } else {
                None
            },
        }
    }
}

/// What the first match is.
pub proof fn first_where_ensures<T>(s: Seq<T>, p: spec_fn(T) -> bool)
    ensures
        match first_where(s, p) {
            Some(i) => 0 <= i < s.len() && p(s[i]) && forall|j: int|
                0 <= j < i ==> !p(#[trigger] s[j]),
            None => forall|j: int| 0 <= j < s.len() ==> !p(#[trigger] s[j]),
        },
    decreases s.len(),
{
    if s.len() > 0 {
        let shorter = s.drop_last();
        first_where_ensures(shorter, p);
        assert forall|j: int| 0 <= j < shorter.len() implies #[trigger] s[j] == shorter[j] by {}
    }
}

/// Recognizes the first match.
pub proof fn first_where_is<T>(s: Seq<T>, p: spec_fn(T) -> bool, i: int)
    requires
        0 <= i < s.len(),
        p(s[i]),
        forall|j: int| 0 <= j < i ==> !p(#[trigger] s[j]),
    ensures
        first_where(s, p) == Some(i),
{
    first_where_ensures(s, p);
    match first_where(s, p) {
        Some(k) => {
            assert(p(s[k]));
            if k < i {
                assert(!p(s[k]));
            }
            if i < k {
                assert(!p(s[i]));
            }
        },
        None => {
            assert(!p(s[i]));
        },
    }
}

/// Recognizes the first match of any test.
pub proof fn first_match_is<T>(s: Seq<T>, i: int)
    requires
        0 <= i < s.len(),
    ensures
        forall|p: spec_fn(T) -> bool|
            p(s[i]) && (forall|j: int| 0 <= j < i ==> !p(#[trigger] s[j]))
                ==> #[trigger] first_where(s, p) == Some(i),
{
    assert forall|p: spec_fn(T) -> bool|
        p(s[i]) && (forall|j: int| 0 <= j < i ==> !p(#[trigger] s[j])) implies #[trigger] first_where(
        s,
        p,
    ) == Some(i) by {
        first_where_is(s, p, i);
    }
}

/// Recognizes that nothing matches.
pub proof fn first_where_is_none<T>(s: Seq<T>, p: spec_fn(T) -> bool)
    requires
        forall|j: int| 0 <= j < s.len() ==> !p(#[trigger] s[j]),
    ensures
        first_where(s, p) is None,
{
    first_where_ensures(s, p);
}

/// Items computed in order, or the first fault.
pub open spec fn collected<T>(n: nat, item: spec_fn(int) -> Outcome<T>) -> Outcome<Seq<T>>
    decreases n,
{
    if n == 0 {
        Ok(Seq::empty())
    } else {
        match collected((n - 1) as nat, item) {
            Err(e) => Err(e),
            Ok(s) => match item(n - 1) {
                Ok(x) => Ok(s.push(x)),
                Err(e) => Err(e),
            },
        }
    }
}

/// A fault among the first items is the fault of all.
pub proof fn collected_stops<T>(k: nat, n: nat, item: spec_fn(int) -> Outcome<T>)
    requires
        k <= n,
        collected(k, item) is Err,
    ensures
        collected(n, item) == collected(k, item),
    decreases n,
{
    if k < n {
        collected_stops(k, (n - 1) as nat, item);
    }
}

/// A successful collection holds each item.
pub proof fn collected_items<T>(n: nat, item: spec_fn(int) -> Outcome<T>)
    requires
        collected(n, item) is Ok,
    ensures
        collected(n, item)->Ok_0.len() == n,
        forall|i: int|
            0 <= i < n ==> #[trigger] item(i) == Outcome::<T>::Ok(collected(n, item)->Ok_0[i]),
    decreases n,
{
    if n > 0 {
        collected_items((n - 1) as nat, item);
    }
}

/// The fault of a collection is the fault of an item.
pub proof fn collected_fault_is_of_an_item<T>(n: nat, item: spec_fn(int) -> Outcome<T>)
    requires
        collected(n, item) is Err,
    ensures
        exists|i: int|
            0 <= i < n && (#[trigger] item(i)) is Err && item(i)->Err_0 == collected(n, item)->Err_0,
    decreases n,
{
    if collected((n - 1) as nat, item) is Err {
        collected_fault_is_of_an_item((n - 1) as nat, item);
    } else {
        assert(item(n - 1) is Err);
    }
}

/// First fault among numbered checks.
pub open spec fn first_fault<F>(n: nat, fault: spec_fn(int) -> Option<F>) -> Option<F>
    decreases n,
{
    if n == 0 {
        None
    } else {
        match first_fault((n - 1) as nat, fault) {
            Some(f) => Some(f),
            None => fault(n - 1),
        }
    }
}

/// Recognizes the first fault.
pub proof fn first_fault_found<F>(k: nat, n: nat, fault: spec_fn(int) -> Option<F>)
    requires
        k < n,
        first_fault(k, fault) is None,
        fault(k as int) is Some,
    ensures
        first_fault(n, fault) == fault(k as int),
    decreases n,
{
    if k + 1 < n {
        first_fault_found(k, (n - 1) as nat, fault);
    }
}

/// Without a fault, every check passes.
pub proof fn no_first_fault<F>(n: nat, fault: spec_fn(int) -> Option<F>)
    requires
        first_fault(n, fault) is None,
    ensures
        forall|i: int| 0 <= i < n ==> #[trigger] fault(i) is None,
    decreases n,
{
    if n > 0 {
        no_first_fault((n - 1) as nat, fault);
    }
}

/// The first fault is the fault of a check.
pub proof fn first_fault_is_of_a_check<F>(n: nat, fault: spec_fn(int) -> Option<F>)
    requires
        first_fault(n, fault) is Some,
    ensures
        exists|i: int| 0 <= i < n && #[trigger] fault(i) == first_fault(n, fault),
    decreases n,
{
    if first_fault((n - 1) as nat, fault) is Some {
        first_fault_is_of_a_check((n - 1) as nat, fault);
    }
}

/// Where every check passes, there is no first fault.
pub proof fn first_fault_absent<F>(n: nat, fault: spec_fn(int) -> Option<F>)
    requires
        forall|i: int| 0 <= i < n ==> #[trigger] fault(i) is None,
    ensures
        first_fault(n, fault) is None,
    decreases n,
{
    if n > 0 {
        first_fault_absent((n - 1) as nat, fault);
        assert(fault(n - 1) is None);
    }
}

/// Items of a sequence of options that are there, in order.
pub open spec fn present<T>(s: Seq<Option<T>>) -> Seq<T>
    decreases s.len(),
{
    if s.len() == 0 {
        Seq::empty()
    } else {
        match s.last() {
            Some(x) => present(s.drop_last()).push(x),
            None => present(s.drop_last()),
        }
    }
}

/// Items that are there come from the sequence.
pub proof fn present_items<T>(s: Seq<Option<T>>)
    ensures
        forall|i: int|
            0 <= i < present(s).len() ==> s.contains(Some(#[trigger] present(s)[i])),
    decreases s.len(),
{
    if s.len() > 0 {
        present_items(s.drop_last());
        assert forall|i: int| 0 <= i < present(s).len() implies s.contains(
            Some(#[trigger] present(s)[i]),
        ) by {
            let shorter = s.drop_last();
            if i < present(shorter).len() {
                let x = present(shorter)[i];
                assert(shorter.contains(Some(x)));
                let k = choose|k: int| 0 <= k < shorter.len() && shorter[k] == Some(x);
                assert(s[k] == Some(x));
                assert(present(s)[i] == x);
            } else {
                assert(s[s.len() - 1] == Some(present(s)[i]));
            }
        }
    }
}

} // verus!
