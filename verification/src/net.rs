//! Addresses as plain integers, and lists of them read as sets.

use vstd::prelude::*;

verus! {

/// An IP address: the 32 bits of a v4 address or the 128 bits of a v6 address,
/// most significant octet first.
#[derive(Clone, Copy, Debug, PartialEq, Eq, Structural)]
pub enum IpAddress {
    V4(u32),
    V6(u128),
}

/// `acc` followed by those items of `more` that are not yet present, each once,
/// in the order of their first occurrence.
pub open spec fn merged(acc: Seq<IpAddress>, more: Seq<IpAddress>) -> Seq<IpAddress>
    decreases more.len(),
{
    if more.len() == 0 {
        acc
    } else {
        let head = merged(acc, more.drop_last());
        if head.contains(more.last()) {
            head
        } else {
            head.push(more.last())
        }
    }
}

/// Merging keeps what was there, adds exactly the set of the new items, and
/// introduces no duplicate.
pub proof fn lemma_merged(acc: Seq<IpAddress>, more: Seq<IpAddress>)
    ensures
        merged(acc, more).to_set() == acc.to_set().union(more.to_set()),
        acc.no_duplicates() ==> merged(acc, more).no_duplicates(),
        acc.len() <= merged(acc, more).len(),
        merged(acc, more).take(acc.len() as int) == acc,
    decreases more.len(),
{
    let m = merged(acc, more);
    if more.len() == 0 {
        assert(more.to_set() =~= Set::<IpAddress>::empty());
        assert(m.to_set() =~= acc.to_set().union(more.to_set()));
        assert(m.take(acc.len() as int) =~= acc);
    } else {
        let init = more.drop_last();
        let head = merged(acc, init);
        lemma_merged(acc, init);
        assert forall|x: IpAddress| more.to_set().contains(x) <==> (init.to_set().contains(x) || x
            == more.last()) by {
            if more.contains(x) {
                let i = choose|i: int| 0 <= i < more.len() && more[i] == x;
                if i < more.len() - 1 {
                    assert(init[i] == x);
                }
            }
            if init.contains(x) {
                let i = choose|i: int| 0 <= i < init.len() && init[i] == x;
                assert(more[i] == x);
            }
            assert(more[more.len() - 1] == more.last());
        }
        if head.contains(more.last()) {
            assert(m.to_set() =~= acc.to_set().union(more.to_set()));
        } else {
            assert forall|x: IpAddress| m.to_set().contains(x) <==> (head.to_set().contains(x) || x
                == more.last()) by {
                if m.contains(x) {
                    let i = choose|i: int| 0 <= i < m.len() && m[i] == x;
                    if i < head.len() {
                        assert(head[i] == x);
                    }
                }
                if head.contains(x) {
                    let i = choose|i: int| 0 <= i < head.len() && head[i] == x;
                    assert(m[i] == x);
                }
                assert(m[m.len() - 1] == more.last());
            }
            assert(m.to_set() =~= acc.to_set().union(more.to_set()));
            assert(m.take(acc.len() as int) =~= head.take(acc.len() as int));
        }
    }
}

/// Whether `ip` occurs in `list`.
pub fn contains_ip(list: &Vec<IpAddress>, ip: IpAddress) -> (found: bool)
    ensures
        found == list@.contains(ip),
{
    let mut i: usize = 0;
    while i < list.len()
        invariant
            i <= list.len(),
            forall|j: int| 0 <= j < i ==> list@[j] != ip,
        decreases list.len() - i,
    {
        if list[i] == ip {
            return true;
        }
        i += 1;
    }
    false
}

/// Whether every item of `part` occurs in `whole`.
pub fn covers(whole: &Vec<IpAddress>, part: &Vec<IpAddress>) -> (all: bool)
    ensures
        all == part@.to_set().subset_of(whole@.to_set()),
{
    let mut i: usize = 0;
    while i < part.len()
        invariant
            i <= part.len(),
            forall|j: int| 0 <= j < i ==> whole@.contains(#[trigger] part@[j]),
        decreases part.len() - i,
    {
        if !contains_ip(whole, part[i]) {
            proof {
                assert(part@.contains(part@[i as int]));
                assert(part@.to_set().contains(part@[i as int]));
                assert(!whole@.to_set().contains(part@[i as int]));
            }
            return false;
        }
        i += 1;
    }
    proof {
        assert forall|x: IpAddress| part@.to_set().contains(x) implies whole@.to_set().contains(
            x,
        ) by {
            let j = choose|j: int| 0 <= j < part@.len() && part@[j] == x;
            assert(whole@.contains(part@[j]));
        }
    }
    true
}

/// Whether two lists hold the same addresses, whatever their order and however
/// often each occurs.
pub fn same_ip_set(left: &Vec<IpAddress>, right: &Vec<IpAddress>) -> (same: bool)
    ensures
        same == (left@.to_set() == right@.to_set()),
{
    let forth = covers(left, right);
    let back = covers(right, left);
    proof {
        if forth && back {
            assert(left@.to_set() =~= right@.to_set());
        }
    }
    forth && back
}

/// Adds to `acc` the addresses of `more` that it does not hold yet.
pub fn absorb(acc: &mut Vec<IpAddress>, more: &Vec<IpAddress>)
    ensures
        final(acc)@ == merged(old(acc)@, more@),
{
    let mut i: usize = 0;
    while i < more.len()
        invariant
            i <= more.len(),
            acc@ == merged(old(acc)@, more@.take(i as int)),
        decreases more.len() - i,
    {
        proof {
            assert(more@.take(i + 1).drop_last() =~= more@.take(i as int));
        }
        if !contains_ip(acc, more[i]) {
            acc.push(more[i]);
        }
        i += 1;
    }
    proof {
        assert(more@.take(i as int) =~= more@);
    }
}

} // verus!
