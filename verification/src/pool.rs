//! Allocation of a free address from the pool.
//!
//! Allocation keeps no state: every call is given the addresses that are
//! taken at that moment. Of the free addresses it picks the lowest, so that
//! the same addresses taken give the same address. Two allocations that run
//! side by side can pick the same address; the caller has to run one
//! provisioning at a time.

use crate::address::{in_pool, Address, POOL_SIZE};
use crate::error::ProvisionError;
use crate::peer::Peer;
use std::collections::HashSet;
use vstd::prelude::*;
use vstd::set_lib::{lemma_int_range, lemma_len_subset, lemma_map_size, set_int_range};

verus! {

/// An address of the pool that is not among the taken ones.
pub open spec fn is_free(taken: Seq<Address>, addr: Address) -> bool {
    in_pool(addr) && !taken.contains(addr)
}

/// A free address that no free address is lower than.
pub open spec fn is_lowest_free(taken: Seq<Address>, addr: Address) -> bool {
    is_free(taken, addr) && forall|other: Address|
        is_free(taken, other) ==> addr.value() <= other.value()
}

/// The lowest free address, if any address is free.
pub open spec fn lowest_free(taken: Seq<Address>) -> Option<Address> {
    if exists|addr: Address| is_lowest_free(taken, addr) {
        Some(choose|addr: Address| is_lowest_free(taken, addr))
    } else {
        None
    }
}

/// What allocation gives: the lowest free address, or `PoolExhausted`.
pub open spec fn allocation(taken: Seq<Address>) -> Result<Address, ProvisionError> {
    match lowest_free(taken) {
        Some(addr) => Ok(addr),
        None => Err(ProvisionError::PoolExhausted),
    }
}

/// The addresses of the pool, as a set.
pub open spec fn pool() -> Set<Address> {
    Set::new(|addr: Address| in_pool(addr))
}

/// The pool address in a given place, counting from the lowest.
pub open spec fn pool_address(place: int) -> Address {
    Address { a: 10, b: 0, c: (place / 253) as u8, d: (place % 253 + 2) as u8 }
}

/// The addresses that the peers hold, in the order of the peers.
pub open spec fn addresses_of(peers: Seq<Peer>) -> Seq<Address> {
    peers.filter(|peer: Peer| peer.ip is Some).map_values(|peer: Peer| peer.ip->0)
}

/// Allocates the lowest address of the pool that is not taken.
///
/// Fails with `PoolExhausted` exactly when every address of the pool is
/// taken.
pub fn allocate(taken: &Vec<Address>) -> (result: Result<Address, ProvisionError>)
    ensures
        result == allocation(taken@),
        match result {
            Ok(addr) => is_lowest_free(taken@, addr),
            Err(error) => error == ProvisionError::PoolExhausted && forall|addr: Address|
                in_pool(addr) ==> taken@.contains(addr),
        },
        taken@.to_set().len() < POOL_SIZE ==> result is Ok,
{
    broadcast use vstd::std_specs::hash::group_hash_axioms;

    let mut numbers: HashSet<u32> = HashSet::new();
    let mut k: usize = 0;
    while k < taken.len()
        invariant
            k <= taken.len(),
            forall|n: u32|
                numbers@.contains(n) <==> exists|j: int|
                    0 <= j < k && (#[trigger] taken@[j]).value() == n,
        decreases taken.len() - k,
    {
        let ghost before = numbers@;
        let n = taken[k].number();
        numbers.insert(n);
        k = k + 1;
        assert forall|m: u32|
            numbers@.contains(m) <==> exists|j: int|
                0 <= j < k && (#[trigger] taken@[j]).value() == m by {
            if m == n {
                assert(taken@[k - 1].value() == m);
            } else if numbers@.contains(m) {
                assert(before.contains(m));
            } else if exists|j: int| 0 <= j < k && (#[trigger] taken@[j]).value() == m {
                let j = choose|j: int| 0 <= j < k && (#[trigger] taken@[j]).value() == m;
                assert(j < k - 1);
                assert(before.contains(m));
            }
        }
    }
    let mut c: u8 = 0;
    while c < 255
        invariant
            k == taken.len(),
            c <= 255,
            forall|n: u32|
                numbers@.contains(n) <==> exists|j: int|
                    0 <= j < k && (#[trigger] taken@[j]).value() == n,
            forall|addr: Address| in_pool(addr) && addr.c < c ==> taken@.contains(addr),
        decreases 255 - c,
    {
        let mut d: u8 = 2;
        while d < 255
            invariant
                k == taken.len(),
                c < 255,
                2 <= d <= 255,
                forall|n: u32|
                    numbers@.contains(n) <==> exists|j: int|
                        0 <= j < k && (#[trigger] taken@[j]).value() == n,
                forall|addr: Address|
                    in_pool(addr) && (addr.c < c || (addr.c == c && addr.d < d))
                        ==> taken@.contains(addr),
            decreases 255 - d,
        {
            let candidate = Address::new(10, 0, c, d);
            let n = candidate.number();
            if !numbers.contains(&n) {
                proof {
                    if taken@.contains(candidate) {
                        let j = choose|j: int| 0 <= j < taken@.len() && taken@[j] == candidate;
                        assert(taken@[j].value() == n);
                    }
                    lemma_lowest_free_is_one(taken@, candidate);
                }
                return Ok(candidate);
            }
            proof {
                let j = choose|j: int| 0 <= j < k && (#[trigger] taken@[j]).value() == n;
                lemma_value_injective(taken@[j], candidate);
                assert(taken@.contains(candidate));
            }
            d = d + 1;
        }
        c = c + 1;
    }
    proof {
        if taken@.to_set().len() < POOL_SIZE {
            lemma_pool_has_room(taken@);
        }
        assert(forall|addr: Address| !is_lowest_free(taken@, addr));
    }
    Err(ProvisionError::PoolExhausted)
}

/// Allocates an address for a new peer, given all the peers that are known:
/// the lowest address of the pool that none of them holds.
pub fn get_ip(peers: &Vec<Peer>) -> (result: Result<Address, ProvisionError>)
    ensures
        result == allocation(addresses_of(peers@)),
        match result {
            Ok(addr) => is_lowest_free(addresses_of(peers@), addr),
            Err(error) => error == ProvisionError::PoolExhausted && forall|addr: Address|
                in_pool(addr) ==> addresses_of(peers@).contains(addr),
        },
        addresses_of(peers@).to_set().len() < POOL_SIZE ==> result is Ok,
{
    let mut taken: Vec<Address> = Vec::new();
    let mut k: usize = 0;
    while k < peers.len()
        invariant
            k <= peers.len(),
            taken@ == addresses_of(peers@.take(k as int)),
        decreases peers.len() - k,
    {
        proof {
            lemma_addresses_step(peers@.take(k as int + 1));
            assert(peers@.take(k as int + 1).drop_last() =~= peers@.take(k as int));
        }
        match peers[k].ip {
            Some(addr) => {
                taken.push(addr);
            },
            None => {},
        }
        k = k + 1;
    }
    assert(peers@.take(k as int) =~= peers@);
    allocate(&taken)
}

/// While fewer addresses are taken than the pool holds, one is free.
pub proof fn lemma_pool_has_room(taken: Seq<Address>)
    requires
        taken.to_set().len() < POOL_SIZE,
    ensures
        exists|addr: Address| is_free(taken, addr),
{
    if forall|addr: Address| in_pool(addr) ==> taken.contains(addr) {
        lemma_pool_size();
        vstd::seq_lib::seq_to_set_is_finite(taken);
        assert(pool().subset_of(taken.to_set()));
        lemma_len_subset(pool(), taken.to_set());
    } else {
        let addr = choose|addr: Address| in_pool(addr) && !taken.contains(addr);
        assert(is_free(taken, addr));
    }
}

/// The pool holds 64515 addresses.
pub proof fn lemma_pool_size()
    ensures
        pool().finite(),
        pool().len() == POOL_SIZE,
{
    let places = set_int_range(0, POOL_SIZE as int);
    lemma_int_range(0, POOL_SIZE as int);
    let at = |place: int| pool_address(place);
    assert(places.map(at) =~= pool()) by {
        assert forall|addr: Address| pool().contains(addr) implies places.map(at).contains(
            addr,
        ) by {
            let place = addr.c as int * 253 + (addr.d as int - 2);
            assert(places.contains(place));
            assert(pool_address(place) == addr);
        }
    }
    places.lemma_map_finite(at);
    assert forall|p: int, q: int| at(p) == at(q) && places.contains(p) && places.contains(
        q,
    ) implies p == q by {
        assert(p == (p / 253) * 253 + p % 253);
        assert(q == (q / 253) * 253 + q % 253);
    }
    lemma_map_size(places, pool(), at);
}

/// Allocation goes by the set of the taken addresses: neither their order
/// nor a repetition among them changes what it gives.
pub proof fn lemma_allocation_by_set(first: Seq<Address>, second: Seq<Address>)
    requires
        first.to_set() == second.to_set(),
    ensures
        allocation(first) == allocation(second),
{
    assert forall|addr: Address| first.contains(addr) == second.contains(addr) by {
        assert(first.to_set().contains(addr) <==> first.contains(addr));
        assert(second.to_set().contains(addr) <==> second.contains(addr));
    }
    assert forall|addr: Address| is_lowest_free(first, addr) == is_lowest_free(second, addr) by {
        assert(forall|other: Address| is_free(first, other) == is_free(second, other));
    }
    if exists|addr: Address| is_lowest_free(first, addr) {
        let addr = choose|addr: Address| is_lowest_free(first, addr);
        lemma_lowest_free_is_one(second, addr);
    } else {
        assert(forall|addr: Address| !is_lowest_free(second, addr));
    }
}

/// There is one lowest free address at most.
pub proof fn lemma_lowest_free_is_one(taken: Seq<Address>, addr: Address)
    requires
        is_lowest_free(taken, addr),
    ensures
        lowest_free(taken) == Some(addr),
{
    let chosen = choose|addr: Address| is_lowest_free(taken, addr);
    lemma_value_injective(chosen, addr);
}

/// Addresses with the same number are the same address.
pub proof fn lemma_value_injective(first: Address, second: Address)
    requires
        first.value() == second.value(),
    ensures
        first == second,
{
    let low = |addr: Address| addr.b as int * 65536 + addr.c as int * 256 + addr.d as int;
    assert(0 <= low(first) < 16777216 && 0 <= low(second) < 16777216);
    assert(first.a == second.a);
    assert(first.b == second.b) by {
        let lower = |addr: Address| addr.c as int * 256 + addr.d as int;
        assert(0 <= lower(first) < 65536 && 0 <= lower(second) < 65536);
    }
}

/// The address of each peer that has one is among the addresses of the
/// peers.
pub proof fn lemma_addresses_hold(peers: Seq<Peer>, i: int)
    requires
        0 <= i < peers.len(),
        peers[i].ip is Some,
    ensures
        addresses_of(peers).contains(peers[i].ip->0),
{
    let has = |peer: Peer| peer.ip is Some;
    let ip = |peer: Peer| peer.ip->0;
    let holders = peers.filter(has);
    peers.lemma_filter_contains(has, i);
    let j = choose|j: int| 0 <= j < holders.len() && holders[j] == peers[i];
    assert(holders.map_values(ip)[j] == peers[i].ip->0);
}

/// The addresses of some peers are those of all but the last, followed by
/// the last one's where it has one.
proof fn lemma_addresses_step(peers: Seq<Peer>)
    requires
        peers.len() > 0,
    ensures
        addresses_of(peers) == if peers.last().ip is Some {
            addresses_of(peers.drop_last()).push(peers.last().ip->0)
        } else {
            addresses_of(peers.drop_last())
        },
{
    let has = |peer: Peer| peer.ip is Some;
    let ip = |peer: Peer| peer.ip->0;
    reveal(Seq::filter);
    assert(peers.filter(has) == if has(peers.last()) {
        peers.drop_last().filter(has).push(peers.last())
    } else {
        peers.drop_last().filter(has)
    });
    if has(peers.last()) {
        assert(peers.drop_last().filter(has).push(peers.last()).map_values(ip)
            =~= peers.drop_last().filter(has).map_values(ip).push(ip(peers.last())));
    }
}

} // verus!
