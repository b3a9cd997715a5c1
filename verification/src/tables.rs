//! The two ledger tables, kept as association lists with unique keys.
//!
//! Balances are `(address, quantity)` pairs; allowances are
//! `(owner, spender, quantity)` triples plus the list of owners that hold an
//! allowance sub-table at all (absence of a sub-table and absence of an entry
//! are distinguishable states of the ledger). Each list is abstracted to a
//! `Map` (or `Set`) for the contracts, and the lemmas here connect the
//! executable list operations to those maps.

use vstd::prelude::*;

verus! {

/// An account identity: an opaque fixed-size binary value, compared by exact
/// byte equality.
pub type Address = [u8; 32];

/// Byte-for-byte equality of two account identities.
pub fn addr_eq(a: &Address, b: &Address) -> (r: bool)
    ensures
        r == (a@ == b@),
{
    let mut i: usize = 0;
    while i < 32
        invariant
            i <= 32,
            forall|j: int| 0 <= j < i ==> a@[j] == b@[j],
        decreases 32 - i,
    {
        if a[i] != b[i] {
            return false;
        }
        i += 1;
    }
    proof {
        assert(a@ =~= b@);
    }
    true
}

// ---------------------------------------------------------------------------
// Balance table
// ---------------------------------------------------------------------------

/// No two balance entries share an address.
pub open spec fn bal_keys_unique(s: Seq<(Address, u64)>) -> bool {
    forall|i: int, j: int| 0 <= i < j < s.len() ==> s[i].0@ != s[j].0@
}

/// The mapping a balance list denotes.
pub open spec fn bal_map(s: Seq<(Address, u64)>) -> Map<Seq<u8>, u64>
    decreases s.len(),
{
    if s.len() == 0 {
        Map::empty()
    } else {
        bal_map(s.drop_last()).insert(s.last().0@, s.last().1)
    }
}

/// The total quantity held across every entry of a balance list.
pub open spec fn bal_sum(s: Seq<(Address, u64)>) -> int
    decreases s.len(),
{
    if s.len() == 0 {
        0
    } else {
        bal_sum(s.drop_last()) + s.last().1
    }
}

/// A sparse lookup: an absent key reads as a quantity of zero.
pub open spec fn lookup_or_zero(m: Map<Seq<u8>, u64>, k: Seq<u8>) -> u64 {
    if m.dom().contains(k) {
        m[k]
    } else {
        0
    }
}

proof fn lemma_bal_map_absent(s: Seq<(Address, u64)>, k: Seq<u8>)
    requires
        forall|i: int| 0 <= i < s.len() ==> s[i].0@ != k,
    ensures
        !bal_map(s).dom().contains(k),
    decreases s.len(),
{
    if s.len() > 0 {
        lemma_bal_map_absent(s.drop_last(), k);
    }
}

proof fn lemma_bal_map_at(s: Seq<(Address, u64)>, i: int)
    requires
        bal_keys_unique(s),
        0 <= i < s.len(),
    ensures
        bal_map(s).dom().contains(s[i].0@),
        bal_map(s)[s[i].0@] == s[i].1,
    decreases s.len(),
{
    if i < s.len() - 1 {
        lemma_bal_map_at(s.drop_last(), i);
    }
}

proof fn lemma_bal_map_index_exists(s: Seq<(Address, u64)>, k: Seq<u8>)
    requires
        bal_map(s).dom().contains(k),
    ensures
        exists|i: int| 0 <= i < s.len() && s[i].0@ == k,
    decreases s.len(),
{
    if s.len() > 0 && s.last().0@ != k {
        lemma_bal_map_index_exists(s.drop_last(), k);
    }
}

proof fn lemma_bal_map_update(s: Seq<(Address, u64)>, i: int, p: (Address, u64))
    requires
        bal_keys_unique(s),
        0 <= i < s.len(),
        p.0@ == s[i].0@,
    ensures
        bal_map(s.update(i, p)) == bal_map(s).insert(p.0@, p.1),
    decreases s.len(),
{
    if i == s.len() - 1 {
        assert(s.update(i, p).drop_last() =~= s.drop_last());
        assert(bal_map(s.update(i, p)) =~= bal_map(s).insert(p.0@, p.1));
    } else {
        assert(s.update(i, p).drop_last() =~= s.drop_last().update(i, p));
        lemma_bal_map_update(s.drop_last(), i, p);
        assert(bal_map(s.update(i, p)) =~= bal_map(s).insert(p.0@, p.1));
    }
}

proof fn lemma_bal_sum_update(s: Seq<(Address, u64)>, i: int, p: (Address, u64))
    requires
        0 <= i < s.len(),
    ensures
        bal_sum(s.update(i, p)) == bal_sum(s) - s[i].1 + p.1,
    decreases s.len(),
{
    if i == s.len() - 1 {
        assert(s.update(i, p).drop_last() =~= s.drop_last());
    } else {
        assert(s.update(i, p).drop_last() =~= s.drop_last().update(i, p));
        lemma_bal_sum_update(s.drop_last(), i, p);
    }
}

proof fn lemma_bal_sum_nonneg(s: Seq<(Address, u64)>)
    ensures
        bal_sum(s) >= 0,
    decreases s.len(),
{
    if s.len() > 0 {
        lemma_bal_sum_nonneg(s.drop_last());
    }
}

proof fn lemma_bal_sum_entry(s: Seq<(Address, u64)>, i: int)
    requires
        0 <= i < s.len(),
    ensures
        s[i].1 <= bal_sum(s),
    decreases s.len(),
{
    if i == s.len() - 1 {
        lemma_bal_sum_nonneg(s.drop_last());
    } else {
        lemma_bal_sum_entry(s.drop_last(), i);
    }
}

proof fn lemma_bal_sum_two(s: Seq<(Address, u64)>, i: int, j: int)
    requires
        0 <= i < s.len(),
        0 <= j < s.len(),
        i != j,
    ensures
        s[i].1 + s[j].1 <= bal_sum(s),
{
    let s2 = s.update(i, (s[i].0, 0u64));
    lemma_bal_sum_update(s, i, (s[i].0, 0u64));
    lemma_bal_sum_entry(s2, j);
}

/// Two distinct addresses never hold more than the whole table together.
pub proof fn lemma_bal_two_bounded(s: Seq<(Address, u64)>, a: Seq<u8>, b: Seq<u8>)
    requires
        bal_keys_unique(s),
        a != b,
    ensures
        lookup_or_zero(bal_map(s), a) + lookup_or_zero(bal_map(s), b) <= bal_sum(s),
{
    let m = bal_map(s);
    lemma_bal_sum_nonneg(s);
    if m.dom().contains(a) && m.dom().contains(b) {
        lemma_bal_map_index_exists(s, a);
        lemma_bal_map_index_exists(s, b);
        let i = choose|i: int| 0 <= i < s.len() && s[i].0@ == a;
        let j = choose|j: int| 0 <= j < s.len() && s[j].0@ == b;
        lemma_bal_map_at(s, i);
        lemma_bal_map_at(s, j);
        lemma_bal_sum_two(s, i, j);
    } else if m.dom().contains(a) {
        lemma_bal_map_index_exists(s, a);
        let i = choose|i: int| 0 <= i < s.len() && s[i].0@ == a;
        lemma_bal_map_at(s, i);
        lemma_bal_sum_entry(s, i);
    } else if m.dom().contains(b) {
        lemma_bal_map_index_exists(s, b);
        let j = choose|j: int| 0 <= j < s.len() && s[j].0@ == b;
        lemma_bal_map_at(s, j);
        lemma_bal_sum_entry(s, j);
    }
}

/// Sparse read of a balance list.
pub fn bal_get(v: &Vec<(Address, u64)>, k: &Address) -> (r: u64)
    requires
        bal_keys_unique(v@),
    ensures
        r == lookup_or_zero(bal_map(v@), k@),
{
    let n = v.len();
    let mut i: usize = 0;
    while i < n
        invariant
            n == v@.len(),
            i <= n,
            bal_keys_unique(v@),
            forall|j: int| 0 <= j < i ==> v@[j].0@ != k@,
        decreases n - i,
    {
        if addr_eq(&v[i].0, k) {
            proof {
                lemma_bal_map_at(v@, i as int);
            }
            return v[i].1;
        }
        i += 1;
    }
    proof {
        lemma_bal_map_absent(v@, k@);
    }
    0
}

/// Whether an address has an explicit balance entry (even one of zero).
pub fn bal_contains(v: &Vec<(Address, u64)>, k: &Address) -> (r: bool)
    requires
        bal_keys_unique(v@),
    ensures
        r == bal_map(v@).dom().contains(k@),
{
    let n = v.len();
    let mut i: usize = 0;
    while i < n
        invariant
            n == v@.len(),
            i <= n,
            bal_keys_unique(v@),
            forall|j: int| 0 <= j < i ==> v@[j].0@ != k@,
        decreases n - i,
    {
        if addr_eq(&v[i].0, k) {
            proof {
                lemma_bal_map_at(v@, i as int);
            }
            return true;
        }
        i += 1;
    }
    proof {
        lemma_bal_map_absent(v@, k@);
    }
    false
}

/// Writes `val` under `k`, creating the entry when it is absent.
pub fn bal_set(v: &mut Vec<(Address, u64)>, k: &Address, val: u64)
    requires
        bal_keys_unique(old(v)@),
    ensures
        bal_keys_unique(final(v)@),
        bal_map(final(v)@) == bal_map(old(v)@).insert(k@, val),
        bal_sum(final(v)@) == bal_sum(old(v)@) - lookup_or_zero(bal_map(old(v)@), k@) + val,
{
    let n = v.len();
    let mut i: usize = 0;
    while i < n
        invariant
            n == v@.len(),
            i <= n,
            v@ == old(v)@,
            bal_keys_unique(v@),
            forall|j: int| 0 <= j < i ==> v@[j].0@ != k@,
        decreases n - i,
    {
        if addr_eq(&v[i].0, k) {
            proof {
                lemma_bal_map_at(v@, i as int);
                lemma_bal_map_update(v@, i as int, (*k, val));
                lemma_bal_sum_update(v@, i as int, (*k, val));
            }
            v[i] = (*k, val);
            return ;
        }
        i += 1;
    }
    proof {
        lemma_bal_map_absent(v@, k@);
        assert(v@.push((*k, val)).drop_last() =~= v@);
        assert(bal_map(v@.push((*k, val))) =~= bal_map(v@).insert(k@, val));
    }
    v.push((*k, val));
}

// ---------------------------------------------------------------------------
// Allowance table
// ---------------------------------------------------------------------------

/// No two allowance entries share an (owner, spender) pair.
pub open spec fn allow_keys_unique(s: Seq<(Address, Address, u64)>) -> bool {
    forall|i: int, j: int|
        0 <= i < j < s.len() ==> !(s[i].0@ == s[j].0@ && s[i].1@ == s[j].1@)
}

/// The mapping an allowance list denotes, keyed by (owner, spender).
pub open spec fn allow_map(s: Seq<(Address, Address, u64)>) -> Map<(Seq<u8>, Seq<u8>), u64>
    decreases s.len(),
{
    if s.len() == 0 {
        Map::empty()
    } else {
        allow_map(s.drop_last()).insert((s.last().0@, s.last().1@), s.last().2)
    }
}

/// A sparse allowance lookup: an absent pair reads as zero.
pub open spec fn allowance_or_zero(m: Map<(Seq<u8>, Seq<u8>), u64>, o: Seq<u8>, sp: Seq<u8>) -> u64 {
    if m.dom().contains((o, sp)) {
        m[(o, sp)]
    } else {
        0
    }
}

proof fn lemma_allow_map_absent(s: Seq<(Address, Address, u64)>, k: (Seq<u8>, Seq<u8>))
    requires
        forall|i: int| 0 <= i < s.len() ==> !(s[i].0@ == k.0 && s[i].1@ == k.1),
    ensures
        !allow_map(s).dom().contains(k),
    decreases s.len(),
{
    if s.len() > 0 {
        lemma_allow_map_absent(s.drop_last(), k);
    }
}

proof fn lemma_allow_map_at(s: Seq<(Address, Address, u64)>, i: int)
    requires
        allow_keys_unique(s),
        0 <= i < s.len(),
    ensures
        allow_map(s).dom().contains((s[i].0@, s[i].1@)),
        allow_map(s)[(s[i].0@, s[i].1@)] == s[i].2,
    decreases s.len(),
{
    if i < s.len() - 1 {
        lemma_allow_map_at(s.drop_last(), i);
    }
}

proof fn lemma_allow_map_update(s: Seq<(Address, Address, u64)>, i: int, p: (Address, Address, u64))
    requires
        allow_keys_unique(s),
        0 <= i < s.len(),
        p.0@ == s[i].0@,
        p.1@ == s[i].1@,
    ensures
        allow_map(s.update(i, p)) == allow_map(s).insert((p.0@, p.1@), p.2),
    decreases s.len(),
{
    if i == s.len() - 1 {
        assert(s.update(i, p).drop_last() =~= s.drop_last());
        assert(allow_map(s.update(i, p)) =~= allow_map(s).insert((p.0@, p.1@), p.2));
    } else {
        assert(s.update(i, p).drop_last() =~= s.drop_last().update(i, p));
        lemma_allow_map_update(s.drop_last(), i, p);
        assert(allow_map(s.update(i, p)) =~= allow_map(s).insert((p.0@, p.1@), p.2));
    }
}

/// Sparse read of an allowance list.
pub fn allow_get(v: &Vec<(Address, Address, u64)>, o: &Address, sp: &Address) -> (r: u64)
    requires
        allow_keys_unique(v@),
    ensures
        r == allowance_or_zero(allow_map(v@), o@, sp@),
{
    let n = v.len();
    let mut i: usize = 0;
    while i < n
        invariant
            n == v@.len(),
            i <= n,
            allow_keys_unique(v@),
            forall|j: int| 0 <= j < i ==> !(v@[j].0@ == o@ && v@[j].1@ == sp@),
        decreases n - i,
    {
        if addr_eq(&v[i].0, o) && addr_eq(&v[i].1, sp) {
            proof {
                lemma_allow_map_at(v@, i as int);
            }
            return v[i].2;
        }
        i += 1;
    }
    proof {
        lemma_allow_map_absent(v@, (o@, sp@));
    }
    0
}

/// Writes `val` under (`o`, `sp`), creating the entry when it is absent.
pub fn allow_set(v: &mut Vec<(Address, Address, u64)>, o: &Address, sp: &Address, val: u64)
    requires
        allow_keys_unique(old(v)@),
    ensures
        allow_keys_unique(final(v)@),
        allow_map(final(v)@) == allow_map(old(v)@).insert((o@, sp@), val),
        forall|i: int|
            0 <= i < final(v)@.len() ==> (final(v)@[i].0@ == o@ || exists|j: int|
                0 <= j < old(v)@.len() && final(v)@[i].0@ == old(v)@[j].0@),
{
    let n = v.len();
    let mut i: usize = 0;
    while i < n
        invariant
            n == v@.len(),
            i <= n,
            v@ == old(v)@,
            allow_keys_unique(v@),
            forall|j: int| 0 <= j < i ==> !(v@[j].0@ == o@ && v@[j].1@ == sp@),
        decreases n - i,
    {
        if addr_eq(&v[i].0, o) && addr_eq(&v[i].1, sp) {
            proof {
                lemma_allow_map_at(v@, i as int);
                lemma_allow_map_update(v@, i as int, (*o, *sp, val));
            }
            v[i] = (*o, *sp, val);
            return ;
        }
        i += 1;
    }
    proof {
        lemma_allow_map_absent(v@, (o@, sp@));
        assert(v@.push((*o, *sp, val)).drop_last() =~= v@);
        assert(allow_map(v@.push((*o, *sp, val))) =~= allow_map(v@).insert((o@, sp@), val));
    }
    v.push((*o, *sp, val));
}

// ---------------------------------------------------------------------------
// Owners that hold an allowance sub-table
// ---------------------------------------------------------------------------

/// The set of identities an owner list denotes.
pub open spec fn addr_set(s: Seq<Address>) -> Set<Seq<u8>>
    decreases s.len(),
{
    if s.len() == 0 {
        Set::empty()
    } else {
        addr_set(s.drop_last()).insert(s.last()@)
    }
}

proof fn lemma_addr_set_absent(s: Seq<Address>, k: Seq<u8>)
    requires
        forall|i: int| 0 <= i < s.len() ==> s[i]@ != k,
    ensures
        !addr_set(s).contains(k),
    decreases s.len(),
{
    if s.len() > 0 {
        lemma_addr_set_absent(s.drop_last(), k);
    }
}

proof fn lemma_addr_set_at(s: Seq<Address>, i: int)
    requires
        0 <= i < s.len(),
    ensures
        addr_set(s).contains(s[i]@),
    decreases s.len(),
{
    if i < s.len() - 1 {
        lemma_addr_set_at(s.drop_last(), i);
    }
}

/// Whether an identity stands in an owner list.
pub fn addrs_contain(v: &Vec<Address>, k: &Address) -> (r: bool)
    ensures
        r == addr_set(v@).contains(k@),
{
    let n = v.len();
    let mut i: usize = 0;
    while i < n
        invariant
            n == v@.len(),
            i <= n,
            forall|j: int| 0 <= j < i ==> v@[j]@ != k@,
        decreases n - i,
    {
        if addr_eq(&v[i], k) {
            proof {
                lemma_addr_set_at(v@, i as int);
            }
            return true;
        }
        i += 1;
    }
    proof {
        lemma_addr_set_absent(v@, k@);
    }
    false
}

} // verus!
