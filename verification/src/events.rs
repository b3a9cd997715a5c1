//! The notifications the mutating operations emit, and their exact wire
//! layout: a topic of one kind byte (0 = transfer, 1 = set-allowance)
//! followed by the two account identities, and a payload of the amount in
//! eight little-endian bytes.

use crate::tables::Address;
use vstd::prelude::*;

verus! {

/// The eight little-endian bytes of a 64-bit amount.
pub open spec fn u64_le_bytes(v: u64) -> Seq<u8> {
    seq![
        (v & 0xff) as u8,
        ((v >> 8) & 0xff) as u8,
        ((v >> 16) & 0xff) as u8,
        ((v >> 24) & 0xff) as u8,
        ((v >> 32) & 0xff) as u8,
        ((v >> 40) & 0xff) as u8,
        ((v >> 48) & 0xff) as u8,
        ((v >> 56) & 0xff) as u8,
    ]
}

proof fn lemma_and_ff_fits(x: u64)
    ensures
        x & 0xff < 256,
{
    assert(x & 0xff < 256) by (bit_vector);
}

/// Appends the 32 bytes of an account identity.
fn push_address(r: &mut Vec<u8>, a: &Address)
    ensures
        final(r)@ == old(r)@ + a@,
{
    let mut i: usize = 0;
    while i < 32
        invariant
            i <= 32,
            r@ == old(r)@ + a@.subrange(0, i as int),
        decreases 32 - i,
    {
        r.push(a[i]);
        proof {
            assert(old(r)@ + a@.subrange(0, i as int) + seq![a@[i as int]] =~= old(r)@
                + a@.subrange(0, i + 1 as int));
        }
        i += 1;
    }
    proof {
        assert(a@.subrange(0, 32) =~= a@);
    }
}

/// Appends a 64-bit amount as eight little-endian bytes.
fn push_u64_le(r: &mut Vec<u8>, v: u64)
    ensures
        final(r)@ == old(r)@ + u64_le_bytes(v),
{
    proof {
        lemma_and_ff_fits(v);
        lemma_and_ff_fits(v >> 8);
        lemma_and_ff_fits(v >> 16);
        lemma_and_ff_fits(v >> 24);
        lemma_and_ff_fits(v >> 32);
        lemma_and_ff_fits(v >> 40);
        lemma_and_ff_fits(v >> 48);
        lemma_and_ff_fits(v >> 56);
    }
    r.push((v & 0xff) as u8);
    r.push(((v >> 8) & 0xff) as u8);
    r.push(((v >> 16) & 0xff) as u8);
    r.push(((v >> 24) & 0xff) as u8);
    r.push(((v >> 32) & 0xff) as u8);
    r.push(((v >> 40) & 0xff) as u8);
    r.push(((v >> 48) & 0xff) as u8);
    r.push(((v >> 56) & 0xff) as u8);
    proof {
        assert(final(r)@ =~= old(r)@ + u64_le_bytes(v));
    }
}

/// A direct or delegated movement of funds, published whether or not the
/// movement took effect.
pub struct TransferEvent {
    pub owner_address: Address,
    pub recipient_address: Address,
    pub amount: u64,
}

impl TransferEvent {
    /// The topic bytes: kind byte 0, then the owner, then the recipient.
    pub fn topic(&self) -> (r: Vec<u8>)
        ensures
            r@ == seq![0u8] + self.owner_address@ + self.recipient_address@,
    {
        let mut r: Vec<u8> = Vec::new();
        r.push(0u8);
        proof {
            assert(r@ =~= seq![0u8]);
        }
        push_address(&mut r, &self.owner_address);
        push_address(&mut r, &self.recipient_address);
        r
    }

    /// The payload bytes: the amount, little-endian.
    pub fn into_value(self) -> (r: Vec<u8>)
        ensures
            r@ == u64_le_bytes(self.amount),
    {
        let mut r: Vec<u8> = Vec::new();
        push_u64_le(&mut r, self.amount);
        proof {
            assert(Seq::<u8>::empty() + u64_le_bytes(self.amount) =~= u64_le_bytes(self.amount));
        }
        r
    }
}

/// A change (or refused change) of the bound an owner grants a spender.
pub struct SetAllowanceEvent {
    pub owner_address: Address,
    pub spender_address: Address,
    pub amount: u64,
}

impl SetAllowanceEvent {
    /// The topic bytes: kind byte 1, then the owner, then the spender.
    pub fn topic(&self) -> (r: Vec<u8>)
        ensures
            r@ == seq![1u8] + self.owner_address@ + self.spender_address@,
    {
        let mut r: Vec<u8> = Vec::new();
        r.push(1u8);
        proof {
            assert(r@ =~= seq![1u8]);
        }
        push_address(&mut r, &self.owner_address);
        push_address(&mut r, &self.spender_address);
        r
    }

    /// The payload bytes: the amount, little-endian.
    pub fn into_value(self) -> (r: Vec<u8>)
        ensures
            r@ == u64_le_bytes(self.amount),
    {
        let mut r: Vec<u8> = Vec::new();
        push_u64_le(&mut r, self.amount);
        proof {
            assert(Seq::<u8>::empty() + u64_le_bytes(self.amount) =~= u64_le_bytes(self.amount));
        }
        r
    }
}

} // verus!
