//! The ledger itself: metadata, the balance table, the allowance table, and
//! the four operations with the three read-only queries.
//!
//! Every mutating operation settles to a deterministic outcome without
//! aborting: an operation whose precondition fails leaves the tables exactly
//! as they were, and either emits a notification (sometimes carrying the
//! amount 0) or stays silent, as the operation's rules dictate. Each
//! operation's contract states the next state as a function of the old one.

use crate::events::{SetAllowanceEvent, TransferEvent};
use crate::tables::{
    addr_eq, addr_set, addrs_contain, allow_get, allow_keys_unique, allow_map, allow_set,
    allowance_or_zero, bal_contains, bal_get, bal_keys_unique, bal_map, bal_set, bal_sum,
    lemma_bal_two_bounded, lookup_or_zero, Address,
};
use vstd::prelude::*;
use vstd::string::StringExecFns;

verus! {

/// The whole supply, credited to the initializing caller at creation.
pub const INITIAL_SUPPLY: u64 = 10000000000000000;

/// The immutable descriptive record fixed at initialization.
pub struct Token {
    pub name: String,
    pub symbol: String,
    pub decimals: u8,
    pub total_supply: u64,
}

/// The ledger state as the contracts speak of it: metadata fields, the
/// balance mapping, the set of owners that hold an allowance sub-table, and
/// the allowance mapping keyed by (owner, spender). Absence of a key in
/// either mapping reads as a quantity of zero.
pub struct LedgerView {
    pub name: Seq<char>,
    pub symbol: Seq<char>,
    pub decimals: u8,
    pub total_supply: u64,
    pub balances: Map<Seq<u8>, u64>,
    pub allowance_owners: Set<Seq<u8>>,
    pub allowances: Map<(Seq<u8>, Seq<u8>), u64>,
}

/// `balance[a]`, with an absent account reading as zero.
pub open spec fn spec_balance(v: LedgerView, a: Seq<u8>) -> u64 {
    lookup_or_zero(v.balances, a)
}

/// `allowance[o][s]`, with absence at either level reading as zero.
pub open spec fn spec_allowance(v: LedgerView, o: Seq<u8>, s: Seq<u8>) -> u64 {
    allowance_or_zero(v.allowances, o, s)
}

/// The state a fresh ledger starts in: the given metadata, the whole supply
/// credited to the initializing owner, and no allowances at all.
pub open spec fn init_spec(owner: Seq<u8>) -> LedgerView {
    LedgerView {
        name: "Moon Rock"@,
        symbol: "MOON"@,
        decimals: 8,
        total_supply: INITIAL_SUPPLY,
        balances: Map::empty().insert(owner, INITIAL_SUPPLY),
        allowance_owners: Set::empty(),
        allowances: Map::empty(),
    }
}

/// The state after a direct transfer. A sufficient balance moves the amount
/// (a self-transfer moves nothing); an insufficient one changes nothing.
pub open spec fn transfer_spec(v: LedgerView, from: Seq<u8>, to: Seq<u8>, amount: u64) -> LedgerView {
    let fb = spec_balance(v, from);
    let tb = spec_balance(v, to);
    if fb >= amount {
        if from == to {
            LedgerView { balances: v.balances.insert(from, fb), ..v }
        } else {
            LedgerView {
                balances: v.balances.insert(from, (fb - amount) as u64).insert(
                    to,
                    (tb + amount) as u64,
                ),
                ..v
            }
        }
    } else {
        v
    }
}

/// The state after an allowance change. Only an owner with an explicit
/// balance entry of at least the amount, who already holds an allowance
/// sub-table, overwrites the spender's bound; every other path changes
/// nothing.
pub open spec fn set_allowance_spec(
    v: LedgerView,
    owner: Seq<u8>,
    spender: Seq<u8>,
    amount: u64,
) -> LedgerView {
    if !v.balances.dom().contains(owner) {
        v
    } else if v.balances[owner] >= amount {
        if v.allowance_owners.contains(owner) {
            LedgerView { allowances: v.allowances.insert((owner, spender), amount), ..v }
        } else {
            v
        }
    } else {
        v
    }
}

/// The notification an allowance change emits: amount 0 for an owner with no
/// balance entry, the requested amount on success, and nothing on the other
/// paths.
pub open spec fn set_allowance_event_spec(
    v: LedgerView,
    owner: Seq<u8>,
    spender: Seq<u8>,
    amount: u64,
) -> Option<(Seq<u8>, Seq<u8>, u64)> {
    if !v.balances.dom().contains(owner) {
        Some((owner, spender, 0u64))
    } else if v.balances[owner] >= amount {
        if v.allowance_owners.contains(owner) {
            Some((owner, spender, amount))
        } else {
            None
        }
    } else {
        None
    }
}

/// The state after a delegated transfer. A sufficient allowance, an existing
/// sub-table and a sufficient owner balance move the amount and use up that
/// much of the allowance; every other path changes nothing. The balance
/// check is the checked-subtraction guard: an allowance may outlive the
/// balance that once covered it, and such a request settles to a silent
/// no-op rather than wrapping.
pub open spec fn transfer_from_spec(
    v: LedgerView,
    spender: Seq<u8>,
    from: Seq<u8>,
    to: Seq<u8>,
    amount: u64,
) -> LedgerView {
    let al = spec_allowance(v, from, spender);
    let fb = spec_balance(v, from);
    let tb = spec_balance(v, to);
    if al >= amount {
        if v.allowance_owners.contains(from) {
            if fb >= amount {
                let v1 = LedgerView {
                    allowances: v.allowances.insert((from, spender), (al - amount) as u64),
                    ..v
                };
                if from == to {
                    LedgerView { balances: v.balances.insert(from, fb), ..v1 }
                } else {
                    LedgerView {
                        balances: v.balances.insert(from, (fb - amount) as u64).insert(
                            to,
                            (tb + amount) as u64,
                        ),
                        ..v1
                    }
                }
            } else {
                v
            }
        } else {
            v
        }
    } else {
        v
    }
}

/// The notification a delegated transfer emits: the requested amount on
/// success, amount 0 when the allowance covers the request but the owner has
/// no sub-table, and nothing when the allowance (or the owner's balance)
/// falls short.
pub open spec fn transfer_from_event_spec(
    v: LedgerView,
    spender: Seq<u8>,
    from: Seq<u8>,
    to: Seq<u8>,
    amount: u64,
) -> Option<(Seq<u8>, Seq<u8>, u64)> {
    let al = spec_allowance(v, from, spender);
    let fb = spec_balance(v, from);
    if al >= amount {
        if v.allowance_owners.contains(from) {
            if fb >= amount {
                Some((from, to, amount))
            } else {
                None
            }
        } else {
            Some((from, to, 0u64))
        }
    } else {
        None
    }
}

/// The fungible-token ledger. The fields are plain values so that a hosting
/// environment (or a test) can persist and restore them; a state handed in
/// from outside must satisfy `wf`, as every state this library produces
/// does.
pub struct PRFC1Implementor {
    pub token: Token,
    pub balances: Vec<(Address, u64)>,
    pub allowance_owners: Vec<Address>,
    pub allowances: Vec<(Address, Address, u64)>,
}

impl View for PRFC1Implementor {
    type V = LedgerView;

    open spec fn view(&self) -> LedgerView {
        LedgerView {
            name: self.token.name@,
            symbol: self.token.symbol@,
            decimals: self.token.decimals,
            total_supply: self.token.total_supply,
            balances: bal_map(self.balances@),
            allowance_owners: addr_set(self.allowance_owners@),
            allowances: allow_map(self.allowances@),
        }
    }
}

impl PRFC1Implementor {
    /// Well-formedness: the table keys are unique, every allowance entry's
    /// owner holds a sub-table, and — supply conservation — the balances sum
    /// to exactly the recorded total supply. Initialization establishes this
    /// and every operation preserves it, so the equation holds after any
    /// sequence of operations.
    pub open spec fn wf(self) -> bool {
        &&& bal_keys_unique(self.balances@)
        &&& allow_keys_unique(self.allowances@)
        &&& (forall|i: int|
            0 <= i < self.allowances@.len() ==> addr_set(self.allowance_owners@).contains(
                (#[trigger] self.allowances@[i]).0@,
            ))
        &&& self.token.total_supply == bal_sum(self.balances@)
    }

    /// Creates the ledger, crediting the whole supply to the initializing
    /// caller. The hosting environment supplies the caller's identity and
    /// guarantees this runs at most once per ledger instance.
    pub fn init(init_owner: Address) -> (r: PRFC1Implementor)
        ensures
            r.wf(),
            r@ == init_spec(init_owner@),
    {
        let mut balances: Vec<(Address, u64)> = Vec::new();
        balances.push((init_owner, INITIAL_SUPPLY));
        let r = PRFC1Implementor {
            token: Token {
                name: String::from_str("Moon Rock"),
                symbol: String::from_str("MOON"),
                decimals: 8u8,
                total_supply: INITIAL_SUPPLY,
            },
            balances,
            allowance_owners: Vec::new(),
            allowances: Vec::new(),
        };
        proof {
            reveal_with_fuel(bal_map, 2);
            reveal_with_fuel(bal_sum, 2);
            assert(r.balances@.drop_last() =~= Seq::<(Address, u64)>::empty());
            assert(bal_map(r.balances@) =~= Map::<Seq<u8>, u64>::empty().insert(
                init_owner@,
                INITIAL_SUPPLY,
            ));
            assert(r@ == init_spec(init_owner@));
        }
        r
    }

    /// Returns a copy of the stored metadata.
    pub fn token(&self) -> (t: Token)
        ensures
            t == self.token,
    {
        Token {
            name: self.token.name.clone(),
            symbol: self.token.symbol.clone(),
            decimals: self.token.decimals,
            total_supply: self.token.total_supply,
        }
    }

    /// Returns `balance[address]`, or zero when the account is absent.
    pub fn balance_of(&self, address: Address) -> (r: u64)
        requires
            self.wf(),
        ensures
            r == spec_balance(self@, address@),
    {
        bal_get(&self.balances, &address)
    }

    /// Returns `allowance[owner][spender]`, or zero when either level is
    /// absent.
    pub fn allowance(&self, owner_address: Address, spender_address: Address) -> (r: u64)
        requires
            self.wf(),
        ensures
            r == spec_allowance(self@, owner_address@, spender_address@),
    {
        allow_get(&self.allowances, &owner_address, &spender_address)
    }

    /// Moves `amount` from the caller to `to_address` when the caller's
    /// balance covers it, and otherwise changes nothing. In both cases the
    /// returned notification carries the originally requested amount, so a
    /// notification alone never proves the movement took effect. The hosting
    /// environment supplies the caller's identity as `from_address` and
    /// publishes the returned notification.
    pub fn transfer(&mut self, from_address: Address, to_address: Address, amount: u64) -> (ev:
        TransferEvent)
        requires
            old(self).wf(),
        ensures
            final(self).wf(),
            final(self)@ == transfer_spec(old(self)@, from_address@, to_address@, amount),
            ev.owner_address@ == from_address@,
            ev.recipient_address@ == to_address@,
            ev.amount == amount,
    {
        let fb = bal_get(&self.balances, &from_address);
        let tb = bal_get(&self.balances, &to_address);
        if fb >= amount {
            if addr_eq(&from_address, &to_address) {
                bal_set(&mut self.balances, &from_address, fb);
            } else {
                proof {
                    lemma_bal_two_bounded(self.balances@, from_address@, to_address@);
                }
                bal_set(&mut self.balances, &from_address, fb - amount);
                bal_set(&mut self.balances, &to_address, tb + amount);
            }
        }
        TransferEvent { owner_address: from_address, recipient_address: to_address, amount }
    }

    /// Sets the bound `spender_address` may move out of the caller's
    /// balance. An owner with no balance entry at all changes nothing and
    /// the notification reports amount 0; an owner whose balance covers the
    /// amount overwrites the bound when a sub-table already exists (the
    /// operation never creates one — an owner's first delegation settles to
    /// a silent no-op); an insufficient balance changes nothing silently.
    /// The hosting environment supplies the caller's identity as
    /// `owner_address`.
    pub fn set_allowance(
        &mut self,
        owner_address: Address,
        spender_address: Address,
        amount: u64,
    ) -> (ev: Option<SetAllowanceEvent>)
        requires
            old(self).wf(),
        ensures
            final(self).wf(),
            final(self)@ == set_allowance_spec(old(self)@, owner_address@, spender_address@, amount),
            (ev is Some) == (set_allowance_event_spec(
                old(self)@,
                owner_address@,
                spender_address@,
                amount,
            ) is Some),
            ev matches Some(e) ==> set_allowance_event_spec(
                old(self)@,
                owner_address@,
                spender_address@,
                amount,
            ) == Some((e.owner_address@, e.spender_address@, e.amount)),
    {
        if !bal_contains(&self.balances, &owner_address) {
            return Some(
                SetAllowanceEvent { owner_address, spender_address, amount: 0 },
            );
        }
        let ob = bal_get(&self.balances, &owner_address);
        if ob >= amount {
            if addrs_contain(&self.allowance_owners, &owner_address) {
                allow_set(&mut self.allowances, &owner_address, &spender_address, amount);
                Some(SetAllowanceEvent { owner_address, spender_address, amount })
            } else {
                None
            }
        } else {
            None
        }
    }

    /// Moves `amount` from `from_address` to `to_address` on the strength of
    /// the allowance `from_address` granted the caller, using up that much of
    /// it. A request the allowance covers while the owner holds no sub-table
    /// changes nothing and the notification reports amount 0; a request
    /// beyond the allowance — or beyond the owner's remaining balance, the
    /// checked-subtraction guard — changes nothing silently. The hosting
    /// environment supplies the caller's identity as `spender_address`.
    pub fn transfer_from(
        &mut self,
        spender_address: Address,
        from_address: Address,
        to_address: Address,
        amount: u64,
    ) -> (ev: Option<TransferEvent>)
        requires
            old(self).wf(),
        ensures
            final(self).wf(),
            final(self)@ == transfer_from_spec(
                old(self)@,
                spender_address@,
                from_address@,
                to_address@,
                amount,
            ),
            (ev is Some) == (transfer_from_event_spec(
                old(self)@,
                spender_address@,
                from_address@,
                to_address@,
                amount,
            ) is Some),
            ev matches Some(e) ==> transfer_from_event_spec(
                old(self)@,
                spender_address@,
                from_address@,
                to_address@,
                amount,
            ) == Some((e.owner_address@, e.recipient_address@, e.amount)),
    {
        let al = allow_get(&self.allowances, &from_address, &spender_address);
        if al < amount {
            return None;
        }
        if !addrs_contain(&self.allowance_owners, &from_address) {
            return Some(
                TransferEvent {
                    owner_address: from_address,
                    recipient_address: to_address,
                    amount: 0,
                },
            );
        }
        let fb = bal_get(&self.balances, &from_address);
        if fb < amount {
            return None;
        }
        let tb = bal_get(&self.balances, &to_address);
        allow_set(&mut self.allowances, &from_address, &spender_address, al - amount);
        if addr_eq(&from_address, &to_address) {
            bal_set(&mut self.balances, &from_address, fb);
        } else {
            proof {
                lemma_bal_two_bounded(self.balances@, from_address@, to_address@);
            }
            bal_set(&mut self.balances, &from_address, fb - amount);
            bal_set(&mut self.balances, &to_address, tb + amount);
        }
        Some(TransferEvent { owner_address: from_address, recipient_address: to_address, amount })
    }
}

} // verus!
