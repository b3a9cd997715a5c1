//! Laws of the ledger, proved once and for all over the state transitions
//! that the operations' contracts are stated with. Supply conservation
//! itself lives in `PRFC1Implementor::wf`: initialization establishes it and
//! every operation's contract carries it forward.

use crate::ledger::{
    init_spec, set_allowance_spec, spec_allowance, spec_balance, transfer_from_event_spec,
    transfer_from_spec, transfer_spec, LedgerView, INITIAL_SUPPLY,
};
use vstd::prelude::*;

verus! {

/// No account ever reads as a negative balance: quantities live in an
/// unsigned domain, and the operations are verified free of wrapping, so the
/// sparse lookup is bounded below by zero in every state.
pub proof fn lemma_no_negative_balance(v: LedgerView, a: Seq<u8>)
    ensures
        spec_balance(v, a) >= 0,
{
}

/// After initialization credits the whole supply to `a`, a transfer of
/// `amt <= INITIAL_SUPPLY` to a distinct account `b` leaves `a` with
/// `INITIAL_SUPPLY - amt` and `b` with `amt`.
pub proof fn lemma_transfer_success(owner: Seq<u8>, b: Seq<u8>, amt: u64)
    requires
        amt <= INITIAL_SUPPLY,
        owner != b,
    ensures
        spec_balance(transfer_spec(init_spec(owner), owner, b, amt), owner) == INITIAL_SUPPLY
            - amt,
        spec_balance(transfer_spec(init_spec(owner), owner, b, amt), b) == amt,
{
}

/// A transfer beyond the sender's balance changes nothing at all. (The
/// notification is still emitted, carrying the requested amount: that is
/// stated unconditionally in `transfer`'s own contract.)
pub proof fn lemma_transfer_insufficient(v: LedgerView, from: Seq<u8>, to: Seq<u8>, amt: u64)
    requires
        amt > spec_balance(v, from),
    ensures
        transfer_spec(v, from, to, amt) == v,
{
}

/// Setting an allowance and then spending all of it moves exactly that
/// amount from the owner to the recipient and uses the allowance up: when
/// owner `a` has a balance entry covering `amt` and already holds an
/// allowance sub-table, `set_allowance(a, b, amt)` followed by
/// `transfer_from(b, a, c, amt)` to a distinct account `c` debits `a` by
/// `amt`, credits `c` by `amt`, and leaves `allowance[a][b]` at zero. The
/// bound on `c`'s balance is the machine limit on an unsigned quantity.
pub proof fn lemma_allowance_round_trip(
    v: LedgerView,
    a: Seq<u8>,
    b: Seq<u8>,
    c: Seq<u8>,
    amt: u64,
)
    requires
        v.balances.dom().contains(a),
        v.balances[a] >= amt,
        v.allowance_owners.contains(a),
        a != c,
        spec_balance(v, c) + amt <= u64::MAX,
    ensures
        ({
            let v2 = transfer_from_spec(set_allowance_spec(v, a, b, amt), b, a, c, amt);
            &&& spec_balance(v2, a) == spec_balance(v, a) - amt
            &&& spec_balance(v2, c) == spec_balance(v, c) + amt
            &&& spec_allowance(v2, a, b) == 0
        }),
{
}

/// A delegated transfer requesting more than the granted allowance changes
/// no balance and no allowance, and emits no notification.
pub proof fn lemma_transfer_from_exceeding_allowance(
    v: LedgerView,
    spender: Seq<u8>,
    from: Seq<u8>,
    to: Seq<u8>,
    amt: u64,
)
    requires
        amt > spec_allowance(v, from, spender),
    ensures
        transfer_from_spec(v, spender, from, to, amt) == v,
        transfer_from_event_spec(v, spender, from, to, amt) is None,
{
}

/// A self-transfer within the sender's balance leaves the balance exactly
/// where it was. (The notification is still emitted: `transfer`'s contract
/// states it unconditionally.)
pub proof fn lemma_self_transfer(v: LedgerView, a: Seq<u8>, amt: u64)
    requires
        amt <= spec_balance(v, a),
    ensures
        spec_balance(transfer_spec(v, a, a, amt), a) == spec_balance(v, a),
{
}

} // verus!
