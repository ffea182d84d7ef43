use vstd::prelude::*;

use crate::client_state::ClientState;
use crate::client_state_mgr::{
    spec_chargeback, spec_deposit, spec_open_dispute, spec_resolve, spec_withdraw,
    ClientsStatesMgr,
};
use crate::transaction_details::{TransactionDetails, TransactionType};
use crate::transaction_mgr::{journal_wf, TransactionMgr};

verus! {

/// Outcome of routing one incoming action. Every rejection is silent: the
/// action is dropped and processing continues.
#[derive(Clone, Copy, PartialEq, Eq, Structural, Debug)]
pub enum Outcome {
    /// The action was applied.
    Accepted,
    /// The action's shape does not fit its declared type: a missing or
    /// non-positive amount on a deposit/withdrawal, a present amount on a
    /// dispute-lifecycle action, or an unrecognized type.
    RejectedShape,
    /// The referenced transaction id is unknown (or journaled for another
    /// client), or a new transaction id is already taken.
    RejectedReference,
    /// The balance guard refused the mutation: the account is absent, short
    /// of available or held funds, or the new balance would not fit.
    RejectedInsufficientFunds,
}

/// Abstract effect of routing a deposit action.
pub open spec fn spec_route_deposit(
    l: Map<u16, ClientState>,
    j: Map<u32, TransactionDetails>,
    a: TransactionDetails,
) -> (Map<u16, ClientState>, Map<u32, TransactionDetails>, Outcome) {
    if a.transaction_type != TransactionType::Deposit {
        (l, j, Outcome::RejectedShape)
    } else {
        match a.amount {
            None => (l, j, Outcome::RejectedShape),
            Some(amt) => if amt <= 0 {
                (l, j, Outcome::RejectedShape)
            } else if j.contains_key(a.tx) {
                (l, j, Outcome::RejectedReference)
            } else {
                let step = spec_deposit(l, a.client, amt as int);
                if step.1 {
                    (step.0, j.insert(a.tx, a), Outcome::Accepted)
                } else {
                    (l, j, Outcome::RejectedInsufficientFunds)
                }
            },
        }
    }
}

/// Abstract effect of routing a withdrawal action.
pub open spec fn spec_route_withdrawal(
    l: Map<u16, ClientState>,
    j: Map<u32, TransactionDetails>,
    a: TransactionDetails,
) -> (Map<u16, ClientState>, Map<u32, TransactionDetails>, Outcome) {
    if a.transaction_type != TransactionType::Withdrawal {
        (l, j, Outcome::RejectedShape)
    } else {
        match a.amount {
            None => (l, j, Outcome::RejectedShape),
            Some(amt) => if j.contains_key(a.tx) {
                (l, j, Outcome::RejectedReference)
            } else if amt <= 0 {
                (l, j, Outcome::RejectedShape)
            } else {
                let step = spec_withdraw(l, a.client, amt as int);
                if step.1 {
                    (step.0, j.insert(a.tx, a), Outcome::Accepted)
                } else {
                    (l, j, Outcome::RejectedInsufficientFunds)
                }
            },
        }
    }
}

/// The amount journaled under a transaction id, as the dispute lifecycle
/// reads it.
pub open spec fn spec_journaled_amount(j: Map<u32, TransactionDetails>, tx: u32) -> int {
    match j[tx].amount {
        Some(amt) => amt as int,
        None => 0,
    }
}

/// Whether a dispute-lifecycle action finds its referenced record: the id
/// must be journaled for the acting client.
pub open spec fn spec_lookup_ok(j: Map<u32, TransactionDetails>, a: TransactionDetails) -> bool {
    j.contains_key(a.tx) && j[a.tx].client == a.client
}

/// Abstract effect of routing a dispute action.
pub open spec fn spec_route_dispute(
    l: Map<u16, ClientState>,
    j: Map<u32, TransactionDetails>,
    a: TransactionDetails,
) -> (Map<u16, ClientState>, Map<u32, TransactionDetails>, Outcome) {
    if a.transaction_type != TransactionType::Dispute || a.amount is Some {
        (l, j, Outcome::RejectedShape)
    } else if !spec_lookup_ok(j, a) {
        (l, j, Outcome::RejectedReference)
    } else {
        let step = spec_open_dispute(l, a.client, spec_journaled_amount(j, a.tx));
        if step.1 {
            (step.0, j, Outcome::Accepted)
        } else {
            (l, j, Outcome::RejectedInsufficientFunds)
        }
    }
}

/// Abstract effect of routing a resolve action.
pub open spec fn spec_route_resolve(
    l: Map<u16, ClientState>,
    j: Map<u32, TransactionDetails>,
    a: TransactionDetails,
) -> (Map<u16, ClientState>, Map<u32, TransactionDetails>, Outcome) {
    if a.transaction_type != TransactionType::Resolve || a.amount is Some {
        (l, j, Outcome::RejectedShape)
    } else if !spec_lookup_ok(j, a) {
        (l, j, Outcome::RejectedReference)
    } else {
        let step = spec_resolve(l, a.client, spec_journaled_amount(j, a.tx));
        if step.1 {
            (step.0, j, Outcome::Accepted)
        } else {
            (l, j, Outcome::RejectedInsufficientFunds)
        }
    }
}

/// Abstract effect of routing a chargeback action.
pub open spec fn spec_route_chargeback(
    l: Map<u16, ClientState>,
    j: Map<u32, TransactionDetails>,
    a: TransactionDetails,
) -> (Map<u16, ClientState>, Map<u32, TransactionDetails>, Outcome) {
    if a.transaction_type != TransactionType::Chargeback || a.amount is Some {
        (l, j, Outcome::RejectedShape)
    } else if !spec_lookup_ok(j, a) {
        (l, j, Outcome::RejectedReference)
    } else {
        let step = spec_chargeback(l, a.client, spec_journaled_amount(j, a.tx));
        if step.1 {
            (step.0, j, Outcome::Accepted)
        } else {
            (l, j, Outcome::RejectedInsufficientFunds)
        }
    }
}

/// Abstract effect of routing one incoming action, by its declared type.
pub open spec fn spec_route(
    l: Map<u16, ClientState>,
    j: Map<u32, TransactionDetails>,
    a: TransactionDetails,
) -> (Map<u16, ClientState>, Map<u32, TransactionDetails>, Outcome) {
    match a.transaction_type {
        TransactionType::Deposit => spec_route_deposit(l, j, a),
        TransactionType::Withdrawal => spec_route_withdrawal(l, j, a),
        TransactionType::Dispute => spec_route_dispute(l, j, a),
        TransactionType::Resolve => spec_route_resolve(l, j, a),
        TransactionType::Chargeback => spec_route_chargeback(l, j, a),
        TransactionType::Unknown => (l, j, Outcome::RejectedShape),
    }
}

/// Abstract effect of routing a whole action stream, in strict input order.
pub open spec fn spec_process(
    l: Map<u16, ClientState>,
    j: Map<u32, TransactionDetails>,
    actions: Seq<TransactionDetails>,
) -> (Map<u16, ClientState>, Map<u32, TransactionDetails>)
    decreases actions.len(),
{
    if actions.len() == 0 {
        (l, j)
    } else {
        let step = spec_route(l, j, actions[0]);
        spec_process(step.0, step.1, actions.drop_first())
    }
}

/// Law: the lock is monotonic. Routing any action keeps every account that
/// is present, and an account once locked is still locked afterwards.
pub proof fn lemma_locked_monotonic(
    l: Map<u16, ClientState>,
    j: Map<u32, TransactionDetails>,
    a: TransactionDetails,
)
    ensures
        forall|id: u16| #[trigger] l.contains_key(id) ==> spec_route(l, j, a).0.contains_key(id)
            && (l[id].locked ==> spec_route(l, j, a).0[id].locked),
{
    let l2 = spec_route(l, j, a).0;
    assert forall|id: u16| #[trigger] l.contains_key(id) implies l2.contains_key(id)
        && (l[id].locked ==> l2[id].locked) by {
        match a.transaction_type {
            TransactionType::Deposit => {},
            TransactionType::Withdrawal => {},
            TransactionType::Dispute => {},
            TransactionType::Resolve => {},
            TransactionType::Chargeback => {},
            TransactionType::Unknown => {},
        }
    }
}

/// Law: rejection of a replayed transaction id is idempotent. A deposit or
/// withdrawal whose transaction id the journal already holds is rejected and
/// changes nothing — and since nothing changes and the id stays journaled,
/// replaying it any number of times is rejected the same way.
pub proof fn lemma_replay_rejected(
    l: Map<u16, ClientState>,
    j: Map<u32, TransactionDetails>,
    a: TransactionDetails,
)
    requires
        j.contains_key(a.tx),
        a.transaction_type == TransactionType::Deposit || a.transaction_type
            == TransactionType::Withdrawal,
    ensures
        spec_route(l, j, a).0 == l,
        spec_route(l, j, a).1 == j,
        spec_route(l, j, a).2 != Outcome::Accepted,
        spec_route(spec_route(l, j, a).0, spec_route(l, j, a).1, a) == spec_route(l, j, a),
{
}

/// Law: ordering matters. A dispute-lifecycle action referencing a
/// transaction id that is not journaled yet — because the record it names
/// only appears later in the stream, or never — is rejected and changes
/// nothing, even if that later record would otherwise be valid.
pub proof fn lemma_unjournaled_reference_rejected(
    l: Map<u16, ClientState>,
    j: Map<u32, TransactionDetails>,
    a: TransactionDetails,
)
    requires
        !j.contains_key(a.tx),
        a.transaction_type == TransactionType::Dispute || a.transaction_type
            == TransactionType::Resolve || a.transaction_type == TransactionType::Chargeback,
    ensures
        spec_route(l, j, a).0 == l,
        spec_route(l, j, a).1 == j,
        spec_route(l, j, a).2 != Outcome::Accepted,
        a.amount is None ==> spec_route(l, j, a).2 == Outcome::RejectedReference,
{
}

/// Processor to apply new transaction actions: it owns the clients ledger
/// and the transaction journal and routes each incoming action to them.
///
/// Policy notes, pinned deliberately:
/// - A locked account may still be acted upon; no action is filtered by the
///   lock status.
/// - A dispute-lifecycle action must name the account that the referenced
///   transaction was journaled for; a mismatch is rejected as an unknown
///   reference.
pub struct TransactionsProcessor {
    /// Clients state processor.
    pub client_state_mgr: ClientsStatesMgr,
    /// Transactions state processor - i.e. created via Deposit & Withdrawal.
    pub transaction_mgr: TransactionMgr,
}

impl TransactionsProcessor {
    /// Both owned components are well formed.
    pub open spec fn wf(&self) -> bool {
        &&& self.client_state_mgr.wf()
        &&& journal_wf(self.transaction_mgr@)
    }

    /// Generate base processor based on provided details.
    pub fn new(client_state_mgr: ClientsStatesMgr, transaction_mgr: TransactionMgr) -> (p:
        TransactionsProcessor)
        ensures
            p.client_state_mgr == client_state_mgr,
            p.transaction_mgr == transaction_mgr,
    {
        TransactionsProcessor { client_state_mgr, transaction_mgr }
    }

    /// Apply transaction actions on existing states, in strict input order.
    pub fn apply_transaction_actions(&mut self, actions: &Vec<TransactionDetails>)
        requires
            old(self).wf(),
        ensures
            final(self).wf(),
            (final(self).client_state_mgr@, final(self).transaction_mgr@) == spec_process(
                old(self).client_state_mgr@,
                old(self).transaction_mgr@,
                actions@,
            ),
    {
        let ghost l0 = self.client_state_mgr@;
        let ghost j0 = self.transaction_mgr@;
        let n = actions.len();
        let mut idx: usize = 0;
        proof {
            assert(actions@.skip(0) =~= actions@);
        }
        while idx < n
            invariant
                self.wf(),
                n == actions@.len(),
                idx <= n,
                spec_process(
                    self.client_state_mgr@,
                    self.transaction_mgr@,
                    actions@.skip(idx as int),
                ) == spec_process(l0, j0, actions@),
            decreases n - idx,
        {
            let ghost rest = actions@.skip(idx as int);
            let action_details = actions[idx];
            proof {
                assert(rest[0] == actions@[idx as int]);
                assert(rest.drop_first() =~= actions@.skip(idx as int + 1));
            }
            match action_details.transaction_type {
                TransactionType::Deposit => {
                    self.apply_deposit(action_details);
                },
                TransactionType::Withdrawal => {
                    self.apply_withdrawal(action_details);
                },
                TransactionType::Dispute => {
                    self.apply_dispute(action_details);
                },
                TransactionType::Resolve => {
                    self.apply_resolve(action_details);
                },
                TransactionType::Chargeback => {
                    self.apply_chargeback(action_details);
                },
                TransactionType::Unknown => {},
            }
            idx += 1;
        }
        proof {
            assert(actions@.skip(n as int).len() == 0);
        }
    }

    /// Route a deposit: rejected when the amount is missing or not positive,
    /// when the transaction id is already journaled, or when the balance
    /// guard refuses it; otherwise the ledger is credited and the action is
    /// journaled. The pre-checks make the journal insert infallible, so an
    /// accepted deposit is never applied to the ledger alone.
    pub fn apply_deposit(&mut self, action_details: TransactionDetails) -> (o: Outcome)
        requires
            old(self).wf(),
        ensures
            final(self).wf(),
            (final(self).client_state_mgr@, final(self).transaction_mgr@, o) == spec_route_deposit(
                old(self).client_state_mgr@,
                old(self).transaction_mgr@,
                action_details,
            ),
    {
        if action_details.transaction_type != TransactionType::Deposit {
            return Outcome::RejectedShape;
        }
        let amount = match action_details.amount {
            Some(a) => a,
            None => {
                return Outcome::RejectedShape;
            },
        };
        if amount <= 0 {
            return Outcome::RejectedShape;
        }
        if self.transaction_mgr.transaction_exist(action_details.tx) {
            return Outcome::RejectedReference;
        }
        if !self.client_state_mgr.apply_deposit(action_details.client, amount) {
            return Outcome::RejectedInsufficientFunds;
        }
        let inserted = self.transaction_mgr.insert_new_transaction(action_details);
        proof {
            assert(inserted);
        }
        Outcome::Accepted
    }

    /// Route a withdrawal: rejected when the amount is missing or not
    /// positive, when the transaction id is already journaled, or when the
    /// account is absent or short of available funds; otherwise the ledger
    /// is debited and the action is journaled. The pre-checks make the
    /// journal insert infallible, so an accepted withdrawal is never applied
    /// to the ledger alone.
    pub fn apply_withdrawal(&mut self, action_details: TransactionDetails) -> (o: Outcome)
        requires
            old(self).wf(),
        ensures
            final(self).wf(),
            (final(self).client_state_mgr@, final(self).transaction_mgr@, o)
                == spec_route_withdrawal(
                old(self).client_state_mgr@,
                old(self).transaction_mgr@,
                action_details,
            ),
    {
        if action_details.transaction_type != TransactionType::Withdrawal {
            return Outcome::RejectedShape;
        }
        if action_details.amount.is_none() {
            return Outcome::RejectedShape;
        }
        if self.transaction_mgr.transaction_exist(action_details.tx) {
            return Outcome::RejectedReference;
        }
        let amount = match action_details.amount {
            Some(a) => a,
            None => {
                return Outcome::RejectedShape;
            },
        };
        if amount <= 0 {
            return Outcome::RejectedShape;
        }
        if !self.client_state_mgr.apply_withdrawal(action_details.client, amount) {
            return Outcome::RejectedInsufficientFunds;
        }
        let inserted = self.transaction_mgr.insert_new_transaction(action_details);
        proof {
            assert(inserted);
        }
        Outcome::Accepted
    }

    /// Route a dispute: rejected when an amount is present (shape violation),
    /// when the referenced transaction id is not journaled for the acting
    /// client, or when the account is absent or short of available funds;
    /// otherwise the journaled amount moves from available to held.
    pub fn apply_dispute(&mut self, action_details: TransactionDetails) -> (o: Outcome)
        requires
            old(self).wf(),
        ensures
            final(self).wf(),
            (final(self).client_state_mgr@, final(self).transaction_mgr@, o) == spec_route_dispute(
                old(self).client_state_mgr@,
                old(self).transaction_mgr@,
                action_details,
            ),
    {
        if action_details.transaction_type != TransactionType::Dispute
            || action_details.amount.is_some() {
            return Outcome::RejectedShape;
        }
        let amount = match self.transaction_mgr.get_transaction(
            action_details.tx,
            action_details.client,
        ) {
            Some(transaction) => match transaction.amount {
                Some(a) => a,
                None => {
                    return Outcome::RejectedReference;
                },
            },
            None => {
                return Outcome::RejectedReference;
            },
        };
        if !self.client_state_mgr.apply_dispute(action_details.client, amount) {
            return Outcome::RejectedInsufficientFunds;
        }
        Outcome::Accepted
    }

    /// Route a resolve: rejected when an amount is present (shape violation),
    /// when the referenced transaction id is not journaled for the acting
    /// client, or when the account is absent or its held funds are short;
    /// otherwise the journaled amount moves back from held to available.
    pub fn apply_resolve(&mut self, action_details: TransactionDetails) -> (o: Outcome)
        requires
            old(self).wf(),
        ensures
            final(self).wf(),
            (final(self).client_state_mgr@, final(self).transaction_mgr@, o) == spec_route_resolve(
                old(self).client_state_mgr@,
                old(self).transaction_mgr@,
                action_details,
            ),
    {
        if action_details.transaction_type != TransactionType::Resolve
            || action_details.amount.is_some() {
            return Outcome::RejectedShape;
        }
        let amount = match self.transaction_mgr.get_transaction(
            action_details.tx,
            action_details.client,
        ) {
            Some(transaction) => match transaction.amount {
                Some(a) => a,
                None => {
                    return Outcome::RejectedReference;
                },
            },
            None => {
                return Outcome::RejectedReference;
            },
        };
        if !self.client_state_mgr.apply_resolve(action_details.client, amount) {
            return Outcome::RejectedInsufficientFunds;
        }
        Outcome::Accepted
    }

    /// Route a chargeback: rejected when an amount is present (shape
    /// violation), when the referenced transaction id is not journaled for
    /// the acting client, or when the account is absent or its held funds
    /// are short; otherwise the journaled amount leaves both held and total
    /// and the account is locked for good.
    pub fn apply_chargeback(&mut self, action_details: TransactionDetails) -> (o: Outcome)
        requires
            old(self).wf(),
        ensures
            final(self).wf(),
            (final(self).client_state_mgr@, final(self).transaction_mgr@, o)
                == spec_route_chargeback(
                old(self).client_state_mgr@,
                old(self).transaction_mgr@,
                action_details,
            ),
    {
        if action_details.transaction_type != TransactionType::Chargeback
            || action_details.amount.is_some() {
            return Outcome::RejectedShape;
        }
        let amount = match self.transaction_mgr.get_transaction(
            action_details.tx,
            action_details.client,
        ) {
            Some(transaction) => {
                if transaction.client != action_details.client {
                    return Outcome::RejectedReference;
                }
                match transaction.amount {
                    Some(a) => a,
                    None => {
                        return Outcome::RejectedReference;
                    },
                }
            },
            None => {
                return Outcome::RejectedReference;
            },
        };
        if !self.client_state_mgr.apply_chargeback(action_details.client, amount) {
            return Outcome::RejectedInsufficientFunds;
        }
        Outcome::Accepted
    }
}

} // verus!
