use vstd::prelude::*;

use crate::transaction_details::{TransactionDetails, TransactionType};
use std::collections::HashMap;

verus! {

broadcast use vstd::std_specs::hash::group_hash_axioms;

/// A record is fit for the journal when it is an original deposit or
/// withdrawal carrying a non-negative amount.
pub open spec fn journal_record_wf(t: TransactionDetails) -> bool {
    &&& (t.transaction_type == TransactionType::Deposit || t.transaction_type
        == TransactionType::Withdrawal)
    &&& match t.amount {
        Some(a) => a >= 0,
        None => false,
    }
}

/// Journal invariant over the abstract mapping: every stored record is fit
/// for the journal and stored under its own transaction id.
pub open spec fn journal_wf(j: Map<u32, TransactionDetails>) -> bool {
    forall|id: u32| #[trigger] j.contains_key(id) ==> journal_record_wf(j[id]) && j[id].tx == id
}

/// Whether the journal accepts a new record: it must be fit for the journal
/// and its transaction id must not be taken yet.
pub open spec fn spec_can_insert(j: Map<u32, TransactionDetails>, t: TransactionDetails) -> bool {
    journal_record_wf(t) && !j.contains_key(t.tx)
}

/// Base transaction manager to keep track on transaction history: the
/// provenance store of original deposit/withdrawal transactions, keyed by
/// transaction id.
pub struct TransactionMgr {
    /// Transaction id to details mapping.
    id_to_details: HashMap<u32, TransactionDetails>,
}

impl View for TransactionMgr {
    type V = Map<u32, TransactionDetails>;

    closed spec fn view(&self) -> Map<u32, TransactionDetails> {
        self.id_to_details@
    }
}

impl TransactionMgr {
    /// Create transaction manager with an empty journal.
    pub fn new() -> (mgr: TransactionMgr)
        ensures
            mgr@ == Map::<u32, TransactionDetails>::empty(),
            journal_wf(mgr@),
    {
        TransactionMgr { id_to_details: HashMap::new() }
    }

    /// Whether the journal holds no record yet.
    pub fn is_empty(&self) -> (r: bool)
        ensures
            r == self@.is_empty(),
    {
        self.id_to_details.is_empty()
    }

    /// Insert new transaction with the specified details.
    /// Only deposit and withdrawal transactions should be kept.
    /// Each transaction must have a valid amount, and its id must be new:
    /// duplicate transaction identifiers are rejected unconditionally, even
    /// across different accounts.
    pub fn insert_new_transaction(&mut self, transaction: TransactionDetails) -> (r: bool)
        requires
            journal_wf(old(self)@),
        ensures
            journal_wf(final(self)@),
            r == spec_can_insert(old(self)@, transaction),
            r ==> final(self)@ == old(self)@.insert(transaction.tx, transaction),
            !r ==> final(self)@ == old(self)@,
    {
        if transaction.transaction_type != TransactionType::Deposit
            && transaction.transaction_type != TransactionType::Withdrawal {
            return false;
        }
        let amount_ok = match transaction.amount {
            Some(a) => a >= 0,
            None => false,
        };
        if !amount_ok {
            return false;
        }
        if self.id_to_details.contains_key(&transaction.tx) {
            return false;
        }
        self.id_to_details.insert(transaction.tx, transaction);
        true
    }

    /// Get transaction by id and client id: the stored record, provided it
    /// exists and belongs to the requesting client. A record journaled for a
    /// different client is not handed out.
    pub fn get_transaction(&self, id: u32, client_id: u16) -> (r: Option<&TransactionDetails>)
        ensures
            match r {
                Some(d) => self@.contains_key(id) && self@[id].client == client_id && *d
                    == self@[id],
                None => !self@.contains_key(id) || self@[id].client != client_id,
            },
    {
        match self.id_to_details.get(&id) {
            Some(d) => {
                if d.client == client_id {
                    Some(d)
                } else {
                    None
                }
            },
            None => None,
        }
    }

    /// Membership test on the journal's transaction ids.
    pub fn transaction_exist(&self, id: u32) -> (r: bool)
        ensures
            r == self@.contains_key(id),
    {
        self.id_to_details.contains_key(&id)
    }
}

} // verus!
