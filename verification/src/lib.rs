pub mod client_state;
pub mod client_state_mgr;
pub mod transaction_details;
pub mod transaction_mgr;
pub mod transaction_processor;

pub use client_state::ClientState;
pub use client_state_mgr::ClientsStatesMgr;
pub use transaction_details::{TransactionDetails, TransactionType};
pub use transaction_mgr::TransactionMgr;
pub use transaction_processor::{Outcome, TransactionsProcessor};

use client_state::client_wf;
use client_state_mgr::{seq_clients_unique, states_as_map};
use transaction_processor::spec_process;
use vstd::prelude::*;

verus! {

/// Run the workflow: evaluate a whole action stream against empty stores, in
/// strict input order, and hand back every account's final state. The
/// returned sequence carries one entry per account and represents exactly
/// the ledger that routing the stream produces.
pub fn run_flow(actions: Vec<TransactionDetails>) -> (states: Vec<ClientState>)
    ensures
        seq_clients_unique(states@),
        forall|i: int| 0 <= i < states@.len() ==> client_wf(#[trigger] states@[i]),
        states_as_map(states@) == spec_process(
            Map::<u16, ClientState>::empty(),
            Map::<u32, TransactionDetails>::empty(),
            actions@,
        ).0,
{
    let client_state_mgr = ClientsStatesMgr::new();
    let transaction_mgr = TransactionMgr::new();
    let mut processor = TransactionsProcessor::new(client_state_mgr, transaction_mgr);
    processor.apply_transaction_actions(&actions);
    processor.client_state_mgr.get_states()
}

} // verus!
