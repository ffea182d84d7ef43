// Scenario and edge-case tests for the transaction state machine. Amounts
// are fixed-point minor units with four implied decimal places.
use payments::{
    ClientsStatesMgr, Outcome, TransactionDetails, TransactionMgr, TransactionType,
    TransactionsProcessor,
};

fn processor() -> TransactionsProcessor {
    TransactionsProcessor::new(ClientsStatesMgr::new(), TransactionMgr::new())
}

fn action(
    transaction_type: TransactionType,
    client: u16,
    tx: u32,
    amount: Option<i64>,
) -> TransactionDetails {
    TransactionDetails {
        transaction_type,
        client,
        tx,
        amount,
    }
}

#[test]
fn scenario_two_deposits() {
    let mut p = processor();
    assert_eq!(
        p.apply_deposit(action(TransactionType::Deposit, 2, 1, Some(13_0000))),
        Outcome::Accepted
    );
    assert_eq!(
        p.apply_deposit(action(TransactionType::Deposit, 2, 2, Some(15_0000))),
        Outcome::Accepted
    );
    let c = *p.client_state_mgr.get_client_details(2).unwrap();
    assert_eq!(c.available, 28_0000);
    assert_eq!(c.held, 0);
    assert_eq!(c.total, 28_0000);
    assert!(!c.locked);
}

#[test]
fn scenario_withdrawal_over_available_rejected() {
    let mut p = processor();
    assert_eq!(
        p.apply_deposit(action(TransactionType::Deposit, 2, 1, Some(11_0000))),
        Outcome::Accepted
    );
    assert_eq!(
        p.apply_withdrawal(action(TransactionType::Withdrawal, 2, 2, Some(12_0000))),
        Outcome::RejectedInsufficientFunds
    );
    let c = *p.client_state_mgr.get_client_details(2).unwrap();
    assert_eq!(c.available, 11_0000);
    assert_eq!(c.total, 11_0000);
    assert!(!p.transaction_mgr.transaction_exist(2));
}

#[test]
fn scenario_dispute_then_chargeback() {
    let mut p = processor();
    assert_eq!(
        p.apply_deposit(action(TransactionType::Deposit, 2, 1, Some(11_5000))),
        Outcome::Accepted
    );
    assert_eq!(
        p.apply_dispute(action(TransactionType::Dispute, 2, 1, None)),
        Outcome::Accepted
    );
    let c = *p.client_state_mgr.get_client_details(2).unwrap();
    assert_eq!(c.available, 0);
    assert_eq!(c.held, 11_5000);
    assert_eq!(c.total, 11_5000);
    assert!(!c.locked);

    assert_eq!(
        p.apply_chargeback(action(TransactionType::Chargeback, 2, 1, None)),
        Outcome::Accepted
    );
    let c = *p.client_state_mgr.get_client_details(2).unwrap();
    assert_eq!(c.available, 0);
    assert_eq!(c.held, 0);
    assert_eq!(c.total, 0);
    assert!(c.locked);
}

#[test]
fn scenario_dispute_unknown_tx_rejected() {
    let mut p = processor();
    assert_eq!(
        p.apply_deposit(action(TransactionType::Deposit, 2, 1, Some(5_0000))),
        Outcome::Accepted
    );
    assert_eq!(
        p.apply_dispute(action(TransactionType::Dispute, 2, 99, None)),
        Outcome::RejectedReference
    );
    let c = *p.client_state_mgr.get_client_details(2).unwrap();
    assert_eq!(c.available, 5_0000);
    assert_eq!(c.held, 0);
    assert_eq!(c.total, 5_0000);
    assert!(!c.locked);
}

#[test]
fn scenario_second_chargeback_rejected() {
    let mut p = processor();
    assert_eq!(
        p.apply_deposit(action(TransactionType::Deposit, 2, 1, Some(4_0000))),
        Outcome::Accepted
    );
    assert_eq!(
        p.apply_dispute(action(TransactionType::Dispute, 2, 1, None)),
        Outcome::Accepted
    );
    assert_eq!(
        p.apply_chargeback(action(TransactionType::Chargeback, 2, 1, None)),
        Outcome::Accepted
    );
    let c = *p.client_state_mgr.get_client_details(2).unwrap();
    assert!(c.locked);
    assert_eq!(c.held, 0);

    // The held funds are gone, so a second chargeback on the same
    // transaction is short of held funds and is refused; the lock stays.
    assert_eq!(
        p.apply_chargeback(action(TransactionType::Chargeback, 2, 1, None)),
        Outcome::RejectedInsufficientFunds
    );
    let c = *p.client_state_mgr.get_client_details(2).unwrap();
    assert!(c.locked);
    assert_eq!(c.held, 0);
    assert_eq!(c.total, 0);
}

#[test]
fn scenario_chargeback_after_resolve_rejected() {
    let mut p = processor();
    assert_eq!(
        p.apply_deposit(action(TransactionType::Deposit, 2, 1, Some(4_0000))),
        Outcome::Accepted
    );
    assert_eq!(
        p.apply_dispute(action(TransactionType::Dispute, 2, 1, None)),
        Outcome::Accepted
    );
    assert_eq!(
        p.apply_resolve(action(TransactionType::Resolve, 2, 1, None)),
        Outcome::Accepted
    );
    let c = *p.client_state_mgr.get_client_details(2).unwrap();
    assert_eq!(c.available, 4_0000);
    assert_eq!(c.held, 0);
    assert!(!c.locked);

    // The dispute is already resolved (held == 0), so the chargeback is
    // refused and the lock status is unchanged.
    assert_eq!(
        p.apply_chargeback(action(TransactionType::Chargeback, 2, 1, None)),
        Outcome::RejectedInsufficientFunds
    );
    let c = *p.client_state_mgr.get_client_details(2).unwrap();
    assert!(!c.locked);
    assert_eq!(c.total, 4_0000);
}

#[test]
fn replayed_tx_id_always_rejected() {
    let mut p = processor();
    let deposit = action(TransactionType::Deposit, 2, 1, Some(3_0000));
    assert_eq!(p.apply_deposit(deposit), Outcome::Accepted);
    // Replaying the same transaction id is rejected no matter how many
    // times it is resubmitted, even under another client or amount.
    assert_eq!(p.apply_deposit(deposit), Outcome::RejectedReference);
    assert_eq!(p.apply_deposit(deposit), Outcome::RejectedReference);
    assert_eq!(
        p.apply_deposit(action(TransactionType::Deposit, 7, 1, Some(9_0000))),
        Outcome::RejectedReference
    );
    assert_eq!(
        p.apply_withdrawal(action(TransactionType::Withdrawal, 2, 1, Some(1_0000))),
        Outcome::RejectedReference
    );
    let c = *p.client_state_mgr.get_client_details(2).unwrap();
    assert_eq!(c.available, 3_0000);
    assert_eq!(c.total, 3_0000);
    assert!(p.client_state_mgr.get_client_details(7).is_none());
}

#[test]
fn dispute_before_journaled_deposit_rejected() {
    // The dispute references transaction 9, which only appears later in
    // the stream: it is rejected, and the later deposit still goes through.
    let actions = vec![
        action(TransactionType::Deposit, 2, 1, Some(5_0000)),
        action(TransactionType::Dispute, 2, 9, None),
        action(TransactionType::Deposit, 2, 9, Some(2_0000)),
    ];
    let states = payments::run_flow(actions);
    assert_eq!(states.len(), 1);
    assert_eq!(states[0].client, 2);
    assert_eq!(states[0].available, 7_0000);
    assert_eq!(states[0].held, 0);
    assert_eq!(states[0].total, 7_0000);
}

#[test]
fn dispute_for_wrong_client_rejected() {
    let mut p = processor();
    assert_eq!(
        p.apply_deposit(action(TransactionType::Deposit, 2, 1, Some(5_0000))),
        Outcome::Accepted
    );
    // Transaction 1 is journaled for client 2; client 3 may not dispute it.
    assert_eq!(
        p.apply_dispute(action(TransactionType::Dispute, 3, 1, None)),
        Outcome::RejectedReference
    );
    let c = *p.client_state_mgr.get_client_details(2).unwrap();
    assert_eq!(c.available, 5_0000);
    assert_eq!(c.held, 0);
}

#[test]
fn dispute_with_amount_rejected_as_shape() {
    let mut p = processor();
    assert_eq!(
        p.apply_deposit(action(TransactionType::Deposit, 2, 1, Some(5_0000))),
        Outcome::Accepted
    );
    assert_eq!(
        p.apply_dispute(action(TransactionType::Dispute, 2, 1, Some(5_0000))),
        Outcome::RejectedShape
    );
    assert_eq!(
        p.apply_resolve(action(TransactionType::Resolve, 2, 1, Some(5_0000))),
        Outcome::RejectedShape
    );
    assert_eq!(
        p.apply_chargeback(action(TransactionType::Chargeback, 2, 1, Some(5_0000))),
        Outcome::RejectedShape
    );
    let c = *p.client_state_mgr.get_client_details(2).unwrap();
    assert_eq!(c.available, 5_0000);
    assert_eq!(c.held, 0);
}

#[test]
fn deposit_with_non_positive_amount_rejected() {
    let mut p = processor();
    assert_eq!(
        p.apply_deposit(action(TransactionType::Deposit, 2, 1, Some(0))),
        Outcome::RejectedShape
    );
    assert_eq!(
        p.apply_deposit(action(TransactionType::Deposit, 2, 1, Some(-3_0000))),
        Outcome::RejectedShape
    );
    assert!(p.client_state_mgr.get_states().is_empty());
    assert!(!p.transaction_mgr.transaction_exist(1));
}

#[test]
fn locked_account_still_accepts_actions() {
    // Policy: a locked account may still be acted upon, and the lock is
    // never reset.
    let mut p = processor();
    assert_eq!(
        p.apply_deposit(action(TransactionType::Deposit, 2, 1, Some(4_0000))),
        Outcome::Accepted
    );
    assert_eq!(
        p.apply_dispute(action(TransactionType::Dispute, 2, 1, None)),
        Outcome::Accepted
    );
    assert_eq!(
        p.apply_chargeback(action(TransactionType::Chargeback, 2, 1, None)),
        Outcome::Accepted
    );
    assert!(p.client_state_mgr.get_client_details(2).unwrap().locked);

    assert_eq!(
        p.apply_deposit(action(TransactionType::Deposit, 2, 2, Some(6_0000))),
        Outcome::Accepted
    );
    assert_eq!(
        p.apply_withdrawal(action(TransactionType::Withdrawal, 2, 3, Some(1_0000))),
        Outcome::Accepted
    );
    let c = *p.client_state_mgr.get_client_details(2).unwrap();
    assert!(c.locked, "The lock is never reset");
    assert_eq!(c.available, 5_0000);
    assert_eq!(c.total, 5_0000);
}

#[test]
fn deposit_overflowing_balance_rejected() {
    let mut p = processor();
    assert_eq!(
        p.apply_deposit(action(TransactionType::Deposit, 2, 1, Some(i64::MAX))),
        Outcome::Accepted
    );
    // The balance cannot grow past the fixed-point range; the deposit is
    // refused as a balance-guard failure and nothing is journaled.
    assert_eq!(
        p.apply_deposit(action(TransactionType::Deposit, 2, 2, Some(1))),
        Outcome::RejectedInsufficientFunds
    );
    let c = *p.client_state_mgr.get_client_details(2).unwrap();
    assert_eq!(c.available, i64::MAX);
    assert_eq!(c.total, i64::MAX);
    assert!(!p.transaction_mgr.transaction_exist(2));
}

#[test]
fn unknown_action_changes_nothing() {
    let actions = vec![
        action(TransactionType::Deposit, 2, 1, Some(5_0000)),
        action(TransactionType::Unknown, 2, 2, Some(1_0000)),
    ];
    let states = payments::run_flow(actions);
    assert_eq!(states.len(), 1);
    assert_eq!(states[0].available, 5_0000);
    assert_eq!(states[0].total, 5_0000);
}

#[test]
fn transaction_type_text_round_trip() {
    let kinds = [
        TransactionType::Deposit,
        TransactionType::Withdrawal,
        TransactionType::Dispute,
        TransactionType::Resolve,
        TransactionType::Chargeback,
    ];
    for kind in kinds {
        assert_eq!(TransactionType::from_text(kind.as_text()), kind);
    }
    assert_eq!(
        TransactionType::from_text("deposit"),
        TransactionType::Deposit
    );
    assert_eq!(
        TransactionType::from_text("chargebackk"),
        TransactionType::Unknown
    );
    assert_eq!(TransactionType::from_text(""), TransactionType::Unknown);
    assert_eq!(TransactionType::Unknown.as_text(), "unknown");
}
