use transactions::{
    check_tx_state, process, Chargeback, ClientId, Deposit, Dispute, Error, Price4, Resolve, Side,
    TransactionId, TransactionInfo, TransactionInfoKind, TransactionProcessor, TransactionState,
    Withdrawal,
};

fn p(units: i128) -> Price4 {
    Price4::from_units(units).unwrap()
}

fn dep(tp: &mut TransactionProcessor, c: u16, t: u32, units: i128) -> Result<(), Error> {
    tp.process_deposit(Deposit { client_id: ClientId(c), tx_id: TransactionId(t), amount: p(units) })
}

fn wd(tp: &mut TransactionProcessor, c: u16, t: u32, units: i128) -> Result<(), Error> {
    tp.process_withdrawal(Withdrawal {
        client_id: ClientId(c),
        tx_id: TransactionId(t),
        amount: p(units),
    })
}

fn dis(tp: &mut TransactionProcessor, c: u16, t: u32) -> Result<(), Error> {
    tp.process_dispute(Dispute { client_id: ClientId(c), tx_id: TransactionId(t) })
}

fn res(tp: &mut TransactionProcessor, c: u16, t: u32) -> Result<(), Error> {
    tp.process_resolve(Resolve { client_id: ClientId(c), tx_id: TransactionId(t) })
}

fn chb(tp: &mut TransactionProcessor, c: u16, t: u32) -> Result<(), Error> {
    tp.process_chargeback(Chargeback { client_id: ClientId(c), tx_id: TransactionId(t) })
}

/// (available, held, total, frozen) of client `c`, in ten-thousandths.
fn state(tp: &TransactionProcessor, c: u16) -> (i128, i128, i128, bool) {
    let a = tp.account(ClientId(c)).unwrap();
    (
        a.available_funds().units(),
        a.held_funds().units(),
        a.total_funds().units(),
        a.is_frozen(),
    )
}

fn bad_state(actual: TransactionState, expected: TransactionState) -> Result<(), Error> {
    Err(Error::InvalidTxState { actual, expected })
}

#[test]
fn test_serde() {
    let mut tp = TransactionProcessor::new();
    assert_eq!(dep(&mut tp, 1, 3, 10000), Ok(()));
    assert_eq!(dep(&mut tp, 1, 5, 5000), Ok(()));
    assert_eq!(dep(&mut tp, 1, 6, 2000), Ok(()));
    assert_eq!(wd(&mut tp, 1, 4, 1), Ok(()));
    assert_eq!(dis(&mut tp, 1, 5), Ok(()));
    assert_eq!(res(&mut tp, 1, 5), Ok(()));
    assert_eq!(dis(&mut tp, 1, 4), Ok(()));
    assert_eq!(dis(&mut tp, 1, 6), Ok(()));
    assert_eq!(chb(&mut tp, 1, 4), Ok(()));
    assert_eq!(dep(&mut tp, 2, 15, 1000300), Ok(()));
    assert_eq!(dis(&mut tp, 2, 15), Ok(()));
    assert_eq!(chb(&mut tp, 2, 15), Ok(()));
    assert_eq!(state(&tp, 1), (15000, 2000, 17000, true));
    assert_eq!(state(&tp, 2), (0, 0, 0, true));
    assert_eq!(tp.accounts().len(), 2);
}

#[test]
fn test_unknown_transaction_id() {
    let mut tp = TransactionProcessor::new();
    assert_eq!(dep(&mut tp, 1, 5, 15000), Ok(()));
    assert_eq!(dis(&mut tp, 1, 6), Err(Error::InvalidTx(TransactionId(6))));
    assert_eq!(chb(&mut tp, 1, 6), Err(Error::InvalidTx(TransactionId(6))));
    assert_eq!(res(&mut tp, 1, 6), Err(Error::InvalidTx(TransactionId(6))));
    assert_eq!(dep(&mut tp, 1, 6, 20000), Ok(()));
    assert_eq!(dis(&mut tp, 1, 6), Ok(()));
    assert_eq!(dis(&mut tp, 2, 5), Err(Error::InvalidClientId(ClientId(2))));
    assert_eq!(chb(&mut tp, 2, 5), Err(Error::InvalidClientId(ClientId(2))));
    assert_eq!(res(&mut tp, 2, 5), Err(Error::InvalidClientId(ClientId(2))));
    assert_eq!(state(&tp, 1), (15000, 20000, 35000, false));
    assert!(tp.account(ClientId(2)).is_none());
    assert_eq!(tp.accounts().len(), 1);
}

#[test]
fn test_duplicate_tx_id_rejected() {
    let mut tp = TransactionProcessor::new();
    assert_eq!(dep(&mut tp, 1, 1, 10000), Ok(()));
    assert_eq!(wd(&mut tp, 1, 1, 5000), Err(Error::DuplicateTx(TransactionId(1))));
    assert_eq!(dep(&mut tp, 1, 1, 20000), Err(Error::DuplicateTx(TransactionId(1))));
    assert_eq!(state(&tp, 1), (10000, 0, 10000, false));
}

#[test]
fn test_deposit_withdrawal() {
    let mut tp = TransactionProcessor::new();
    assert_eq!(dep(&mut tp, 1, 100, 13000), Ok(()));
    assert_eq!(dep(&mut tp, 1, 1, 2000), Ok(()));
    assert_eq!(wd(&mut tp, 1, 2, 1), Ok(()));
    assert_eq!(wd(&mut tp, 1, 3, 14999), Ok(()));
    assert_eq!(state(&tp, 1), (0, 0, 0, false));
    assert_eq!(wd(&mut tp, 1, 4, 1), Err(Error::InsufficientFunds));
    assert_eq!(dep(&mut tp, 1, 5, 20000), Ok(()));
    assert_eq!(wd(&mut tp, 1, 6, 20001), Err(Error::InsufficientFunds));
    assert_eq!(state(&tp, 1), (20000, 0, 20000, false));
}

#[test]
fn test_dispute() {
    let mut tp = TransactionProcessor::new();
    assert_eq!(dep(&mut tp, 1, 5, 10000), Ok(()));
    assert_eq!(dep(&mut tp, 1, 6, 20000), Ok(()));
    assert_eq!(dis(&mut tp, 1, 5), Ok(()));
    assert_eq!(wd(&mut tp, 1, 7, 25000), Err(Error::InsufficientFunds));
    assert_eq!(wd(&mut tp, 1, 8, 15000), Ok(()));
    assert_eq!(state(&tp, 1), (5000, 10000, 15000, false));
}

#[test]
fn test_negative_available_on_dispute() {
    let mut tp = TransactionProcessor::new();
    assert_eq!(dep(&mut tp, 1, 5, 100000), Ok(()));
    assert_eq!(dep(&mut tp, 1, 6, 200000), Ok(()));
    assert_eq!(wd(&mut tp, 1, 7, 250000), Ok(()));
    assert_eq!(dis(&mut tp, 1, 6), Ok(()));
    assert_eq!(state(&tp, 1), (-150000, 200000, 50000, false));
}

#[test]
fn test_negative_held_on_dispute() {
    let mut tp = TransactionProcessor::new();
    assert_eq!(dep(&mut tp, 1, 5, 100000), Ok(()));
    assert_eq!(wd(&mut tp, 1, 6, 50000), Ok(()));
    assert_eq!(dis(&mut tp, 1, 6), Ok(()));
    assert_eq!(state(&tp, 1), (100000, -50000, 50000, false));
}

#[test]
fn test_cannot_withdraw_on_negative_balance() {
    let mut tp = TransactionProcessor::new();
    assert_eq!(dep(&mut tp, 1, 5, 100000), Ok(()));
    assert_eq!(dep(&mut tp, 1, 6, 200000), Ok(()));
    assert_eq!(wd(&mut tp, 1, 7, 250000), Ok(()));
    assert_eq!(dis(&mut tp, 1, 6), Ok(()));
    assert_eq!(wd(&mut tp, 1, 8, 40000), Err(Error::InsufficientFunds));
    assert_eq!(dep(&mut tp, 1, 9, 50000), Ok(()));
    assert_eq!(state(&tp, 1), (-100000, 200000, 100000, false));
    assert_eq!(wd(&mut tp, 1, 10, 30000), Err(Error::InsufficientFunds));
    assert_eq!(dep(&mut tp, 1, 11, 250000), Ok(()));
    assert_eq!(wd(&mut tp, 1, 12, 50000), Ok(()));
    assert_eq!(state(&tp, 1), (100000, 200000, 300000, false));
}

#[test]
fn test_resolve() {
    let mut tp = TransactionProcessor::new();
    assert_eq!(dep(&mut tp, 1, 5, 20000), Ok(()));
    assert_eq!(dis(&mut tp, 1, 5), Ok(()));
    assert_eq!(wd(&mut tp, 1, 6, 10000), Err(Error::InsufficientFunds));
    assert_eq!(res(&mut tp, 1, 5), Ok(()));
    assert_eq!(wd(&mut tp, 1, 7, 5000), Ok(()));
    assert_eq!(state(&tp, 1), (15000, 0, 15000, false));
}

#[test]
fn test_multiple_dispute_disallowed() {
    let mut tp = TransactionProcessor::new();
    assert_eq!(dep(&mut tp, 1, 5, 20000), Ok(()));
    assert_eq!(dis(&mut tp, 1, 5), Ok(()));
    assert_eq!(
        dis(&mut tp, 1, 5),
        bad_state(TransactionState::InDispute, TransactionState::Processed)
    );
    assert_eq!(res(&mut tp, 1, 5), Ok(()));
    assert_eq!(
        dis(&mut tp, 1, 5),
        bad_state(TransactionState::DisputeHandled, TransactionState::Processed)
    );
    assert_eq!(wd(&mut tp, 1, 6, 5000), Ok(()));
    assert_eq!(state(&tp, 1), (15000, 0, 15000, false));
}

#[test]
fn test_chargeback() {
    let mut tp = TransactionProcessor::new();
    assert_eq!(dep(&mut tp, 1, 4, 10000), Ok(()));
    assert_eq!(dep(&mut tp, 1, 5, 20000), Ok(()));
    assert_eq!(dis(&mut tp, 1, 5), Ok(()));
    assert_eq!(chb(&mut tp, 1, 5), Ok(()));
    assert_eq!(wd(&mut tp, 1, 6, 5000), Err(Error::AccountFrozen));
    assert_eq!(dep(&mut tp, 1, 7, 1000), Err(Error::AccountFrozen));
    assert_eq!(dis(&mut tp, 1, 7), Err(Error::AccountFrozen));
    assert_eq!(res(&mut tp, 1, 7), Err(Error::AccountFrozen));
    assert_eq!(dep(&mut tp, 2, 8, 10000), Ok(()));
    assert_eq!(state(&tp, 1), (10000, 0, 10000, true));
    assert_eq!(state(&tp, 2), (10000, 0, 10000, false));
}

#[test]
fn test_negative_available_on_chargeback() {
    let mut tp = TransactionProcessor::new();
    assert_eq!(dep(&mut tp, 1, 3, 7000), Ok(()));
    assert_eq!(dep(&mut tp, 1, 4, 3000), Ok(()));
    assert_eq!(dep(&mut tp, 1, 5, 20000), Ok(()));
    assert_eq!(wd(&mut tp, 1, 6, 25000), Ok(()));
    assert_eq!(dis(&mut tp, 1, 4), Ok(()));
    assert_eq!(res(&mut tp, 1, 4), Ok(()));
    assert_eq!(wd(&mut tp, 1, 7, 1000), Ok(()));
    assert_eq!(dis(&mut tp, 1, 3), Ok(()));
    assert_eq!(dis(&mut tp, 1, 5), Ok(()));
    assert_eq!(chb(&mut tp, 1, 5), Ok(()));
    assert_eq!(state(&tp, 1), (-23000, 7000, -16000, true));
}

#[test]
fn test_multiple_clients() {
    let mut tp = TransactionProcessor::new();
    assert_eq!(wd(&mut tp, 2, 1, 100000), Err(Error::InsufficientFunds));
    assert_eq!(dep(&mut tp, 1, 2, 1000000), Ok(()));
    assert_eq!(dep(&mut tp, 1, 10, 500000), Ok(()));
    assert_eq!(wd(&mut tp, 2, 3, 100000), Err(Error::InsufficientFunds));
    assert!(tp.account(ClientId(2)).is_none());
    assert_eq!(dep(&mut tp, 2, 4, 2000000), Ok(()));
    assert_eq!(wd(&mut tp, 2, 5, 100000), Ok(()));
    assert_eq!(dis(&mut tp, 1, 5), Err(Error::InvalidTx(TransactionId(5))));
    assert_eq!(res(&mut tp, 1, 5), Err(Error::InvalidTx(TransactionId(5))));
    assert_eq!(dep(&mut tp, 3, 6, 750000), Ok(()));
    assert_eq!(dep(&mut tp, 3, 7, 100000), Ok(()));
    assert_eq!(wd(&mut tp, 3, 8, 800000), Ok(()));
    assert_eq!(dis(&mut tp, 2, 6), Err(Error::InvalidTx(TransactionId(6))));
    assert_eq!(dis(&mut tp, 3, 6), Ok(()));
    assert_eq!(chb(&mut tp, 3, 6), Ok(()));
    assert_eq!(dis(&mut tp, 1, 10), Ok(()));
    assert_eq!(state(&tp, 1), (1000000, 500000, 1500000, false));
    assert_eq!(state(&tp, 2), (1900000, 0, 1900000, false));
    assert_eq!(state(&tp, 3), (-700000, 0, -700000, true));
    assert_eq!(tp.accounts().len(), 3);
}

#[test]
fn deposit_then_withdraw_same_amount() {
    let mut tp = TransactionProcessor::new();
    assert_eq!(dep(&mut tp, 1, 1, 15000), Ok(()));
    assert_eq!(wd(&mut tp, 1, 2, 15000), Ok(()));
    assert_eq!(state(&tp, 1), (0, 0, 0, false));
}

#[test]
fn dispute_moves_deposit_to_held() {
    let mut tp = TransactionProcessor::new();
    assert_eq!(dep(&mut tp, 1, 1, 100000), Ok(()));
    assert_eq!(dis(&mut tp, 1, 1), Ok(()));
    assert_eq!(state(&tp, 1), (0, 100000, 100000, false));
}

#[test]
fn chargeback_freezes_account() {
    let mut tp = TransactionProcessor::new();
    assert_eq!(dep(&mut tp, 1, 1, 100000), Ok(()));
    assert_eq!(dis(&mut tp, 1, 1), Ok(()));
    assert_eq!(chb(&mut tp, 1, 1), Ok(()));
    assert_eq!(state(&tp, 1), (0, 0, 0, true));
    assert_eq!(dep(&mut tp, 1, 2, 50000), Err(Error::AccountFrozen));
    assert_eq!(state(&tp, 1), (0, 0, 0, true));
}

#[test]
fn dispute_of_withdrawal_makes_held_negative() {
    let mut tp = TransactionProcessor::new();
    assert_eq!(dep(&mut tp, 1, 1, 50000), Ok(()));
    assert_eq!(wd(&mut tp, 1, 2, 50000), Ok(()));
    assert_eq!(dis(&mut tp, 1, 2), Ok(()));
    assert_eq!(state(&tp, 1), (50000, -50000, 0, false));
}

#[test]
fn dispute_of_unknown_transaction() {
    let mut tp = TransactionProcessor::new();
    assert_eq!(dis(&mut tp, 1, 7), Err(Error::InvalidClientId(ClientId(1))));
    assert!(tp.accounts().is_empty());
    assert_eq!(dep(&mut tp, 1, 1, 30000), Ok(()));
    assert_eq!(dis(&mut tp, 1, 7), Err(Error::InvalidTx(TransactionId(7))));
    assert_eq!(res(&mut tp, 1, 7), Err(Error::InvalidTx(TransactionId(7))));
    assert_eq!(chb(&mut tp, 1, 7), Err(Error::InvalidTx(TransactionId(7))));
    assert_eq!(state(&tp, 1), (30000, 0, 30000, false));
    // A transaction id belongs to one account only.
    assert_eq!(dep(&mut tp, 2, 9, 10000), Ok(()));
    assert_eq!(dis(&mut tp, 1, 9), Err(Error::InvalidTx(TransactionId(9))));
    assert_eq!(state(&tp, 1), (30000, 0, 30000, false));
}

#[test]
fn dispute_then_resolve_restores_funds() {
    let mut tp = TransactionProcessor::new();
    assert_eq!(dep(&mut tp, 4, 1, 70000), Ok(()));
    assert_eq!(wd(&mut tp, 4, 2, 30000), Ok(()));
    let before = state(&tp, 4);
    assert_eq!(dis(&mut tp, 4, 2), Ok(()));
    assert_eq!(state(&tp, 4), (70000, -30000, 40000, false));
    assert_eq!(res(&mut tp, 4, 2), Ok(()));
    assert_eq!(state(&tp, 4), before);
    assert_eq!(
        dis(&mut tp, 4, 2),
        bad_state(TransactionState::DisputeHandled, TransactionState::Processed)
    );
    assert_eq!(
        res(&mut tp, 4, 2),
        bad_state(TransactionState::DisputeHandled, TransactionState::InDispute)
    );
    assert_eq!(state(&tp, 4), before);
}

#[test]
fn resolve_or_chargeback_without_dispute_refused() {
    let mut tp = TransactionProcessor::new();
    assert_eq!(dep(&mut tp, 1, 1, 10000), Ok(()));
    assert_eq!(res(&mut tp, 1, 1), bad_state(TransactionState::Processed, TransactionState::InDispute));
    assert_eq!(chb(&mut tp, 1, 1), bad_state(TransactionState::Processed, TransactionState::InDispute));
    assert_eq!(state(&tp, 1), (10000, 0, 10000, false));
}

#[test]
fn chargeback_of_withdrawal_raises_held() {
    let mut tp = TransactionProcessor::new();
    assert_eq!(dep(&mut tp, 1, 1, 50000), Ok(()));
    assert_eq!(wd(&mut tp, 1, 2, 20000), Ok(()));
    assert_eq!(dis(&mut tp, 1, 2), Ok(()));
    assert_eq!(state(&tp, 1), (50000, -20000, 30000, false));
    assert_eq!(chb(&mut tp, 1, 2), Ok(()));
    assert_eq!(state(&tp, 1), (50000, 0, 50000, true));
    assert_eq!(wd(&mut tp, 1, 3, 1), Err(Error::AccountFrozen));
    assert_eq!(chb(&mut tp, 1, 2), Err(Error::AccountFrozen));
}

#[test]
fn negative_amount_refused() {
    let mut tp = TransactionProcessor::new();
    assert_eq!(dep(&mut tp, 1, 1, -1), Err(Error::InvalidPrice));
    assert_eq!(wd(&mut tp, 1, 2, -10000), Err(Error::InvalidPrice));
    assert!(tp.accounts().is_empty());
}

#[test]
fn zero_amounts_accepted() {
    let mut tp = TransactionProcessor::new();
    assert_eq!(wd(&mut tp, 1, 1, 0), Ok(()));
    assert_eq!(dep(&mut tp, 1, 2, 0), Ok(()));
    assert_eq!(state(&tp, 1), (0, 0, 0, false));
}

#[test]
fn overflow_refused_without_change() {
    let max = transactions::PRICE4_MAX_UNITS;
    let mut tp = TransactionProcessor::new();
    assert_eq!(dep(&mut tp, 1, 1, max), Ok(()));
    assert_eq!(dep(&mut tp, 1, 2, 1), Err(Error::PriceOverflow(p(max), p(1))));
    assert_eq!(state(&tp, 1), (max, 0, max, false));
    // Held and available may not add up past the range either.
    let mut tp = TransactionProcessor::new();
    assert_eq!(dep(&mut tp, 1, 1, max), Ok(()));
    assert_eq!(dis(&mut tp, 1, 1), Ok(()));
    assert_eq!(dep(&mut tp, 1, 2, 5), Err(Error::PriceOverflow(p(5), p(max))));
    assert_eq!(state(&tp, 1), (0, max, max, false));
}

#[test]
fn funds_equal_history_after_mixed_operations() {
    let mut tp = TransactionProcessor::new();
    assert_eq!(dep(&mut tp, 1, 1, 30000), Ok(()));
    assert_eq!(dep(&mut tp, 1, 2, 12345), Ok(()));
    assert_eq!(wd(&mut tp, 1, 3, 20000), Ok(()));
    assert_eq!(dis(&mut tp, 1, 2), Ok(()));
    assert_eq!(dis(&mut tp, 1, 3), Ok(()));
    assert_eq!(res(&mut tp, 1, 3), Ok(()));
    // Processed and resolved: 30000 - 20000; disputed: 12345.
    assert_eq!(state(&tp, 1), (10000, 12345, 22345, false));
}

#[test]
fn check_tx_state_and_sides() {
    assert_eq!(check_tx_state(TransactionState::InDispute, TransactionState::InDispute), Ok(()));
    assert_eq!(
        check_tx_state(TransactionState::Processed, TransactionState::InDispute),
        bad_state(TransactionState::Processed, TransactionState::InDispute)
    );
    assert_eq!(Side::Deposit.opposite(), Side::Withdrawal);
    assert_eq!(Side::Withdrawal.opposite(), Side::Deposit);
}

#[test]
fn client_ids_ascending() {
    let mut tp = TransactionProcessor::new();
    assert!(tp.client_ids().is_empty());
    assert_eq!(dep(&mut tp, 300, 1, 1), Ok(()));
    assert_eq!(dep(&mut tp, 2, 1, 1), Ok(()));
    assert_eq!(dep(&mut tp, 65535, 1, 1), Ok(()));
    assert_eq!(dep(&mut tp, 0, 1, 1), Ok(()));
    assert_eq!(wd(&mut tp, 7, 1, 1), Err(Error::InsufficientFunds));
    let ids: Vec<u16> = tp.client_ids().iter().map(|c| c.0).collect();
    assert_eq!(ids, vec![0, 2, 300, 65535]);
}

fn info(kind: TransactionInfoKind, c: u16, t: u32, amount: Option<i128>) -> TransactionInfo {
    TransactionInfo {
        kind,
        client_id: ClientId(c),
        tx_id: TransactionId(t),
        amount: amount.map(p),
    }
}

#[test]
fn records_are_dispatched_by_kind() {
    let mut tp = TransactionProcessor::new();
    let d = info(TransactionInfoKind::Deposit, 1, 1, Some(20000));
    assert_eq!(process(&mut tp, &d), Ok(()));
    let w = info(TransactionInfoKind::Withdrawal, 1, 2, Some(5000));
    assert_eq!(process(&mut tp, &w), Ok(()));
    // The amount of a dispute is ignored.
    let x = info(TransactionInfoKind::Dispute, 1, 1, Some(1));
    assert_eq!(process(&mut tp, &x), Ok(()));
    assert_eq!(state(&tp, 1), (-5000, 20000, 15000, false));
    let r = info(TransactionInfoKind::Resolve, 1, 1, None);
    assert_eq!(process(&mut tp, &r), Ok(()));
    assert_eq!(state(&tp, 1), (15000, 0, 15000, false));
    let x = info(TransactionInfoKind::Dispute, 1, 2, None);
    assert_eq!(process(&mut tp, &x), Ok(()));
    let cb = info(TransactionInfoKind::Chargeback, 1, 2, None);
    assert_eq!(process(&mut tp, &cb), Ok(()));
    assert_eq!(state(&tp, 1), (20000, 0, 20000, true));
}

#[test]
fn record_without_amount_refused() {
    let mut tp = TransactionProcessor::new();
    let d = info(TransactionInfoKind::Deposit, 1, 1, None);
    assert_eq!(process(&mut tp, &d), Err(Error::InvalidPrice));
    let w = info(TransactionInfoKind::Withdrawal, 1, 2, None);
    assert_eq!(process(&mut tp, &w), Err(Error::InvalidPrice));
    assert!(tp.accounts().is_empty());
}
