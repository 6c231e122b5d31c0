use vstd::prelude::*;

use crate::ledger::{
    chargeback_step, dispute_step, fund_tx_step, resolve_step, step_taken, AccountModel,
    Chargeback, ClientId, Deposit, Dispute, Error, Resolve, Side, TransactionId,
    TransactionProcessor, Withdrawal,
};
use crate::price::Price4;

verus! {

/// The kind of a transaction record.
#[derive(Clone, Copy, Debug, PartialEq, Eq, Structural)]
pub enum TransactionInfoKind {
    Deposit,
    Withdrawal,
    Dispute,
    Resolve,
    Chargeback,
}

/// One transaction record. The amount is required of deposits and
/// withdrawals and ignored for the other kinds; `None` stands for an amount
/// that is missing or was not representable.
#[derive(Clone, Copy, Debug, PartialEq, Eq)]
pub struct TransactionInfo {
    pub kind: TransactionInfoKind,
    pub client_id: ClientId,
    pub tx_id: TransactionId,
    pub amount: Option<Price4>,
}

/// The ledger after the record `info`, or the error that refuses it.
pub open spec fn info_step(m: Map<u16, AccountModel>, info: TransactionInfo) -> Result<
    Map<u16, AccountModel>,
    Error,
> {
    let c = info.client_id.0;
    let t = info.tx_id.0;
    match info.kind {
        TransactionInfoKind::Deposit => match info.amount {
            Some(a) => fund_tx_step(m, c, t, a.value(), Side::Deposit),
            None => Err(Error::InvalidPrice),
        },
        TransactionInfoKind::Withdrawal => match info.amount {
            Some(a) => fund_tx_step(m, c, t, a.value(), Side::Withdrawal),
            None => Err(Error::InvalidPrice),
        },
        TransactionInfoKind::Dispute => dispute_step(m, c, t),
        TransactionInfoKind::Resolve => resolve_step(m, c, t),
        TransactionInfoKind::Chargeback => chargeback_step(m, c, t),
    }
}

/// Applies one transaction record to the ledger.
pub fn process(transaction_processor: &mut TransactionProcessor, tx_info: &TransactionInfo) -> (r:
    Result<(), Error>)
    requires
        old(transaction_processor).wf(),
        tx_info.amount matches Some(a) ==> a.wf(),
    ensures
        final(transaction_processor).wf(),
        step_taken(
            r,
            old(transaction_processor)@,
            final(transaction_processor)@,
            info_step(old(transaction_processor)@, *tx_info),
        ),
{
    let client_id = tx_info.client_id;
    let tx_id = tx_info.tx_id;
    match tx_info.kind {
        TransactionInfoKind::Deposit => match tx_info.amount {
            Some(amount) => transaction_processor.process_deposit(
                Deposit { client_id, tx_id, amount },
            ),
            None => Err(Error::InvalidPrice),
        },
        TransactionInfoKind::Withdrawal => match tx_info.amount {
            Some(amount) => transaction_processor.process_withdrawal(
                Withdrawal { client_id, tx_id, amount },
            ),
            None => Err(Error::InvalidPrice),
        },
        TransactionInfoKind::Dispute => transaction_processor.process_dispute(
            Dispute { client_id, tx_id },
        ),
        TransactionInfoKind::Resolve => transaction_processor.process_resolve(
            Resolve { client_id, tx_id },
        ),
        TransactionInfoKind::Chargeback => transaction_processor.process_chargeback(
            Chargeback { client_id, tx_id },
        ),
    }
}

} // verus!
