//! A ledger of client accounts: deposits and withdrawals move the available
//! funds, disputes move a transaction's amount into holding, and a dispute is
//! settled either by a resolve, which undoes the hold, or by a chargeback,
//! which reverses the transaction and freezes the account for good.

pub mod decimal;
pub mod laws;
pub mod ledger;
pub mod price;
pub mod record;

pub use ledger::{
    check_tx_state, Account, Chargeback, ClientId, Deposit, Dispute, Error, Funds, Resolve, Side,
    TransactionId, TransactionProcessor, TransactionState, Withdrawal,
};
pub use price::{Price4, PRICE4_MAX_UNITS};
pub use record::{process, TransactionInfo, TransactionInfoKind};
