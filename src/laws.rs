use vstd::prelude::*;

use crate::ledger::{
    account_consistent, account_or_new, chargeback_step, dispute_step, fund_tx_step,
    ledger_consistent, resolve_step, signed_amount, AccountModel, Error, Side, TransactionId,
    TransactionState,
};
use crate::price::price_in_range;
use crate::record::{info_step, TransactionInfo};

verus! {

/// A deposit is never refused for the balance: on an account that is not
/// frozen it succeeds unless the amount is negative, the id is taken, or a
/// sum leaves the representable range.
pub proof fn lemma_deposit_not_refused_for_balance(
    m: Map<u16, AccountModel>,
    c: u16,
    tx: u32,
    amount: int,
)
    requires
        ledger_consistent(m),
    ensures
        fund_tx_step(m, c, tx, amount, Side::Deposit) != Err::<Map<u16, AccountModel>, Error>(
            Error::InsufficientFunds,
        ),
        ({
            let a = account_or_new(m, c);
            (0 <= amount && !a.frozen && !a.txs.contains_key(tx) && price_in_range(
                a.available + amount,
            ) && price_in_range(a.available + amount + a.held)) ==> fund_tx_step(
                m,
                c,
                tx,
                amount,
                Side::Deposit,
            ) is Ok
        }),
{
}

/// A withdrawal from an account that is not frozen, under a new id and of a
/// non-negative amount, fails exactly when it would make the available
/// funds negative.
pub proof fn lemma_withdrawal_refused_iff_negative(
    m: Map<u16, AccountModel>,
    c: u16,
    tx: u32,
    amount: int,
)
    requires
        ledger_consistent(m),
        price_in_range(amount),
        0 <= amount,
        !account_or_new(m, c).frozen,
        !account_or_new(m, c).txs.contains_key(tx),
    ensures
        fund_tx_step(m, c, tx, amount, Side::Withdrawal) is Err <==> account_or_new(m, c).available
            - amount < 0,
{
    if m.contains_key(c) {
        assert(account_consistent(m[c]));
    }
}

/// A deposit or withdrawal under an id that the account already holds is
/// refused.
pub proof fn lemma_duplicate_id_refused(
    m: Map<u16, AccountModel>,
    c: u16,
    tx: u32,
    amount: int,
    side: Side,
)
    requires
        0 <= amount,
        !account_or_new(m, c).frozen,
        account_or_new(m, c).txs.contains_key(tx),
    ensures
        fund_tx_step(m, c, tx, amount, side) == Err::<Map<u16, AccountModel>, Error>(
            Error::DuplicateTx(TransactionId(tx)),
        ),
{
}

/// A dispute followed by a resolve of the same transaction restores the
/// available and held funds exactly, and the transaction cannot be disputed
/// again.
pub proof fn lemma_dispute_then_resolve(m: Map<u16, AccountModel>, c: u16, tx: u32)
    requires
        ledger_consistent(m),
        dispute_step(m, c, tx) is Ok,
    ensures
        ({
            let m1 = dispute_step(m, c, tx)->Ok_0;
            &&& resolve_step(m1, c, tx) is Ok
            &&& resolve_step(m1, c, tx)->Ok_0[c].available == m[c].available
            &&& resolve_step(m1, c, tx)->Ok_0[c].held == m[c].held
            &&& dispute_step(resolve_step(m1, c, tx)->Ok_0, c, tx)
                == Err::<Map<u16, AccountModel>, Error>(
                Error::InvalidTxState {
                    actual: TransactionState::DisputeHandled,
                    expected: TransactionState::Processed,
                },
            )
        }),
{
    assert(account_consistent(m[c]));
}

/// A chargeback that follows a dispute of the same transaction leaves the
/// account frozen with the held funds reduced by the disputed amount, and
/// every later operation on the account with a non-negative amount is
/// refused as frozen. It succeeds unless the total funds less that amount
/// leave the representable range.
pub proof fn lemma_dispute_then_chargeback(m: Map<u16, AccountModel>, c: u16, tx: u32)
    requires
        ledger_consistent(m),
        dispute_step(m, c, tx) is Ok,
    ensures
        ({
            let m1 = dispute_step(m, c, tx)->Ok_0;
            let t = m[c].txs[tx];
            let s = signed_amount(t.side, t.amount);
            &&& chargeback_step(m1, c, tx) is Ok <==> price_in_range(
                m[c].available + m[c].held - s,
            )
            &&& chargeback_step(m1, c, tx) is Ok ==> {
                let m2 = chargeback_step(m1, c, tx)->Ok_0;
                &&& m2[c].frozen
                &&& m2[c].held == m1[c].held - s
                &&& m2[c].available == m1[c].available
            }
        }),
{
    assert(account_consistent(m[c]));
}

/// Every operation on a frozen account is refused as frozen, whatever the
/// transaction, for any non-negative amount.
pub proof fn lemma_frozen_refuses_all(
    m: Map<u16, AccountModel>,
    c: u16,
    tx: u32,
    amount: int,
    side: Side,
)
    requires
        m.contains_key(c),
        m[c].frozen,
        0 <= amount,
    ensures
        fund_tx_step(m, c, tx, amount, side) == Err::<Map<u16, AccountModel>, Error>(
            Error::AccountFrozen,
        ),
        dispute_step(m, c, tx) == Err::<Map<u16, AccountModel>, Error>(Error::AccountFrozen),
        resolve_step(m, c, tx) == Err::<Map<u16, AccountModel>, Error>(Error::AccountFrozen),
        chargeback_step(m, c, tx) == Err::<Map<u16, AccountModel>, Error>(Error::AccountFrozen),
{
}

/// A frozen account stays as it is, frozen, whatever record is applied to
/// the ledger, for this client or another.
pub proof fn lemma_frozen_is_permanent(m: Map<u16, AccountModel>, c: u16, info: TransactionInfo)
    requires
        m.contains_key(c),
        m[c].frozen,
    ensures
        info_step(m, info) matches Ok(m1) ==> m1.contains_key(c) && m1[c] == m[c],
{
}

/// A dispute, resolve or chargeback of a transaction that the client's
/// account does not hold (or of a client without an account) is refused.
pub proof fn lemma_unknown_pair_refused(m: Map<u16, AccountModel>, c: u16, tx: u32)
    requires
        !(m.contains_key(c) && m[c].txs.contains_key(tx)),
    ensures
        dispute_step(m, c, tx) is Err,
        resolve_step(m, c, tx) is Err,
        chargeback_step(m, c, tx) is Err,
{
}

} // verus!
