use std::collections::HashMap;
use vstd::prelude::*;

use crate::price::{price_in_range, Price4};

verus! {

broadcast use vstd::std_specs::hash::group_hash_axioms, Price4::lemma_from_value_of_value,
    Price4::lemma_value_of_from_value;

/// The identifier of a client.
#[derive(Clone, Copy, Debug, PartialEq, Eq, PartialOrd, Ord, Hash)]
pub struct ClientId(pub u16);

/// The identifier of a transaction, unique within one client's account.
#[derive(Clone, Copy, Debug, PartialEq, Eq, PartialOrd, Ord, Hash)]
pub struct TransactionId(pub u32);

/// Which way a transaction moves funds.
#[derive(Clone, Copy, Debug, PartialEq, Eq, Structural)]
pub enum Side {
    Deposit,
    Withdrawal,
}

impl Side {
    pub open spec fn spec_opposite(self) -> Side {
        match self {
            Side::Deposit => Side::Withdrawal,
            Side::Withdrawal => Side::Deposit,
        }
    }

    pub fn opposite(&self) -> (r: Side)
        ensures
            r == self.spec_opposite(),
    {
        match self {
            Side::Deposit => Side::Withdrawal,
            Side::Withdrawal => Side::Deposit,
        }
    }
}

/// `amount` with the sign that `side` gives it in the available balance.
pub open spec fn signed_amount(side: Side, amount: int) -> int {
    match side {
        Side::Deposit => amount,
        Side::Withdrawal => -amount,
    }
}

/// Where a deposit or withdrawal stands in the dispute process.
#[derive(Clone, Copy, Debug, PartialEq, Eq, Structural)]
pub enum TransactionState {
    /// The transaction was successfully processed.
    Processed,
    /// The client has asked for the transaction to be reversed.
    InDispute,
    /// The dispute was settled, by a resolve or by a chargeback.
    DisputeHandled,
}

/// Why an operation on the ledger was refused. A refused operation changes
/// nothing.
#[derive(Clone, Copy, Debug, PartialEq, Eq)]
pub enum Error {
    /// The account holds no transaction of this id.
    InvalidTx(TransactionId),
    /// The account already holds a transaction of this id.
    DuplicateTx(TransactionId),
    /// The transaction is not in the state that the operation acts on.
    InvalidTxState { actual: TransactionState, expected: TransactionState },
    /// The client has no account yet.
    InvalidClientId(ClientId),
    /// The amount is negative.
    InvalidPrice,
    /// A withdrawal would leave the available funds negative.
    InsufficientFunds,
    /// Combining the two amounts leaves the representable range.
    PriceOverflow(Price4, Price4),
    /// The account was frozen by a chargeback.
    AccountFrozen,
}

/// The overflow error raised on the amounts `x` and `y` (in ten-thousandths).
pub open spec fn overflow_error(x: int, y: int) -> Error {
    Error::PriceOverflow(Price4::from_value(x), Price4::from_value(y))
}

/// Adds (`Side::Deposit`) or subtracts (`Side::Withdrawal`) `y` to or from `x`.
fn calculate_amount(x: Price4, op: Side, y: Price4) -> (r: Result<Price4, Error>)
    requires
        x.wf(),
        y.wf(),
    ensures
        match r {
            Ok(p) => p.wf() && p.value() == x.value() + signed_amount(op, y.value()),
            Err(e) => !price_in_range(x.value() + signed_amount(op, y.value())) && e
                == overflow_error(x.value(), y.value()),
        },
{
    let res_opt = match op {
        Side::Deposit => x.checked_add(y),
        Side::Withdrawal => x.checked_sub(y),
    };
    match res_opt {
        Some(p) => Ok(p),
        None => Err(Error::PriceOverflow(x, y)),
    }
}

/// Fails unless a transaction in state `actual` is in state `expected`.
pub fn check_tx_state(actual: TransactionState, expected: TransactionState) -> (r: Result<(), Error>)
    ensures
        r == (if actual == expected {
            Ok(())
        } else {
            Err(Error::InvalidTxState { actual, expected })
        }),
{
    if actual != expected {
        return Err(Error::InvalidTxState { actual, expected });
    }
    Ok(())
}

/// The two balances of an account.
#[derive(Clone, Copy, Debug)]
pub struct Funds {
    /// The funds available for withdrawing.
    available: Price4,
    /// The funds put on hold for disputed transactions.
    held: Price4,
}

impl Funds {
    pub closed spec fn available_value(self) -> int {
        self.available.value()
    }

    pub closed spec fn held_value(self) -> int {
        self.held.value()
    }

    /// Both balances and their sum are representable.
    pub open spec fn wf(self) -> bool {
        &&& price_in_range(self.available_value())
        &&& price_in_range(self.held_value())
        &&& price_in_range(self.available_value() + self.held_value())
    }

    pub fn new() -> (r: Funds)
        ensures
            r.wf(),
            r.available_value() == 0,
            r.held_value() == 0,
    {
        Funds { available: Price4::zero(), held: Price4::zero() }
    }

    /// The available and the held funds together.
    pub fn total(&self) -> (r: Price4)
        requires
            self.wf(),
        ensures
            r.wf(),
            r.value() == self.available_value() + self.held_value(),
    {
        match self.available.checked_add(self.held) {
            Some(t) => t,
            None => {
                assert(false);
                Price4::zero()
            },
        }
    }

    /// Replaces both balances, unless their sum would not be representable.
    pub fn set(&mut self, available_funds: Price4, held_funds: Price4) -> (r: Result<(), Error>)
        requires
            available_funds.wf(),
            held_funds.wf(),
        ensures
            price_in_range(available_funds.value() + held_funds.value()) ==> r is Ok
                && final(self).available_value() == available_funds.value()
                && final(self).held_value() == held_funds.value() && final(self).wf(),
            !price_in_range(available_funds.value() + held_funds.value()) ==> r == Err::<(), Error>(
                Error::PriceOverflow(available_funds, held_funds),
            ) && *final(self) == *old(self),
    {
        if available_funds.checked_add(held_funds).is_none() {
            return Err(Error::PriceOverflow(available_funds, held_funds));
        }
        self.available = available_funds;
        self.held = held_funds;
        Ok(())
    }
}

/// What a deposit or withdrawal of an account is, in the model.
pub struct TxModel {
    /// The amount, in ten-thousandths.
    pub amount: int,
    pub side: Side,
    pub state: TransactionState,
}

/// What an account is, in the model.
pub struct AccountModel {
    /// The available funds, in ten-thousandths.
    pub available: int,
    /// The held funds, in ten-thousandths.
    pub held: int,
    pub frozen: bool,
    /// The deposits and withdrawals of the account, by id.
    pub txs: Map<u32, TxModel>,
    /// The ids of `txs`, in the order in which they were recorded.
    pub history: Seq<u32>,
    /// The transaction that was charged back, if any.
    pub charged_back: Option<u32>,
}

/// An account that no transaction has touched yet.
pub open spec fn new_account_model() -> AccountModel {
    AccountModel {
        available: 0,
        held: 0,
        frozen: false,
        txs: Map::empty(),
        history: Seq::empty(),
        charged_back: None,
    }
}

/// What one transaction contributes to the held (`on_held`) or to the
/// available funds: a processed or resolved one its signed amount to the
/// available funds, a disputed one its signed amount to the held funds, a
/// charged-back one nothing.
pub open spec fn tx_effect(t: TxModel, charged_back: bool, on_held: bool) -> int {
    if charged_back {
        0
    } else if on_held {
        if t.state == TransactionState::InDispute {
            signed_amount(t.side, t.amount)
        } else {
            0
        }
    } else {
        if t.state == TransactionState::InDispute {
            0
        } else {
            signed_amount(t.side, t.amount)
        }
    }
}

/// The held (`on_held`) or available funds recomputed from the transactions
/// `ids` of `txs`.
pub open spec fn history_sum(
    ids: Seq<u32>,
    txs: Map<u32, TxModel>,
    charged_back: Option<u32>,
    on_held: bool,
) -> int
    decreases ids.len(),
{
    if ids.len() == 0 {
        0
    } else {
        history_sum(ids.drop_last(), txs, charged_back, on_held) + tx_effect(
            txs[ids.last()],
            charged_back == Some(ids.last()),
            on_held,
        )
    }
}

/// The invariant of an account: the funds are representable and equal the
/// sums recomputed from its transactions, each transaction is recorded once,
/// and the account is frozen exactly when one of them was charged back.
pub open spec fn account_consistent(a: AccountModel) -> bool {
    &&& price_in_range(a.available)
    &&& price_in_range(a.held)
    &&& price_in_range(a.available + a.held)
    &&& a.history.no_duplicates()
    &&& forall|t: u32| #[trigger] a.txs.contains_key(t) ==> a.history.contains(t)
    &&& forall|i: int| 0 <= i < a.history.len() ==> a.txs.contains_key(#[trigger] a.history[i])
    &&& forall|t: u32| #[trigger]
        a.txs.contains_key(t) ==> 0 <= a.txs[t].amount && price_in_range(a.txs[t].amount)
    &&& a.frozen <==> a.charged_back is Some
    &&& a.charged_back matches Some(t) ==> a.txs.contains_key(t) && a.txs[t].state
        == TransactionState::DisputeHandled
    &&& a.available == history_sum(a.history, a.txs, a.charged_back, false)
    &&& a.held == history_sum(a.history, a.txs, a.charged_back, true)
}

/// The account after a deposit or withdrawal of `amount` under id `tx`, or
/// the error that refuses it, for an account that is not frozen.
pub open spec fn account_record(a: AccountModel, tx: u32, amount: int, side: Side) -> Result<
    AccountModel,
    Error,
> {
    let available = a.available + signed_amount(side, amount);
    if a.txs.contains_key(tx) {
        Err(Error::DuplicateTx(TransactionId(tx)))
    } else if !price_in_range(available) {
        Err(overflow_error(a.available, amount))
    } else if side == Side::Withdrawal && available < 0 {
        Err(Error::InsufficientFunds)
    } else if !price_in_range(available + a.held) {
        Err(overflow_error(available, a.held))
    } else {
        Ok(
            AccountModel {
                available,
                txs: a.txs.insert(
                    tx,
                    TxModel { amount, side, state: TransactionState::Processed },
                ),
                history: a.history.push(tx),
                ..a
            },
        )
    }
}

/// The error that refuses acting on transaction `tx` of `a` in state
/// `expected`, if any.
pub open spec fn tx_failure(a: AccountModel, tx: u32, expected: TransactionState) -> Option<
    Error,
> {
    if !a.txs.contains_key(tx) {
        Some(Error::InvalidTx(TransactionId(tx)))
    } else if a.txs[tx].state != expected {
        Some(Error::InvalidTxState { actual: a.txs[tx].state, expected })
    } else {
        None
    }
}

/// The account after a dispute of `tx`: its signed amount moves from the
/// available to the held funds.
pub open spec fn account_dispute(a: AccountModel, tx: u32) -> Result<AccountModel, Error> {
    match tx_failure(a, tx, TransactionState::Processed) {
        Some(e) => Err(e),
        None => {
            let t = a.txs[tx];
            let s = signed_amount(t.side, t.amount);
            if !price_in_range(a.held + s) {
                Err(overflow_error(a.held, t.amount))
            } else if !price_in_range(a.available - s) {
                Err(overflow_error(a.available, t.amount))
            } else {
                Ok(
                    AccountModel {
                        available: a.available - s,
                        held: a.held + s,
                        txs: a.txs.insert(
                            tx,
                            TxModel { state: TransactionState::InDispute, ..t },
                        ),
                        ..a
                    },
                )
            }
        },
    }
}

/// The account after a resolve of `tx`: the movement of its dispute is
/// undone.
pub open spec fn account_resolve(a: AccountModel, tx: u32) -> Result<AccountModel, Error> {
    match tx_failure(a, tx, TransactionState::InDispute) {
        Some(e) => Err(e),
        None => {
            let t = a.txs[tx];
            let s = signed_amount(t.side, t.amount);
            if !price_in_range(a.held - s) {
                Err(overflow_error(a.held, t.amount))
            } else if !price_in_range(a.available + s) {
                Err(overflow_error(a.available, t.amount))
            } else {
                Ok(
                    AccountModel {
                        available: a.available + s,
                        held: a.held - s,
                        txs: a.txs.insert(
                            tx,
                            TxModel { state: TransactionState::DisputeHandled, ..t },
                        ),
                        ..a
                    },
                )
            }
        },
    }
}

/// The account after a chargeback of `tx`: its signed amount leaves the
/// held funds and the account is frozen.
pub open spec fn account_chargeback(a: AccountModel, tx: u32) -> Result<AccountModel, Error> {
    match tx_failure(a, tx, TransactionState::InDispute) {
        Some(e) => Err(e),
        None => {
            let t = a.txs[tx];
            let s = signed_amount(t.side, t.amount);
            if !price_in_range(a.held - s) {
                Err(overflow_error(a.held, t.amount))
            } else if !price_in_range(a.available + a.held - s) {
                Err(overflow_error(a.available, a.held - s))
            } else {
                Ok(
                    AccountModel {
                        held: a.held - s,
                        frozen: true,
                        txs: a.txs.insert(
                            tx,
                            TxModel { state: TransactionState::DisputeHandled, ..t },
                        ),
                        charged_back: Some(tx),
                        ..a
                    },
                )
            }
        },
    }
}

/// A deposit of `amount` into the account of `client_id`.
pub struct Deposit {
    pub client_id: ClientId,
    pub tx_id: TransactionId,
    pub amount: Price4,
}

/// A withdrawal of `amount` from the account of `client_id`.
pub struct Withdrawal {
    pub client_id: ClientId,
    pub tx_id: TransactionId,
    pub amount: Price4,
}

/// A client's claim that transaction `tx_id` should be reversed.
pub struct Dispute {
    pub client_id: ClientId,
    pub tx_id: TransactionId,
}

/// The settlement of the dispute of `tx_id` that keeps the transaction.
pub struct Resolve {
    pub client_id: ClientId,
    pub tx_id: TransactionId,
}

/// The settlement of the dispute of `tx_id` by reversing it.
pub struct Chargeback {
    pub client_id: ClientId,
    pub tx_id: TransactionId,
}

/// The account of client `c` in `m`, or a new one where it has none.
pub open spec fn account_or_new(m: Map<u16, AccountModel>, c: u16) -> AccountModel {
    if m.contains_key(c) {
        m[c]
    } else {
        new_account_model()
    }
}

/// The ledger after a deposit or withdrawal, or the error that refuses it.
/// An account is opened by the first deposit or withdrawal that succeeds.
pub open spec fn fund_tx_step(
    m: Map<u16, AccountModel>,
    c: u16,
    tx: u32,
    amount: int,
    side: Side,
) -> Result<Map<u16, AccountModel>, Error> {
    let a = account_or_new(m, c);
    if amount < 0 {
        Err(Error::InvalidPrice)
    } else if a.frozen {
        Err(Error::AccountFrozen)
    } else {
        match account_record(a, tx, amount, side) {
            Ok(a1) => Ok(m.insert(c, a1)),
            Err(e) => Err(e),
        }
    }
}

/// The error that refuses acting on the account of client `c`, if any: it
/// must exist and not be frozen.
pub open spec fn account_failure(m: Map<u16, AccountModel>, c: u16) -> Option<Error> {
    if !m.contains_key(c) {
        Some(Error::InvalidClientId(ClientId(c)))
    } else if m[c].frozen {
        Some(Error::AccountFrozen)
    } else {
        None
    }
}

/// The ledger with account `c` replaced by the outcome `r` of an operation on it.
pub open spec fn lift_account_step(
    m: Map<u16, AccountModel>,
    c: u16,
    r: Result<AccountModel, Error>,
) -> Result<Map<u16, AccountModel>, Error> {
    match r {
        Ok(a1) => Ok(m.insert(c, a1)),
        Err(e) => Err(e),
    }
}

/// The ledger after a dispute of transaction `tx` of client `c`.
pub open spec fn dispute_step(m: Map<u16, AccountModel>, c: u16, tx: u32) -> Result<
    Map<u16, AccountModel>,
    Error,
> {
    match account_failure(m, c) {
        Some(e) => Err(e),
        None => lift_account_step(m, c, account_dispute(m[c], tx)),
    }
}

/// The ledger after a resolve of transaction `tx` of client `c`.
pub open spec fn resolve_step(m: Map<u16, AccountModel>, c: u16, tx: u32) -> Result<
    Map<u16, AccountModel>,
    Error,
> {
    match account_failure(m, c) {
        Some(e) => Err(e),
        None => lift_account_step(m, c, account_resolve(m[c], tx)),
    }
}

/// The ledger after a chargeback of transaction `tx` of client `c`.
pub open spec fn chargeback_step(m: Map<u16, AccountModel>, c: u16, tx: u32) -> Result<
    Map<u16, AccountModel>,
    Error,
> {
    match account_failure(m, c) {
        Some(e) => Err(e),
        None => lift_account_step(m, c, account_chargeback(m[c], tx)),
    }
}

/// An operation returned `r` and left the ledger `after`, as `step` says:
/// on success the new ledger, on failure the error and the ledger `before`
/// unchanged.
pub open spec fn step_taken(
    r: Result<(), Error>,
    before: Map<u16, AccountModel>,
    after: Map<u16, AccountModel>,
    step: Result<Map<u16, AccountModel>, Error>,
) -> bool {
    match step {
        Ok(m) => r is Ok && after == m,
        Err(e) => r == Err::<(), Error>(e) && after == before,
    }
}

/// Processes transactions and manages the clients' accounts.
pub struct TransactionProcessor {
    accounts: HashMap<u16, Account>,
}

impl View for TransactionProcessor {
    type V = Map<u16, AccountModel>;

    closed spec fn view(&self) -> Map<u16, AccountModel> {
        self.accounts@.map_values(|a: Account| a@)
    }
}

impl TransactionProcessor {
    /// Every account is well formed.
    pub closed spec fn wf(&self) -> bool {
        forall|c: u16| #[trigger] self.accounts@.contains_key(c) ==> self.accounts@[c].wf()
    }

    pub fn new() -> (r: TransactionProcessor)
        ensures
            r.wf(),
            r@ == Map::<u16, AccountModel>::empty(),
    {
        let r = TransactionProcessor { accounts: HashMap::new() };
        assert(r@ =~= Map::<u16, AccountModel>::empty());
        r
    }

    /// Deposits `amount` into the available funds of `client_id` as
    /// transaction `tx_id`. Fails where the amount is negative, the account
    /// is frozen, the id is already used in the account, or the funds would
    /// leave the representable range.
    pub fn process_deposit(&mut self, deposit: Deposit) -> (r: Result<(), Error>)
        requires
            old(self).wf(),
            deposit.amount.wf(),
        ensures
            final(self).wf(),
            step_taken(
                r,
                old(self)@,
                final(self)@,
                fund_tx_step(
                    old(self)@,
                    deposit.client_id.0,
                    deposit.tx_id.0,
                    deposit.amount.value(),
                    Side::Deposit,
                ),
            ),
    {
        self.process_tx(
            deposit.client_id,
            FundTransaction {
                tx_id: deposit.tx_id,
                amount: deposit.amount,
                side: Side::Deposit,
                state: TransactionState::Processed,
            },
        )
    }

    /// Withdraws `amount` from the available funds of `client_id` as
    /// transaction `tx_id`. Fails as a deposit does, and also where the
    /// available funds would become negative.
    pub fn process_withdrawal(&mut self, withdrawal: Withdrawal) -> (r: Result<(), Error>)
        requires
            old(self).wf(),
            withdrawal.amount.wf(),
        ensures
            final(self).wf(),
            step_taken(
                r,
                old(self)@,
                final(self)@,
                fund_tx_step(
                    old(self)@,
                    withdrawal.client_id.0,
                    withdrawal.tx_id.0,
                    withdrawal.amount.value(),
                    Side::Withdrawal,
                ),
            ),
    {
        self.process_tx(
            withdrawal.client_id,
            FundTransaction {
                tx_id: withdrawal.tx_id,
                amount: withdrawal.amount,
                side: Side::Withdrawal,
                state: TransactionState::Processed,
            },
        )
    }

    /// Marks transaction `tx_id` of `client_id` as disputed, moving its
    /// funds from the available to the held funds.
    pub fn process_dispute(&mut self, dispute: Dispute) -> (r: Result<(), Error>)
        requires
            old(self).wf(),
        ensures
            final(self).wf(),
            step_taken(
                r,
                old(self)@,
                final(self)@,
                dispute_step(old(self)@, dispute.client_id.0, dispute.tx_id.0),
            ),
    {
        let c = dispute.client_id.0;
        let mut account = match self.get_account(c) {
            Ok(a) => a,
            Err(e) => return Err(e),
        };
        let r = account.dispute_tx(dispute.tx_id.0);
        let ghost a1 = account@;
        self.put_account(c, account);
        proof {
            if r.is_err() {
                assert(self@ =~= old(self)@);
            } else {
                assert(self@ =~= old(self)@.insert(c, a1));
            }
        }
        r
    }

    /// Settles the dispute of transaction `tx_id` of `client_id` by putting
    /// its held funds back where they were.
    pub fn process_resolve(&mut self, resolve: Resolve) -> (r: Result<(), Error>)
        requires
            old(self).wf(),
        ensures
            final(self).wf(),
            step_taken(
                r,
                old(self)@,
                final(self)@,
                resolve_step(old(self)@, resolve.client_id.0, resolve.tx_id.0),
            ),
    {
        let c = resolve.client_id.0;
        let mut account = match self.get_account(c) {
            Ok(a) => a,
            Err(e) => return Err(e),
        };
        let r = account.resolve_tx(resolve.tx_id.0);
        let ghost a1 = account@;
        self.put_account(c, account);
        proof {
            if r.is_err() {
                assert(self@ =~= old(self)@);
            } else {
                assert(self@ =~= old(self)@.insert(c, a1));
            }
        }
        r
    }

    /// Settles the dispute of transaction `tx_id` of `client_id` by
    /// reversing it: its funds leave the held funds and the account is
    /// frozen.
    pub fn process_chargeback(&mut self, chargeback: Chargeback) -> (r: Result<(), Error>)
        requires
            old(self).wf(),
        ensures
            final(self).wf(),
            step_taken(
                r,
                old(self)@,
                final(self)@,
                chargeback_step(old(self)@, chargeback.client_id.0, chargeback.tx_id.0),
            ),
    {
        let c = chargeback.client_id.0;
        let mut account = match self.get_account(c) {
            Ok(a) => a,
            Err(e) => return Err(e),
        };
        let r = account.chargeback_tx(chargeback.tx_id.0);
        let ghost a1 = account@;
        self.put_account(c, account);
        proof {
            if r.is_err() {
                assert(self@ =~= old(self)@);
            } else {
                assert(self@ =~= old(self)@.insert(c, a1));
            }
        }
        r
    }

    /// All accounts, by client id.
    pub fn accounts(&self) -> (r: &HashMap<u16, Account>)
        requires
            self.wf(),
        ensures
            r@.map_values(|a: Account| a@) == self@,
            forall|c: u16| #[trigger] r@.contains_key(c) ==> r@[c].wf(),
    {
        &self.accounts
    }

    /// The account of `client_id`, if it has one.
    pub fn account(&self, client_id: ClientId) -> (r: Option<&Account>)
        requires
            self.wf(),
        ensures
            r is Some <==> self@.contains_key(client_id.0),
            r matches Some(a) ==> a.wf() && a@ == self@[client_id.0],
    {
        self.accounts.get(&client_id.0)
    }

    /// The ids of all clients with an account, in ascending order.
    pub fn client_ids(&self) -> (r: Vec<ClientId>)
        ensures
            forall|i: int, j: int| 0 <= i < j < r.len() ==> r[i].0 < r[j].0,
            forall|i: int| 0 <= i < r.len() ==> self@.contains_key(#[trigger] r[i].0),
            forall|c: u16|
                #![trigger self@.contains_key(c)]
                self@.contains_key(c) ==> exists|i: int| 0 <= i < r.len() && r[i].0 == c,
    {
        let mut r: Vec<ClientId> = Vec::new();
        let mut c: u32 = 0;
        while c <= 0xFFFF
            invariant
                c <= 0x10000,
                forall|i: int, j: int| 0 <= i < j < r.len() ==> r[i].0 < r[j].0,
                forall|i: int| 0 <= i < r.len() ==> (r[i].0 as u32) < c,
                forall|i: int| 0 <= i < r.len() ==> self@.contains_key(#[trigger] r[i].0),
                forall|k: u16|
                    #![trigger self@.contains_key(k)]
                    (k as u32) < c && self@.contains_key(k) ==> exists|i: int|
                        0 <= i < r.len() && r[i].0 == k,
            decreases 0x10000 - c,
        {
            let k = c as u16;
            if self.accounts.contains_key(&k) {
                let ghost old_r = r@;
                r.push(ClientId(k));
                assert forall|k2: u16|
                    #![trigger self@.contains_key(k2)]
                    (k2 as u32) < c + 1 && self@.contains_key(k2) implies exists|i: int|
                        0 <= i < r.len() && r[i].0 == k2 by {
                    if k2 == k {
                        assert(r[old_r.len() as int].0 == k2);
                    } else {
                        let i = choose|i: int| 0 <= i < old_r.len() && old_r[i].0 == k2;
                        assert(r[i].0 == k2);
                    }
                }
            } else {
                assert(!self@.contains_key(k));
            }
            c += 1;
        }
        r
    }

    fn process_tx(&mut self, client_id: ClientId, tx: FundTransaction) -> (r: Result<(), Error>)
        requires
            old(self).wf(),
            tx.amount.wf(),
            tx.state == TransactionState::Processed,
        ensures
            final(self).wf(),
            step_taken(
                r,
                old(self)@,
                final(self)@,
                fund_tx_step(old(self)@, client_id.0, tx.tx_id.0, tx.amount.value(), tx.side),
            ),
    {
        if tx.amount.is_negative() {
            return Err(Error::InvalidPrice);
        }
        let c = client_id.0;
        let (mut account, existed) = match self.get_or_create_account(c) {
            Ok(pair) => pair,
            Err(e) => return Err(e),
        };
        let r = account.record_fund_tx(tx);
        let ghost a1 = account@;
        // A new account is kept only once a transaction has been recorded in it.
        if r.is_ok() || existed {
            self.put_account(c, account);
        }
        proof {
            if r.is_err() {
                assert(self@ =~= old(self)@);
            } else {
                assert(self@ =~= old(self)@.insert(c, a1));
            }
        }
        r
    }

    /// Takes the account of `c` out of the table, or opens a new one where
    /// it has none; the flag tells which. Fails, changing nothing, where the
    /// account is frozen.
    fn get_or_create_account(&mut self, c: u16) -> (r: Result<(Account, bool), Error>)
        requires
            old(self).wf(),
        ensures
            final(self).wf(),
            old(self)@.contains_key(c) && old(self)@[c].frozen ==> r == Err::<(Account, bool), Error>(
                Error::AccountFrozen,
            ) && final(self)@ == old(self)@,
            !(old(self)@.contains_key(c) && old(self)@[c].frozen) ==> (r matches Ok(pair) && pair.0.wf()
                && pair.0@ == account_or_new(old(self)@, c) && pair.1 == old(self)@.contains_key(c)
                && final(self)@ == old(self)@.remove(c)),
    {
        if self.accounts.contains_key(&c) {
            match self.get_account(c) {
                Ok(a) => Ok((a, true)),
                Err(e) => Err(e),
            }
        } else {
            proof {
                assert(old(self)@.remove(c) =~= old(self)@);
            }
            Ok((Account::new(), false))
        }
    }

    /// Takes the account of `c` out of the table. Fails, changing nothing,
    /// where it has none or it is frozen.
    fn get_account(&mut self, c: u16) -> (r: Result<Account, Error>)
        requires
            old(self).wf(),
        ensures
            final(self).wf(),
            match account_failure(old(self)@, c) {
                Some(e) => r == Err::<Account, Error>(e) && final(self)@ == old(self)@,
                None => (r matches Ok(a) && a.wf() && a@ == old(self)@[c] && final(self)@ == old(
                    self,
                )@.remove(c)),
            },
    {
        match self.accounts.get(&c) {
            None => return Err(Error::InvalidClientId(ClientId(c))),
            Some(a) => {
                if a.is_frozen {
                    return Err(Error::AccountFrozen);
                }
            },
        }
        match self.accounts.remove(&c) {
            Some(a) => {
                assert(self@ =~= old(self)@.remove(c));
                Ok(a)
            },
            None => {
                assert(false);
                Err(Error::InvalidClientId(ClientId(c)))
            },
        }
    }

    /// Puts the account of `c` back into the table.
    fn put_account(&mut self, c: u16, account: Account)
        requires
            old(self).wf(),
            account.wf(),
        ensures
            final(self).wf(),
            final(self)@ == old(self)@.insert(c, account@),
    {
        self.accounts.insert(c, account);
        assert(self@ =~= old(self)@.insert(c, account@));
    }
}

/// Every account of the ledger `m` is consistent.
pub open spec fn ledger_consistent(m: Map<u16, AccountModel>) -> bool {
    forall|c: u16| #[trigger] m.contains_key(c) ==> account_consistent(m[c])
}

/// At any point, every account's funds are representable, their sum too,
/// and both equal the sums recomputed from the account's transactions.
pub proof fn lemma_funds_match_history(p: &TransactionProcessor)
    requires
        p.wf(),
    ensures
        ledger_consistent(p@),
{
    assert forall|c: u16| #[trigger] p@.contains_key(c) implies account_consistent(p@[c]) by {
        assert(p.accounts@.contains_key(c));
    }
}

/// The recomputed sums depend only on the transactions that `ids` names.
proof fn lemma_history_sum_frame(
    ids: Seq<u32>,
    txs: Map<u32, TxModel>,
    cb: Option<u32>,
    txs2: Map<u32, TxModel>,
    cb2: Option<u32>,
    on_held: bool,
)
    requires
        forall|i: int|
            0 <= i < ids.len() ==> txs2[#[trigger] ids[i]] == txs[ids[i]] && (cb2 == Some(ids[i]))
                == (cb == Some(ids[i])),
    ensures
        history_sum(ids, txs2, cb2, on_held) == history_sum(ids, txs, cb, on_held),
    decreases ids.len(),
{
    if ids.len() > 0 {
        let rest = ids.drop_last();
        assert forall|i: int| 0 <= i < rest.len() implies txs2[#[trigger] rest[i]] == txs[rest[i]]
            && (cb2 == Some(rest[i])) == (cb == Some(rest[i])) by {
            assert(rest[i] == ids[i]);
        }
        lemma_history_sum_frame(rest, txs, cb, txs2, cb2, on_held);
        assert(ids[ids.len() - 1] == ids.last());
    }
}

/// Changing the transaction `t`, recorded once in `ids`, changes the
/// recomputed sums by the change of its own contribution.
proof fn lemma_history_sum_update(
    ids: Seq<u32>,
    txs: Map<u32, TxModel>,
    cb: Option<u32>,
    txs2: Map<u32, TxModel>,
    cb2: Option<u32>,
    t: u32,
    on_held: bool,
)
    requires
        ids.no_duplicates(),
        ids.contains(t),
        forall|i: int|
            0 <= i < ids.len() && ids[i] != t ==> txs2[#[trigger] ids[i]] == txs[ids[i]] && (cb2
                == Some(ids[i])) == (cb == Some(ids[i])),
    ensures
        history_sum(ids, txs2, cb2, on_held) == history_sum(ids, txs, cb, on_held) - tx_effect(
            txs[t],
            cb == Some(t),
            on_held,
        ) + tx_effect(txs2[t], cb2 == Some(t), on_held),
    decreases ids.len(),
{
    let rest = ids.drop_last();
    let n = ids.len() - 1;
    assert(ids[n] == ids.last());
    if ids.last() == t {
        assert forall|i: int| 0 <= i < rest.len() implies txs2[#[trigger] rest[i]] == txs[rest[i]]
            && (cb2 == Some(rest[i])) == (cb == Some(rest[i])) by {
            assert(rest[i] == ids[i]);
            assert(ids[i] != ids[n]);
        }
        lemma_history_sum_frame(rest, txs, cb, txs2, cb2, on_held);
    } else {
        let k = choose|k: int| 0 <= k < ids.len() && ids[k] == t;
        assert(rest[k] == t);
        assert forall|i: int| 0 <= i < rest.len() && rest[i] != t implies txs2[#[trigger] rest[i]]
            == txs[rest[i]] && (cb2 == Some(rest[i])) == (cb == Some(rest[i])) by {
            assert(rest[i] == ids[i]);
        }
        assert forall|i: int, j: int|
            0 <= i < rest.len() && 0 <= j < rest.len() && i != j implies rest[i] != rest[j] by {
            assert(rest[i] == ids[i] && rest[j] == ids[j]);
        }
        lemma_history_sum_update(rest, txs, cb, txs2, cb2, t, on_held);
    }
}

/// Settling one recorded transaction of an account that is not frozen (a
/// change of its state, and possibly its chargeback) keeps the account
/// consistent, where the funds change by the change of its contribution.
proof fn lemma_settle_consistent(a0: AccountModel, a1: AccountModel, id: u32)
    requires
        account_consistent(a0),
        a0.charged_back is None,
        a0.txs.contains_key(id),
        a1.history == a0.history,
        a1.txs == a0.txs.insert(id, a1.txs[id]),
        a1.txs[id].amount == a0.txs[id].amount,
        a1.txs[id].side == a0.txs[id].side,
        a1.frozen <==> a1.charged_back is Some,
        a1.charged_back is None || (a1.charged_back == Some(id) && a1.txs[id].state
            == TransactionState::DisputeHandled),
        a1.available == a0.available - tx_effect(a0.txs[id], false, false) + tx_effect(
            a1.txs[id],
            a1.charged_back == Some(id),
            false,
        ),
        a1.held == a0.held - tx_effect(a0.txs[id], false, true) + tx_effect(
            a1.txs[id],
            a1.charged_back == Some(id),
            true,
        ),
        price_in_range(a1.available),
        price_in_range(a1.held),
        price_in_range(a1.available + a1.held),
    ensures
        account_consistent(a1),
{
    assert(a0.history.contains(id));
    lemma_history_sum_update(a0.history, a0.txs, a0.charged_back, a1.txs, a1.charged_back, id, false);
    lemma_history_sum_update(a0.history, a0.txs, a0.charged_back, a1.txs, a1.charged_back, id, true);
    assert forall|t: u32| #[trigger] a1.txs.contains_key(t) implies a1.history.contains(t) by {
        assert(a0.txs.contains_key(t));
    }
    assert forall|i: int| 0 <= i < a1.history.len() implies a1.txs.contains_key(
        #[trigger] a1.history[i],
    ) by {
        assert(a0.txs.contains_key(a0.history[i]));
    }
    assert forall|t: u32| #[trigger] a1.txs.contains_key(t) implies 0 <= a1.txs[t].amount
        && price_in_range(a1.txs[t].amount) by {
        assert(a0.txs.contains_key(t));
    }
}

/// A deposit or withdrawal recorded in an account.
#[derive(Clone, Copy, Debug)]
struct FundTransaction {
    tx_id: TransactionId,
    amount: Price4,
    side: Side,
    state: TransactionState,
}

impl FundTransaction {
    spec fn model(self) -> TxModel {
        TxModel { amount: self.amount.value(), side: self.side, state: self.state }
    }
}

/// A client's account: its funds, whether it is frozen, and its deposits and
/// withdrawals.
pub struct Account {
    /// The funds in the account.
    funds: Funds,
    /// Whether the account is frozen.
    is_frozen: bool,
    /// The deposits and withdrawals made with this account, by id.
    txs: HashMap<u32, FundTransaction>,
    /// The ids of `txs`, in the order in which they were recorded.
    history: Ghost<Seq<u32>>,
    /// The transaction that was charged back, if any.
    charged_back: Ghost<Option<u32>>,
}

impl View for Account {
    type V = AccountModel;

    closed spec fn view(&self) -> AccountModel {
        AccountModel {
            available: self.funds.available_value(),
            held: self.funds.held_value(),
            frozen: self.is_frozen,
            txs: self.txs@.map_values(|t: FundTransaction| t.model()),
            history: self.history@,
            charged_back: self.charged_back@,
        }
    }
}

impl Account {
    pub closed spec fn wf(&self) -> bool {
        &&& self.funds.wf()
        &&& forall|t: u32| #[trigger]
            self.txs@.contains_key(t) ==> self.txs@[t].tx_id.0 == t && self.txs@[t].amount.wf()
        &&& account_consistent(self@)
    }

    pub fn new() -> (r: Account)
        ensures
            r.wf(),
            r@ == new_account_model(),
    {
        let r = Account {
            funds: Funds::new(),
            is_frozen: false,
            txs: HashMap::new(),
            history: Ghost(Seq::empty()),
            charged_back: Ghost(None),
        };
        assert(r@.txs =~= Map::empty());
        r
    }

    pub fn available_funds(&self) -> (r: Price4)
        requires
            self.wf(),
        ensures
            r.wf(),
            r.value() == self@.available,
    {
        self.funds.available
    }

    pub fn held_funds(&self) -> (r: Price4)
        requires
            self.wf(),
        ensures
            r.wf(),
            r.value() == self@.held,
    {
        self.funds.held
    }

    pub fn total_funds(&self) -> (r: Price4)
        requires
            self.wf(),
        ensures
            r.wf(),
            r.value() == self@.available + self@.held,
    {
        self.funds.total()
    }

    pub fn is_frozen(&self) -> (r: bool)
        ensures
            r == self@.frozen,
    {
        self.is_frozen
    }

    /// Records a deposit or withdrawal on an account that is not frozen.
    fn record_fund_tx(&mut self, tx: FundTransaction) -> (r: Result<(), Error>)
        requires
            old(self).wf(),
            !old(self)@.frozen,
            tx.amount.wf(),
            tx.amount.value() >= 0,
            tx.state == TransactionState::Processed,
        ensures
            match account_record(old(self)@, tx.tx_id.0, tx.amount.value(), tx.side) {
                Ok(a) => r is Ok && final(self)@ == a && final(self).wf(),
                Err(e) => r == Err::<(), Error>(e) && *final(self) == *old(self),
            },
    {
        let id = tx.tx_id.0;
        if self.txs.contains_key(&id) {
            return Err(Error::DuplicateTx(tx.tx_id));
        }
        let available_funds = match calculate_amount(self.funds.available, tx.side, tx.amount) {
            Ok(p) => p,
            Err(e) => return Err(e),
        };
        // A deposit may proceed on a negative balance; a withdrawal may not
        // make the balance negative.
        if available_funds.is_negative() && tx.side != Side::Deposit {
            return Err(Error::InsufficientFunds);
        }
        let mut funds = self.funds;
        match funds.set(available_funds, self.funds.held) {
            Ok(()) => {},
            Err(e) => return Err(e),
        }
        let ghost a0 = self@;
        self.funds = funds;
        self.txs.insert(id, tx);
        self.history = Ghost(self.history@.push(id));
        proof {
            let a1 = self@;
            assert(a1.txs =~= a0.txs.insert(id, tx.model()));
            assert(!a0.history.contains(id));
            assert forall|i: int| 0 <= i < a0.history.len() implies a1.txs[#[trigger] a0.history[i]]
                == a0.txs[a0.history[i]] && (a1.charged_back == Some(a0.history[i])) == (
            a0.charged_back == Some(a0.history[i])) by {
                assert(a0.txs.contains_key(a0.history[i]));
            }
            lemma_history_sum_frame(a0.history, a0.txs, a0.charged_back, a1.txs, a1.charged_back, false);
            lemma_history_sum_frame(a0.history, a0.txs, a0.charged_back, a1.txs, a1.charged_back, true);
            assert(a1.history.drop_last() =~= a0.history);
            assert(a1.history.last() == id);
            assert forall|t: u32| #[trigger] a1.txs.contains_key(t) implies a1.history.contains(t) by {
                if t == id {
                    assert(a1.history[a0.history.len() as int] == id);
                } else {
                    let k = choose|k: int| 0 <= k < a0.history.len() && a0.history[k] == t;
                    assert(a1.history[k] == t);
                }
            }
            assert forall|i: int| 0 <= i < a1.history.len() implies a1.txs.contains_key(
                #[trigger] a1.history[i],
            ) by {
                if i < a0.history.len() {
                    assert(a1.history[i] == a0.history[i]);
                }
            }
            assert(a1 == account_record(a0, id, tx.amount.value(), tx.side)->Ok_0);
        }
        Ok(())
    }

    /// Moves the funds of transaction `id` into holding.
    fn dispute_tx(&mut self, id: u32) -> (r: Result<(), Error>)
        requires
            old(self).wf(),
            !old(self)@.frozen,
        ensures
            match account_dispute(old(self)@, id) {
                Ok(a) => r is Ok && final(self)@ == a && final(self).wf(),
                Err(e) => r == Err::<(), Error>(e) && *final(self) == *old(self),
            },
    {
        let tx = match self.txs.get(&id) {
            Some(t) => *t,
            None => return Err(Error::InvalidTx(TransactionId(id))),
        };
        match check_tx_state(tx.state, TransactionState::Processed) {
            Ok(()) => {},
            Err(e) => return Err(e),
        }
        // Held funds grow by the signed amount, available funds shrink by it.
        let opp_side = tx.side.opposite();
        let held_funds = match calculate_amount(self.funds.held, tx.side, tx.amount) {
            Ok(p) => p,
            Err(e) => return Err(e),
        };
        let available_funds = match calculate_amount(self.funds.available, opp_side, tx.amount) {
            Ok(p) => p,
            Err(e) => return Err(e),
        };
        let mut funds = self.funds;
        match funds.set(available_funds, held_funds) {
            Ok(()) => {},
            Err(e) => return Err(e),
        }
        let ghost a0 = self@;
        let ghost t0 = a0.txs[id];
        self.funds = funds;
        self.txs.insert(id, FundTransaction { state: TransactionState::InDispute, ..tx });
        proof {
            let a1 = self@;
            assert(a1.txs =~= a0.txs.insert(id, TxModel { state: TransactionState::InDispute, ..t0 }));
            lemma_settle_consistent(a0, a1, id);
        }
        Ok(())
    }

    /// Settles the dispute of transaction `id` by undoing its hold.
    fn resolve_tx(&mut self, id: u32) -> (r: Result<(), Error>)
        requires
            old(self).wf(),
            !old(self)@.frozen,
        ensures
            match account_resolve(old(self)@, id) {
                Ok(a) => r is Ok && final(self)@ == a && final(self).wf(),
                Err(e) => r == Err::<(), Error>(e) && *final(self) == *old(self),
            },
    {
        let tx = match self.txs.get(&id) {
            Some(t) => *t,
            None => return Err(Error::InvalidTx(TransactionId(id))),
        };
        match check_tx_state(tx.state, TransactionState::InDispute) {
            Ok(()) => {},
            Err(e) => return Err(e),
        }
        // Held funds shrink by the signed amount, available funds grow by it.
        let opp_side = tx.side.opposite();
        let held_funds = match calculate_amount(self.funds.held, opp_side, tx.amount) {
            Ok(p) => p,
            Err(e) => return Err(e),
        };
        let available_funds = match calculate_amount(self.funds.available, tx.side, tx.amount) {
            Ok(p) => p,
            Err(e) => return Err(e),
        };
        let mut funds = self.funds;
        match funds.set(available_funds, held_funds) {
            Ok(()) => {},
            Err(e) => return Err(e),
        }
        let ghost a0 = self@;
        let ghost t0 = a0.txs[id];
        self.funds = funds;
        self.txs.insert(id, FundTransaction { state: TransactionState::DisputeHandled, ..tx });
        proof {
            let a1 = self@;
            assert(a1.txs =~= a0.txs.insert(id, TxModel { state: TransactionState::DisputeHandled, ..t0 }));
            lemma_settle_consistent(a0, a1, id);
        }
        Ok(())
    }

    /// Settles the dispute of transaction `id` by reversing it, and freezes the account.
    fn chargeback_tx(&mut self, id: u32) -> (r: Result<(), Error>)
        requires
            old(self).wf(),
            !old(self)@.frozen,
        ensures
            match account_chargeback(old(self)@, id) {
                Ok(a) => r is Ok && final(self)@ == a && final(self).wf(),
                Err(e) => r == Err::<(), Error>(e) && *final(self) == *old(self),
            },
    {
        let tx = match self.txs.get(&id) {
            Some(t) => *t,
            None => return Err(Error::InvalidTx(TransactionId(id))),
        };
        match check_tx_state(tx.state, TransactionState::InDispute) {
            Ok(()) => {},
            Err(e) => return Err(e),
        }
        // Held funds shrink by the signed amount; the available funds stay.
        let opp_side = tx.side.opposite();
        let held_funds = match calculate_amount(self.funds.held, opp_side, tx.amount) {
            Ok(p) => p,
            Err(e) => return Err(e),
        };
        let mut funds = self.funds;
        match funds.set(self.funds.available, held_funds) {
            Ok(()) => {},
            Err(e) => return Err(e),
        }
        let ghost a0 = self@;
        let ghost t0 = a0.txs[id];
        self.funds = funds;
        self.txs.insert(id, FundTransaction { state: TransactionState::DisputeHandled, ..tx });
        self.is_frozen = true;
        self.charged_back = Ghost(Some(id));
        proof {
            let a1 = self@;
            assert(a1.txs =~= a0.txs.insert(id, TxModel { state: TransactionState::DisputeHandled, ..t0 }));
            lemma_settle_consistent(a0, a1, id);
        }
        Ok(())
    }
}

} // verus!
