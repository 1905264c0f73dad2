//! The ledger: the history of accepted transactions, and the rules by which
//! a transaction changes an account.
//!
//! A transaction either goes through or fails; a failed one changes neither
//! the history nor any account.

use crate::account::{Account, AccountView};
use crate::amount::Amount;
use crate::transaction::{
    DepositState, RowParsingError, Transaction, TransactionFailure, TransactionId,
    TransactionRow, TransactionType,
};
use std::collections::HashMap;
use vstd::prelude::*;

verus! {

broadcast use vstd::std_specs::hash::group_hash_axioms;

/// The outcome of a transaction.
pub type TransactionResult = Result<(), TransactionFailure>;

/// The mathematical content of a collection of accounts, keyed by the
/// number of the account's identifier.
pub open spec fn account_views(accounts: Map<u16, Account>) -> Map<u16, AccountView> {
    Map::new(|id: u16| accounts.contains_key(id), |id: u16| accounts[id]@)
}

/// The state that a request moves a disputed deposit to.
pub open spec fn target_state(requested: TransactionType) -> DepositState {
    match requested {
        TransactionType::Dispute => DepositState::Disputed,
        TransactionType::Resolve => DepositState::Resolved,
        _ => DepositState::ChargedBack,
    }
}

/// Why a deposit in state `state` cannot take the request, if it cannot.
/// A dispute needs a deposit that was never disputed; a resolve or a
/// chargeback needs one under dispute.
pub open spec fn transition_failure(
    id: TransactionId,
    requested: TransactionType,
    state: DepositState,
) -> Option<TransactionFailure> {
    if requested == TransactionType::Dispute {
        if state == DepositState::Deposited {
            None
        } else {
            Some(TransactionFailure::RedisputedTransaction(id, state))
        }
    } else {
        match state {
            DepositState::Disputed => None,
            DepositState::Deposited => Some(TransactionFailure::UndisputedTransaction(id)),
            _ => Some(TransactionFailure::FinalizedDispute(id, state, target_state(requested))),
        }
    }
}

/// Why a dispute, resolve or chargeback cannot act on the transaction that
/// it names, if it cannot.
pub open spec fn reference_failure(
    history: Map<u32, TransactionType>,
    id: TransactionId,
    requested: TransactionType,
) -> Option<TransactionFailure> {
    if !history.contains_key(id.0) {
        Some(TransactionFailure::NonExistentTransaction(id))
    } else {
        match history[id.0] {
            TransactionType::Deposit(_, state) => transition_failure(id, requested, state),
            found => Some(TransactionFailure::InvalidTransactionReference(id, requested, found)),
        }
    }
}

/// Why the transaction fails, or `None` where it goes through.
pub open spec fn failure(
    history: Map<u32, TransactionType>,
    accounts: Map<u16, AccountView>,
    t: Transaction,
) -> Option<TransactionFailure> {
    match t.transaction_type {
        TransactionType::Deposit(_, _) => None,
        TransactionType::Withdrawal(amount) => if !accounts.contains_key(t.account_id.0) {
            Some(TransactionFailure::NonExistentAccount(t.account_id))
        } else if !accounts[t.account_id.0].covers(amount@) {
            Some(TransactionFailure::InsufficientFunds(t.account_id, t.transaction_id, amount))
        } else {
            None
        },
        requested => if !accounts.contains_key(t.account_id.0) {
            Some(TransactionFailure::NonExistentAccount(t.account_id))
        } else {
            reference_failure(history, t.transaction_id, requested)
        },
    }
}

/// The amount that the transaction moves: its own for a deposit or a
/// withdrawal, else that of the deposit recorded under its identifier.
pub open spec fn moved_amount(history: Map<u32, TransactionType>, t: Transaction) -> Amount {
    match t.transaction_type {
        TransactionType::Deposit(amount, _) => amount,
        TransactionType::Withdrawal(amount) => amount,
        _ => history[t.transaction_id.0]->Deposit_0,
    }
}

/// The account that the transaction acts on: the one of that identifier,
/// or a fresh one where there is none yet.
pub open spec fn target_account(accounts: Map<u16, AccountView>, t: Transaction) -> AccountView {
    if accounts.contains_key(t.account_id.0) {
        accounts[t.account_id.0]
    } else {
        AccountView::new()
    }
}

/// The arithmetic that the transaction asks for stays within what an amount
/// can hold.
pub open spec fn arithmetic_defined(
    history: Map<u32, TransactionType>,
    accounts: Map<u16, AccountView>,
    t: Transaction,
) -> bool {
    let account = target_account(accounts, t);
    let amount = moved_amount(history, t)@;
    failure(history, accounts, t) is None ==> match t.transaction_type {
        TransactionType::Deposit(_, _) => account.can_deposit(amount),
        TransactionType::Withdrawal(_) => account.can_withdraw(amount),
        TransactionType::Dispute => account.can_dispute(amount),
        TransactionType::Resolve => account.can_resolve(amount),
        TransactionType::Chargeback => account.can_chargeback(amount),
    }
}

/// The account that the transaction acts on, after a transaction that went
/// through.
pub open spec fn account_after(
    history: Map<u32, TransactionType>,
    accounts: Map<u16, AccountView>,
    t: Transaction,
) -> AccountView {
    let account = target_account(accounts, t);
    let amount = moved_amount(history, t)@;
    match t.transaction_type {
        TransactionType::Deposit(_, _) => account.after_deposit(amount),
        TransactionType::Withdrawal(_) => account.after_withdrawal(amount),
        TransactionType::Dispute => account.after_dispute(amount),
        TransactionType::Resolve => account.after_resolve(amount),
        TransactionType::Chargeback => account.after_chargeback(amount),
    }
}

/// The accounts after the transaction: one account changes where it goes
/// through, none where it fails.
pub open spec fn accounts_after(
    history: Map<u32, TransactionType>,
    accounts: Map<u16, AccountView>,
    t: Transaction,
) -> Map<u16, AccountView> {
    if failure(history, accounts, t) is None {
        accounts.insert(t.account_id.0, account_after(history, accounts, t))
    } else {
        accounts
    }
}

/// The history after the transaction. A deposit or a withdrawal that goes
/// through is recorded under its identifier, in place of what was there; a
/// dispute, resolve or chargeback moves the deposit it names to its new
/// state.
pub open spec fn history_after(
    history: Map<u32, TransactionType>,
    accounts: Map<u16, AccountView>,
    t: Transaction,
) -> Map<u32, TransactionType> {
    if failure(history, accounts, t) is None {
        match t.transaction_type {
            TransactionType::Deposit(_, _) => history.insert(t.transaction_id.0, t.transaction_type),
            TransactionType::Withdrawal(_) => history.insert(
                t.transaction_id.0,
                t.transaction_type,
            ),
            requested => history.insert(
                t.transaction_id.0,
                TransactionType::Deposit(moved_amount(history, t), target_state(requested)),
            ),
        }
    } else {
        history
    }
}

/// The outcome of the transaction.
pub open spec fn outcome(
    history: Map<u32, TransactionType>,
    accounts: Map<u16, AccountView>,
    t: Transaction,
) -> TransactionResult {
    match failure(history, accounts, t) {
        None => Ok(()),
        Some(e) => Err(e),
    }
}

/// The history and the accounts together, as the transactions change them.
pub struct LedgerState {
    pub history: Map<u32, TransactionType>,
    pub accounts: Map<u16, AccountView>,
}

impl LedgerState {
    /// Why the transaction fails in this state, or `None`.
    pub open spec fn failure(self, t: Transaction) -> Option<TransactionFailure> {
        failure(self.history, self.accounts, t)
    }

    /// The state after the transaction.
    pub open spec fn after(self, t: Transaction) -> LedgerState {
        LedgerState {
            history: history_after(self.history, self.accounts, t),
            accounts: accounts_after(self.history, self.accounts, t),
        }
    }

    /// The state after the transactions, one after the other.
    pub open spec fn after_all(self, ts: Seq<Transaction>) -> LedgerState
        decreases ts.len(),
    {
        if ts.len() == 0 {
            self
        } else {
            self.after_all(ts.drop_last()).after(ts.last())
        }
    }

    /// A deposit is recorded under `id`, in the state `state`.
    pub open spec fn deposit_in_state(self, id: TransactionId, state: DepositState) -> bool {
        &&& self.history.contains_key(id.0)
        &&& self.history[id.0] is Deposit
        &&& self.history[id.0]->Deposit_1 == state
    }
}

/// The transaction is a deposit or a withdrawal of the identifier `id`: one
/// that is recorded under `id` where it goes through.
pub open spec fn records(t: Transaction, id: TransactionId) -> bool {
    t.transaction_id == id && (t.transaction_type is Deposit || t.transaction_type is Withdrawal)
}

/// The transaction is a dispute of the identifier `id`.
pub open spec fn disputes(t: Transaction, id: TransactionId) -> bool {
    t.transaction_id == id && t.transaction_type == TransactionType::Dispute
}

/// The dispute over a deposit in this state has ended.
pub open spec fn is_final(state: DepositState) -> bool {
    state == DepositState::Resolved || state == DepositState::ChargedBack
}

/// A transaction that fails changes nothing.
pub proof fn lemma_failure_changes_nothing(s: LedgerState, t: Transaction)
    requires
        s.failure(t) is Some,
    ensures
        s.after(t) == s,
        outcome(s.history, s.accounts, t) == Err::<(), TransactionFailure>(s.failure(t).unwrap()),
{
}

/// Every transaction but a deposit fails where its account does not exist,
/// and opens none; a deposit goes through and opens it.
pub proof fn lemma_only_deposit_opens_account(s: LedgerState, t: Transaction)
    requires
        !s.accounts.contains_key(t.account_id.0),
    ensures
        t.transaction_type is Deposit ==> s.failure(t) is None && s.after(t).accounts.contains_key(
            t.account_id.0,
        ) && s.after(t).accounts[t.account_id.0] == AccountView::new().after_deposit(
            moved_amount(s.history, t)@,
        ),
        !(t.transaction_type is Deposit) ==> s.failure(t) == Some(
            TransactionFailure::NonExistentAccount(t.account_id),
        ) && s.after(t) == s,
{
}

/// One transaction that does not record under `id` leaves a deposit
/// recorded there in place, with its amount. The deposit's state moves
/// only forward along the dispute lifecycle, and only by a transaction of
/// that identifier that goes through.
pub proof fn lemma_deposit_entry_step(
    s: LedgerState,
    t: Transaction,
    id: TransactionId,
    state: DepositState,
)
    requires
        s.deposit_in_state(id, state),
        !records(t, id),
    ensures
        s.after(t).history.contains_key(id.0),
        s.after(t).history[id.0] is Deposit,
        s.after(t).history[id.0]->Deposit_0 == s.history[id.0]->Deposit_0,
        state != DepositState::Deposited ==> !s.after(t).deposit_in_state(
            id,
            DepositState::Deposited,
        ),
        is_final(state) ==> s.after(t).deposit_in_state(id, state),
        !disputes(t, id) && state == DepositState::Deposited ==> s.after(t).deposit_in_state(
            id,
            state,
        ),
        forall|k: u16| s.accounts.contains_key(k) ==> s.after(t).accounts.contains_key(k),
{
}

/// Transactions that do not record under `id` leave a deposit recorded
/// there in place. Once disputed, it never counts as undisputed again;
/// once the dispute has ended, its state stays; and without a dispute of
/// `id` among them an undisputed deposit stays undisputed. No account goes
/// away.
pub proof fn lemma_deposit_entry_kept(
    s: LedgerState,
    ts: Seq<Transaction>,
    id: TransactionId,
    state: DepositState,
)
    requires
        s.deposit_in_state(id, state),
        forall|i: int| 0 <= i < ts.len() ==> !records(#[trigger] ts[i], id),
    ensures
        s.after_all(ts).history.contains_key(id.0),
        s.after_all(ts).history[id.0] is Deposit,
        s.after_all(ts).history[id.0]->Deposit_0 == s.history[id.0]->Deposit_0,
        state != DepositState::Deposited ==> !s.after_all(ts).deposit_in_state(
            id,
            DepositState::Deposited,
        ),
        is_final(state) ==> s.after_all(ts).deposit_in_state(id, state),
        state == DepositState::Deposited && (forall|i: int|
            0 <= i < ts.len() ==> !disputes(#[trigger] ts[i], id)) ==> s.after_all(
            ts,
        ).deposit_in_state(id, state),
        forall|k: u16| s.accounts.contains_key(k) ==> s.after_all(ts).accounts.contains_key(k),
    decreases ts.len(),
{
    if ts.len() > 0 {
        let front = ts.drop_last();
        assert forall|i: int| 0 <= i < front.len() implies !records(#[trigger] front[i], id) by {
            assert(front[i] == ts[i]);
        }
        lemma_deposit_entry_kept(s, front, id, state);
        let before = s.after_all(front);
        let found = before.history[id.0]->Deposit_1;
        assert(before.deposit_in_state(id, found));
        assert(!records(ts[ts.len() - 1], id));
        lemma_deposit_entry_step(before, ts.last(), id, found);
        if state == DepositState::Deposited && (forall|i: int|
            0 <= i < ts.len() ==> !disputes(#[trigger] ts[i], id)) {
            assert forall|i: int| 0 <= i < front.len() implies !disputes(
                #[trigger] front[i],
                id,
            ) by {
                assert(front[i] == ts[i]);
            }
            assert(!disputes(ts[ts.len() - 1], id));
        }
    }
}

/// A deposit can be disputed once only. After a dispute that went through,
/// and whatever else came after it that did not record a transaction under
/// the same identifier anew, a second dispute of that identifier fails: as
/// a repeated dispute where its account exists, which it does where it is
/// the account of the first.
pub proof fn lemma_second_dispute_fails(
    s: LedgerState,
    first: Transaction,
    between: Seq<Transaction>,
    second: Transaction,
)
    requires
        first.transaction_type == TransactionType::Dispute,
        second.transaction_type == TransactionType::Dispute,
        first.transaction_id == second.transaction_id,
        s.failure(first) is None,
        forall|i: int|
            0 <= i < between.len() ==> !records(#[trigger] between[i], first.transaction_id),
    ensures
        s.after(first).after_all(between).failure(second) == Some(
            TransactionFailure::NonExistentAccount(second.account_id),
        ) || s.after(first).after_all(between).failure(second) == Some(
            TransactionFailure::RedisputedTransaction(
                second.transaction_id,
                s.after(first).after_all(between).history[second.transaction_id.0]->Deposit_1,
            ),
        ),
        second.account_id == first.account_id ==> s.after(first).after_all(between).failure(
            second,
        ) == Some(
            TransactionFailure::RedisputedTransaction(
                second.transaction_id,
                s.after(first).after_all(between).history[second.transaction_id.0]->Deposit_1,
            ),
        ),
{
    let id = first.transaction_id;
    let disputed = s.after(first);
    assert(disputed.deposit_in_state(id, DepositState::Disputed));
    assert(disputed.accounts.contains_key(first.account_id.0));
    lemma_deposit_entry_kept(disputed, between, id, DepositState::Disputed);
}

/// A resolve or a chargeback needs a dispute before it. Where a deposit is
/// recorded that was never disputed, and nothing after it disputes it or
/// records a transaction under its identifier anew, a resolve or chargeback
/// of that identifier fails: as undisputed where its account exists.
pub proof fn lemma_settling_needs_dispute(
    s: LedgerState,
    between: Seq<Transaction>,
    request: Transaction,
)
    requires
        request.transaction_type == TransactionType::Resolve || request.transaction_type
            == TransactionType::Chargeback,
        s.deposit_in_state(request.transaction_id, DepositState::Deposited),
        forall|i: int|
            0 <= i < between.len() ==> !records(#[trigger] between[i], request.transaction_id)
                && !disputes(between[i], request.transaction_id),
    ensures
        s.after_all(between).failure(request) == Some(
            TransactionFailure::NonExistentAccount(request.account_id),
        ) || s.after_all(between).failure(request) == Some(
            TransactionFailure::UndisputedTransaction(request.transaction_id),
        ),
        s.accounts.contains_key(request.account_id.0) ==> s.after_all(between).failure(request)
            == Some(TransactionFailure::UndisputedTransaction(request.transaction_id)),
{
    lemma_deposit_entry_kept(s, between, request.transaction_id, DepositState::Deposited);
}

/// A dispute ends once. After a resolve or chargeback that went through,
/// and whatever else came after it that did not record a transaction under
/// the same identifier anew, a second resolve or chargeback of that
/// identifier fails: as one of an ended dispute where its account exists,
/// which it does where it is the account of the first.
pub proof fn lemma_second_settling_fails(
    s: LedgerState,
    first: Transaction,
    between: Seq<Transaction>,
    second: Transaction,
)
    requires
        first.transaction_type == TransactionType::Resolve || first.transaction_type
            == TransactionType::Chargeback,
        second.transaction_type == TransactionType::Resolve || second.transaction_type
            == TransactionType::Chargeback,
        first.transaction_id == second.transaction_id,
        s.failure(first) is None,
        forall|i: int|
            0 <= i < between.len() ==> !records(#[trigger] between[i], first.transaction_id),
    ensures
        s.after(first).after_all(between).failure(second) == Some(
            TransactionFailure::NonExistentAccount(second.account_id),
        ) || s.after(first).after_all(between).failure(second) == Some(
            TransactionFailure::FinalizedDispute(
                second.transaction_id,
                target_state(first.transaction_type),
                target_state(second.transaction_type),
            ),
        ),
        second.account_id == first.account_id ==> s.after(first).after_all(between).failure(
            second,
        ) == Some(
            TransactionFailure::FinalizedDispute(
                second.transaction_id,
                target_state(first.transaction_type),
                target_state(second.transaction_type),
            ),
        ),
{
    let id = first.transaction_id;
    let settled = s.after(first);
    let state = target_state(first.transaction_type);
    assert(settled.deposit_in_state(id, state));
    assert(settled.accounts.contains_key(first.account_id.0));
    lemma_deposit_entry_kept(settled, between, id, state);
}

/// An account is opened unlocked, and stays as locked as it was through
/// every transaction but a chargeback on it that goes through: that one
/// locks it, and leaves its available balance alone.
pub proof fn lemma_lock_follows_chargeback(s: LedgerState, t: Transaction, k: u16)
    requires
        s.after(t).accounts.contains_key(k),
    ensures
        ({
            let charged_back = t.transaction_type == TransactionType::Chargeback && t.account_id.0
                == k && s.failure(t) is None;
            let after = s.after(t).accounts[k];
            &&& charged_back ==> after.locked && after.available == s.accounts[k].available
            &&& !charged_back && s.accounts.contains_key(k) ==> after.locked
                == s.accounts[k].locked
            &&& !s.accounts.contains_key(k) ==> !after.locked
        }),
{
}

/// Why a row left the history and the accounts as they were.
#[derive(Debug)]
pub enum ProcessingError {
    /// The row is no transaction.
    Row(RowParsingError),
    /// The transaction failed.
    Ledger(TransactionFailure),
    /// The arithmetic of the transaction leaves what an amount can hold.
    Overflow(Transaction),
}

impl LedgerState {
    /// The state before any transaction: no history, no account.
    pub open spec fn empty() -> LedgerState {
        LedgerState { history: Map::empty(), accounts: Map::empty() }
    }

    /// Why the row changes nothing in this state, or `None` where it
    /// stands for a transaction that goes through.
    pub open spec fn row_error(self, row: TransactionRow) -> Option<ProcessingError> {
        match Transaction::parsed(row) {
            Err(e) => Some(ProcessingError::Row(e)),
            Ok(t) => if !arithmetic_defined(self.history, self.accounts, t) {
                Some(ProcessingError::Overflow(t))
            } else {
                match self.failure(t) {
                    Some(e) => Some(ProcessingError::Ledger(e)),
                    None => None,
                }
            },
        }
    }

    /// The state after the row: that after its transaction where it stands
    /// for one that goes through, else the same state.
    pub open spec fn after_row(self, row: TransactionRow) -> LedgerState {
        match Transaction::parsed(row) {
            Ok(t) => if self.row_error(row) is None {
                self.after(t)
            } else {
                self
            },
            Err(_) => self,
        }
    }

    /// The state after the rows, one after the other.
    pub open spec fn after_rows(self, rows: Seq<TransactionRow>) -> LedgerState
        decreases rows.len(),
    {
        if rows.len() == 0 {
            self
        } else {
            self.after_rows(rows.drop_last()).after_row(rows.last())
        }
    }

    /// The errors of the rows, in the order of the rows.
    pub open spec fn errors_of_rows(self, rows: Seq<TransactionRow>) -> Seq<ProcessingError>
        decreases rows.len(),
    {
        if rows.len() == 0 {
            Seq::empty()
        } else {
            let before = self.errors_of_rows(rows.drop_last());
            match self.after_rows(rows.drop_last()).row_error(rows.last()) {
                Some(e) => before.push(e),
                None => before,
            }
        }
    }
}

/// Processes the rows in order, from an empty ledger, and returns the
/// accounts that they leave with the errors of the rows that changed
/// nothing. An error does not stop the run.
pub fn process_rows(rows: Vec<TransactionRow>) -> (r: (HashMap<u16, Account>, Vec<ProcessingError>))
    ensures
        account_views(r.0@) == LedgerState::empty().after_rows(rows@).accounts,
        r.1@ == LedgerState::empty().errors_of_rows(rows@),
{
    let mut ledger = Ledger::new();
    let mut accounts: HashMap<u16, Account> = HashMap::new();
    let mut errors: Vec<ProcessingError> = Vec::new();
    let ghost all = rows@;
    proof {
        assert(all.take(0).len() == 0);
        assert(account_views(accounts@) =~= LedgerState::empty().accounts);
    }
    for row in iter: rows.into_iter()
        invariant
            iter.seq() == all,
            (LedgerState { history: ledger@, accounts: account_views(accounts@) })
                == LedgerState::empty().after_rows(all.take(iter.index() as int)),
            errors@ == LedgerState::empty().errors_of_rows(all.take(iter.index() as int)),
    {
        proof {
            let next = all.take(iter.index() + 1);
            assert(next.drop_last() == all.take(iter.index() as int));
            assert(next.last() == row);
        }
        match ledger.process_row(&mut accounts, row) {
            Ok(()) => {},
            Err(e) => {
                errors.push(e);
            },
        }
    }
    proof {
        assert(all.take(all.len() as int) == all);
        assert(account_views(accounts@) =~= LedgerState::empty().after_rows(all).accounts);
    }
    (accounts, errors)
}

/// The history of the deposits and withdrawals that went through, each
/// deposit with its state in the dispute lifecycle.
pub struct Ledger {
    transactions: HashMap<u32, TransactionType>,
}

impl View for Ledger {
    type V = Map<u32, TransactionType>;

    closed spec fn view(&self) -> Map<u32, TransactionType> {
        self.transactions@
    }
}

impl Ledger {
    /// A ledger without history.
    pub fn new() -> (r: Ledger)
        ensures
            r@ == Map::<u32, TransactionType>::empty(),
    {
        Ledger { transactions: HashMap::new() }
    }

    /// Applies one transaction to the history and to the account it names.
    ///
    /// A deposit opens the account where there is none; every other
    /// transaction needs the account to exist. A dispute, resolve or
    /// chargeback names a recorded deposit, takes its amount, and moves it
    /// along the dispute lifecycle. A transaction that fails changes
    /// nothing.
    pub fn process_transaction(
        &mut self,
        accounts: &mut HashMap<u16, Account>,
        transaction: Transaction,
    ) -> (r: TransactionResult)
        requires
            arithmetic_defined(old(self)@, account_views(old(accounts)@), transaction),
        ensures
            r == outcome(old(self)@, account_views(old(accounts)@), transaction),
            final(self)@ == history_after(old(self)@, account_views(old(accounts)@), transaction),
            account_views(final(accounts)@) == accounts_after(
                old(self)@,
                account_views(old(accounts)@),
                transaction,
            ),
    {
        let Transaction { transaction_type, account_id, transaction_id } = transaction;
        let ghost views = account_views(accounts@);
        let found = match accounts.get(&account_id.0) {
            Some(account) => Some(*account),
            None => None,
        };
        let mut account = match transaction_type {
            TransactionType::Deposit(_, _) => match found {
                Some(account) => account,
                None => Account::new(),
            },
            _ => match found {
                Some(account) => account,
                None => {
                    return Err(TransactionFailure::NonExistentAccount(account_id));
                },
            },
        };
        let result = match transaction_type {
            TransactionType::Deposit(amount, _) => {
                account.deposit(amount);
                self.transactions.insert(transaction_id.0, transaction_type);
                Ok(())
            },
            TransactionType::Withdrawal(amount) => {
                match account.withdraw(amount) {
                    Ok(()) => {
                        self.transactions.insert(transaction_id.0, transaction_type);
                        Ok(())
                    },
                    Err(_) => Err(
                        TransactionFailure::InsufficientFunds(account_id, transaction_id, amount),
                    ),
                }
            },
            _ => self.handle_referential_transaction(&mut account, transaction_id, transaction_type),
        };
        if result.is_ok() {
            accounts.insert(account_id.0, account);
            assert(account_views(accounts@) =~= views.insert(account_id.0, account@));
        }
        result
    }

    /// Applies one transaction if its arithmetic stays within what an amount
    /// can hold, and returns its outcome; else changes nothing and returns
    /// `None`.
    pub fn try_process_transaction(
        &mut self,
        accounts: &mut HashMap<u16, Account>,
        transaction: Transaction,
    ) -> (r: Option<TransactionResult>)
        ensures
            r is Some <==> arithmetic_defined(
                old(self)@,
                account_views(old(accounts)@),
                transaction,
            ),
            r is Some ==> {
                &&& r.unwrap() == outcome(old(self)@, account_views(old(accounts)@), transaction)
                &&& final(self)@ == history_after(
                    old(self)@,
                    account_views(old(accounts)@),
                    transaction,
                )
                &&& account_views(final(accounts)@) == accounts_after(
                    old(self)@,
                    account_views(old(accounts)@),
                    transaction,
                )
            },
            r is None ==> final(self)@ == old(self)@ && final(accounts)@ == old(accounts)@,
    {
        if self.can_process(accounts, &transaction) {
            Some(self.process_transaction(accounts, transaction))
        } else {
            None
        }
    }

    /// Turns the row into a transaction and applies it. A row that is no
    /// transaction, a transaction that fails and one whose arithmetic
    /// leaves what an amount can hold change nothing.
    pub fn process_row(&mut self, accounts: &mut HashMap<u16, Account>, row: TransactionRow) -> (r:
        Result<(), ProcessingError>)
        ensures
            r == match (LedgerState {
                history: old(self)@,
                accounts: account_views(old(accounts)@),
            }).row_error(row) {
                Some(e) => Err::<(), ProcessingError>(e),
                None => Ok(()),
            },
            (LedgerState { history: final(self)@, accounts: account_views(final(accounts)@) })
                == (LedgerState {
                history: old(self)@,
                accounts: account_views(old(accounts)@),
            }).after_row(row),
    {
        match Transaction::try_from(row) {
            Err(e) => Err(ProcessingError::Row(e)),
            Ok(transaction) => match self.try_process_transaction(accounts, transaction) {
                None => Err(ProcessingError::Overflow(transaction)),
                Some(Err(e)) => Err(ProcessingError::Ledger(e)),
                Some(Ok(())) => Ok(()),
            },
        }
    }

    /// Whether the arithmetic that the transaction asks for stays within
    /// what an amount can hold. A transaction that fails asks for none.
    pub fn can_process(&self, accounts: &HashMap<u16, Account>, transaction: &Transaction) -> (r:
        bool)
        ensures
            r == arithmetic_defined(self@, account_views(accounts@), *transaction),
    {
        let account = match accounts.get(&transaction.account_id.0) {
            Some(account) => *account,
            None => match transaction.transaction_type {
                TransactionType::Deposit(_, _) => Account::new(),
                _ => {
                    return true;
                },
            },
        };
        match transaction.transaction_type {
            TransactionType::Deposit(amount, _) => account.can_deposit(amount),
            TransactionType::Withdrawal(amount) => account.can_withdraw(amount),
            requested => match self.transactions.get(&transaction.transaction_id.0) {
                Some(TransactionType::Deposit(amount, state)) => match (requested, state) {
                    (TransactionType::Dispute, DepositState::Deposited) => account.can_dispute(
                        *amount,
                    ),
                    (TransactionType::Resolve, DepositState::Disputed) => account.can_resolve(
                        *amount,
                    ),
                    (TransactionType::Chargeback, DepositState::Disputed) => account.can_chargeback(
                        *amount,
                    ),
                    _ => true,
                },
                _ => true,
            },
        }
    }

    /// Applies a dispute, resolve or chargeback to the account, where the
    /// transaction that it names is a deposit in the state that the request
    /// needs, and records the deposit's new state.
    fn handle_referential_transaction(
        &mut self,
        account: &mut Account,
        transaction_id: TransactionId,
        requested: TransactionType,
    ) -> (r: TransactionResult)
        requires
            requested == TransactionType::Dispute || requested == TransactionType::Resolve
                || requested == TransactionType::Chargeback,
            reference_failure(old(self)@, transaction_id, requested) is None ==> {
                let amount = (old(self)@[transaction_id.0]->Deposit_0)@;
                match requested {
                    TransactionType::Dispute => old(account)@.can_dispute(amount),
                    TransactionType::Resolve => old(account)@.can_resolve(amount),
                    _ => old(account)@.can_chargeback(amount),
                }
            },
        ensures
            match reference_failure(old(self)@, transaction_id, requested) {
                Some(e) => r == Err::<(), TransactionFailure>(e) && final(self)@ == old(self)@
                    && final(account)@ == old(account)@,
                None => {
                    let amount = old(self)@[transaction_id.0]->Deposit_0;
                    &&& r == Ok::<(), TransactionFailure>(())
                    &&& final(self)@ == old(self)@.insert(
                        transaction_id.0,
                        TransactionType::Deposit(amount, target_state(requested)),
                    )
                    &&& final(account)@ == match requested {
                        TransactionType::Dispute => old(account)@.after_dispute(amount@),
                        TransactionType::Resolve => old(account)@.after_resolve(amount@),
                        _ => old(account)@.after_chargeback(amount@),
                    }
                },
            },
    {
        let reference = match self.transactions.get(&transaction_id.0) {
            Some(found) => *found,
            None => {
                return Err(TransactionFailure::NonExistentTransaction(transaction_id));
            },
        };
        let (amount, state) = match reference {
            TransactionType::Deposit(amount, state) => (amount, state),
            found => {
                return Err(
                    TransactionFailure::InvalidTransactionReference(transaction_id, requested, found),
                );
            },
        };
        let new_state = match requested {
            TransactionType::Dispute => {
                match state {
                    DepositState::Deposited => {},
                    _ => {
                        return Err(TransactionFailure::RedisputedTransaction(transaction_id, state));
                    },
                }
                account.dispute(amount);
                DepositState::Disputed
            },
            TransactionType::Resolve => {
                match state {
                    DepositState::Disputed => {},
                    DepositState::Deposited => {
                        return Err(TransactionFailure::UndisputedTransaction(transaction_id));
                    },
                    _ => {
                        return Err(
                            TransactionFailure::FinalizedDispute(
                                transaction_id,
                                state,
                                DepositState::Resolved,
                            ),
                        );
                    },
                }
                account.resolve(amount);
                DepositState::Resolved
            },
            _ => {
                match state {
                    DepositState::Disputed => {},
                    DepositState::Deposited => {
                        return Err(TransactionFailure::UndisputedTransaction(transaction_id));
                    },
                    _ => {
                        return Err(
                            TransactionFailure::FinalizedDispute(
                                transaction_id,
                                state,
                                DepositState::ChargedBack,
                            ),
                        );
                    },
                }
                account.chargeback(amount);
                DepositState::ChargedBack
            },
        };
        self.transactions.insert(transaction_id.0, TransactionType::Deposit(amount, new_state));
        Ok(())
    }
}

} // verus!
