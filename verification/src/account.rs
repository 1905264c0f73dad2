//! One client's account: the funds at hand, the funds held under dispute,
//! and whether the account has been frozen by a chargeback.
//!
//! An account knows nothing of transactions: whether an operation is legal
//! is for the ledger to decide. Here are the arithmetic rules only.

use crate::amount::{pow10, Amount, AmountView};
use crate::decimal::{
    checked_add, checked_difference, checked_sub, checked_sum, exact_sum, is_normal_form,
    lemma_exact_sum_units,
    lemma_exact_sum_wf, lemma_negated_units, lemma_normal_form_is_normal,
    lemma_normal_form_unique, lemma_normal_form_units, lemma_rounded_units, lemma_rounded_wf,
    less_than, normal_form, normalize, round_dp, round_units, rounded, sum_is_exact,
};
use vstd::prelude::*;

verus! {

/// The number of digits after the point in a reported balance.
pub const REPORT_SCALE: u32 = 4;

/// A balance as it is reported: rounded to four digits after the point, ties
/// to even, in canonical form.
pub open spec fn reported(a: AmountView) -> AmountView {
    normal_form(rounded(a, 4))
}

/// The mathematical content of an [`Account`].
pub struct AccountView {
    pub available: AmountView,
    pub held: AmountView,
    pub locked: bool,
}

impl AccountView {
    /// A fresh account: nothing available, nothing held, not locked.
    pub open spec fn new() -> AccountView {
        AccountView {
            available: AmountView { negative: false, magnitude: 0, scale: 0 },
            held: AmountView { negative: false, magnitude: 0, scale: 0 },
            locked: false,
        }
    }

    /// Both balances are well formed.
    pub open spec fn wf(self) -> bool {
        self.available.wf() && self.held.wf()
    }

    /// The reported available balance covers `amount`.
    pub open spec fn covers(self, amount: AmountView) -> bool {
        reported(self.available).units() >= amount.units()
    }

    /// The available balance can take `amount` without overflow.
    pub open spec fn can_deposit(self, amount: AmountView) -> bool {
        checked_sum(self.available, amount) is Some
    }

    /// The account after a deposit of `amount`.
    pub open spec fn after_deposit(self, amount: AmountView) -> AccountView {
        AccountView { available: checked_sum(self.available, amount).unwrap(), ..self }
    }

    /// Where the balance covers `amount`, it can be taken out without
    /// overflow.
    pub open spec fn can_withdraw(self, amount: AmountView) -> bool {
        self.covers(amount) ==> checked_difference(self.available, amount) is Some
    }

    /// The account after a withdrawal of `amount`.
    pub open spec fn after_withdrawal(self, amount: AmountView) -> AccountView {
        AccountView { available: checked_difference(self.available, amount).unwrap(), ..self }
    }

    /// `amount` can move from available to held without overflow.
    pub open spec fn can_dispute(self, amount: AmountView) -> bool {
        checked_difference(self.available, amount) is Some && checked_sum(self.held, amount) is Some
    }

    /// The account after `amount` has moved from available to held.
    pub open spec fn after_dispute(self, amount: AmountView) -> AccountView {
        AccountView {
            available: checked_difference(self.available, amount).unwrap(),
            held: checked_sum(self.held, amount).unwrap(),
            ..self
        }
    }

    /// `amount` can move from held back to available without overflow.
    pub open spec fn can_resolve(self, amount: AmountView) -> bool {
        checked_sum(self.available, amount) is Some && checked_difference(self.held, amount) is Some
    }

    /// The account after `amount` has moved from held back to available.
    pub open spec fn after_resolve(self, amount: AmountView) -> AccountView {
        AccountView {
            available: checked_sum(self.available, amount).unwrap(),
            held: checked_difference(self.held, amount).unwrap(),
            ..self
        }
    }

    /// `amount` can leave the held funds without overflow.
    pub open spec fn can_chargeback(self, amount: AmountView) -> bool {
        checked_difference(self.held, amount) is Some
    }

    /// The account after `amount` has left the held funds: it is locked.
    pub open spec fn after_chargeback(self, amount: AmountView) -> AccountView {
        AccountView {
            held: checked_difference(self.held, amount).unwrap(),
            locked: true,
            ..self
        }
    }

    /// The two reported balances can be added without overflow.
    pub open spec fn total_defined(self) -> bool {
        checked_sum(reported(self.available), reported(self.held)) is Some
    }

    /// The reported total: the sum of the two reported balances, in
    /// canonical form.
    pub open spec fn reported_total(self) -> AmountView {
        normal_form(checked_sum(reported(self.available), reported(self.held)).unwrap())
    }
}

/// The worth of some amounts together.
pub open spec fn total_units(amounts: Seq<AmountView>) -> int
    decreases amounts.len(),
{
    if amounts.len() == 0 {
        0
    } else {
        total_units(amounts.drop_last()) + amounts.last().units()
    }
}

impl AccountView {
    /// The account after deposits of `amounts`, one after the other.
    pub open spec fn after_deposits(self, amounts: Seq<AmountView>) -> AccountView
        decreases amounts.len(),
    {
        if amounts.len() == 0 {
            self
        } else {
            self.after_deposits(amounts.drop_last()).after_deposit(amounts.last())
        }
    }

    /// The amounts are well formed, and each of them in turn is added to
    /// the available balance without rounding.
    pub open spec fn deposits_exact(self, amounts: Seq<AmountView>) -> bool
        decreases amounts.len(),
    {
        amounts.len() > 0 ==> {
            &&& self.deposits_exact(amounts.drop_last())
            &&& amounts.last().wf()
            &&& sum_is_exact(self.after_deposits(amounts.drop_last()).available, amounts.last())
        }
    }
}

/// A reported balance is well formed and canonical, and worth the balance
/// rounded to four digits after the point.
pub proof fn lemma_reported(a: AmountView)
    requires
        a.wf(),
    ensures
        reported(a).wf(),
        reported(a).is_canonical(),
        reported(a).units() == round_units(a.units(), 4),
{
    lemma_rounded_wf(a, 4);
    lemma_rounded_units(a, 4);
    lemma_normal_form_is_normal(rounded(a, 4));
    lemma_normal_form_units(reported(a), rounded(a, 4));
}

/// Deposits that are exact leave nothing held, nothing locked, and the
/// available balance worth the deposits together.
pub proof fn lemma_deposits_available(amounts: Seq<AmountView>)
    requires
        AccountView::new().deposits_exact(amounts),
    ensures
        AccountView::new().after_deposits(amounts).wf(),
        AccountView::new().after_deposits(amounts).available.units() == total_units(amounts),
        AccountView::new().after_deposits(amounts).held == AccountView::new().held,
        !AccountView::new().after_deposits(amounts).locked,
    decreases amounts.len(),
{
    if amounts.len() == 0 {
        assert(AccountView::new().available.units() == 0) by (nonlinear_arith)
            requires
                AccountView::new().available.units() == 0 * pow10(28),
        ;
    } else {
        lemma_deposits_available(amounts.drop_last());
        let before = AccountView::new().after_deposits(amounts.drop_last());
        lemma_exact_sum_units(before.available, amounts.last());
        lemma_exact_sum_wf(before.available, amounts.last());
    }
}

/// After deposits only, each of them exact, the reported total is the
/// canonical amount worth the sum of the deposits rounded to four digits
/// after the point.
pub proof fn lemma_deposits_total(amounts: Seq<AmountView>)
    requires
        AccountView::new().deposits_exact(amounts),
    ensures
        AccountView::new().after_deposits(amounts).total_defined(),
        AccountView::new().after_deposits(amounts).reported_total().wf(),
        AccountView::new().after_deposits(amounts).reported_total().is_canonical(),
        AccountView::new().after_deposits(amounts).reported_total().units() == round_units(
            total_units(amounts),
            4,
        ),
        AccountView::new().after_deposits(amounts).reported_total() == reported(
            AccountView::new().after_deposits(amounts).available,
        ),
{
    lemma_deposits_available(amounts);
    let account = AccountView::new().after_deposits(amounts);
    lemma_reported(account.available);
    let available = reported(account.available);
    let held = reported(account.held);
    assert(account.held == (AmountView { negative: false, magnitude: 0, scale: 0 }));
    assert(rounded(account.held, 4) == account.held);
    assert(held == account.held);
    assert(sum_is_exact(available, held));
    let sum = exact_sum(available, held);
    assert(sum == available);
    assert(is_normal_form(available, available)) by {
        assert(pow10(0) == 1);
        assert(available.magnitude * 1 == available.magnitude);
    }
    lemma_normal_form_unique(available, available);
}

/// Where the two reported balances add up without rounding, the reported
/// total is worth the two of them together.
pub proof fn lemma_total_is_sum_of_reports(account: AccountView)
    requires
        account.wf(),
        sum_is_exact(reported(account.available), reported(account.held)),
    ensures
        account.total_defined(),
        account.reported_total().is_canonical(),
        account.reported_total().units() == reported(account.available).units() + reported(
            account.held,
        ).units(),
{
    lemma_reported(account.available);
    lemma_reported(account.held);
    let available = reported(account.available);
    let held = reported(account.held);
    lemma_exact_sum_units(available, held);
    lemma_exact_sum_wf(available, held);
    lemma_normal_form_is_normal(exact_sum(available, held));
    lemma_normal_form_units(account.reported_total(), exact_sum(available, held));
}

/// A withdrawal that is exact takes the available balance down by the
/// worth of the amount, and leaves the rest of the account alone.
pub proof fn lemma_withdrawal_exact(account: AccountView, amount: AmountView)
    requires
        account.wf(),
        amount.wf(),
        sum_is_exact(account.available, amount.negated()),
    ensures
        account.after_withdrawal(amount).available.units() == account.available.units()
            - amount.units(),
        account.after_withdrawal(amount).held == account.held,
        account.after_withdrawal(amount).locked == account.locked,
{
    lemma_exact_sum_units(account.available, amount.negated());
    lemma_negated_units(amount);
}

/// Of the five operations only a chargeback changes the lock, and it sets
/// it; a chargeback leaves the available balance alone.
pub proof fn lemma_only_chargeback_locks(account: AccountView, amount: AmountView)
    ensures
        account.after_deposit(amount).locked == account.locked,
        account.after_withdrawal(amount).locked == account.locked,
        account.after_dispute(amount).locked == account.locked,
        account.after_resolve(amount).locked == account.locked,
        account.after_chargeback(amount).locked,
        account.after_chargeback(amount).available == account.available,
{
}

/// Two reports of one balance are one and the same amount.
pub proof fn lemma_report_repeats(first: Amount, second: Amount, balance: AmountView)
    requires
        first@ == reported(balance),
        second@ == reported(balance),
    ensures
        first == second,
{
    first.lemma_view_injective(second);
}

/// The error of a withdrawal that the available balance does not cover.
#[derive(Clone, Copy, Debug, PartialEq, Eq, Structural)]
pub struct InsufficientFunds;

/// The balances of one client.
#[derive(Clone, Copy, Debug)]
pub struct Account {
    available: Amount,
    held: Amount,
    locked: bool,
}

impl View for Account {
    type V = AccountView;

    closed spec fn view(&self) -> AccountView {
        AccountView { available: self.available@, held: self.held@, locked: self.locked }
    }
}

impl Account {
    /// A fresh account.
    pub fn new() -> (r: Account)
        ensures
            r@ == AccountView::new(),
    {
        Account { available: Amount::zero(), held: Amount::zero(), locked: false }
    }

    /// Adds `amount` to the available funds.
    pub fn deposit(&mut self, amount: Amount)
        requires
            old(self)@.can_deposit(amount@),
        ensures
            final(self)@ == old(self)@.after_deposit(amount@),
    {
        proof {
            use_type_invariant(&amount);
            use_type_invariant(&self.available);
            amount.lemma_view_wf();
            self.available.lemma_view_wf();
        }
        let sum = checked_add(self.available, amount);
        self.available = sum.unwrap();
    }

    /// Takes `amount` out of the available funds, unless the reported
    /// available balance is less than `amount`.
    pub fn withdraw(&mut self, amount: Amount) -> (r: Result<(), InsufficientFunds>)
        requires
            old(self)@.can_withdraw(amount@),
        ensures
            r is Ok <==> old(self)@.covers(amount@),
            r is Ok ==> final(self)@ == old(self)@.after_withdrawal(amount@),
            r is Err ==> final(self)@ == old(self)@,
    {
        if self.has_available(amount) {
            proof {
                use_type_invariant(&amount);
                use_type_invariant(&self.available);
                amount.lemma_view_wf();
                self.available.lemma_view_wf();
            }
            let rest = checked_sub(self.available, amount);
            self.available = rest.unwrap();
            Ok(())
        } else {
            Err(InsufficientFunds)
        }
    }

    /// Moves `amount` from the available funds to the held funds.
    pub fn dispute(&mut self, amount: Amount)
        requires
            old(self)@.can_dispute(amount@),
        ensures
            final(self)@ == old(self)@.after_dispute(amount@),
    {
        proof {
            use_type_invariant(&amount);
            use_type_invariant(&self.available);
            use_type_invariant(&self.held);
            amount.lemma_view_wf();
            self.available.lemma_view_wf();
            self.held.lemma_view_wf();
        }
        let available = checked_sub(self.available, amount);
        let held = checked_add(self.held, amount);
        self.available = available.unwrap();
        self.held = held.unwrap();
    }

    /// Moves `amount` from the held funds back to the available funds.
    pub fn resolve(&mut self, amount: Amount)
        requires
            old(self)@.can_resolve(amount@),
        ensures
            final(self)@ == old(self)@.after_resolve(amount@),
    {
        proof {
            use_type_invariant(&amount);
            use_type_invariant(&self.available);
            use_type_invariant(&self.held);
            amount.lemma_view_wf();
            self.available.lemma_view_wf();
            self.held.lemma_view_wf();
        }
        let available = checked_add(self.available, amount);
        let held = checked_sub(self.held, amount);
        self.available = available.unwrap();
        self.held = held.unwrap();
    }

    /// Takes `amount` out of the held funds and locks the account.
    pub fn chargeback(&mut self, amount: Amount)
        requires
            old(self)@.can_chargeback(amount@),
        ensures
            final(self)@ == old(self)@.after_chargeback(amount@),
    {
        proof {
            use_type_invariant(&amount);
            use_type_invariant(&self.held);
            amount.lemma_view_wf();
            self.held.lemma_view_wf();
        }
        let held = checked_sub(self.held, amount);
        self.held = held.unwrap();
        self.locked = true;
    }

    /// The available funds as reported.
    pub fn available(&self) -> (r: Amount)
        ensures
            r@ == reported(self@.available),
            r@.wf(),
    {
        report(self.available)
    }

    /// The held funds as reported.
    pub fn held(&self) -> (r: Amount)
        ensures
            r@ == reported(self@.held),
            r@.wf(),
    {
        report(self.held)
    }

    /// The reported total: the sum of the reported available and held funds.
    pub fn total(&self) -> (r: Amount)
        requires
            self@.total_defined(),
        ensures
            r@ == self@.reported_total(),
    {
        let available = self.available();
        let held = self.held();
        let sum = checked_add(available, held).unwrap();
        let r = normalize(sum);
        proof {
            lemma_normal_form_unique(r@, sum@);
        }
        r
    }

    /// The reported total, or `None` where the sum of the two reported
    /// balances overflows.
    pub fn checked_total(&self) -> (r: Option<Amount>)
        ensures
            r is Some <==> self@.total_defined(),
            r is Some ==> r.unwrap()@ == self@.reported_total(),
    {
        let available = self.available();
        let held = self.held();
        if checked_add(available, held).is_some() {
            Some(self.total())
        } else {
            None
        }
    }

    /// Whether a chargeback has locked the account.
    pub fn locked(&self) -> (r: bool)
        ensures
            r == self@.locked,
    {
        self.locked
    }

    /// Whether the reported available balance covers `amount`.
    pub fn has_available(&self, amount: Amount) -> (r: bool)
        ensures
            r == self@.covers(amount@),
    {
        let available = self.available();
        proof {
            use_type_invariant(&amount);
            amount.lemma_view_wf();
        }
        !less_than(available, amount)
    }

    /// Whether a deposit of `amount` stays within what an amount can hold.
    pub fn can_deposit(&self, amount: Amount) -> (r: bool)
        ensures
            r == self@.can_deposit(amount@),
    {
        proof {
            use_type_invariant(&amount);
            use_type_invariant(&self.available);
            amount.lemma_view_wf();
            self.available.lemma_view_wf();
        }
        checked_add(self.available, amount).is_some()
    }

    /// Whether a withdrawal of `amount`, where the balance covers it, stays
    /// within what an amount can hold.
    pub fn can_withdraw(&self, amount: Amount) -> (r: bool)
        ensures
            r == self@.can_withdraw(amount@),
    {
        proof {
            use_type_invariant(&amount);
            use_type_invariant(&self.available);
            amount.lemma_view_wf();
            self.available.lemma_view_wf();
        }
        !self.has_available(amount) || checked_sub(self.available, amount).is_some()
    }

    /// Whether a dispute over `amount` stays within what an amount can hold.
    pub fn can_dispute(&self, amount: Amount) -> (r: bool)
        ensures
            r == self@.can_dispute(amount@),
    {
        proof {
            use_type_invariant(&amount);
            use_type_invariant(&self.available);
            use_type_invariant(&self.held);
            amount.lemma_view_wf();
            self.available.lemma_view_wf();
            self.held.lemma_view_wf();
        }
        checked_sub(self.available, amount).is_some() && checked_add(self.held, amount).is_some()
    }

    /// Whether resolving a dispute over `amount` stays within what an amount
    /// can hold.
    pub fn can_resolve(&self, amount: Amount) -> (r: bool)
        ensures
            r == self@.can_resolve(amount@),
    {
        proof {
            use_type_invariant(&amount);
            use_type_invariant(&self.available);
            use_type_invariant(&self.held);
            amount.lemma_view_wf();
            self.available.lemma_view_wf();
            self.held.lemma_view_wf();
        }
        checked_add(self.available, amount).is_some() && checked_sub(self.held, amount).is_some()
    }

    /// Whether a chargeback of `amount` stays within what an amount can hold.
    pub fn can_chargeback(&self, amount: Amount) -> (r: bool)
        ensures
            r == self@.can_chargeback(amount@),
    {
        proof {
            use_type_invariant(&amount);
            use_type_invariant(&self.held);
            amount.lemma_view_wf();
            self.held.lemma_view_wf();
        }
        checked_sub(self.held, amount).is_some()
    }
}

/// Rounds a balance to the reported scale and brings it to canonical form.
fn report(balance: Amount) -> (r: Amount)
    ensures
        r@ == reported(balance@),
        r@.wf(),
{
    proof {
        use_type_invariant(&balance);
        balance.lemma_view_wf();
    }
    let rounded = round_dp(balance, REPORT_SCALE);
    let r = normalize(rounded);
    proof {
        lemma_normal_form_unique(r@, rounded@);
    }
    r
}

} // verus!
