//! An escrow: tokens held until an arbiter pays them out or gives them back.
use vstd::prelude::*;

use crate::contracts::token::transfers_conserve_tokens;
use crate::contracts::token::TokenView;

verus! {

broadcast use vstd::string::group_string_axioms;

/// Why a settlement was refused.
#[derive(Debug, Clone, Copy, PartialEq, Eq, Structural)]
pub enum EscrowError {
    NotDeposited,
    AlreadySettled,
}

impl EscrowError {
    /// The number by which the host knows the error.
    pub fn code(&self) -> (r: u32)
        ensures
            r == (match *self {
                EscrowError::NotDeposited => 1u32,
                EscrowError::AlreadySettled => 2u32,
            }),
    {
        match self {
            EscrowError::NotDeposited => 1,
            EscrowError::AlreadySettled => 2,
        }
    }
}

/// A transfer that the escrow asks its token for.
#[derive(Debug)]
pub struct Payment {
    pub token: String,
    pub from: String,
    pub to: String,
    pub amount: i128,
}

/// A transfer that the escrow asks its token for.
pub struct PaymentView {
    pub token: Seq<char>,
    pub from: Seq<char>,
    pub to: Seq<char>,
    pub amount: i128,
}

impl View for Payment {
    type V = PaymentView;

    open spec fn view(&self) -> PaymentView {
        PaymentView { token: self.token@, from: self.from@, to: self.to@, amount: self.amount }
    }
}

/// What an escrow publishes.
#[derive(Debug, Clone, Copy, PartialEq, Eq, Structural)]
pub enum EscrowEvent {
    Deposited { amount: i128 },
    Released,
    Refunded,
}

#[derive(Debug)]
struct Terms {
    depositor: String,
    beneficiary: String,
    arbiter: String,
    token: String,
    amount: i128,
    deposited: bool,
    settled: bool,
}

/// An escrow.
#[derive(Debug)]
pub struct Escrow {
    terms: Option<Terms>,
}

/// What an escrow holds for whom, and how far it has come.
pub struct EscrowView {
    pub depositor: Seq<char>,
    pub beneficiary: Seq<char>,
    pub arbiter: Seq<char>,
    pub token: Seq<char>,
    pub amount: i128,
    pub deposited: bool,
    pub settled: bool,
}

impl View for Escrow {
    type V = Option<EscrowView>;

    closed spec fn view(&self) -> Option<EscrowView> {
        match self.terms {
            Some(t) => Some(
                EscrowView {
                    depositor: t.depositor@,
                    beneficiary: t.beneficiary@,
                    arbiter: t.arbiter@,
                    token: t.token@,
                    amount: t.amount,
                    deposited: t.deposited,
                    settled: t.settled,
                },
            ),
            None => None,
        }
    }
}

impl EscrowView {
    /// What a settlement comes to: it needs a deposit, and takes place once.
    pub open spec fn settlement(self) -> Result<(), EscrowError> {
        if !self.deposited {
            Err(EscrowError::NotDeposited)
        } else if self.settled {
            Err(EscrowError::AlreadySettled)
        } else {
            Ok(())
        }
    }

    /// The transfer that a deposit asks for.
    pub open spec fn deposit_payment(self, contract: Seq<char>) -> PaymentView {
        PaymentView { token: self.token, from: self.depositor, to: contract, amount: self.amount }
    }

    /// The transfer that a settlement asks for.
    pub open spec fn payout(self, contract: Seq<char>, recipient: Seq<char>) -> PaymentView {
        PaymentView { token: self.token, from: contract, to: recipient, amount: self.amount }
    }

    /// After a deposit.
    pub open spec fn after_deposit(self) -> EscrowView {
        EscrowView { deposited: true, ..self }
    }

    /// After a settlement.
    pub open spec fn after_settlement(self) -> EscrowView {
        EscrowView { settled: true, ..self }
    }
}

impl Default for Escrow {
    fn default() -> (r: Self)
        ensures
            r@ is None,
    {
        Escrow { terms: None }
    }
}

impl Escrow {
    /// Whether the terms are set.
    pub fn is_initialized(&self) -> (r: bool)
        ensures
            r == (self@ is Some),
    {
        self.terms.is_some()
    }

    /// Sets the terms, once. Nothing is deposited or settled then.
    pub fn initialize(
        &mut self,
        depositor: &str,
        beneficiary: &str,
        arbiter: &str,
        token: &str,
        amount: i128,
    )
        requires
            old(self)@ is None,
        ensures
            final(self)@ == Some(
                EscrowView {
                    depositor: depositor@,
                    beneficiary: beneficiary@,
                    arbiter: arbiter@,
                    token: token@,
                    amount,
                    deposited: false,
                    settled: false,
                },
            ),
    {
        self.terms = Some(
            Terms {
                depositor: depositor.to_owned(),
                beneficiary: beneficiary.to_owned(),
                arbiter: arbiter.to_owned(),
                token: token.to_owned(),
                amount,
                deposited: false,
                settled: false,
            },
        );
    }

    /// Who has to authorise a deposit.
    pub fn depositor(&self) -> (r: String)
        requires
            self@ is Some,
        ensures
            r@ == self@->0.depositor,
    {
        match &self.terms {
            Some(t) => t.depositor.clone(),
            None => vstd::pervasive::unreached(),
        }
    }

    /// Who has to authorise a settlement.
    pub fn arbiter(&self) -> (r: String)
        requires
            self@ is Some,
        ensures
            r@ == self@->0.arbiter,
    {
        match &self.terms {
            Some(t) => t.arbiter.clone(),
            None => vstd::pervasive::unreached(),
        }
    }

    /// Takes the amount from the depositor into the contract, by the authority of the depositor:
    /// the transfer to make, and what is published.
    pub fn deposit(&mut self, contract: &str) -> (r: (Payment, EscrowEvent))
        requires
            old(self)@ is Some,
        ensures
            final(self)@ == Some(old(self)@->0.after_deposit()),
            r.0@ == old(self)@->0.deposit_payment(contract@),
            r.1 == (EscrowEvent::Deposited { amount: old(self)@->0.amount }),
    {
        let terms = self.terms.take();
        match terms {
            Some(t) => {
                let payment = Payment {
                    token: t.token.clone(),
                    from: t.depositor.clone(),
                    to: contract.to_owned(),
                    amount: t.amount,
                };
                let event = EscrowEvent::Deposited { amount: t.amount };
                self.terms = Some(
                    Terms {
                        depositor: t.depositor,
                        beneficiary: t.beneficiary,
                        arbiter: t.arbiter,
                        token: t.token,
                        amount: t.amount,
                        deposited: true,
                        settled: t.settled,
                    },
                );
                (payment, event)
            },
            None => vstd::pervasive::unreached(),
        }
    }

    /// Pays the beneficiary, by the authority of the arbiter.
    pub fn release(&mut self, contract: &str) -> (r: Result<(Payment, EscrowEvent), EscrowError>)
        requires
            old(self)@ is Some,
        ensures
            match r {
                Ok((payment, event)) => old(self)@->0.settlement() is Ok && final(self)@ == Some(
                    old(self)@->0.after_settlement(),
                ) && payment@ == old(self)@->0.payout(contract@, old(self)@->0.beneficiary)
                    && event == EscrowEvent::Released,
                Err(e) => old(self)@->0.settlement() == Err::<(), EscrowError>(e) && final(self)@
                    == old(self)@,
            },
    {
        match self.settle(contract, true) {
            Ok(payment) => Ok((payment, EscrowEvent::Released)),
            Err(e) => Err(e),
        }
    }

    /// Gives the amount back to the depositor, by the authority of the arbiter.
    pub fn refund(&mut self, contract: &str) -> (r: Result<(Payment, EscrowEvent), EscrowError>)
        requires
            old(self)@ is Some,
        ensures
            match r {
                Ok((payment, event)) => old(self)@->0.settlement() is Ok && final(self)@ == Some(
                    old(self)@->0.after_settlement(),
                ) && payment@ == old(self)@->0.payout(contract@, old(self)@->0.depositor) && event
                    == EscrowEvent::Refunded,
                Err(e) => old(self)@->0.settlement() == Err::<(), EscrowError>(e) && final(self)@
                    == old(self)@,
            },
    {
        match self.settle(contract, false) {
            Ok(payment) => Ok((payment, EscrowEvent::Refunded)),
            Err(e) => Err(e),
        }
    }

    fn settle(&mut self, contract: &str, to_beneficiary: bool) -> (r: Result<Payment, EscrowError>)
        requires
            old(self)@ is Some,
        ensures
            match r {
                Ok(payment) => old(self)@->0.settlement() is Ok && final(self)@ == Some(
                    old(self)@->0.after_settlement(),
                ) && payment@ == old(self)@->0.payout(
                    contract@,
                    if to_beneficiary {
                        old(self)@->0.beneficiary
                    } else {
                        old(self)@->0.depositor
                    },
                ),
                Err(e) => old(self)@->0.settlement() == Err::<(), EscrowError>(e) && final(self)@
                    == old(self)@,
            },
    {
        let payment = match &self.terms {
            Some(t) => {
                if !t.deposited {
                    return Err(EscrowError::NotDeposited);
                }
                if t.settled {
                    return Err(EscrowError::AlreadySettled);
                }
                let recipient = if to_beneficiary {
                    t.beneficiary.clone()
                } else {
                    t.depositor.clone()
                };
                Payment {
                    token: t.token.clone(),
                    from: contract.to_owned(),
                    to: recipient,
                    amount: t.amount,
                }
            },
            None => vstd::pervasive::unreached(),
        };
        let terms = self.terms.take();
        if let Some(t) = terms {
            self.terms = Some(
                Terms {
                    depositor: t.depositor,
                    beneficiary: t.beneficiary,
                    arbiter: t.arbiter,
                    token: t.token,
                    amount: t.amount,
                    deposited: t.deposited,
                    settled: true,
                },
            );
        }
        Ok(payment)
    }
}

/// An escrow settles only after a deposit and only once: a settled one refuses every further
/// settlement, and a deposit does not change that.
pub proof fn escrows_settle_once(e: EscrowView)
    ensures
        !e.deposited ==> e.settlement() == Err::<(), EscrowError>(EscrowError::NotDeposited),
        e.settlement() is Ok ==> e.after_settlement().settlement() == Err::<(), EscrowError>(
            EscrowError::AlreadySettled,
        ),
        e.settlement() is Ok ==> e.after_settlement().after_deposit().settlement() == Err::<
            (),
            EscrowError,
        >(EscrowError::AlreadySettled),
{
}

/// A deposit and the settlement after it move the amount from the depositor to the recipient: the
/// contract is left with what it had, and where the recipient is the depositor nothing has moved.
pub proof fn escrows_hand_the_amount_on(
    t: TokenView,
    e: EscrowView,
    contract: Seq<char>,
    recipient: Seq<char>,
)
    requires
        t.wf(),
        contract != e.depositor,
        contract != recipient,
        t.can_transfer(e.depositor, contract, e.amount),
        recipient != e.depositor ==> t.balance(recipient) + e.amount <= i128::MAX,
    ensures
        ({
            let held = t.transferred(e.depositor, contract, e.amount);
            let paid = held.transferred(contract, recipient, e.amount);
            &&& held.can_transfer(contract, recipient, e.amount)
            &&& held.balance(contract) == t.balance(contract) + e.amount
            &&& paid.balance(contract) == t.balance(contract)
            &&& recipient != e.depositor ==> paid.balance(recipient) == t.balance(recipient)
                + e.amount && paid.balance(e.depositor) == t.balance(e.depositor) - e.amount
            &&& recipient == e.depositor ==> paid.balance(e.depositor) == t.balance(e.depositor)
        }),
{
    let held = t.transferred(e.depositor, contract, e.amount);
    transfers_conserve_tokens(t, e.depositor, contract, e.amount, recipient);
    transfers_conserve_tokens(held, contract, recipient, e.amount, e.depositor);
}

/// A deposit moves the amount from the depositor to the contract and a payout from the contract to
/// the recipient, both in the token of the terms; each is then noted and the terms stay as they are.
pub proof fn payments_move_the_amount_of_the_terms(
    t: TokenView,
    e: EscrowView,
    contract: Seq<char>,
    recipient: Seq<char>,
)
    requires
        t.wf(),
        contract != e.depositor,
        t.can_transfer(e.depositor, contract, e.amount),
    ensures
        ({
            let p = e.deposit_payment(contract);
            let held = t.transferred(p.from, p.to, p.amount);
            &&& p.token == e.token
            &&& held.balance(e.depositor) == t.balance(e.depositor) - e.amount
            &&& held.balance(contract) == t.balance(contract) + e.amount
        }),
        e.payout(contract, recipient).token == e.token,
        e.payout(contract, recipient).from == contract,
        e.payout(contract, recipient).to == recipient,
        e.payout(contract, recipient).amount == e.amount,
        e.after_deposit().deposited && e.after_deposit().settled == e.settled,
        e.after_settlement().settled && e.after_settlement().deposited == e.deposited,
        ({
            let d = e.after_deposit();
            let s = e.after_settlement();
            &&& d.depositor == e.depositor && s.depositor == e.depositor
            &&& d.beneficiary == e.beneficiary && s.beneficiary == e.beneficiary
            &&& d.arbiter == e.arbiter && s.arbiter == e.arbiter
            &&& d.token == e.token && s.token == e.token
            &&& d.amount == e.amount && s.amount == e.amount
        }),
        e.deposited && !e.settled ==> e.settlement() is Ok,
{
    transfers_conserve_tokens(t, e.depositor, contract, e.amount, recipient);
}

/// A payment is seen with each field in its own place.
pub proof fn payments_show_their_fields(p: Payment)
    ensures
        p@.token == p.token@,
        p@.from == p.from@,
        p@.to == p.to@,
        p@.amount == p.amount,
{
}

/// A release pays the beneficiary and a refund the depositor, both out of the contract and once.
pub proof fn releases_pay_the_beneficiary(
    e: &mut Escrow,
    contract: &str,
    payment: Payment,
    event: EscrowEvent,
)
    requires
        call_ensures(Escrow::release, (e, contract), Ok((payment, event))),
        old(e)@ is Some,
    ensures
        payment.to@ == old(e)@->0.beneficiary,
        payment.from@ == contract@,
        payment.token@ == old(e)@->0.token,
        payment.amount == old(e)@->0.amount,
        event == EscrowEvent::Released,
        old(e)@->0.deposited && !old(e)@->0.settled,
        final(e)@ is Some && final(e)@->0.settled,
{
}

/// A refund pays the depositor out of the contract.
pub proof fn refunds_pay_the_depositor(
    e: &mut Escrow,
    contract: &str,
    payment: Payment,
    event: EscrowEvent,
)
    requires
        call_ensures(Escrow::refund, (e, contract), Ok((payment, event))),
        old(e)@ is Some,
    ensures
        payment.to@ == old(e)@->0.depositor,
        payment.from@ == contract@,
        payment.token@ == old(e)@->0.token,
        payment.amount == old(e)@->0.amount,
        event == EscrowEvent::Refunded,
        old(e)@->0.deposited && !old(e)@->0.settled,
        final(e)@ is Some && final(e)@->0.settled,
{
}

/// The terms are those that were set, each in its own place; a deposit pays the amount of them from
/// the depositor into the contract.
pub proof fn deposits_come_from_the_depositor(
    e: &mut Escrow,
    depositor: &str,
    beneficiary: &str,
    arbiter: &str,
    token: &str,
    amount: i128,
    d: &mut Escrow,
    contract: &str,
    r: (Payment, EscrowEvent),
)
    requires
        call_ensures(Escrow::initialize, (e, depositor, beneficiary, arbiter, token, amount), ()),
        old(d)@ == final(e)@,
        call_ensures(Escrow::deposit, (d, contract), r),
    ensures
        final(e)@ is Some,
        final(e)@->0.depositor == depositor@,
        final(e)@->0.beneficiary == beneficiary@,
        final(e)@->0.arbiter == arbiter@,
        !final(e)@->0.deposited && !final(e)@->0.settled,
        r.0.from@ == depositor@,
        r.0.to@ == contract@,
        r.0.token@ == token@,
        r.0.amount == amount,
        r.1 == (EscrowEvent::Deposited { amount }),
        final(d)@ is Some && final(d)@->0.deposited,
{
}

} // verus!
