//! The payment lifecycle state machine.
//!
//! Each payment charge moves `Pending -> Confirmed` (verified with the exact
//! amount), `Pending -> Failed` (verified with any other amount), or
//! `Pending -> Expired` (cancelled once its deadline has passed);
//! `Confirmed`, `Failed` and `Expired` are terminal. Every mutating
//! operation's contract is a pure transition on [`ProcessorModel`], and the
//! notifications the processor emits are recorded in an event log.

use crate::types::{Address, TransactionHash};
use vstd::hash_map::StringHashMap;
use vstd::prelude::*;

verus! {

/// The lifecycle status of a payment charge.
#[derive(Clone, Copy, Debug, PartialEq, Eq, Structural)]
pub enum PaymentStatus {
    Pending,
    Confirmed,
    Expired,
    Failed,
}

/// Failures of the payment operations.
///
/// `NotYetExpired` reports an attempt to cancel a payment whose deadline has
/// not passed.
#[derive(Clone, Copy, Debug, PartialEq, Eq, Structural)]
pub enum PaymentError {
    PaymentNotFound,
    PaymentAlreadyExists,
    InvalidAmount,
    InvalidPaymentId,
    PaymentExpired,
    PaymentAlreadyProcessed,
    NotYetExpired,
}

/// The notification kinds published for payments.
#[derive(Clone, Copy, Debug, PartialEq, Eq, Structural)]
pub enum PaymentEventKind {
    Created,
    Verified,
    Failed,
    Cancelled,
}

/// One emitted notification: what happened, and to which payment.
pub struct PaymentEvent {
    pub kind: PaymentEventKind,
    pub payment_id: String,
}

/// A requested collection of funds.
pub struct PaymentCharge {
    /// Caller-chosen unique, non-empty identifier.
    pub payment_id: String,
    /// The merchant the funds are collected for.
    pub merchant_id: Address,
    /// The requested amount; positive at creation.
    pub amount: i128,
    /// Symbolic currency code.
    pub currency: String,
    /// The identity funds must arrive at.
    pub deposit_address: Address,
    pub status: PaymentStatus,
    /// Set only on confirmation.
    pub payer_address: Option<Address>,
    /// Set only on confirmation.
    pub transaction_hash: Option<TransactionHash>,
    pub created_at: u64,
    /// Set only on confirmation.
    pub confirmed_at: Option<u64>,
    /// The charge may no longer be confirmed after this time.
    pub expires_at: u64,
}

impl Clone for PaymentCharge {
    fn clone(&self) -> (r: Self)
        ensures
            r == *self,
    {
        PaymentCharge {
            payment_id: self.payment_id.clone(),
            merchant_id: self.merchant_id,
            amount: self.amount,
            currency: self.currency.clone(),
            deposit_address: self.deposit_address,
            status: self.status,
            payer_address: self.payer_address,
            transaction_hash: self.transaction_hash,
            created_at: self.created_at,
            confirmed_at: self.confirmed_at,
            expires_at: self.expires_at,
        }
    }
}

impl PaymentCharge {
    /// Internal consistency of a record stored under key `key`: the record
    /// carries its own key, the creation-time validations hold, and the
    /// confirmation details are present exactly on confirmed charges.
    pub open spec fn wf_under(self, key: Seq<char>) -> bool {
        &&& self.payment_id@ == key
        &&& key.len() > 0
        &&& self.amount > 0
        &&& (self.status is Confirmed <==> self.confirmed_at is Some)
        &&& (self.status is Confirmed <==> self.payer_address is Some)
        &&& (self.status is Confirmed <==> self.transaction_hash is Some)
    }
}

/// The mathematical state of the processor: the stored charges keyed by
/// payment id, and the log of emitted notifications, oldest first.
#[verifier::ext_equal]
pub struct ProcessorModel {
    pub payments: Map<Seq<char>, PaymentCharge>,
    pub events: Seq<PaymentEvent>,
}

impl ProcessorModel {
    /// Every stored charge is internally consistent.
    pub open spec fn wf(self) -> bool {
        forall|k: Seq<char>| #[trigger]
            self.payments.contains_key(k) ==> self.payments[k].wf_under(k)
    }
}

/// The payment lifecycle state machine.
pub struct PaymentProcessor {
    payments: StringHashMap<PaymentCharge>,
    events: Vec<PaymentEvent>,
}

impl View for PaymentProcessor {
    type V = ProcessorModel;

    closed spec fn view(&self) -> ProcessorModel {
        ProcessorModel { payments: self.payments@, events: self.events@ }
    }
}

/// The outcome of [`PaymentProcessor::create_payment`] at time `now`.
pub open spec fn create_payment_spec(
    m: ProcessorModel,
    payment_id: String,
    merchant_id: Address,
    amount: i128,
    currency: String,
    deposit_address: Address,
    expires_at: u64,
    now: u64,
) -> (ProcessorModel, Result<PaymentCharge, PaymentError>) {
    if amount <= 0 {
        (m, Err(PaymentError::InvalidAmount))
    } else if payment_id@.len() == 0 {
        (m, Err(PaymentError::InvalidPaymentId))
    } else if m.payments.contains_key(payment_id@) {
        (m, Err(PaymentError::PaymentAlreadyExists))
    } else {
        let payment = PaymentCharge {
            payment_id: payment_id,
            merchant_id: merchant_id,
            amount: amount,
            currency: currency,
            deposit_address: deposit_address,
            status: PaymentStatus::Pending,
            payer_address: None,
            transaction_hash: None,
            created_at: now,
            confirmed_at: None,
            expires_at: expires_at,
        };
        (
            ProcessorModel {
                payments: m.payments.insert(payment_id@, payment),
                events: m.events.push(
                    PaymentEvent { kind: PaymentEventKind::Created, payment_id: payment_id },
                ),
            },
            Ok(payment),
        )
    }
}

/// The outcome of [`PaymentProcessor::verify_payment`] at time `now`.
pub open spec fn verify_payment_spec(
    m: ProcessorModel,
    payment_id: String,
    transaction_hash: TransactionHash,
    payer_address: Address,
    amount_received: i128,
    now: u64,
) -> (ProcessorModel, Result<PaymentStatus, PaymentError>) {
    if !m.payments.contains_key(payment_id@) {
        (m, Err(PaymentError::PaymentNotFound))
    } else {
        let p = m.payments[payment_id@];
        if !(p.status is Pending) {
            (m, Err(PaymentError::PaymentAlreadyProcessed))
        } else if now > p.expires_at {
            (m, Err(PaymentError::PaymentExpired))
        } else if amount_received != p.amount {
            (
                ProcessorModel {
                    payments: m.payments.insert(
                        payment_id@,
                        PaymentCharge { status: PaymentStatus::Failed, ..p },
                    ),
                    events: m.events.push(
                        PaymentEvent { kind: PaymentEventKind::Failed, payment_id: payment_id },
                    ),
                },
                Ok(PaymentStatus::Failed),
            )
        } else {
            (
                ProcessorModel {
                    payments: m.payments.insert(
                        payment_id@,
                        PaymentCharge {
                            status: PaymentStatus::Confirmed,
                            payer_address: Some(payer_address),
                            transaction_hash: Some(transaction_hash),
                            confirmed_at: Some(now),
                            ..p
                        },
                    ),
                    events: m.events.push(
                        PaymentEvent { kind: PaymentEventKind::Verified, payment_id: payment_id },
                    ),
                },
                Ok(PaymentStatus::Confirmed),
            )
        }
    }
}

/// The outcome of [`PaymentProcessor::cancel_payment`] at time `now`.
pub open spec fn cancel_payment_spec(m: ProcessorModel, payment_id: String, now: u64) -> (
    ProcessorModel,
    Result<(), PaymentError>,
) {
    if !m.payments.contains_key(payment_id@) {
        (m, Err(PaymentError::PaymentNotFound))
    } else {
        let p = m.payments[payment_id@];
        if !(p.status is Pending) {
            (m, Err(PaymentError::PaymentAlreadyProcessed))
        } else if now <= p.expires_at {
            (m, Err(PaymentError::NotYetExpired))
        } else {
            (
                ProcessorModel {
                    payments: m.payments.insert(
                        payment_id@,
                        PaymentCharge { status: PaymentStatus::Expired, ..p },
                    ),
                    events: m.events.push(
                        PaymentEvent { kind: PaymentEventKind::Cancelled, payment_id: payment_id },
                    ),
                },
                Ok(()),
            )
        }
    }
}

impl PaymentProcessor {
    /// A processor with no stored charges and an empty event log.
    pub fn new() -> (r: Self)
        ensures
            r@ == (ProcessorModel {
                payments: Map::<Seq<char>, PaymentCharge>::empty(),
                events: Seq::<PaymentEvent>::empty(),
            }),
    {
        let r = PaymentProcessor { payments: StringHashMap::new(), events: Vec::new() };
        proof {
            assert(r@ =~= (ProcessorModel {
                payments: Map::<Seq<char>, PaymentCharge>::empty(),
                events: Seq::<PaymentEvent>::empty(),
            }));
        }
        r
    }

    /// Creates a new pending charge under `payment_id` and emits a
    /// `Created` notification.
    ///
    /// Fails with `InvalidAmount` if `amount` is not positive, with
    /// `InvalidPaymentId` if `payment_id` is empty, and with
    /// `PaymentAlreadyExists` if the id is already stored; the state is
    /// unchanged on failure. On success the stored record is returned.
    pub fn create_payment(
        &mut self,
        payment_id: String,
        merchant_id: Address,
        amount: i128,
        currency: String,
        deposit_address: Address,
        expires_at: u64,
        now: u64,
    ) -> (r: Result<PaymentCharge, PaymentError>)
        ensures
            ({
                let (m, res) = create_payment_spec(
                    old(self)@,
                    payment_id,
                    merchant_id,
                    amount,
                    currency,
                    deposit_address,
                    expires_at,
                    now,
                );
                final(self)@ == m && r == res
            }),
            amount > 0 && payment_id@.len() > 0 && !old(self)@.payments.contains_key(payment_id@)
                ==> (r matches Ok(p) && p.status is Pending),
    {
        if amount <= 0 {
            return Err(PaymentError::InvalidAmount);
        }
        if payment_id.as_str().is_empty() {
            return Err(PaymentError::InvalidPaymentId);
        }
        if self.payments.contains_key(payment_id.as_str()) {
            return Err(PaymentError::PaymentAlreadyExists);
        }
        let payment = PaymentCharge {
            payment_id: payment_id.clone(),
            merchant_id,
            amount,
            currency,
            deposit_address,
            status: PaymentStatus::Pending,
            payer_address: None,
            transaction_hash: None,
            created_at: now,
            confirmed_at: None,
            expires_at,
        };
        let stored = payment.clone();
        self.payments.insert(payment_id.clone(), stored);
        self.events.push(PaymentEvent { kind: PaymentEventKind::Created, payment_id });
        Ok(payment)
    }

    /// Records the externally observed settlement of a pending charge.
    ///
    /// Fails with `PaymentNotFound` if the id is unknown, with
    /// `PaymentAlreadyProcessed` if the charge is no longer pending, and with
    /// `PaymentExpired` if `now` is past the deadline. Otherwise, an exact
    /// `amount_received` confirms the charge (recording payer, transaction
    /// hash and confirmation time, and emitting `Verified`), while any other
    /// amount marks it `Failed` (emitting `Failed`); the mismatch is a
    /// reported outcome, `Ok(PaymentStatus::Failed)`, not an error.
    pub fn verify_payment(
        &mut self,
        payment_id: String,
        transaction_hash: TransactionHash,
        payer_address: Address,
        amount_received: i128,
        now: u64,
    ) -> (r: Result<PaymentStatus, PaymentError>)
        ensures
            ({
                let (m, res) = verify_payment_spec(
                    old(self)@,
                    payment_id,
                    transaction_hash,
                    payer_address,
                    amount_received,
                    now,
                );
                final(self)@ == m && r == res
            }),
            ({
                let p = old(self)@.payments[payment_id@];
                old(self)@.payments.contains_key(payment_id@) && p.status is Pending && now
                    <= p.expires_at && amount_received != p.amount ==> r == Ok::<
                    PaymentStatus,
                    PaymentError,
                >(PaymentStatus::Failed) && final(self)@.payments[payment_id@].status is Failed
            }),
    {
        let found = match self.payments.get(payment_id.as_str()) {
            None => None,
            Some(p) => Some(p.clone()),
        };
        match found {
            None => Err(PaymentError::PaymentNotFound),
            Some(mut payment) => {
                if !matches!(payment.status, PaymentStatus::Pending) {
                    return Err(PaymentError::PaymentAlreadyProcessed);
                }
                if now > payment.expires_at {
                    return Err(PaymentError::PaymentExpired);
                }
                if amount_received != payment.amount {
                    payment.status = PaymentStatus::Failed;
                    self.payments.insert(payment_id.clone(), payment);
                    self.events.push(
                        PaymentEvent { kind: PaymentEventKind::Failed, payment_id },
                    );
                    return Ok(PaymentStatus::Failed);
                }
                payment.status = PaymentStatus::Confirmed;
                payment.payer_address = Some(payer_address);
                payment.transaction_hash = Some(transaction_hash);
                payment.confirmed_at = Some(now);
                self.payments.insert(payment_id.clone(), payment);
                self.events.push(PaymentEvent { kind: PaymentEventKind::Verified, payment_id });
                Ok(PaymentStatus::Confirmed)
            },
        }
    }

    /// Returns the stored record for `payment_id`, unchanged, or
    /// `PaymentNotFound`. A pure read.
    pub fn get_payment(&self, payment_id: &str) -> (r: Result<PaymentCharge, PaymentError>)
        ensures
            r == if self@.payments.contains_key(payment_id@) {
                Ok::<PaymentCharge, PaymentError>(self@.payments[payment_id@])
            } else {
                Err(PaymentError::PaymentNotFound)
            },
    {
        match self.payments.get(payment_id) {
            None => Err(PaymentError::PaymentNotFound),
            Some(p) => Ok(p.clone()),
        }
    }

    /// Cancels a pending charge whose deadline has passed, marking it
    /// `Expired` and emitting `Cancelled`.
    ///
    /// Fails with `PaymentNotFound` if the id is unknown, with
    /// `PaymentAlreadyProcessed` if the charge is no longer pending, and with
    /// `NotYetExpired` while `now` is at or before the deadline: cancellation
    /// is only permitted once the charge has actually expired.
    pub fn cancel_payment(&mut self, payment_id: String, now: u64) -> (r: Result<
        (),
        PaymentError,
    >)
        ensures
            ({
                let (m, res) = cancel_payment_spec(old(self)@, payment_id, now);
                final(self)@ == m && r == res
            }),
            ({
                let p = old(self)@.payments[payment_id@];
                old(self)@.payments.contains_key(payment_id@) && p.status is Pending && now
                    <= p.expires_at ==> r == Err::<(), PaymentError>(PaymentError::NotYetExpired)
                    && final(self)@ == old(self)@
            }),
    {
        let found = match self.payments.get(payment_id.as_str()) {
            None => None,
            Some(p) => Some(p.clone()),
        };
        match found {
            None => Err(PaymentError::PaymentNotFound),
            Some(mut payment) => {
                if !matches!(payment.status, PaymentStatus::Pending) {
                    return Err(PaymentError::PaymentAlreadyProcessed);
                }
                if now <= payment.expires_at {
                    return Err(PaymentError::NotYetExpired);
                }
                payment.status = PaymentStatus::Expired;
                self.payments.insert(payment_id.clone(), payment);
                self.events.push(PaymentEvent { kind: PaymentEventKind::Cancelled, payment_id });
                Ok(())
            },
        }
    }

    /// The notifications emitted so far, oldest first.
    pub fn events(&self) -> (r: &Vec<PaymentEvent>)
        ensures
            r@ == self@.events,
    {
        &self.events
    }
}

/// Creating the same payment id twice always fails the second time with
/// `PaymentAlreadyExists`, whatever the other arguments (as long as the
/// second amount passes validation), and the failed call changes nothing.
pub proof fn lemma_create_payment_duplicate(
    m: ProcessorModel,
    payment_id: String,
    merchant_id: Address,
    amount: i128,
    currency: String,
    deposit_address: Address,
    expires_at: u64,
    now: u64,
    merchant_id2: Address,
    amount2: i128,
    currency2: String,
    deposit_address2: Address,
    expires_at2: u64,
    now2: u64,
)
    requires
        create_payment_spec(
            m,
            payment_id,
            merchant_id,
            amount,
            currency,
            deposit_address,
            expires_at,
            now,
        ).1 is Ok,
        amount2 > 0,
    ensures
        ({
            let m1 = create_payment_spec(
                m,
                payment_id,
                merchant_id,
                amount,
                currency,
                deposit_address,
                expires_at,
                now,
            ).0;
            create_payment_spec(
                m1,
                payment_id,
                merchant_id2,
                amount2,
                currency2,
                deposit_address2,
                expires_at2,
                now2,
            ) == (m1, Err::<PaymentCharge, PaymentError>(PaymentError::PaymentAlreadyExists))
        }),
{
}

/// A successful verification settles the charge exactly once: once it has
/// returned `Confirmed`, every later verify or cancel of the same id fails
/// with `PaymentAlreadyProcessed` and changes nothing.
pub proof fn lemma_verify_payment_exactly_once(
    m: ProcessorModel,
    payment_id: String,
    transaction_hash: TransactionHash,
    payer_address: Address,
    amount_received: i128,
    now: u64,
    transaction_hash2: TransactionHash,
    payer_address2: Address,
    amount_received2: i128,
    now2: u64,
)
    requires
        verify_payment_spec(
            m,
            payment_id,
            transaction_hash,
            payer_address,
            amount_received,
            now,
        ).1 == Ok::<PaymentStatus, PaymentError>(PaymentStatus::Confirmed),
    ensures
        ({
            let m1 = verify_payment_spec(
                m,
                payment_id,
                transaction_hash,
                payer_address,
                amount_received,
                now,
            ).0;
            &&& m1.payments[payment_id@].status is Confirmed
            &&& verify_payment_spec(
                m1,
                payment_id,
                transaction_hash2,
                payer_address2,
                amount_received2,
                now2,
            ) == (m1, Err::<PaymentStatus, PaymentError>(PaymentError::PaymentAlreadyProcessed))
            &&& cancel_payment_spec(m1, payment_id, now2) == (
                m1,
                Err::<(), PaymentError>(PaymentError::PaymentAlreadyProcessed),
            )
        }),
{
}

/// After its deadline, a pending charge is cancelled exactly once: the first
/// cancel succeeds and every later verify or cancel of the same id fails with
/// `PaymentAlreadyProcessed` and changes nothing.
pub proof fn lemma_cancel_payment_exactly_once(
    m: ProcessorModel,
    payment_id: String,
    now: u64,
    transaction_hash2: TransactionHash,
    payer_address2: Address,
    amount_received2: i128,
    now2: u64,
)
    requires
        cancel_payment_spec(m, payment_id, now).1 is Ok,
    ensures
        ({
            let m1 = cancel_payment_spec(m, payment_id, now).0;
            &&& m1.payments[payment_id@].status is Expired
            &&& cancel_payment_spec(m1, payment_id, now2) == (
                m1,
                Err::<(), PaymentError>(PaymentError::PaymentAlreadyProcessed),
            )
            &&& verify_payment_spec(
                m1,
                payment_id,
                transaction_hash2,
                payer_address2,
                amount_received2,
                now2,
            ) == (m1, Err::<PaymentStatus, PaymentError>(PaymentError::PaymentAlreadyProcessed))
        }),
{
}

/// Charges are never deleted by any payment operation.
pub proof fn lemma_payments_never_deleted(
    m: ProcessorModel,
    k: Seq<char>,
    payment_id: String,
    merchant_id: Address,
    amount: i128,
    currency: String,
    deposit_address: Address,
    expires_at: u64,
    transaction_hash: TransactionHash,
    payer_address: Address,
    amount_received: i128,
    now: u64,
)
    requires
        m.payments.contains_key(k),
    ensures
        create_payment_spec(
            m,
            payment_id,
            merchant_id,
            amount,
            currency,
            deposit_address,
            expires_at,
            now,
        ).0.payments.contains_key(k),
        verify_payment_spec(
            m,
            payment_id,
            transaction_hash,
            payer_address,
            amount_received,
            now,
        ).0.payments.contains_key(k),
        cancel_payment_spec(m, payment_id, now).0.payments.contains_key(k),
{
}

/// A charge in a terminal status is never
/// modified again by any payment operation.
pub proof fn lemma_terminal_payments_frozen(
    m: ProcessorModel,
    k: Seq<char>,
    payment_id: String,
    merchant_id: Address,
    amount: i128,
    currency: String,
    deposit_address: Address,
    expires_at: u64,
    transaction_hash: TransactionHash,
    payer_address: Address,
    amount_received: i128,
    now: u64,
)
    requires
        m.payments.contains_key(k),
        !(m.payments[k].status is Pending),
    ensures
        ({
            let mc = create_payment_spec(
                m,
                payment_id,
                merchant_id,
                amount,
                currency,
                deposit_address,
                expires_at,
                now,
            ).0;
            mc.payments.contains_key(k) && mc.payments[k] == m.payments[k]
        }),
        ({
            let mv = verify_payment_spec(
                m,
                payment_id,
                transaction_hash,
                payer_address,
                amount_received,
                now,
            ).0;
            mv.payments.contains_key(k) && mv.payments[k] == m.payments[k]
        }),
        ({
            let mx = cancel_payment_spec(m, payment_id, now).0;
            mx.payments.contains_key(k) && mx.payments[k] == m.payments[k]
        }),
{
}

/// Every payment operation preserves the consistency of the store.
pub proof fn lemma_payment_ops_preserve_wf(
    m: ProcessorModel,
    payment_id: String,
    merchant_id: Address,
    amount: i128,
    currency: String,
    deposit_address: Address,
    expires_at: u64,
    transaction_hash: TransactionHash,
    payer_address: Address,
    amount_received: i128,
    now: u64,
)
    requires
        m.wf(),
    ensures
        create_payment_spec(
            m,
            payment_id,
            merchant_id,
            amount,
            currency,
            deposit_address,
            expires_at,
            now,
        ).0.wf(),
        verify_payment_spec(
            m,
            payment_id,
            transaction_hash,
            payer_address,
            amount_received,
            now,
        ).0.wf(),
        cancel_payment_spec(m, payment_id, now).0.wf(),
{
}

} // verus!
