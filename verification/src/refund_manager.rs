//! The refund lifecycle, tied to payment ids and gated by access-control
//! roles.
//!
//! A refund request references a payment id without any existence check
//! against the payment store: refund requests may be filed speculatively,
//! and that decoupling is deliberate. Refund ids are generated from a
//! monotonically increasing counter rendered in decimal, so they are provably
//! unique (see [`crate::decimal`]). Only holders of `SETTLEMENT_OPERATOR` or
//! `ORACLE` may finalize a refund.

use crate::access_control::{
    grant_role_spec, oracle_role, revoke_role_spec, role_oracle, role_settlement_operator,
    settlement_operator_role, AccessControl, AccessModel,
};
use crate::decimal::{lemma_decimal_injective, spec_decimal, u64_to_decimal};
use crate::types::Address;
use vstd::hash_map::StringHashMap;
use vstd::prelude::*;

verus! {

/// The lifecycle status of a refund.
///
/// Only `Pending` and `Completed` are reachable through the exposed
/// operations; `Approved` and `Rejected` are modelled for forward
/// compatibility and no operation transitions into them.
#[derive(Clone, Copy, Debug, PartialEq, Eq, Structural)]
pub enum RefundStatus {
    Pending,
    Approved,
    Completed,
    Rejected,
}

/// Failures of the refund operations.
#[derive(Clone, Copy, Debug, PartialEq, Eq, Structural)]
pub enum RefundError {
    InvalidAmount,
    Unauthorized,
    RefundNotFound,
    RefundAlreadyProcessed,
}

/// A request to return funds for a payment.
pub struct Refund {
    /// System-generated unique identifier.
    pub refund_id: String,
    /// The referenced payment; not checked for existence.
    pub payment_id: String,
    /// The amount to return; positive at creation.
    pub amount: i128,
    /// Free-text justification.
    pub reason: String,
    pub status: RefundStatus,
    pub created_at: u64,
    /// Set on completion.
    pub processed_at: Option<u64>,
    /// The identity that filed the request.
    pub requester: Address,
}

impl Clone for Refund {
    fn clone(&self) -> (r: Self)
        ensures
            r == *self,
    {
        Refund {
            refund_id: self.refund_id.clone(),
            payment_id: self.payment_id.clone(),
            amount: self.amount,
            reason: self.reason.clone(),
            status: self.status,
            created_at: self.created_at,
            processed_at: self.processed_at,
            requester: self.requester,
        }
    }
}

/// The mathematical value of a stored refund.
#[verifier::ext_equal]
pub struct RefundData {
    pub refund_id: Seq<char>,
    pub payment_id: Seq<char>,
    pub amount: i128,
    pub reason: Seq<char>,
    pub status: RefundStatus,
    pub created_at: u64,
    pub processed_at: Option<u64>,
    pub requester: Address,
}

impl View for Refund {
    type V = RefundData;

    open spec fn view(&self) -> RefundData {
        RefundData {
            refund_id: self.refund_id@,
            payment_id: self.payment_id@,
            amount: self.amount,
            reason: self.reason@,
            status: self.status,
            created_at: self.created_at,
            processed_at: self.processed_at,
            requester: self.requester,
        }
    }
}

/// The mathematical state of the manager: the stored refunds keyed by refund
/// id, the per-payment index of refund ids in creation order, and the counter
/// that sources new ids.
#[verifier::ext_equal]
pub struct RefundModel {
    pub refunds: Map<Seq<char>, RefundData>,
    pub payment_refunds: Map<Seq<char>, Seq<Seq<char>>>,
    pub counter: u64,
}

/// The refund id generated from counter value `n`.
pub open spec fn refund_key(n: nat) -> Seq<char> {
    "refund_"@ + spec_decimal(n)
}

impl RefundModel {
    /// Internal consistency: every stored refund carries its own key, passed
    /// validation, is in a reachable status with its completion time present
    /// exactly when completed, and was keyed from some past counter value.
    pub open spec fn wf(self) -> bool {
        forall|k: Seq<char>| #[trigger] self.refunds.contains_key(k) ==> {
            let r = self.refunds[k];
            &&& r.refund_id == k
            &&& r.amount > 0
            &&& (r.status is Pending || r.status is Completed)
            &&& (r.status is Completed <==> r.processed_at is Some)
            &&& exists|n: nat| 1 <= n <= self.counter && k == #[trigger] refund_key(n)
        }
    }
}

/// The refund lifecycle manager.
pub struct RefundManager {
    refunds: StringHashMap<Refund>,
    payment_refunds: StringHashMap<Vec<String>>,
    counter: u64,
}

/// The stored refunds by their mathematical values.
spec fn refunds_deep(m: Map<Seq<char>, Refund>) -> Map<Seq<char>, RefundData> {
    Map::new(|k: Seq<char>| m.contains_key(k), |k: Seq<char>| m[k]@)
}

/// The stored index lists by their mathematical values.
spec fn index_deep(m: Map<Seq<char>, Vec<String>>) -> Map<Seq<char>, Seq<Seq<char>>> {
    Map::new(
        |k: Seq<char>| m.contains_key(k),
        |k: Seq<char>| m[k]@.map_values(|s: String| s@),
    )
}

proof fn lemma_refunds_deep_insert(m: Map<Seq<char>, Refund>, k: Seq<char>, v: Refund)
    ensures
        refunds_deep(m.insert(k, v)) == refunds_deep(m).insert(k, v@),
{
    assert(refunds_deep(m.insert(k, v)) =~= refunds_deep(m).insert(k, v@));
}

proof fn lemma_index_deep_insert(m: Map<Seq<char>, Vec<String>>, k: Seq<char>, v: Vec<String>)
    ensures
        index_deep(m.insert(k, v)) == index_deep(m).insert(k, v@.map_values(|s: String| s@)),
{
    assert(index_deep(m.insert(k, v)) =~= index_deep(m).insert(
        k,
        v@.map_values(|s: String| s@),
    ));
}

impl View for RefundManager {
    type V = RefundModel;

    closed spec fn view(&self) -> RefundModel {
        RefundModel {
            refunds: refunds_deep(self.refunds@),
            payment_refunds: index_deep(self.payment_refunds@),
            counter: self.counter,
        }
    }
}

/// The outcome of [`RefundManager::create_refund`] at time `now`: the
/// returned value is the view of the generated refund id.
pub open spec fn create_refund_spec(
    m: RefundModel,
    payment_id: Seq<char>,
    refund_amount: i128,
    reason: Seq<char>,
    requester: Address,
    now: u64,
) -> (RefundModel, Result<Seq<char>, RefundError>) {
    if refund_amount <= 0 {
        (m, Err(RefundError::InvalidAmount))
    } else {
        let key = refund_key(m.counter as nat + 1);
        let refund = RefundData {
            refund_id: key,
            payment_id: payment_id,
            amount: refund_amount,
            reason: reason,
            status: RefundStatus::Pending,
            created_at: now,
            processed_at: None,
            requester: requester,
        };
        let old_ids = if m.payment_refunds.contains_key(payment_id) {
            m.payment_refunds[payment_id]
        } else {
            Seq::<Seq<char>>::empty()
        };
        (
            RefundModel {
                refunds: m.refunds.insert(key, refund),
                payment_refunds: m.payment_refunds.insert(payment_id, old_ids.push(key)),
                counter: (m.counter + 1) as u64,
            },
            Ok(key),
        )
    }
}

/// The outcome of [`RefundManager::process_refund`] at time `now`, where
/// `grants` is the state of the access-control registry consulted for the
/// operator's roles.
pub open spec fn process_refund_spec(
    m: RefundModel,
    grants: Set<(Seq<char>, Address)>,
    operator: Address,
    refund_id: Seq<char>,
    now: u64,
) -> (RefundModel, Result<(), RefundError>) {
    if !grants.contains((settlement_operator_role(), operator)) && !grants.contains(
        (oracle_role(), operator),
    ) {
        (m, Err(RefundError::Unauthorized))
    } else if !m.refunds.contains_key(refund_id) {
        (m, Err(RefundError::RefundNotFound))
    } else if !(m.refunds[refund_id].status is Pending) {
        (m, Err(RefundError::RefundAlreadyProcessed))
    } else {
        (
            RefundModel {
                refunds: m.refunds.insert(
                    refund_id,
                    RefundData {
                        status: RefundStatus::Completed,
                        processed_at: Some(now),
                        ..m.refunds[refund_id]
                    },
                ),
                ..m
            },
            Ok(()),
        )
    }
}

/// Clones every element; `String` clones are exact, so the view is preserved.
#[verifier::loop_isolation(false)]
fn clone_string_vec(v: &Vec<String>) -> (r: Vec<String>)
    ensures
        r@ == v@,
{
    let mut r: Vec<String> = Vec::new();
    let mut i: usize = 0;
    while i < v.len()
        invariant
            i <= v.len(),
            r@ == v@.take(i as int),
        decreases v.len() - i,
    {
        r.push(v[i].clone());
        proof {
            assert(r@ =~= v@.take(i as int + 1));
        }
        i = i + 1;
    }
    proof {
        assert(v@.take(v@.len() as int) =~= v@);
    }
    r
}

impl RefundManager {
    /// A manager with no stored refunds, an empty index, and the counter at
    /// zero.
    pub fn new() -> (r: Self)
        ensures
            r@ == (RefundModel {
                refunds: Map::<Seq<char>, RefundData>::empty(),
                payment_refunds: Map::<Seq<char>, Seq<Seq<char>>>::empty(),
                counter: 0,
            }),
            r@.wf(),
    {
        let r = RefundManager {
            refunds: StringHashMap::new(),
            payment_refunds: StringHashMap::new(),
            counter: 0,
        };
        proof {
            assert(r@ =~= (RefundModel {
                refunds: Map::<Seq<char>, RefundData>::empty(),
                payment_refunds: Map::<Seq<char>, Seq<Seq<char>>>::empty(),
                counter: 0,
            }));
        }
        r
    }

    /// Files a refund request against `payment_id` and returns the generated
    /// refund id.
    ///
    /// Fails with `InvalidAmount` if `refund_amount` is not positive, leaving
    /// the state unchanged. On success the refund is stored as `Pending`
    /// under a freshly generated id, which is also appended to the payment's
    /// index. No check is made that the payment exists: refunds may be filed
    /// speculatively.
    pub fn create_refund(
        &mut self,
        payment_id: String,
        refund_amount: i128,
        reason: String,
        requester: Address,
        now: u64,
    ) -> (r: Result<String, RefundError>)
        requires
            old(self)@.wf(),
            old(self)@.counter < u64::MAX,
        ensures
            ({
                let (m, res) = create_refund_spec(
                    old(self)@,
                    payment_id@,
                    refund_amount,
                    reason@,
                    requester,
                    now,
                );
                &&& final(self)@ == m
                &&& match (r, res) {
                    (Ok(id), Ok(key)) => id@ == key,
                    (Err(e), Err(ee)) => e == ee,
                    _ => false,
                }
            }),
            final(self)@.wf(),
            refund_amount > 0 ==> !old(self)@.refunds.contains_key(
                refund_key(old(self)@.counter as nat + 1),
            ),
    {
        proof {
            lemma_refund_ids_fresh(old(self)@);
        }
        if refund_amount <= 0 {
            return Err(RefundError::InvalidAmount);
        }
        let ghost m0 = self@;
        let counter = self.counter + 1;
        self.counter = counter;
        let mut refund_id = String::from_str("refund_");
        let digits = u64_to_decimal(counter);
        refund_id.append(digits.as_str());
        let refund = Refund {
            refund_id: refund_id.clone(),
            payment_id: payment_id.clone(),
            amount: refund_amount,
            reason,
            status: RefundStatus::Pending,
            created_at: now,
            processed_at: None,
            requester,
        };
        let ghost refund_snap = refund;
        self.refunds.insert(refund_id.clone(), refund);
        let mut ids: Vec<String> = match self.payment_refunds.get(payment_id.as_str()) {
            Some(v) => clone_string_vec(v),
            None => Vec::new(),
        };
        ids.push(refund_id.clone());
        let ghost ids_snap = ids;
        self.payment_refunds.insert(payment_id.clone(), ids);
        proof {
            let key = refund_key(m0.counter as nat + 1);
            lemma_refunds_deep_insert(old(self).refunds@, key, refund_snap);
            lemma_index_deep_insert(old(self).payment_refunds@, payment_id@, ids_snap);
            let (m2, res) = create_refund_spec(
                m0,
                payment_id@,
                refund_amount,
                refund_snap.reason@,
                requester,
                now,
            );
            assert(refund_snap@ =~= m2.refunds[key]);
            assert(ids_snap@.map_values(|s: String| s@) =~= m2.payment_refunds[payment_id@]);
            assert(self@ =~= m2);
            lemma_create_refund_preserves_wf(
                m0,
                payment_id@,
                refund_amount,
                refund_snap.reason@,
                requester,
                now,
            );
        }
        Ok(refund_id)
    }

    /// Finalizes a pending refund on the authority of `operator`, who must
    /// hold `SETTLEMENT_OPERATOR` or `ORACLE` in `access`.
    ///
    /// Fails with `Unauthorized` if the operator holds neither role, with
    /// `RefundNotFound` if the id is unknown, and with
    /// `RefundAlreadyProcessed` if the refund is no longer pending; the state
    /// is unchanged on failure. On success the refund becomes `Completed`
    /// with its completion time recorded.
    pub fn process_refund(
        &mut self,
        access: &AccessControl,
        operator: Address,
        refund_id: String,
        now: u64,
    ) -> (r: Result<(), RefundError>)
        requires
            old(self)@.wf(),
        ensures
            ({
                let (m, res) = process_refund_spec(
                    old(self)@,
                    access@.grants,
                    operator,
                    refund_id@,
                    now,
                );
                final(self)@ == m && r == res
            }),
            final(self)@.wf(),
            r is Ok ==> access@.grants.contains((settlement_operator_role(), operator))
                || access@.grants.contains((oracle_role(), operator)),
    {
        proof {
            lemma_process_refund_preserves_wf(old(self)@, access@.grants, operator, refund_id@, now);
        }
        let settlement = role_settlement_operator();
        let oracle = role_oracle();
        let has_settlement = access.has_role(&settlement, operator);
        let has_oracle = access.has_role(&oracle, operator);
        if !has_settlement && !has_oracle {
            return Err(RefundError::Unauthorized);
        }
        let found = match self.refunds.get(refund_id.as_str()) {
            None => None,
            Some(refund) => Some(refund.clone()),
        };
        match found {
            None => Err(RefundError::RefundNotFound),
            Some(mut refund) => {
                if !matches!(refund.status, RefundStatus::Pending) {
                    return Err(RefundError::RefundAlreadyProcessed);
                }
                refund.status = RefundStatus::Completed;
                refund.processed_at = Some(now);
                let ghost refund_snap = refund;
                self.refunds.insert(refund_id.clone(), refund);
                proof {
                    lemma_refunds_deep_insert(old(self).refunds@, refund_id@, refund_snap);
                    let m2 = process_refund_spec(
                        old(self)@,
                        access@.grants,
                        operator,
                        refund_id@,
                        now,
                    ).0;
                    assert(refund_snap@ =~= m2.refunds[refund_id@]);
                    assert(self@ =~= m2);
                }
                Ok(())
            },
        }
    }

    /// Returns the stored refund for `refund_id`, unchanged, or
    /// `RefundNotFound`. A pure read.
    pub fn get_refund(&self, refund_id: &str) -> (r: Result<Refund, RefundError>)
        ensures
            match r {
                Ok(refund) => self@.refunds.contains_key(refund_id@) && refund@
                    == self@.refunds[refund_id@],
                Err(e) => !self@.refunds.contains_key(refund_id@) && e
                    == RefundError::RefundNotFound,
            },
    {
        match self.refunds.get(refund_id) {
            None => Err(RefundError::RefundNotFound),
            Some(refund) => Ok(refund.clone()),
        }
    }

    /// Returns the refund records for every id recorded against
    /// `payment_id`, in creation order, silently skipping any id that no
    /// longer resolves. A pure read that never fails.
    #[verifier::loop_isolation(false)]
    pub fn get_payment_refunds(&self, payment_id: &str) -> (r: Vec<Refund>)
        ensures
            r@.map_values(|x: Refund| x@) == resolved_refunds(
                self@.refunds,
                self@.spec_refund_ids(payment_id@),
            ),
    {
        let mut out: Vec<Refund> = Vec::new();
        let ids = match self.payment_refunds.get(payment_id) {
            None => {
                proof {
                    assert(out@.map_values(|x: Refund| x@) =~= resolved_refunds(
                        self@.refunds,
                        self@.spec_refund_ids(payment_id@),
                    ));
                }
                return out;
            },
            Some(v) => v,
        };
        let ghost idsv = ids@.map_values(|s: String| s@);
        let mut i: usize = 0;
        while i < ids.len()
            invariant
                i <= ids.len(),
                out@.map_values(|x: Refund| x@) == resolved_refunds(
                    self@.refunds,
                    idsv.take(i as int),
                ),
            decreases ids.len() - i,
        {
            proof {
                assert(idsv.take(i as int + 1).drop_last() =~= idsv.take(i as int));
                assert(idsv.take(i as int + 1).last() == ids@[i as int]@);
            }
            match self.refunds.get(ids[i].as_str()) {
                None => {
                },
                Some(refund) => {
                    let ghost out_old = out@;
                    out.push(refund.clone());
                    proof {
                        assert(out@.map_values(|x: Refund| x@) =~= out_old.map_values(
                            |x: Refund| x@,
                        ).push(self@.refunds[ids@[i as int]@]));
                    }
                },
            }
            i = i + 1;
        }
        proof {
            assert(idsv.take(idsv.len() as int) =~= idsv);
        }
        out
    }
}

impl RefundModel {
    /// The recorded refund ids for a payment, empty when none were filed.
    pub open spec fn spec_refund_ids(self, payment_id: Seq<char>) -> Seq<Seq<char>> {
        if self.payment_refunds.contains_key(payment_id) {
            self.payment_refunds[payment_id]
        } else {
            Seq::<Seq<char>>::empty()
        }
    }
}

/// The refund records that the ids resolve to, in order, skipping ids with no
/// stored record.
pub open spec fn resolved_refunds(
    refunds: Map<Seq<char>, RefundData>,
    ids: Seq<Seq<char>>,
) -> Seq<RefundData>
    decreases ids.len(),
{
    if ids.len() == 0 {
        Seq::<RefundData>::empty()
    } else {
        let rest = resolved_refunds(refunds, ids.drop_last());
        if refunds.contains_key(ids.last()) {
            rest.push(refunds[ids.last()])
        } else {
            rest
        }
    }
}

/// Two distinct counter values generate distinct refund ids.
pub proof fn lemma_refund_key_injective(a: nat, b: nat)
    requires
        refund_key(a) == refund_key(b),
    ensures
        a == b,
{
    let p = "refund_"@;
    let da = spec_decimal(a);
    let db = spec_decimal(b);
    assert((p + da).len() == p.len() + da.len());
    assert((p + db).len() == p.len() + db.len());
    assert forall|i: int| 0 <= i < da.len() implies da[i] == db[i] by {
        assert(da[i] == (p + da)[p.len() + i]);
        assert(db[i] == (p + db)[p.len() + i]);
    }
    assert(da =~= db);
    lemma_decimal_injective(a, b);
}

/// The next id to be generated is not yet stored: refund ids never collide.
pub proof fn lemma_refund_ids_fresh(m: RefundModel)
    requires
        m.wf(),
        m.counter < u64::MAX,
    ensures
        !m.refunds.contains_key(refund_key(m.counter as nat + 1)),
{
    let key = refund_key(m.counter as nat + 1);
    if m.refunds.contains_key(key) {
        let n = choose|n: nat| 1 <= n <= m.counter && key == #[trigger] refund_key(n);
        lemma_refund_key_injective(n, m.counter as nat + 1);
        assert(false);
    }
}

/// Finalizing a refund preserves the consistency of the store.
pub proof fn lemma_process_refund_preserves_wf(
    m: RefundModel,
    grants: Set<(Seq<char>, Address)>,
    operator: Address,
    refund_id: Seq<char>,
    now: u64,
)
    requires
        m.wf(),
    ensures
        process_refund_spec(m, grants, operator, refund_id, now).0.wf(),
{
}

/// Filing a refund preserves the consistency of the store.
pub proof fn lemma_create_refund_preserves_wf(
    m: RefundModel,
    payment_id: Seq<char>,
    refund_amount: i128,
    reason: Seq<char>,
    requester: Address,
    now: u64,
)
    requires
        m.wf(),
        m.counter < u64::MAX,
    ensures
        create_refund_spec(m, payment_id, refund_amount, reason, requester, now).0.wf(),
{
    let mc = create_refund_spec(m, payment_id, refund_amount, reason, requester, now).0;
    assert forall|k: Seq<char>| #[trigger] mc.refunds.contains_key(k) implies {
        let r = mc.refunds[k];
        &&& r.refund_id == k
        &&& r.amount > 0
        &&& (r.status is Pending || r.status is Completed)
        &&& (r.status is Completed <==> r.processed_at is Some)
        &&& exists|n: nat| 1 <= n <= mc.counter && k == #[trigger] refund_key(n)
    } by {
        if refund_amount > 0 {
            let key = refund_key(m.counter as nat + 1);
            if k == key {
                assert(1 <= m.counter as nat + 1 <= mc.counter && k == refund_key(
                    m.counter as nat + 1,
                ));
            } else {
                assert(m.refunds.contains_key(k));
                let n = choose|n: nat| 1 <= n <= m.counter && k == #[trigger] refund_key(n);
                assert(1 <= n <= mc.counter && k == refund_key(n));
            }
        }
    }
}

/// Refunds are never deleted, and the per-payment index is only appended to,
/// by either refund operation.
pub proof fn lemma_refunds_never_deleted(
    m: RefundModel,
    k: Seq<char>,
    pk: Seq<char>,
    grants: Set<(Seq<char>, Address)>,
    payment_id: Seq<char>,
    refund_amount: i128,
    reason: Seq<char>,
    requester: Address,
    operator: Address,
    refund_id: Seq<char>,
    now: u64,
)
    requires
        m.refunds.contains_key(k),
        m.payment_refunds.contains_key(pk),
    ensures
        ({
            let mc = create_refund_spec(m, payment_id, refund_amount, reason, requester, now).0;
            &&& mc.refunds.contains_key(k)
            &&& mc.payment_refunds.contains_key(pk)
            &&& m.payment_refunds[pk].is_prefix_of(mc.payment_refunds[pk])
        }),
        ({
            let mp = process_refund_spec(m, grants, operator, refund_id, now).0;
            &&& mp.refunds.contains_key(k)
            &&& mp.payment_refunds == m.payment_refunds
        }),
{
}

/// An operator holding neither `SETTLEMENT_OPERATOR` nor `ORACLE` can never
/// finalize a refund: the call fails with `Unauthorized` and changes nothing.
pub proof fn lemma_process_refund_needs_role(
    m: RefundModel,
    grants: Set<(Seq<char>, Address)>,
    operator: Address,
    refund_id: Seq<char>,
    now: u64,
)
    requires
        !grants.contains((settlement_operator_role(), operator)),
        !grants.contains((oracle_role(), operator)),
    ensures
        process_refund_spec(m, grants, operator, refund_id, now) == (
            m,
            Err::<(), RefundError>(RefundError::Unauthorized),
        ),
{
}

/// Granting `SETTLEMENT_OPERATOR` and `ORACLE` to an account and then
/// revoking both leaves the account unable to finalize refunds, whatever it
/// held beforehand: the roles are absent afterwards and `process_refund`
/// fails with `Unauthorized`.
pub proof fn lemma_grant_then_revoke_blocks_refunds(
    ac: AccessModel,
    admin: Address,
    account: Address,
    m: RefundModel,
    refund_id: Seq<char>,
    now: u64,
)
    requires
        ac.grants.contains((crate::access_control::admin_role(), admin)),
    ensures
        ({
            let a1 = grant_role_spec(ac, admin, settlement_operator_role(), account).0;
            let a2 = grant_role_spec(a1, admin, oracle_role(), account).0;
            let a3 = revoke_role_spec(a2, admin, settlement_operator_role(), account).0;
            let a4 = revoke_role_spec(a3, admin, oracle_role(), account).0;
            &&& !a4.grants.contains((settlement_operator_role(), account))
            &&& !a4.grants.contains((oracle_role(), account))
            &&& process_refund_spec(m, a4.grants, account, refund_id, now) == (
                m,
                Err::<(), RefundError>(RefundError::Unauthorized),
            )
        }),
{
    crate::access_control::lemma_reserved_roles_distinct();
}

} // verus!
