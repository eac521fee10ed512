//! Role-based access control: a registry of role grants plus a single
//! administrator identity.
//!
//! A grant is a fact keyed by role name and account; it exists exactly while
//! the account holds the role. Role names are plain strings, not a closed
//! enum; four well-known names (`ADMIN`, `ORACLE`, `MERCHANT`,
//! `SETTLEMENT_OPERATOR`) are reserved by the system. The registry is
//! modelled as a set of `(role name, account)` pairs together with the
//! optional admin identity, and every operation's contract is stated as a
//! pure transition on that model.

use crate::types::Address;
use vstd::prelude::*;

verus! {

/// The reserved role name held by the administrator.
pub open spec fn admin_role() -> Seq<char> {
    "ADMIN"@
}

/// The reserved role name for external verifiers.
pub open spec fn oracle_role() -> Seq<char> {
    "ORACLE"@
}

/// The reserved role name for merchants.
pub open spec fn merchant_role() -> Seq<char> {
    "MERCHANT"@
}

/// The reserved role name for operators who finalize refunds.
pub open spec fn settlement_operator_role() -> Seq<char> {
    "SETTLEMENT_OPERATOR"@
}

/// The `ADMIN` role name.
pub fn role_admin() -> (s: String)
    ensures
        s@ == admin_role(),
{
    String::from_str("ADMIN")
}

/// The `ORACLE` role name.
pub fn role_oracle() -> (s: String)
    ensures
        s@ == oracle_role(),
{
    String::from_str("ORACLE")
}

/// The `MERCHANT` role name.
pub fn role_merchant() -> (s: String)
    ensures
        s@ == merchant_role(),
{
    String::from_str("MERCHANT")
}

/// The `SETTLEMENT_OPERATOR` role name.
pub fn role_settlement_operator() -> (s: String)
    ensures
        s@ == settlement_operator_role(),
{
    String::from_str("SETTLEMENT_OPERATOR")
}

/// Failures of the access-control operations.
#[derive(Clone, Copy, Debug, PartialEq, Eq, Structural)]
pub enum AccessControlError {
    Unauthorized,
    RoleAlreadyGranted,
    RoleNotGranted,
    CannotRenounceAdmin,
    InvalidAdmin,
}

/// One stored role grant: `account` currently holds `role`.
pub struct RoleGrant {
    pub role: String,
    pub account: Address,
}

impl Clone for RoleGrant {
    fn clone(&self) -> (r: Self)
        ensures
            r == *self,
    {
        RoleGrant { role: self.role.clone(), account: self.account }
    }
}

/// The mathematical state of the registry: the admin identity, if one was
/// ever installed, and the set of live `(role name, account)` grants.
#[verifier::ext_equal]
pub struct AccessModel {
    pub admin: Option<Address>,
    pub grants: Set<(Seq<char>, Address)>,
}

/// The role-grant registry.
pub struct AccessControl {
    admin: Option<Address>,
    grants: Vec<RoleGrant>,
}

/// The set of `(role name, account)` pairs recorded in `s`.
spec fn grants_seq_set(s: Seq<RoleGrant>) -> Set<(Seq<char>, Address)>
    decreases s.len(),
{
    if s.len() == 0 {
        Set::empty()
    } else {
        grants_seq_set(s.drop_last()).insert((s.last().role@, s.last().account))
    }
}

proof fn lemma_grants_seq_set_push(s: Seq<RoleGrant>, g: RoleGrant)
    ensures
        grants_seq_set(s.push(g)) == grants_seq_set(s).insert((g.role@, g.account)),
{
    assert(s.push(g).drop_last() =~= s);
    assert(s.push(g).last() == g);
}

/// Extending the recorded prefix by one entry adds that entry's pair.
proof fn lemma_grants_seq_set_take_succ(s: Seq<RoleGrant>, i: int)
    requires
        0 <= i < s.len(),
    ensures
        grants_seq_set(s.take(i + 1)) == grants_seq_set(s.take(i)).insert(
            (s[i].role@, s[i].account),
        ),
{
    assert(s.take(i + 1).len() == i + 1);
    assert(s.take(i + 1).drop_last() =~= s.take(i));
    assert(s.take(i + 1).last() == s[i]);
}

impl View for AccessControl {
    type V = AccessModel;

    closed spec fn view(&self) -> AccessModel {
        AccessModel { admin: self.admin, grants: grants_seq_set(self.grants@) }
    }
}

/// The outcome of [`AccessControl::grant_role`].
pub open spec fn grant_role_spec(m: AccessModel, admin: Address, role: Seq<char>, account: Address) -> (
    AccessModel,
    Result<(), AccessControlError>,
) {
    if !m.grants.contains((admin_role(), admin)) {
        (m, Err(AccessControlError::Unauthorized))
    } else if m.grants.contains((role, account)) {
        (m, Err(AccessControlError::RoleAlreadyGranted))
    } else {
        (AccessModel { grants: m.grants.insert((role, account)), ..m }, Ok(()))
    }
}

/// The outcome of [`AccessControl::revoke_role`].
pub open spec fn revoke_role_spec(m: AccessModel, admin: Address, role: Seq<char>, account: Address) -> (
    AccessModel,
    Result<(), AccessControlError>,
) {
    if !m.grants.contains((admin_role(), admin)) {
        (m, Err(AccessControlError::Unauthorized))
    } else if !m.grants.contains((role, account)) {
        (m, Err(AccessControlError::RoleNotGranted))
    } else {
        (AccessModel { grants: m.grants.remove((role, account)), ..m }, Ok(()))
    }
}

/// The outcome of [`AccessControl::renounce_role`].
pub open spec fn renounce_role_spec(m: AccessModel, account: Address, role: Seq<char>) -> (
    AccessModel,
    Result<(), AccessControlError>,
) {
    if role == admin_role() {
        (m, Err(AccessControlError::CannotRenounceAdmin))
    } else if !m.grants.contains((role, account)) {
        (m, Err(AccessControlError::RoleNotGranted))
    } else {
        (AccessModel { grants: m.grants.remove((role, account)), ..m }, Ok(()))
    }
}

/// The outcome of [`AccessControl::transfer_admin`]: the `ADMIN` role moves
/// from the current admin to the new one, and the admin identity is replaced,
/// all in one step.
pub open spec fn transfer_admin_spec(m: AccessModel, current_admin: Address, new_admin: Address) -> (
    AccessModel,
    Result<(), AccessControlError>,
) {
    if !m.grants.contains((admin_role(), current_admin)) {
        (m, Err(AccessControlError::Unauthorized))
    } else {
        (
            AccessModel {
                admin: Some(new_admin),
                grants: m.grants.remove((admin_role(), current_admin)).insert(
                    (admin_role(), new_admin),
                ),
            },
            Ok(()),
        )
    }
}

impl AccessControl {
    /// An empty registry: no admin installed, no grants.
    pub fn new() -> (r: Self)
        ensures
            r@ == (AccessModel { admin: None, grants: Set::<(Seq<char>, Address)>::empty() }),
    {
        let r = AccessControl { admin: None, grants: Vec::new() };
        proof {
            assert(r@ =~= (AccessModel {
                admin: None,
                grants: Set::<(Seq<char>, Address)>::empty(),
            }));
        }
        r
    }

    /// Installs `admin` as the administrator and grants it the `ADMIN` role.
    ///
    /// Must run exactly once per registry lifetime; guarding against
    /// re-initialization is the caller's responsibility, expressed here as
    /// the precondition that no admin is installed yet.
    pub fn initialize(&mut self, admin: Address)
        requires
            old(self)@.admin is None,
        ensures
            final(self)@ == (AccessModel {
                admin: Some(admin),
                grants: old(self)@.grants.insert((admin_role(), admin)),
            }),
    {
        self.admin = Some(admin);
        let role = role_admin();
        self.grant_role_internal(&role, admin);
        proof {
            assert(self@ =~= (AccessModel {
                admin: Some(admin),
                grants: old(self)@.grants.insert((admin_role(), admin)),
            }));
        }
    }

    /// Grants `role` to `account`, on the authority of `admin`.
    ///
    /// Fails with `Unauthorized` unless `admin` holds `ADMIN`, and with
    /// `RoleAlreadyGranted` if `account` already holds `role`; the registry
    /// is unchanged on failure.
    pub fn grant_role(&mut self, admin: Address, role: String, account: Address) -> (r: Result<
        (),
        AccessControlError,
    >)
        ensures
            ({
                let (m, res) = grant_role_spec(old(self)@, admin, role@, account);
                final(self)@ == m && r == res
            }),
    {
        let admin_name = role_admin();
        if !self.has_role(&admin_name, admin) {
            return Err(AccessControlError::Unauthorized);
        }
        if self.has_role(&role, account) {
            return Err(AccessControlError::RoleAlreadyGranted);
        }
        self.grant_role_internal(&role, account);
        proof {
            assert(self@ =~= grant_role_spec(old(self)@, admin, role@, account).0);
        }
        Ok(())
    }

    /// Revokes `role` from `account`, on the authority of `admin`.
    ///
    /// Fails with `Unauthorized` unless `admin` holds `ADMIN`, and with
    /// `RoleNotGranted` if `account` does not hold `role`; the registry is
    /// unchanged on failure.
    pub fn revoke_role(&mut self, admin: Address, role: String, account: Address) -> (r: Result<
        (),
        AccessControlError,
    >)
        ensures
            ({
                let (m, res) = revoke_role_spec(old(self)@, admin, role@, account);
                final(self)@ == m && r == res
            }),
    {
        let admin_name = role_admin();
        if !self.has_role(&admin_name, admin) {
            return Err(AccessControlError::Unauthorized);
        }
        if !self.has_role(&role, account) {
            return Err(AccessControlError::RoleNotGranted);
        }
        self.revoke_role_internal(&role, account);
        proof {
            assert(self@ =~= revoke_role_spec(old(self)@, admin, role@, account).0);
        }
        Ok(())
    }

    /// Whether `account` currently holds `role`. A pure read: never fails,
    /// and defaults to false.
    #[verifier::loop_isolation(false)]
    pub fn has_role(&self, role: &String, account: Address) -> (r: bool)
        ensures
            r == self@.grants.contains((role@, account)),
    {
        let mut i: usize = 0;
        while i < self.grants.len()
            invariant
                i <= self.grants.len(),
                !grants_seq_set(self.grants@.take(i as int)).contains((role@, account)),
            decreases self.grants.len() - i,
        {
            let g = &self.grants[i];
            proof {
                assert(self.grants@.take(i as int + 1).drop_last() =~= self.grants@.take(i as int));
                assert(self.grants@.take(i as int + 1).last() == self.grants@[i as int]);
            }
            if g.role == *role && g.account == account {
                proof {
                    lemma_grants_seq_set_contains_at(self.grants@, i as int, (role@, account));
                }
                return true;
            }
            i = i + 1;
        }
        proof {
            assert(self.grants@.take(self.grants@.len() as int) =~= self.grants@);
        }
        false
    }

    /// Renounces `role` for `account` itself.
    ///
    /// The `ADMIN` role can never be renounced; any other role is revoked if
    /// held, and `RoleNotGranted` is reported otherwise.
    pub fn renounce_role(&mut self, account: Address, role: String) -> (r: Result<
        (),
        AccessControlError,
    >)
        ensures
            ({
                let (m, res) = renounce_role_spec(old(self)@, account, role@);
                final(self)@ == m && r == res
            }),
            role@ == admin_role() ==> r == Err::<(), AccessControlError>(
                AccessControlError::CannotRenounceAdmin,
            ) && final(self)@ == old(self)@,
    {
        let admin_name = role_admin();
        if role == admin_name {
            return Err(AccessControlError::CannotRenounceAdmin);
        }
        if !self.has_role(&role, account) {
            return Err(AccessControlError::RoleNotGranted);
        }
        self.revoke_role_internal(&role, account);
        proof {
            assert(self@ =~= renounce_role_spec(old(self)@, account, role@).0);
        }
        Ok(())
    }

    /// Moves the administrator identity from `current_admin` to `new_admin`:
    /// revokes `ADMIN` from the former, grants it to the latter, and replaces
    /// the stored admin identity, atomically.
    ///
    /// Transferring to the current admin itself leaves it holding `ADMIN`:
    /// the revoke-then-grant pair is idempotent and corrupts nothing.
    pub fn transfer_admin(&mut self, current_admin: Address, new_admin: Address) -> (r: Result<
        (),
        AccessControlError,
    >)
        ensures
            ({
                let (m, res) = transfer_admin_spec(old(self)@, current_admin, new_admin);
                final(self)@ == m && r == res
            }),
    {
        let admin_name = role_admin();
        if !self.has_role(&admin_name, current_admin) {
            return Err(AccessControlError::Unauthorized);
        }
        self.revoke_role_internal(&admin_name, current_admin);
        self.grant_role_internal(&admin_name, new_admin);
        self.admin = Some(new_admin);
        proof {
            assert(self@ =~= transfer_admin_spec(old(self)@, current_admin, new_admin).0);
        }
        Ok(())
    }

    /// The administrator identity, if one was installed.
    pub fn get_admin(&self) -> (r: Option<Address>)
        ensures
            r == self@.admin,
    {
        self.admin
    }

    /// Fails with `Unauthorized` unless `account` holds `role`.
    pub fn require_role(&self, role: &String, account: Address) -> (r: Result<
        (),
        AccessControlError,
    >)
        ensures
            r == if self@.grants.contains((role@, account)) {
                Ok::<(), AccessControlError>(())
            } else {
                Err(AccessControlError::Unauthorized)
            },
    {
        if !self.has_role(role, account) {
            return Err(AccessControlError::Unauthorized);
        }
        Ok(())
    }

    /// Records the grant; a no-op when it already exists.
    fn grant_role_internal(&mut self, role: &String, account: Address)
        ensures
            final(self)@.grants == old(self)@.grants.insert((role@, account)),
            final(self)@.admin == old(self)@.admin,
    {
        if !self.has_role(role, account) {
            self.grants.push(RoleGrant { role: role.clone(), account });
            proof {
                lemma_grants_seq_set_push(
                    old(self).grants@,
                    (RoleGrant { role: *role, account }),
                );
            }
        } else {
            proof {
                assert(old(self)@.grants.insert((role@, account)) =~= old(self)@.grants);
            }
        }
    }

    /// Deletes the grant; a no-op when it does not exist.
    #[verifier::loop_isolation(false)]
    fn revoke_role_internal(&mut self, role: &String, account: Address)
        ensures
            final(self)@.grants == old(self)@.grants.remove((role@, account)),
            final(self)@.admin == old(self)@.admin,
    {
        let ghost target = (role@, account);
        let ghost s = self.grants@;
        let mut kept: Vec<RoleGrant> = Vec::new();
        let mut i: usize = 0;
        while i < self.grants.len()
            invariant
                i <= s.len(),
                self.grants@ == s,
                grants_seq_set(kept@) == grants_seq_set(s.take(i as int)).remove(target),
            decreases s.len() - i,
        {
            let g = &self.grants[i];
            proof {
                lemma_grants_seq_set_take_succ(s, i as int);
            }
            if g.role == *role && g.account == account {
                proof {
                    assert((s[i as int].role@, s[i as int].account) == target);
                    assert(grants_seq_set(s.take(i as int)).insert(target).remove(target)
                        =~= grants_seq_set(s.take(i as int)).remove(target));
                }
            } else {
                let kept_old = Ghost(kept@);
                kept.push(g.clone());
                proof {
                    let p = (s[i as int].role@, s[i as int].account);
                    assert(p != target);
                    lemma_grants_seq_set_push(kept_old@, s[i as int]);
                    assert(grants_seq_set(s.take(i as int)).insert(p).remove(target)
                        =~= grants_seq_set(s.take(i as int)).remove(target).insert(p));
                }
            }
            i = i + 1;
        }
        proof {
            assert(s.take(s.len() as int) =~= s);
        }
        self.grants = kept;
    }
}

/// A pair carried by some entry is in the recorded set; used to justify the
/// linear search in `has_role`.
proof fn lemma_grants_seq_set_contains_at(s: Seq<RoleGrant>, i: int, p: (Seq<char>, Address))
    requires
        0 <= i < s.len(),
        (s[i].role@, s[i].account) == p,
    ensures
        grants_seq_set(s).contains(p),
    decreases s.len(),
{
    if i == s.len() - 1 {
        assert(s.last() == s[i]);
    } else {
        lemma_grants_seq_set_contains_at(s.drop_last(), i, p);
    }
}

/// Immediately after a successful `transfer_admin(a, b)`, `b` holds `ADMIN`
/// and is the stored admin; `a` no longer holds `ADMIN` unless `a` and `b`
/// are the same identity.
pub proof fn lemma_transfer_admin_rotates_admin_role(m: AccessModel, a: Address, b: Address)
    requires
        transfer_admin_spec(m, a, b).1 is Ok,
    ensures
        ({
            let m2 = transfer_admin_spec(m, a, b).0;
            &&& m2.admin == Some(b)
            &&& m2.grants.contains((admin_role(), b))
            &&& a != b ==> !m2.grants.contains((admin_role(), a))
        }),
{
}

/// The installed admin identity holds the `ADMIN` role.
pub open spec fn admin_holds_admin_role(m: AccessModel) -> bool {
    m.admin matches Some(a) ==> m.grants.contains((admin_role(), a))
}

/// `initialize` establishes [`admin_holds_admin_role`] (see its contract),
/// and every operation preserves it, with one exception: a `revoke_role`
/// that revokes `ADMIN` from the admin identity itself breaks it, and
/// nothing guards against that call.
pub proof fn lemma_admin_keeps_admin_role(
    m: AccessModel,
    caller: Address,
    role: Seq<char>,
    account: Address,
    new_admin: Address,
)
    requires
        admin_holds_admin_role(m),
    ensures
        admin_holds_admin_role(grant_role_spec(m, caller, role, account).0),
        admin_holds_admin_role(renounce_role_spec(m, account, role).0),
        admin_holds_admin_role(transfer_admin_spec(m, caller, new_admin).0),
        !(role == admin_role() && m.admin == Some(account)) ==> admin_holds_admin_role(
            revoke_role_spec(m, caller, role, account).0,
        ),
{
}

/// The four reserved role names are pairwise distinct.
pub proof fn lemma_reserved_roles_distinct()
    ensures
        admin_role() != oracle_role(),
        admin_role() != merchant_role(),
        admin_role() != settlement_operator_role(),
        oracle_role() != merchant_role(),
        oracle_role() != settlement_operator_role(),
        merchant_role() != settlement_operator_role(),
{
    reveal_strlit("ADMIN");
    reveal_strlit("ORACLE");
    reveal_strlit("MERCHANT");
    reveal_strlit("SETTLEMENT_OPERATOR");
    assert(admin_role().len() == 5);
    assert(oracle_role().len() == 6);
    assert(merchant_role().len() == 8);
    assert(settlement_operator_role().len() == 19);
}

/// Renouncing the `ADMIN` role always fails with `CannotRenounceAdmin`,
/// whoever asks, and changes nothing.
pub proof fn lemma_renounce_admin_always_fails(m: AccessModel, account: Address)
    ensures
        renounce_role_spec(m, account, admin_role()) == (
            m,
            Err::<(), AccessControlError>(AccessControlError::CannotRenounceAdmin),
        ),
{
}

} // verus!
