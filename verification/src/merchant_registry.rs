//! Merchant onboarding and profiles, with a lightweight admin-gated
//! verification flag.
//!
//! The registry keeps its own admin identity, independent of the role-based
//! access-control layer: verification authority is decided by direct
//! caller-equality with the stored admin. Callers of `register_merchant` and
//! `update_merchant` are the merchants themselves, already authenticated by
//! the host; `verify_merchant` additionally demands the caller be the stored
//! admin.

use crate::types::Address;
use vstd::hash_map::HashMapWithView;
use vstd::prelude::*;

verus! {

broadcast use vstd::std_specs::hash::axiom_u64_obeys_hash_table_key_model;

/// Failures of the merchant-registry operations.
#[derive(Clone, Copy, Debug, PartialEq, Eq, Structural)]
pub enum Error {
    MerchantAlreadyExists,
    MerchantNotFound,
    Unauthorized,
    NotVerified,
    AdminAlreadySet,
}

/// A merchant profile.
pub struct Merchant {
    pub merchant_id: Address,
    pub business_name: String,
    pub settlement_currency: String,
    /// False until the admin verifies the merchant; never cleared.
    pub verified: bool,
    /// Whether the merchant is open for business; mutable by the merchant.
    pub active: bool,
    pub created_at: u64,
}

impl Clone for Merchant {
    fn clone(&self) -> (r: Self)
        ensures
            r == *self,
    {
        Merchant {
            merchant_id: self.merchant_id,
            business_name: self.business_name.clone(),
            settlement_currency: self.settlement_currency.clone(),
            verified: self.verified,
            active: self.active,
            created_at: self.created_at,
        }
    }
}

/// The mathematical value of a stored merchant profile.
#[verifier::ext_equal]
pub struct MerchantData {
    pub merchant_id: Address,
    pub business_name: Seq<char>,
    pub settlement_currency: Seq<char>,
    pub verified: bool,
    pub active: bool,
    pub created_at: u64,
}

impl View for Merchant {
    type V = MerchantData;

    open spec fn view(&self) -> MerchantData {
        MerchantData {
            merchant_id: self.merchant_id,
            business_name: self.business_name@,
            settlement_currency: self.settlement_currency@,
            verified: self.verified,
            active: self.active,
            created_at: self.created_at,
        }
    }
}

/// The mathematical state of the registry.
#[verifier::ext_equal]
pub struct RegistryModel {
    pub admin: Option<Address>,
    pub merchants: Map<Address, MerchantData>,
}

impl RegistryModel {
    /// Every stored profile carries the identity it is keyed under.
    pub open spec fn wf(self) -> bool {
        forall|a: Address| #[trigger]
            self.merchants.contains_key(a) ==> self.merchants[a].merchant_id == a
    }
}

/// The merchant registry.
pub struct MerchantRegistry {
    admin: Option<Address>,
    merchants: HashMapWithView<u64, Merchant>,
}

/// The stored profiles by their mathematical values, keyed by identity.
spec fn merchants_deep(m: Map<u64, Merchant>) -> Map<Address, MerchantData> {
    Map::new(|a: Address| m.contains_key(a.id), |a: Address| m[a.id]@)
}

proof fn lemma_merchants_deep_insert(m: Map<u64, Merchant>, a: Address, v: Merchant)
    ensures
        merchants_deep(m.insert(a.id, v)) == merchants_deep(m).insert(a, v@),
{
    assert(merchants_deep(m.insert(a.id, v)) =~= merchants_deep(m).insert(a, v@));
}

impl View for MerchantRegistry {
    type V = RegistryModel;

    closed spec fn view(&self) -> RegistryModel {
        RegistryModel { admin: self.admin, merchants: merchants_deep(self.merchants@) }
    }
}

/// The outcome of [`MerchantRegistry::initialize`].
pub open spec fn initialize_spec(m: RegistryModel, admin: Address) -> (
    RegistryModel,
    Result<(), Error>,
) {
    if m.admin is Some {
        (m, Err(Error::AdminAlreadySet))
    } else {
        (RegistryModel { admin: Some(admin), ..m }, Ok(()))
    }
}

/// The outcome of [`MerchantRegistry::register_merchant`] at time `now`.
pub open spec fn register_merchant_spec(
    m: RegistryModel,
    merchant_id: Address,
    business_name: Seq<char>,
    settlement_currency: Seq<char>,
    now: u64,
) -> (RegistryModel, Result<(), Error>) {
    if m.merchants.contains_key(merchant_id) {
        (m, Err(Error::MerchantAlreadyExists))
    } else {
        (
            RegistryModel {
                merchants: m.merchants.insert(
                    merchant_id,
                    MerchantData {
                        merchant_id: merchant_id,
                        business_name: business_name,
                        settlement_currency: settlement_currency,
                        verified: false,
                        active: true,
                        created_at: now,
                    },
                ),
                ..m
            },
            Ok(()),
        )
    }
}

/// The outcome of [`MerchantRegistry::update_merchant`]: only the supplied
/// fields change.
pub open spec fn update_merchant_spec(
    m: RegistryModel,
    merchant_id: Address,
    business_name: Option<Seq<char>>,
    settlement_currency: Option<Seq<char>>,
    active: Option<bool>,
) -> (RegistryModel, Result<(), Error>) {
    if !m.merchants.contains_key(merchant_id) {
        (m, Err(Error::MerchantNotFound))
    } else {
        let p = m.merchants[merchant_id];
        (
            RegistryModel {
                merchants: m.merchants.insert(
                    merchant_id,
                    MerchantData {
                        business_name: if business_name is Some {
                            business_name->0
                        } else {
                            p.business_name
                        },
                        settlement_currency: if settlement_currency is Some {
                            settlement_currency->0
                        } else {
                            p.settlement_currency
                        },
                        active: if active is Some {
                            active->0
                        } else {
                            p.active
                        },
                        ..p
                    },
                ),
                ..m
            },
            Ok(()),
        )
    }
}

/// The outcome of [`MerchantRegistry::verify_merchant`], where `admin` is the
/// authenticated caller: sets the one-way `verified` flag.
pub open spec fn verify_merchant_spec(m: RegistryModel, admin: Address, merchant_id: Address) -> (
    RegistryModel,
    Result<(), Error>,
) {
    if m.admin != Some(admin) {
        (m, Err(Error::Unauthorized))
    } else if !m.merchants.contains_key(merchant_id) {
        (m, Err(Error::MerchantNotFound))
    } else {
        (
            RegistryModel {
                merchants: m.merchants.insert(
                    merchant_id,
                    MerchantData { verified: true, ..m.merchants[merchant_id] },
                ),
                ..m
            },
            Ok(()),
        )
    }
}

impl MerchantRegistry {
    /// An empty registry: no admin recorded, no merchants.
    pub fn new() -> (r: Self)
        ensures
            r@ == (RegistryModel { admin: None, merchants: Map::<Address, MerchantData>::empty() }),
    {
        let r = MerchantRegistry { admin: None, merchants: HashMapWithView::new() };
        proof {
            assert(r@ =~= (RegistryModel {
                admin: None,
                merchants: Map::<Address, MerchantData>::empty(),
            }));
        }
        r
    }

    /// Records `admin` as the registry's administrator.
    ///
    /// Fails with `AdminAlreadySet` if an admin is already recorded; the
    /// first caller wins and the identity is never silently replaced.
    pub fn initialize(&mut self, admin: Address) -> (r: Result<(), Error>)
        ensures
            ({
                let (m, res) = initialize_spec(old(self)@, admin);
                final(self)@ == m && r == res
            }),
    {
        if self.admin.is_some() {
            return Err(Error::AdminAlreadySet);
        }
        self.admin = Some(admin);
        proof {
            assert(self@ =~= initialize_spec(old(self)@, admin).0);
        }
        Ok(())
    }

    /// Registers the authenticated caller `merchant_id` as a merchant.
    ///
    /// Fails with `MerchantAlreadyExists` if a profile is already stored; on
    /// success the profile starts unverified and active, created at `now`.
    pub fn register_merchant(
        &mut self,
        merchant_id: Address,
        business_name: String,
        settlement_currency: String,
        now: u64,
    ) -> (r: Result<(), Error>)
        ensures
            ({
                let (m, res) = register_merchant_spec(
                    old(self)@,
                    merchant_id,
                    business_name@,
                    settlement_currency@,
                    now,
                );
                final(self)@ == m && r == res
            }),
    {
        if self.merchants.contains_key(&merchant_id.id) {
            return Err(Error::MerchantAlreadyExists);
        }
        let ghost m0 = self@;
        let ghost name = business_name@;
        let ghost currency = settlement_currency@;
        let merchant = Merchant {
            merchant_id,
            business_name,
            settlement_currency,
            verified: false,
            active: true,
            created_at: now,
        };
        let ghost merchant_snap = merchant;
        self.merchants.insert(merchant_id.id, merchant);
        proof {
            lemma_merchants_deep_insert(old(self).merchants@, merchant_id, merchant_snap);
            assert(self@ =~= register_merchant_spec(m0, merchant_id, name, currency, now).0);
        }
        Ok(())
    }

    /// Applies a partial update from the authenticated caller `merchant_id`:
    /// only the supplied fields change, the rest are untouched.
    ///
    /// Fails with `MerchantNotFound` if no profile is stored.
    pub fn update_merchant(
        &mut self,
        merchant_id: Address,
        business_name: Option<String>,
        settlement_currency: Option<String>,
        active: Option<bool>,
    ) -> (r: Result<(), Error>)
        ensures
            ({
                let (m, res) = update_merchant_spec(
                    old(self)@,
                    merchant_id,
                    business_name.deep_view(),
                    settlement_currency.deep_view(),
                    active,
                );
                final(self)@ == m && r == res
            }),
    {
        let found = match self.merchants.get(&merchant_id.id) {
            None => None,
            Some(merchant) => Some(merchant.clone()),
        };
        match found {
            None => Err(Error::MerchantNotFound),
            Some(mut merchant) => {
                if let Some(name) = business_name {
                    merchant.business_name = name;
                }
                if let Some(currency) = settlement_currency {
                    merchant.settlement_currency = currency;
                }
                if let Some(is_active) = active {
                    merchant.active = is_active;
                }
                let ghost merchant_snap = merchant;
                self.merchants.insert(merchant_id.id, merchant);
                proof {
                    lemma_merchants_deep_insert(old(self).merchants@, merchant_id, merchant_snap);
                    assert(self@ =~= update_merchant_spec(
                        old(self)@,
                        merchant_id,
                        business_name.deep_view(),
                        settlement_currency.deep_view(),
                        active,
                    ).0);
                }
                Ok(())
            },
        }
    }

    /// Returns the stored profile for `merchant_id`, unchanged, or
    /// `MerchantNotFound`. A pure read.
    pub fn get_merchant(&self, merchant_id: Address) -> (r: Result<Merchant, Error>)
        ensures
            match r {
                Ok(merchant) => self@.merchants.contains_key(merchant_id) && merchant@
                    == self@.merchants[merchant_id],
                Err(e) => !self@.merchants.contains_key(merchant_id) && e
                    == Error::MerchantNotFound,
            },
    {
        match self.merchants.get(&merchant_id.id) {
            None => Err(Error::MerchantNotFound),
            Some(merchant) => Ok(merchant.clone()),
        }
    }

    /// Marks the merchant as verified, on the authority of the authenticated
    /// caller `admin`. The flag is one-way: no operation clears it.
    ///
    /// Fails with `Unauthorized` unless `admin` is the recorded admin (or
    /// when no admin was recorded at all), and with `MerchantNotFound` if no
    /// profile is stored.
    pub fn verify_merchant(&mut self, admin: Address, merchant_id: Address) -> (r: Result<
        (),
        Error,
    >)
        ensures
            ({
                let (m, res) = verify_merchant_spec(old(self)@, admin, merchant_id);
                final(self)@ == m && r == res
            }),
    {
        let authorized = match self.admin {
            None => false,
            Some(stored) => stored == admin,
        };
        if !authorized {
            return Err(Error::Unauthorized);
        }
        let found = match self.merchants.get(&merchant_id.id) {
            None => None,
            Some(merchant) => Some(merchant.clone()),
        };
        match found {
            None => Err(Error::MerchantNotFound),
            Some(mut merchant) => {
                merchant.verified = true;
                let ghost merchant_snap = merchant;
                self.merchants.insert(merchant_id.id, merchant);
                proof {
                    lemma_merchants_deep_insert(old(self).merchants@, merchant_id, merchant_snap);
                    assert(self@ =~= verify_merchant_spec(old(self)@, admin, merchant_id).0);
                }
                Ok(())
            },
        }
    }

    /// The recorded admin identity, if any.
    pub fn get_admin(&self) -> (r: Option<Address>)
        ensures
            r == self@.admin,
    {
        self.admin
    }
}

/// Every merchant operation preserves the consistency of the store.
pub proof fn lemma_merchant_ops_preserve_wf(
    m: RegistryModel,
    admin: Address,
    merchant_id: Address,
    business_name: Seq<char>,
    settlement_currency: Seq<char>,
    business_name_update: Option<Seq<char>>,
    settlement_currency_update: Option<Seq<char>>,
    active_update: Option<bool>,
    now: u64,
)
    requires
        m.wf(),
    ensures
        initialize_spec(m, admin).0.wf(),
        register_merchant_spec(m, merchant_id, business_name, settlement_currency, now).0.wf(),
        update_merchant_spec(
            m,
            merchant_id,
            business_name_update,
            settlement_currency_update,
            active_update,
        ).0.wf(),
        verify_merchant_spec(m, admin, merchant_id).0.wf(),
{
}

/// Verification is one-way: once a merchant is verified, no operation clears
/// the flag, and profiles are never deleted.
pub proof fn lemma_verified_is_permanent(
    m: RegistryModel,
    a: Address,
    admin: Address,
    merchant_id: Address,
    business_name: Seq<char>,
    settlement_currency: Seq<char>,
    business_name_update: Option<Seq<char>>,
    settlement_currency_update: Option<Seq<char>>,
    active_update: Option<bool>,
    now: u64,
)
    requires
        m.merchants.contains_key(a),
        m.merchants[a].verified,
    ensures
        ({
            let mi = initialize_spec(m, admin).0;
            mi.merchants.contains_key(a) && mi.merchants[a].verified
        }),
        ({
            let mr = register_merchant_spec(
                m,
                merchant_id,
                business_name,
                settlement_currency,
                now,
            ).0;
            mr.merchants.contains_key(a) && mr.merchants[a].verified
        }),
        ({
            let mu = update_merchant_spec(
                m,
                merchant_id,
                business_name_update,
                settlement_currency_update,
                active_update,
            ).0;
            mu.merchants.contains_key(a) && mu.merchants[a].verified
        }),
        ({
            let mv = verify_merchant_spec(m, admin, merchant_id).0;
            mv.merchants.contains_key(a) && mv.merchants[a].verified
        }),
{
}

} // verus!
