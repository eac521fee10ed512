use fluxapay::access_control::{
    role_admin, role_merchant, role_oracle, role_settlement_operator, AccessControl,
    AccessControlError,
};
use fluxapay::types::Address;

fn setup() -> (Address, AccessControl) {
    let mut access = AccessControl::new();
    let admin = Address { id: 1 };
    access.initialize(admin);
    (admin, access)
}

#[test]
fn test_initialize_contract() {
    let mut access = AccessControl::new();
    let admin = Address { id: 1 };

    access.initialize(admin);

    assert_eq!(access.get_admin(), Some(admin));
    assert!(access.has_role(&role_admin(), admin));
}

#[test]
fn test_role_names() {
    assert_eq!(role_admin(), String::from("ADMIN"));
    assert_eq!(role_oracle(), String::from("ORACLE"));
    assert_eq!(role_merchant(), String::from("MERCHANT"));
    assert_eq!(role_settlement_operator(), String::from("SETTLEMENT_OPERATOR"));
}

#[test]
fn test_grant_role() {
    let (admin, mut access) = setup();
    let account = Address { id: 2 };
    let role = role_oracle();

    access.grant_role(admin, role.clone(), account).unwrap();
    assert!(access.has_role(&role, account));
}

#[test]
fn test_grant_role_unauthorized() {
    let (_admin, mut access) = setup();
    let unauthorized = Address { id: 3 };
    let account = Address { id: 2 };

    let result = access.grant_role(unauthorized, role_oracle(), account);
    assert_eq!(result, Err(AccessControlError::Unauthorized));
    assert!(!access.has_role(&role_oracle(), account));
}

#[test]
fn test_role_already_granted() {
    let (admin, mut access) = setup();
    let account = Address { id: 2 };
    let role = role_merchant();

    access.grant_role(admin, role.clone(), account).unwrap();
    assert!(access.has_role(&role, account));

    let result = access.grant_role(admin, role.clone(), account);
    assert_eq!(result, Err(AccessControlError::RoleAlreadyGranted));
    assert!(access.has_role(&role, account));
}

#[test]
fn test_revoke_role() {
    let (admin, mut access) = setup();
    let account = Address { id: 2 };
    let role = role_merchant();

    access.grant_role(admin, role.clone(), account).unwrap();
    assert!(access.has_role(&role, account));

    access.revoke_role(admin, role.clone(), account).unwrap();
    assert!(!access.has_role(&role, account));
}

#[test]
fn test_revoke_role_not_granted() {
    let (admin, mut access) = setup();
    let account = Address { id: 2 };

    let result = access.revoke_role(admin, role_oracle(), account);
    assert_eq!(result, Err(AccessControlError::RoleNotGranted));
}

#[test]
fn test_has_role() {
    let (admin, mut access) = setup();
    let account = Address { id: 2 };
    let role = role_oracle();

    assert!(!access.has_role(&role, account));

    access.grant_role(admin, role.clone(), account).unwrap();
    assert!(access.has_role(&role, account));
}

#[test]
fn test_renounce_role() {
    let (admin, mut access) = setup();
    let account = Address { id: 2 };
    let role = role_merchant();

    access.grant_role(admin, role.clone(), account).unwrap();
    assert!(access.has_role(&role, account));

    access.renounce_role(account, role.clone()).unwrap();
    assert!(!access.has_role(&role, account));
}

#[test]
fn test_renounce_role_not_granted() {
    let (_admin, mut access) = setup();
    let account = Address { id: 2 };

    let result = access.renounce_role(account, role_oracle());
    assert_eq!(result, Err(AccessControlError::RoleNotGranted));
}

#[test]
fn test_renounce_admin_always_fails() {
    let (admin, mut access) = setup();

    // Even the admin itself, who holds the role, cannot renounce it.
    let result = access.renounce_role(admin, role_admin());
    assert_eq!(result, Err(AccessControlError::CannotRenounceAdmin));
    assert!(access.has_role(&role_admin(), admin));

    // Nor can anyone else, whether or not they hold anything.
    let stranger = Address { id: 9 };
    let result = access.renounce_role(stranger, role_admin());
    assert_eq!(result, Err(AccessControlError::CannotRenounceAdmin));
}

#[test]
fn test_transfer_admin() {
    let (current_admin, mut access) = setup();
    let new_admin = Address { id: 5 };

    access.transfer_admin(current_admin, new_admin).unwrap();

    assert!(access.has_role(&role_admin(), new_admin));
    assert!(!access.has_role(&role_admin(), current_admin));
    assert_eq!(access.get_admin(), Some(new_admin));
}

#[test]
fn test_transfer_admin_unauthorized() {
    let (admin, mut access) = setup();
    let impostor = Address { id: 7 };
    let target = Address { id: 8 };

    let result = access.transfer_admin(impostor, target);
    assert_eq!(result, Err(AccessControlError::Unauthorized));
    assert_eq!(access.get_admin(), Some(admin));
    assert!(!access.has_role(&role_admin(), target));
}

#[test]
fn test_transfer_admin_to_self_keeps_role() {
    let (admin, mut access) = setup();

    access.transfer_admin(admin, admin).unwrap();

    assert!(access.has_role(&role_admin(), admin));
    assert_eq!(access.get_admin(), Some(admin));
}

#[test]
fn test_multiple_roles() {
    let (admin, mut access) = setup();
    let account = Address { id: 2 };

    access.grant_role(admin, role_merchant(), account).unwrap();
    access.grant_role(admin, role_oracle(), account).unwrap();
    access.grant_role(admin, role_settlement_operator(), account).unwrap();

    assert!(access.has_role(&role_merchant(), account));
    assert!(access.has_role(&role_oracle(), account));
    assert!(access.has_role(&role_settlement_operator(), account));
}

#[test]
fn test_require_role() {
    let (admin, mut access) = setup();
    let account = Address { id: 2 };

    assert_eq!(
        access.require_role(&role_oracle(), account),
        Err(AccessControlError::Unauthorized)
    );
    access.grant_role(admin, role_oracle(), account).unwrap();
    assert_eq!(access.require_role(&role_oracle(), account), Ok(()));
}

#[test]
fn test_custom_role_names_are_allowed() {
    let (admin, mut access) = setup();
    let account = Address { id: 2 };

    // Roles are plain names, not a closed enum.
    access.grant_role(admin, String::from("AUDITOR"), account).unwrap();
    assert!(access.has_role(&String::from("AUDITOR"), account));
    assert!(!access.has_role(&String::from("ORACLE"), account));
}
