use custody_core::addr::Address;
use custody_core::auth::Authorization;
use custody_core::errors::CoreError;
use custody_core::records::Record;
use custody_core::store::Store;

fn addr(b: u8) -> Address {
    Address { bytes: vec![b; 32] }
}

fn vault_locked(store: &Store, vault: &Address) -> bool {
    for e in &store.entries {
        if e.addr.bytes == vault.bytes {
            if let Record::Vault(v) = &e.rec {
                return v.locked;
            }
            panic!("record at vault address is not a vault");
        }
    }
    panic!("no record at vault address");
}

#[test]
fn vault_scenario_deposit_lock_withdraw() {
    let program = addr(1);
    let authority = addr(2);
    let user = addr(3);
    let mut store = Store::new(program, 0);

    let (vault, rest) = store.initialize_vault(&authority, 0).unwrap();
    assert_eq!(rest, 0);
    assert_eq!(store.balance_of(&vault), Some(0));

    let (user_rest, ev) = store.deposit(&vault, &user, 100, 100).unwrap();
    assert_eq!(user_rest, 0);
    assert_eq!(store.balance_of(&vault), Some(100));
    assert_eq!(ev.vault.bytes, vault.bytes);
    assert_eq!(ev.user.bytes, user.bytes);
    assert_eq!(ev.amount, 100);

    let auth = Authorization::direct(addr(2));
    let lock_ev = store.toggle_lock(&vault, &auth).unwrap();
    assert!(lock_ev.locked);
    assert!(vault_locked(&store, &vault));

    let r = store.withdraw(&vault, &auth, 0, 50);
    assert_eq!(r.unwrap_err(), CoreError::VaultLocked);
    assert_eq!(store.balance_of(&vault), Some(100));

    let unlock_ev = store.toggle_lock(&vault, &auth).unwrap();
    assert!(!unlock_ev.locked);

    let (authority_after, wev) = store.withdraw(&vault, &auth, 7, 50).unwrap();
    assert_eq!(authority_after, 57);
    assert_eq!(store.balance_of(&vault), Some(50));
    assert_eq!(wev.amount, 50);
    assert_eq!(wev.vault.bytes, vault.bytes);
    assert_eq!(wev.vault_authority.bytes, authority.bytes);
}

#[test]
fn deposit_on_locked_vault_fails_and_changes_nothing() {
    let program = addr(1);
    let authority = addr(2);
    let user = addr(3);
    let mut store = Store::new(program, 0);
    let (vault, _) = store.initialize_vault(&authority, 0).unwrap();
    store.deposit(&vault, &user, 10, 10).unwrap();
    let auth = Authorization::direct(addr(2));
    store.toggle_lock(&vault, &auth).unwrap();

    let r = store.deposit(&vault, &user, 100, 5);
    assert_eq!(r.unwrap_err(), CoreError::VaultLocked);
    assert_eq!(store.balance_of(&vault), Some(10));
}

#[test]
fn deposit_with_insufficient_user_balance_fails() {
    let program = addr(1);
    let authority = addr(2);
    let user = addr(3);
    let mut store = Store::new(program, 0);
    let (vault, _) = store.initialize_vault(&authority, 0).unwrap();

    let r = store.deposit(&vault, &user, 4, 5);
    assert_eq!(r.unwrap_err(), CoreError::InsufficientBalance);
    assert_eq!(store.balance_of(&vault), Some(0));
}

#[test]
fn withdraw_more_than_vault_holds_fails_and_changes_nothing() {
    let program = addr(1);
    let authority = addr(2);
    let user = addr(3);
    let mut store = Store::new(program, 0);
    let (vault, _) = store.initialize_vault(&authority, 0).unwrap();
    store.deposit(&vault, &user, 100, 100).unwrap();

    let auth = Authorization::direct(addr(2));
    let r = store.withdraw(&vault, &auth, 0, 101);
    assert_eq!(r.unwrap_err(), CoreError::InsufficientBalance);
    assert_eq!(store.balance_of(&vault), Some(100));
}

#[test]
fn toggle_lock_by_non_authority_fails_and_keeps_flag() {
    let program = addr(1);
    let authority = addr(2);
    let mut store = Store::new(program, 0);
    let (vault, _) = store.initialize_vault(&authority, 0).unwrap();

    let stranger = Authorization::direct(addr(9));
    let r = store.toggle_lock(&vault, &stranger);
    assert_eq!(r.unwrap_err(), CoreError::NotAuthority);
    assert!(!vault_locked(&store, &vault));

    let auth = Authorization::direct(addr(2));
    assert!(store.toggle_lock(&vault, &auth).unwrap().locked);
    let r2 = store.toggle_lock(&vault, &stranger);
    assert_eq!(r2.unwrap_err(), CoreError::NotAuthority);
    assert!(vault_locked(&store, &vault));
}

#[test]
fn withdraw_by_non_authority_fails() {
    let program = addr(1);
    let authority = addr(2);
    let user = addr(3);
    let mut store = Store::new(program, 0);
    let (vault, _) = store.initialize_vault(&authority, 0).unwrap();
    store.deposit(&vault, &user, 100, 100).unwrap();

    let stranger = Authorization::direct(addr(9));
    let r = store.withdraw(&vault, &stranger, 0, 10);
    assert_eq!(r.unwrap_err(), CoreError::NotAuthority);
    assert_eq!(store.balance_of(&vault), Some(100));
}

#[test]
fn second_vault_for_same_authority_collides() {
    let program = addr(1);
    let authority = addr(2);
    let mut store = Store::new(program, 7);
    store.initialize_vault(&authority, 20).unwrap();
    let r = store.initialize_vault(&authority, 20);
    assert_eq!(r.unwrap_err(), CoreError::AddressInUse);
}

#[test]
fn vault_creation_needs_the_custodial_minimum() {
    let program = addr(1);
    let authority = addr(2);
    let mut store = Store::new(program, 7);
    let r = store.initialize_vault(&authority, 6);
    assert_eq!(r.unwrap_err(), CoreError::InsufficientBalance);
    let (vault, rest) = store.initialize_vault(&authority, 8).unwrap();
    assert_eq!(rest, 1);
    assert_eq!(store.balance_of(&vault), Some(7));
}

#[test]
fn delegated_authority_can_run_its_own_vault() {
    let program = addr(1);
    let mut store = Store::new(Address { bytes: program.bytes.clone() }, 0);

    let seeds = custody_core::addr::vault_seeds(&addr(8));
    let auth = Authorization::delegate(&program, seeds).unwrap();
    let (owner, _) = custody_core::addr::derive_address(&program, &custody_core::addr::vault_seeds(&addr(8))).unwrap();

    let (vault, _) = store.initialize_vault(&owner, 0).unwrap();
    store.deposit(&vault, &addr(3), 30, 30).unwrap();

    let stranger = Authorization::direct(addr(9));
    assert_eq!(store.withdraw(&vault, &stranger, 0, 10).unwrap_err(), CoreError::NotAuthority);

    let (got, _) = store.withdraw(&vault, &auth, 0, 10).unwrap();
    assert_eq!(got, 10);
    assert_eq!(store.balance_of(&vault), Some(20));
}
