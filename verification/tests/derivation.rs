use anchor_lang::prelude::Pubkey;
use custody_core::addr::{Address, addr_eq, derive_address, ticket_seeds, vault_seeds};
use custody_core::auth::Authorization;
use custody_core::errors::CoreError;

fn addr(b: u8) -> Address {
    Address { bytes: vec![b; 32] }
}

#[test]
fn derivation_matches_the_host_search() {
    let program = addr(1);
    let authority = addr(2);
    let seeds = vault_seeds(&authority);
    let (derived, bump) = derive_address(&program, &seeds).unwrap();

    let pk_program = Pubkey::new_from_array([1; 32]);
    let pk_authority = Pubkey::new_from_array([2; 32]);
    let (expected, expected_bump) =
        Pubkey::find_program_address(&[b"vault", pk_authority.as_ref()], &pk_program);
    assert_eq!(derived.bytes, expected.to_bytes().to_vec());
    assert_eq!(bump, expected_bump);
}

#[test]
fn derivation_is_deterministic_and_distinguishes_seeds() {
    let program = addr(1);
    let s1 = ticket_seeds(&addr(2), &addr(3));
    let s2 = ticket_seeds(&addr(2), &addr(3));
    let s3 = ticket_seeds(&addr(3), &addr(2));

    let (a1, b1) = derive_address(&program, &s1).unwrap();
    let (a2, b2) = derive_address(&program, &s2).unwrap();
    let (a3, _) = derive_address(&program, &s3).unwrap();

    assert_eq!(a1.bytes.len(), 32);
    assert!(addr_eq(&a1, &a2));
    assert_eq!(b1, b2);
    assert!(!addr_eq(&a1, &a3));
    assert_ne!(a1.bytes, program.bytes);
}

#[test]
fn derivation_rejects_too_many_seeds() {
    let program = addr(1);
    let seeds: Vec<Vec<u8>> = (0..17).map(|i| vec![i as u8; 4]).collect();
    assert!(derive_address(&program, &seeds).is_none());
}

#[test]
fn delegation_covers_exactly_the_derived_address() {
    let program = addr(1);
    let seeds = vault_seeds(&addr(2));
    let (derived, bump) = derive_address(&program, &seeds).unwrap();

    let auth = Authorization::delegate(&program, vault_seeds(&addr(2))).unwrap();
    assert!(auth.verify_authority(&derived).is_ok());
    assert_eq!(
        auth.verify_authority(&addr(9)).unwrap_err(),
        CoreError::NotAuthority
    );
    assert_eq!(auth.verify_authority(&program).unwrap_err(), CoreError::NotAuthority);

    let (proof_seeds, proof_bump) = auth.delegation_proof().unwrap();
    assert_eq!(proof_seeds.len(), 2);
    assert_eq!(proof_seeds[0], b"vault".to_vec());
    assert_eq!(proof_seeds[1], vec![2u8; 32]);
    assert_eq!(proof_bump, bump);

    let signer_seeds = auth.signer_seed_list().unwrap();
    assert_eq!(signer_seeds.len(), 3);
    assert_eq!(signer_seeds[0], b"vault".to_vec());
    assert_eq!(signer_seeds[1], vec![2u8; 32]);
    assert_eq!(signer_seeds[2], vec![bump]);

    let slices: Vec<&[u8]> = signer_seeds.iter().map(|s| s.as_slice()).collect();
    let reconstructed =
        Pubkey::create_program_address(&slices, &Pubkey::new_from_array([1; 32])).unwrap();
    assert_eq!(reconstructed.to_bytes().to_vec(), derived.bytes);
}

#[test]
fn direct_authorization_stands_for_its_signer_only() {
    let signer = addr(4);
    let auth = Authorization::direct(Address { bytes: signer.bytes.clone() });
    assert!(auth.verify_authority(&signer).is_ok());
    assert_eq!(auth.verify_authority(&addr(5)).unwrap_err(), CoreError::NotAuthority);
    assert!(auth.delegation_proof().is_none());
}
