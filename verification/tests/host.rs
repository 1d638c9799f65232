//! Addresses and symbols of the ledger host, read into texts.

use parashield::claims_processor::ClaimsProcessor;
use parashield::common::is_contract;
use parashield::governance_dao::GovernanceDao;
use parashield::oracle_verifier::OracleVerifier;
use parashield::text::{Addr, Sym};
use soroban_sdk::testutils::Address as _;
use soroban_sdk::{Address, Env, String, Symbol};

#[test]
fn test_address_validation_function_exists() {
    let env = Env::default();
    let valid = Address::generate(&env);
    let addr_str = valid.to_string();
    assert_eq!(addr_str.len(), 56, "Address should be 56 characters");
    let addr = Addr::of_host(&valid);
    assert_eq!(addr.len(), 56);
    assert!(addr.byte(0) == b'G' || addr.byte(0) == b'C');
    assert_eq!(ClaimsProcessor::validate_stellar_address(&addr), Ok(()));
    assert_eq!(OracleVerifier::validate_stellar_address(&addr), Ok(()));
    assert_eq!(GovernanceDao::validate_stellar_address(&addr), Ok(()));
}

#[test]
fn an_address_is_read_letter_by_letter() {
    let env = Env::default();
    let text = "CAAAAAAAAAAAAAAAAAAAAAAAAAAAAAAAAAAAAAAAAAAAAAAAAAAAD2KM";
    let host = Address::from_string(&String::from_str(&env, text));
    assert_eq!(Addr::of_host(&host), Addr::new(text.as_bytes()).unwrap());
    assert!(is_contract(&Addr::of_host(&host)));
    let text = "GAAAAAAAAAAAAAAAAAAAAAAAAAAAAAAAAAAAAAAAAAAAAAAAAAAAAWHF";
    let host = Address::from_string(&String::from_str(&env, text));
    assert_eq!(Addr::of_host(&host), Addr::new(text.as_bytes()).unwrap());
    assert!(!is_contract(&Addr::of_host(&host)));
}

#[test]
fn different_addresses_have_different_texts() {
    let env = Env::default();
    let (a, b) = (Address::generate(&env), Address::generate(&env));
    assert_ne!(Addr::of_host(&a), Addr::of_host(&b));
    assert_eq!(Addr::of_host(&a), Addr::of_host(&a.clone()));
}

#[test]
fn a_symbol_is_read_letter_by_letter() {
    let env = Env::default();
    for text in ["", "x", "kis2606", "crop_kism", "crop_kisumu", "abcdefghijklmnopqrstuvwxyz_012345"] {
        if text.len() <= 32 {
            let read = Sym::of_host(&Symbol::new(&env, text));
            assert_eq!(read, Sym::new(text.as_bytes()).unwrap());
            assert_eq!(read.len(), text.len());
        } else {
            assert_eq!(Sym::new(text.as_bytes()), None);
        }
    }
}

#[test]
fn a_symbol_carries_its_own_host() {
    let (env, other) = (Env::default(), Env::default());
    let mine = Symbol::new(&env, "longer_than_nine");
    let theirs = Symbol::new(&other, "another_long_one");
    assert_eq!(Sym::of_host(&mine), Sym::new(b"longer_than_nine").unwrap());
    assert_eq!(Sym::of_host(&theirs), Sym::new(b"another_long_one").unwrap());
}
