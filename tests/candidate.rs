use bitcoin::key::{Keypair, Secp256k1};
use bitcoin::{Address, Network, XOnlyPublicKey};
use vanity_search::candidate::check_candidate;
use vanity_search::search::Search;

fn key_one() -> Keypair {
    let secp = Secp256k1::new();
    let mut secret = [0u8; 32];
    secret[31] = 1;
    Keypair::from_seckey_slice(&secp, &secret).unwrap()
}

fn taproot_of(keypair: &Keypair) -> String {
    let secp = Secp256k1::new();
    let (x_only, _) = XOnlyPublicKey::from_keypair(keypair);
    Address::p2tr(&secp, x_only, None, Network::Bitcoin).to_string()
}

const KEY_ONE_P2WPKH: &str = "bc1qw508d6qejxtdg4y5r3zarvary0c5xw7kv8f3t4";

#[test]
fn candidate_addresses_are_derived_from_key() {
    let keypair = key_one();
    let pk = keypair.public_key().serialize();
    let search = Search::new(vec!["zzzz".to_string()], Vec::new(), true, false);
    let checked = check_candidate(&search, &pk).unwrap();
    assert_eq!(checked.main_addr, taproot_of(&keypair));
    assert!(checked.main_addr.starts_with("bc1p"));
    assert_eq!(checked.pay_addr, KEY_ONE_P2WPKH);
    assert_eq!(checked.hit, None);
}

#[test]
fn candidate_hit_needs_payment_match() {
    let keypair = key_one();
    let pk = keypair.public_key().serialize();
    let main = taproot_of(&keypair);
    let search = Search::new(vec![main.clone()], vec!["8f3t4".to_string()], true, false);
    assert_eq!(check_candidate(&search, &pk).unwrap().hit, Some(0));
    let search = Search::new(vec![main], vec!["zzzz".to_string()], true, false);
    assert_eq!(check_candidate(&search, &pk).unwrap().hit, None);
}

#[test]
fn candidate_without_payment_patterns() {
    let keypair = key_one();
    let pk = keypair.public_key().serialize();
    let main = taproot_of(&keypair);
    let suffix = main[main.len() - 3..].to_string();
    let search = Search::new(vec!["nope".to_string(), suffix], Vec::new(), true, false);
    assert_eq!(check_candidate(&search, &pk).unwrap().hit, Some(1));
}

#[test]
fn candidate_with_invalid_key_is_dropped() {
    let search = Search::new(vec!["a".to_string()], Vec::new(), true, false);
    assert!(check_candidate(&search, &[0u8; 33]).is_none());
}
