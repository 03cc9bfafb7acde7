//! Testing a freshly drawn key against the search: both of its addresses are
//! derived here from the compressed public key, then matched.
use vstd::prelude::*;

use bitcoin::key::Secp256k1;
use bitcoin::secp256k1::PublicKey as CurvePoint;
use bitcoin::{Address, Network, PublicKey};

use crate::matcher::first_hit;
use crate::search::Search;

verus! {

/// Text of the main-network key-path taproot address of the compressed
/// public key `pk`, or `None` where `pk` is no public key.
pub uninterp spec fn taproot_text_of(pk: Seq<u8>) -> Option<Seq<char>>;

/// Text of the main-network pay-to-witness-public-key-hash address of the
/// compressed public key `pk`, or `None` where `pk` is no public key.
pub uninterp spec fn p2wpkh_text_of(pk: Seq<u8>) -> Option<Seq<char>>;

/// Relies on Address::p2tr, with no script tree and a verification context
/// made for the call, on the x-only part of the key that
/// secp256k1::PublicKey::from_slice reads from `pk`.
#[verifier::external_body]
fn taproot_address(pk: &[u8; 33]) -> (r: Option<String>)
    ensures
        r is Some <==> taproot_text_of(pk@) is Some,
        r matches Some(s) ==> taproot_text_of(pk@) == Some(s@),
{
    let secp = Secp256k1::verification_only();
    let key = CurvePoint::from_slice(pk).ok()?;
    let (x_only, _parity) = key.x_only_public_key();
    Some(Address::p2tr(&secp, x_only, None, Network::Bitcoin).to_string())
}

/// Relies on Address::p2wpkh, on the key that secp256k1::PublicKey::from_slice
/// reads from `pk`, marked compressed by PublicKey::new.
#[verifier::external_body]
fn payment_address(pk: &[u8; 33]) -> (r: Option<String>)
    ensures
        r is Some <==> p2wpkh_text_of(pk@) is Some,
        r matches Some(s) ==> p2wpkh_text_of(pk@) == Some(s@),
{
    let key = PublicKey::new(CurvePoint::from_slice(pk).ok()?);
    Address::p2wpkh(&key, Network::Bitcoin).ok().map(|a| a.to_string())
}

/// The two addresses of a candidate and the primary pattern they satisfy.
pub struct CandidateCheck {
    pub main_addr: String,
    pub pay_addr: String,
    pub hit: Option<usize>,
}

/// Derives the main and payment addresses of the compressed public key `pk`
/// and tests them against the search. Where either address cannot be
/// derived the candidate is dropped (`None`), which counts as no match.
pub fn check_candidate(search: &Search, pk: &[u8; 33]) -> (r: Option<CandidateCheck>)
    ensures
        r is None <==> (taproot_text_of(pk@) is None || p2wpkh_text_of(pk@) is None),
        r matches Some(c) ==> {
            &&& taproot_text_of(pk@) == Some(c.main_addr@)
            &&& p2wpkh_text_of(pk@) == Some(c.pay_addr@)
            &&& (c.hit is None <==> first_hit(
                c.main_addr@,
                c.pay_addr@,
                search.primary.deep_view(),
                search.payment.deep_view(),
                search.suffix,
            ) is None)
            &&& (c.hit matches Some(i) ==> i < search.primary.len() && first_hit(
                c.main_addr@,
                c.pay_addr@,
                search.primary.deep_view(),
                search.payment.deep_view(),
                search.suffix,
            ) == Some(i as int))
        },
{
    let main_addr = match taproot_address(pk) {
        Some(a) => a,
        None => return None,
    };
    let pay_addr = match payment_address(pk) {
        Some(a) => a,
        None => return None,
    };
    let hit = search.check(main_addr.as_str(), pay_addr.as_str());
    Some(CandidateCheck { main_addr, pay_addr, hit })
}

} // verus!
