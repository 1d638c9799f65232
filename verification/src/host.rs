//! Reading identifiers out of the ledger host's own handles.
//!
//! The host hands contracts opaque handles for addresses and symbols. What the
//! contracts decide on is the text behind them.

use crate::text::{Addr, Sym};
use vstd::prelude::*;

verus! {

#[verifier::external_type_specification]
#[verifier::external_body]
pub struct ExAddress(soroban_sdk::Address);

#[verifier::external_type_specification]
#[verifier::external_body]
pub struct ExSymbol(soroban_sdk::Symbol);

/// The strkey text that the host holds for an address handle.
pub uninterp spec fn host_address_text(address: soroban_sdk::Address) -> Seq<u8>;

/// The characters that the host holds for a symbol handle.
pub uninterp spec fn host_symbol_text(symbol: soroban_sdk::Symbol) -> Seq<u8>;

/// `soroban_sdk::Address::to_string`, with the bytes of the resulting string
/// copied out by `soroban_sdk::String::copy_into_slice`. The text is a function
/// of the handle, and is not said here.
#[verifier::external_body]
fn address_text(address: &soroban_sdk::Address) -> (r: Vec<u8>)
    ensures
        r@ == host_address_text(*address),
{
    let text = address.to_string();
    let mut bytes = vec![0u8; text.len() as usize];
    text.copy_into_slice(&mut bytes);
    bytes
}

/// `to_string` of a `soroban_sdk::Symbol`, as bytes. A symbol of up to nine
/// characters holds them itself; a longer one is looked up in the host that the
/// handle carries, which gives at most 32. Which characters they are is a
/// function of the handle, and is not said here.
#[verifier::external_body]
fn symbol_text(symbol: &soroban_sdk::Symbol) -> (r: Vec<u8>)
    ensures
        r@ == host_symbol_text(*symbol),
        r@.len() <= 32,
{
    symbol.to_string().into_bytes()
}

/// A text that is at most `cap` long; one that is longer counts as empty.
pub open spec fn short_text(text: Seq<u8>, cap: nat) -> Seq<u8> {
    if text.len() <= cap {
        text
    } else {
        Seq::empty()
    }
}

impl Addr {
    /// The address behind a host handle. A text that is too long for an address
    /// gives the empty one, which is nobody's.
    pub fn of_host(address: &soroban_sdk::Address) -> (r: Addr)
        ensures
            r@ == short_text(host_address_text(*address), 56),
    {
        let text = address_text(address);
        match Addr::new(text.as_slice()) {
            Some(a) => a,
            None => Addr::empty(),
        }
    }

    /// The address without text.
    fn empty() -> (r: Addr)
        ensures
            r@ == Seq::<u8>::empty(),
    {
        let none: [u8; 0] = [];
        let a = Addr::new(&none).unwrap();
        assert(a@ =~= Seq::<u8>::empty());
        a
    }
}

impl Sym {
    /// The symbol behind a host handle.
    pub fn of_host(symbol: &soroban_sdk::Symbol) -> (r: Sym)
        ensures
            r@ == host_symbol_text(*symbol),
    {
        let text = symbol_text(symbol);
        Sym::new(text.as_slice()).unwrap()
    }
}

} // verus!
