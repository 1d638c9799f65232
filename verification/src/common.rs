//! Constants and rules that all contracts of the protocol share.

use crate::text::Addr;
use vstd::prelude::*;

verus! {

/// Remaining lifetime, in ledgers, below which a stored entry is renewed.
pub const TTL_THRESHOLD: u32 = 518_400;

/// Lifetime, in ledgers, that a renewed entry gets.
pub const TTL_EXTEND_TO: u32 = 6_312_000;

/// Seconds between the proposal of a new administrator and the moment it can
/// be accepted. All contracts use the same value.
pub const ADMIN_TRANSFER_TIMELOCK: u64 = 48 * 60 * 60;

/// What is stored, or a default.
pub open spec fn or_default<T>(stored: Option<T>, default: T) -> T {
    match stored {
        Some(t) => t,
        None => default,
    }
}

/// Whether `text` is the textual form of an account or a contract.
pub open spec fn is_address_text(text: Seq<u8>) -> bool {
    text.len() == 56 && (text[0] == 71 || text[0] == 67)
}

/// Whether `text` is the textual form of a contract.
pub open spec fn is_contract_text(text: Seq<u8>) -> bool {
    text.len() == 56 && text[0] == 67
}

/// Whether the address is one of an account (`G...`) or a contract (`C...`).
pub fn is_address(address: &Addr) -> (r: bool)
    ensures
        r == is_address_text(address@),
{
    address.len() == 56 && (address.byte(0) == 71 || address.byte(0) == 67)
}

/// Whether the address is one of a contract (`C...`).
pub fn is_contract(address: &Addr) -> (r: bool)
    ensures
        r == is_contract_text(address@),
{
    address.len() == 56 && address.byte(0) == 67
}

/// The moment from which a transfer proposed at `since` can be accepted.
pub open spec fn timelock_end(since: u64) -> int {
    if since + ADMIN_TRANSFER_TIMELOCK > u64::MAX {
        u64::MAX as int
    } else {
        since + ADMIN_TRANSFER_TIMELOCK
    }
}

/// Whether a transfer proposed at `since` can be accepted.
pub fn timelock_expired(since: u64, now: u64) -> (r: bool)
    ensures
        r == (now >= timelock_end(since)),
{
    now >= since.saturating_add(ADMIN_TRANSFER_TIMELOCK)
}

/// Whether two code hashes are the same.
pub fn same_hash(a: &[u8; 32], b: &[u8; 32]) -> (r: bool)
    ensures
        r == (*a == *b),
{
    let mut i: usize = 0;
    while i < 32
        invariant
            i <= 32,
            forall|j: int| 0 <= j < i ==> a@[j] == b@[j],
        decreases 32 - i,
    {
        if a[i] != b[i] {
            return false;
        }
        i += 1;
    }
    assert(*a =~= *b);
    true
}

} // verus!
