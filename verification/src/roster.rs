//! Lists of addresses as they stand in announcements.

use crate::text::Addr;
use vstd::prelude::*;

verus! {

/// Addresses one after the other. Two rosters are equal where they name the
/// same addresses in the same order.
#[derive(Debug, PartialEq, Eq)]
pub enum Roster {
    Empty,
    Then { first: Addr, rest: Box<Roster> },
}

/// The roster that names the addresses of a list.
pub open spec fn roster_of(addresses: Seq<Addr>) -> Roster
    decreases addresses.len(),
{
    if addresses.len() == 0 {
        Roster::Empty
    } else {
        Roster::Then {
            first: addresses[0],
            rest: Box::new(roster_of(addresses.drop_first())),
        }
    }
}

impl Roster {
    /// The addresses that a roster names.
    pub open spec fn addresses(self) -> Seq<Addr>
        decreases self,
    {
        match self {
            Roster::Empty => Seq::empty(),
            Roster::Then { first, rest } => seq![first] + rest.addresses(),
        }
    }

    /// The roster that names the addresses of a list.
    pub fn of(addresses: &Vec<Addr>) -> (r: Roster)
        ensures
            r == roster_of(addresses@),
    {
        let mut r = Roster::Empty;
        let mut i: usize = addresses.len();
        while i > 0
            invariant
                i <= addresses@.len(),
                r == roster_of(addresses@.skip(i as int)),
            decreases i,
        {
            i -= 1;
            assert(addresses@.skip(i as int).drop_first() =~= addresses@.skip(i + 1));
            r = Roster::Then { first: addresses[i], rest: Box::new(r) };
        }
        assert(addresses@.skip(0) =~= addresses@);
        r
    }

    /// The same roster once more.
    pub fn copied(&self) -> (r: Roster)
        ensures
            r == *self,
        decreases self,
    {
        match self {
            Roster::Empty => Roster::Empty,
            Roster::Then { first, rest } => Roster::Then {
                first: *first,
                rest: Box::new(rest.copied()),
            },
        }
    }

    /// The addresses that the roster names, as a list.
    pub fn to_list(&self) -> (r: Vec<Addr>)
        ensures
            r@ == self.addresses(),
    {
        let mut out: Vec<Addr> = Vec::new();
        let mut here: &Roster = self;
        loop
            invariant
                out@ + here.addresses() == self.addresses(),
            decreases *here,
        {
            match here {
                Roster::Empty => {
                    assert(out@ + Seq::<Addr>::empty() =~= out@);
                    return out;
                },
                Roster::Then { first, rest } => {
                    assert(out@.push(*first) + rest.addresses() =~= out@ + here.addresses());
                    out.push(*first);
                    here = rest;
                },
            }
        }
    }
}

/// A roster names what it was made of.
pub proof fn law_roster_names_its_list(addresses: Seq<Addr>)
    ensures
        roster_of(addresses).addresses() == addresses,
    decreases addresses.len(),
{
    if addresses.len() > 0 {
        law_roster_names_its_list(addresses.drop_first());
        assert(seq![addresses[0]] + addresses.drop_first() =~= addresses);
    } else {
        assert(addresses =~= Seq::empty());
    }
}

} // verus!
