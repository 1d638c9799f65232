//! The two textual identifiers of the ledger: account or contract addresses,
//! and symbols. Both are short byte strings held by value, so that records
//! which mention them can be copied freely.

use vstd::prelude::*;

verus! {

/// Whether `bytes` holds a text of length `len` followed by zero bytes.
spec fn padded(bytes: Seq<u8>, len: int) -> bool {
    &&& len <= bytes.len()
    &&& forall|i: int| len <= i < bytes.len() ==> #[trigger] bytes[i] == 0
}

/// The textual form of a ledger address: `G...` for an account, `C...` for a
/// contract, at most 56 bytes long.
#[derive(Clone, Copy, Debug, PartialEq, Eq)]
pub struct Addr {
    len: u8,
    bytes: [u8; 56],
}

impl View for Addr {
    type V = Seq<u8>;

    closed spec fn view(&self) -> Seq<u8> {
        self.bytes@.subrange(0, self.len as int)
    }
}

/// The address with the given text.
pub closed spec fn addr_of(text: Seq<u8>) -> Addr {
    choose|x: Addr| x.inv() && x@ == text
}

impl Addr {
    #[verifier::type_invariant]
    spec fn inv(self) -> bool {
        padded(self.bytes@, self.len as int)
    }

    /// The address written as `text`, or `None` where the text is too long.
    pub fn new(text: &[u8]) -> (r: Option<Addr>)
        ensures
            r is Some <==> text@.len() <= 56,
            r matches Some(a) ==> a@ == text@ && a == addr_of(text@),
    {
        if text.len() > 56 {
            return None;
        }
        let mut bytes: [u8; 56] = [0u8; 56];
        let mut i: usize = 0;
        while i < text.len()
            invariant
                i <= text@.len() <= 56,
                forall|j: int| 0 <= j < i ==> bytes@[j] == text@[j],
                padded(bytes@, i as int),
            decreases text.len() - i,
        {
            bytes[i] = text[i];
            i += 1;
        }
        let a = Addr { len: text.len() as u8, bytes };
        assert(a@ =~= text@);
        proof {
            let b = addr_of(text@);
            assert(a.inv() && a@ == text@);
            assert forall|i: int| 0 <= i < 56 implies #[trigger] a.bytes@[i] == b.bytes@[i] by {
                if i < text@.len() {
                    assert(a@[i] == b@[i]);
                }
            }
            assert(a.len == a@.len() && b.len == b@.len());
            assert(a.bytes =~= b.bytes);
        }
        Some(a)
    }

    /// The length of the text.
    pub fn len(&self) -> (n: usize)
        ensures
            n == self@.len(),
    {
        proof {
            use_type_invariant(self);
        }
        self.len as usize
    }

    /// The byte at position `i` of the text.
    pub fn byte(&self, i: usize) -> (b: u8)
        requires
            i < self@.len(),
        ensures
            b == self@[i as int],
    {
        proof {
            use_type_invariant(self);
        }
        self.bytes[i]
    }

    /// Whether two addresses are the same. An address is its text.
    pub fn same(&self, other: &Addr) -> (r: bool)
        ensures
            r == (*self == *other),
            r == (self@ == other@),
    {
        proof {
            use_type_invariant(self);
            use_type_invariant(other);
        }
        if self.len != other.len {
            assert(self@.len() != other@.len());
            return false;
        }
        let mut i: usize = 0;
        while i < self.len as usize
            invariant
                i <= self.len == other.len <= 56,
                forall|j: int| 0 <= j < i ==> self.bytes@[j] == other.bytes@[j],
            decreases self.len - i,
        {
            if self.bytes[i] != other.bytes[i] {
                assert(self@[i as int] != other@[i as int]);
                return false;
            }
            i += 1;
        }
        assert(self.bytes =~= other.bytes);
        true
    }
}

/// A short name, at most 32 bytes long.
#[derive(Clone, Copy, Debug, PartialEq, Eq)]
pub struct Sym {
    len: u8,
    bytes: [u8; 32],
}

impl View for Sym {
    type V = Seq<u8>;

    closed spec fn view(&self) -> Seq<u8> {
        self.bytes@.subrange(0, self.len as int)
    }
}

/// The symbol with the given text.
pub closed spec fn sym_of(text: Seq<u8>) -> Sym {
    choose|x: Sym| x.inv() && x@ == text
}

impl Sym {
    #[verifier::type_invariant]
    spec fn inv(self) -> bool {
        padded(self.bytes@, self.len as int)
    }

    /// The symbol spelled `text`, or `None` where the text is too long.
    pub fn new(text: &[u8]) -> (r: Option<Sym>)
        ensures
            r is Some <==> text@.len() <= 32,
            r matches Some(s) ==> s@ == text@ && s == sym_of(text@),
    {
        if text.len() > 32 {
            return None;
        }
        let mut bytes: [u8; 32] = [0u8; 32];
        let mut i: usize = 0;
        while i < text.len()
            invariant
                i <= text@.len() <= 32,
                forall|j: int| 0 <= j < i ==> bytes@[j] == text@[j],
                padded(bytes@, i as int),
            decreases text.len() - i,
        {
            bytes[i] = text[i];
            i += 1;
        }
        let s = Sym { len: text.len() as u8, bytes };
        assert(s@ =~= text@);
        proof {
            let b = sym_of(text@);
            assert(s.inv() && s@ == text@);
            assert forall|i: int| 0 <= i < 32 implies #[trigger] s.bytes@[i] == b.bytes@[i] by {
                if i < text@.len() {
                    assert(s@[i] == b@[i]);
                }
            }
            assert(s.len == s@.len() && b.len == b@.len());
            assert(s.bytes =~= b.bytes);
        }
        Some(s)
    }

    /// The length of the text.
    pub fn len(&self) -> (n: usize)
        ensures
            n == self@.len(),
            n <= 32,
    {
        proof {
            use_type_invariant(self);
        }
        self.len as usize
    }

    /// The byte at position `i` of the text.
    pub fn byte(&self, i: usize) -> (b: u8)
        requires
            i < self@.len(),
        ensures
            b == self@[i as int],
    {
        proof {
            use_type_invariant(self);
        }
        self.bytes[i]
    }

    /// Whether two symbols are the same. A symbol is its text.
    pub fn same(&self, other: &Sym) -> (r: bool)
        ensures
            r == (*self == *other),
            r == (self@ == other@),
    {
        proof {
            use_type_invariant(self);
            use_type_invariant(other);
        }
        if self.len != other.len {
            assert(self@.len() != other@.len());
            return false;
        }
        let mut i: usize = 0;
        while i < self.len as usize
            invariant
                i <= self.len == other.len <= 32,
                forall|j: int| 0 <= j < i ==> self.bytes@[j] == other.bytes@[j],
            decreases self.len - i,
        {
            if self.bytes[i] != other.bytes[i] {
                assert(self@[i as int] != other@[i as int]);
                return false;
            }
            i += 1;
        }
        assert(self.bytes =~= other.bytes);
        true
    }
}

} // verus!
