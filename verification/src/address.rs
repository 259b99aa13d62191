use vstd::prelude::*;

verus! {

/// An account or contract address, held as the bytes of its strkey
/// (for instance `GABC...` for an account or `CABC...` for a contract).
///
/// The stream logic only ever compares addresses and copies them into
/// records, so the strkey bytes are all it needs to know of an address.
#[derive(Debug, PartialEq, Eq)]
pub struct Address {
    pub strkey: Vec<u8>,
}

impl View for Address {
    type V = Seq<u8>;

    open spec fn view(&self) -> Seq<u8> {
        self.strkey@
    }
}

impl Address {
    /// Builds an address from the bytes of its strkey.
    pub fn new(strkey: Vec<u8>) -> (r: Address)
        ensures
            r@ == strkey@,
    {
        Address { strkey }
    }

    /// Whether two addresses are the same address.
    pub fn same_as(&self, other: &Address) -> (b: bool)
        ensures
            b == (self@ == other@),
    {
        let n: usize = self.strkey.len();
        if n != other.strkey.len() {
            return false;
        }
        let mut i: usize = 0;
        while i < n
            invariant
                0 <= i <= n,
                n == self@.len(),
                n == other@.len(),
                forall|j: int| 0 <= j < i ==> self@[j] == other@[j],
            decreases n - i,
        {
            if self.strkey[i] != other.strkey[i] {
                return false;
            }
            i = i + 1;
        }
        assert(self@ =~= other@);
        true
    }

    /// A second address value equal to this one.
    pub fn duplicate(&self) -> (r: Address)
        ensures
            r@ == self@,
    {
        let n: usize = self.strkey.len();
        let mut out: Vec<u8> = Vec::new();
        let mut i: usize = 0;
        while i < n
            invariant
                0 <= i <= n,
                n == self@.len(),
                out@ =~= self@.take(i as int),
            decreases n - i,
        {
            out.push(self.strkey[i]);
            i = i + 1;
            assert(out@ =~= self@.take(i as int));
        }
        assert(self@.take(n as int) =~= self@);
        Address { strkey: out }
    }
}

} // verus!
