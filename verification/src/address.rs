use vstd::prelude::*;

verus! {

broadcast use vstd::array::group_array_axioms;

/// Length of a Stellar strkey (`G...` accounts and `C...` contracts).
pub const STRKEY_LEN: usize = 56;

/// A Stellar account or contract address, held as the ASCII bytes of its
/// strkey. Two addresses are the same exactly when their strkeys are.
#[derive(Clone, Copy, Debug)]
pub struct Address {
    pub strkey: [u8; 56],
}

impl Address {
    /// Builds an address from the bytes of its strkey.
    pub fn from_strkey(strkey: [u8; 56]) -> (a: Address)
        ensures
            a.strkey == strkey,
    {
        Address { strkey }
    }

    /// Compares two addresses byte by byte.
    pub fn same_as(&self, other: &Address) -> (r: bool)
        ensures
            r == (*self == *other),
    {
        let mut i: usize = 0;
        while i < STRKEY_LEN
            invariant
                0 <= i <= STRKEY_LEN,
                forall|k: int| 0 <= k < i ==> self.strkey[k] == other.strkey[k],
            decreases STRKEY_LEN - i,
        {
            if self.strkey[i] != other.strkey[i] {
                return false;
            }
            i = i + 1;
        }
        assert(self.strkey =~= other.strkey);
        true
    }
}

/// Whether `list` holds `a`.
pub fn contains_address(list: &Vec<Address>, a: &Address) -> (r: bool)
    ensures
        r == list@.contains(*a),
{
    let mut i: usize = 0;
    while i < list.len()
        invariant
            0 <= i <= list.len(),
            forall|k: int| 0 <= k < i ==> list@[k] != *a,
        decreases list.len() - i,
    {
        if list[i].same_as(a) {
            assert(list@[i as int] == *a);
            return true;
        }
        i = i + 1;
    }
    false
}

/// A copy of `list`, element by element.
pub fn copy_addresses(list: &Vec<Address>) -> (r: Vec<Address>)
    ensures
        r@ == list@,
{
    let mut out: Vec<Address> = Vec::new();
    let mut i: usize = 0;
    while i < list.len()
        invariant
            0 <= i <= list.len(),
            out@ == list@.subrange(0, i as int),
        decreases list.len() - i,
    {
        out.push(list[i]);
        i = i + 1;
    }
    assert(out@ =~= list@);
    out
}

/// A copy of a list of numbers.
pub fn copy_ids(list: &Vec<u64>) -> (r: Vec<u64>)
    ensures
        r@ == list@,
{
    let mut out: Vec<u64> = Vec::new();
    let mut i: usize = 0;
    while i < list.len()
        invariant
            0 <= i <= list.len(),
            out@ == list@.subrange(0, i as int),
        decreases list.len() - i,
    {
        out.push(list[i]);
        i = i + 1;
    }
    assert(out@ =~= list@);
    out
}

} // verus!
