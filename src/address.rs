//! The 6-byte hardware address and the library's error type.
use vstd::prelude::*;

verus! {

/// The number of bytes in a hardware address.
pub const MAC_LEN: usize = 6;

/// True when every byte of `b` is zero: the sentinel that placeholder and
/// loopback interfaces carry instead of a real address.
pub open spec fn is_zero_mac(b: Seq<u8>) -> bool {
    forall|i: int| 0 <= i < b.len() ==> b[i] == 0
}

/// Whether every byte of `bytes` is zero.
pub fn all_zero(bytes: &[u8; 6]) -> (r: bool)
    ensures
        r == is_zero_mac(bytes@),
{
    let mut i: usize = 0;
    while i < MAC_LEN
        invariant
            0 <= i <= MAC_LEN,
            bytes@.len() == MAC_LEN,
            forall|j: int| 0 <= j < i ==> bytes@[j] == 0,
        decreases MAC_LEN - i,
    {
        if bytes[i] != 0 {
            return false;
        }
        i = i + 1;
    }
    true
}

/// Whether two addresses hold the same six bytes.
pub fn same_bytes(a: &[u8; 6], b: &[u8; 6]) -> (r: bool)
    ensures
        r == (a@ == b@),
{
    let mut i: usize = 0;
    while i < MAC_LEN
        invariant
            0 <= i <= MAC_LEN,
            a@.len() == MAC_LEN,
            b@.len() == MAC_LEN,
            forall|j: int| 0 <= j < i ==> a@[j] == b@[j],
        decreases MAC_LEN - i,
    {
        if a[i] != b[i] {
            return false;
        }
        i = i + 1;
    }
    proof {
        assert(a@ =~= b@);
    }
    true
}

/// A hardware address: six bytes, kept as they were read.
#[derive(Clone, Copy, Debug, PartialEq, Eq, Hash)]
pub struct MacAddress {
    bytes: [u8; 6],
}

impl View for MacAddress {
    type V = Seq<u8>;

    closed spec fn view(&self) -> Seq<u8> {
        self.bytes@
    }
}

impl MacAddress {
    /// An address holding `bytes`.
    pub fn new(bytes: [u8; 6]) -> (r: MacAddress)
        ensures
            r@ == bytes@,
    {
        MacAddress { bytes }
    }

    /// The six bytes of the address.
    pub fn bytes(&self) -> (r: [u8; 6])
        ensures
            r@ == self@,
    {
        self.bytes
    }

    /// Whether this is the all-zero sentinel rather than a real address.
    pub fn is_zero(&self) -> (r: bool)
        ensures
            r == is_zero_mac(self@),
    {
        all_zero(&self.bytes)
    }
}

/// Why an enumeration failed.
#[derive(Clone, Copy, Debug, PartialEq, Eq, Hash)]
pub enum MacAddressError {
    /// The operating system's interface enumeration reported a failure, or
    /// an interface name could not be decoded as text.
    InternalError,
}

} // verus!
