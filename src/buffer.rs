//! A snapshot of adapter records held in one owned byte buffer, each record
//! linking to the next by an offset into the same buffer.
//!
//! Record layout, all integers little-endian, offsets from the record start:
//!
//! | field            | offset | width                          |
//! |------------------|--------|--------------------------------|
//! | physical address | 0      | 6 bytes                        |
//! | (reserved)       | 6      | 2 bytes                        |
//! | next record      | 8      | 4 bytes; 0 marks the last one  |
//! | name             | 12     | 16-bit units up to a zero unit |
//!
//! This layout is the library's own, a compact stand-in for an operating
//! system's adapter list: it is not the record layout of any operating
//! system's adapter query, whose links are pointers, so a raw buffer filled by
//! such a query must not be handed to it.
//!
//! The first record starts at offset 0. A chain only moves forward: a link
//! that does not point past its own record start, or that points past the
//! buffer's end, ends the chain, and so does a record that does not fit in
//! the buffer.
use vstd::prelude::*;

use crate::address::{is_zero_mac, MacAddress, MacAddressError};
use crate::interface::{entries, mac_views, EntryView, Interface};

verus! {

/// Offset of the physical address within a record.
pub const ADDR_AT: usize = 0;

/// Offset of the link to the next record.
pub const NEXT_AT: usize = 8;

/// Offset of the name within a record; also the size of the fixed header.
pub const NAME_AT: usize = 12;

/// The text that a sequence of UTF-16 code units decodes to, or `None` where
/// the units are not valid UTF-16.
pub uninterp spec fn utf16_decoded(units: Seq<u16>) -> Option<Seq<char>>;

/// Relies on `String::from_utf16`: the text of valid UTF-16 units, an error
/// for an unpaired surrogate; the result depends on the units alone.
#[verifier::external_body]
fn decode_utf16(units: &[u16]) -> (r: Option<String>)
    ensures
        r is Some ==> utf16_decoded(units@) == Some(r->0@),
        r is None ==> utf16_decoded(units@) is None,
        units@.len() == 0 ==> r is Some && r->0@.len() == 0,
{
    String::from_utf16(units).ok()
}

/// Whether a record's fixed header starting at `o` fits in the buffer.
pub open spec fn has_record(b: Seq<u8>, o: int) -> bool {
    0 <= o && o + NAME_AT <= b.len()
}

/// The little-endian 32-bit integer at `p`.
pub open spec fn u32_at(b: Seq<u8>, p: int) -> int {
    b[p] + b[p + 1] * 256 + b[p + 2] * 65536 + b[p + 3] * 16777216
}

/// The little-endian 16-bit unit at `p`.
pub open spec fn u16_at(b: Seq<u8>, p: int) -> int {
    b[p] + b[p + 1] * 256
}

/// The link of the record at `o`.
pub open spec fn link_of(b: Seq<u8>, o: int) -> int {
    u32_at(b, o + NEXT_AT)
}

/// The physical address of the record at `o`.
pub open spec fn mac_of(b: Seq<u8>, o: int) -> Seq<u8> {
    b.subrange(o + ADDR_AT, o + ADDR_AT + 6)
}

/// Whether the chain goes on from the record at `o` to the one its link names.
pub open spec fn links_on(b: Seq<u8>, o: int) -> bool {
    has_record(b, o) && o < link_of(b, o) <= b.len()
}

/// The addresses of the chain starting at `o`, in chain order.
pub open spec fn chain_macs(b: Seq<u8>, o: int) -> Seq<Seq<u8>>
    decreases b.len() - o,
{
    if !has_record(b, o) {
        Seq::empty()
    } else if links_on(b, o) {
        seq![mac_of(b, o)] + chain_macs(b, link_of(b, o))
    } else {
        seq![mac_of(b, o)]
    }
}

/// The 16-bit units from `p` up to, not including, the first zero unit; `None`
/// where the buffer ends first.
pub open spec fn units_until_zero(b: Seq<u8>, p: int) -> Option<Seq<u16>>
    decreases b.len() - p,
{
    if p < 0 || p + 2 > b.len() {
        None
    } else if u16_at(b, p) == 0 {
        Some(Seq::empty())
    } else {
        match units_until_zero(b, p + 2) {
            Some(r) => Some(seq![u16_at(b, p) as u16] + r),
            None => None,
        }
    }
}

/// The entry of the record at `o`: its decoded name and its address; `None`
/// where the name is unterminated or not valid UTF-16.
pub open spec fn record_entry(b: Seq<u8>, o: int) -> Option<EntryView> {
    match units_until_zero(b, o + NAME_AT) {
        Some(u) => match utf16_decoded(u) {
            Some(name) => Some((name, Some(mac_of(b, o)))),
            None => None,
        },
        None => None,
    }
}

/// The entries of the chain starting at `o`; `None` where a name of the
/// chain cannot be decoded.
pub open spec fn chain_entries(b: Seq<u8>, o: int) -> Option<Seq<EntryView>>
    decreases b.len() - o,
{
    if !has_record(b, o) {
        Some(Seq::empty())
    } else {
        match record_entry(b, o) {
            None => None,
            Some(e) => {
                let rest = if links_on(b, o) {
                    chain_entries(b, link_of(b, o))
                } else {
                    Some(Seq::empty())
                };
                match rest {
                    Some(r) => Some(seq![e] + r),
                    None => None,
                }
            },
        }
    }
}

/// The little-endian 32-bit integer at `p`.
fn read_u32(b: &Vec<u8>, p: usize) -> (r: u32)
    requires
        p + 4 <= b@.len() <= usize::MAX,
    ensures
        r as int == u32_at(b@, p as int),
{
    let v: u64 = b[p] as u64 + (b[p + 1] as u64) * 256 + (b[p + 2] as u64) * 65536 + (b[p + 3]
        as u64) * 16777216;
    v as u32
}

/// The physical address of the record at `o`.
fn read_mac(b: &Vec<u8>, o: usize) -> (r: [u8; 6])
    requires
        has_record(b@, o as int),
        b@.len() <= usize::MAX,
    ensures
        r@ == mac_of(b@, o as int),
{
    let r: [u8; 6] = [b[o], b[o + 1], b[o + 2], b[o + 3], b[o + 4], b[o + 5]];
    proof {
        assert(r@ =~= mac_of(b@, o as int));
    }
    r
}

/// The 16-bit units of a zero-terminated name starting at `start`, without
/// the terminator; `None` where the buffer ends before a zero unit.
pub fn name_units(b: &Vec<u8>, start: usize) -> (r: Option<Vec<u16>>)
    ensures
        match r {
            Some(v) => units_until_zero(b@, start as int) == Some(v@),
            None => units_until_zero(b@, start as int) is None,
        },
{
    let mut acc: Vec<u16> = Vec::new();
    let mut p: usize = start;
    while p <= b.len() && b.len() - p >= 2
        invariant
            start <= p,
            p <= start + 2 * acc@.len(),
            units_until_zero(b@, start as int) == match units_until_zero(b@, p as int) {
                Some(rest) => Some(acc@ + rest),
                None => None,
            },
        decreases b.len() - p,
    {
        let unit: u16 = (b[p] as u16) + (b[p + 1] as u16) * 256;
        if unit == 0 {
            proof {
                assert(acc@ + Seq::<u16>::empty() =~= acc@);
            }
            return Some(acc);
        }
        let ghost before = acc@;
        acc.push(unit);
        proof {
            let tail = units_until_zero(b@, p as int + 2);
            match tail {
                Some(t) => {
                    assert(before + (seq![unit] + t) =~= acc@ + t);
                },
                None => {},
            }
        }
        p = p + 2;
    }
    None
}

/// The entries of every record of the chain that starts at offset 0 of
/// `bytes`, in chain order; `InternalError` where a name is unterminated or
/// not valid UTF-16.
pub fn buffer_interfaces(bytes: &Vec<u8>) -> (r: Result<Vec<Interface>, MacAddressError>)
    ensures
        match chain_entries(bytes@, 0) {
            Some(s) => r matches Ok(v) && entries(v@) == s,
            None => r == Err::<Vec<Interface>, MacAddressError>(MacAddressError::InternalError),
        },
{
    let ghost b = bytes@;
    let mut out: Vec<Interface> = Vec::new();
    let mut cursor: usize = 0;
    proof {
        assert(entries(out@) =~= Seq::<EntryView>::empty());
        match chain_entries(b, 0) {
            Some(s) => {
                assert(Seq::<EntryView>::empty() + s =~= s);
            },
            None => {},
        }
    }
    loop
        invariant
            b == bytes@,
            chain_entries(b, 0) == match chain_entries(b, cursor as int) {
                Some(rest) => Some(entries(out@) + rest),
                None => None,
            },
        decreases b.len() - cursor,
    {
        if cursor > bytes.len() || bytes.len() - cursor < NAME_AT {
            proof {
                assert(entries(out@) + Seq::<EntryView>::empty() =~= entries(out@));
            }
            return Ok(out);
        }
        let units = match name_units(bytes, cursor + NAME_AT) {
            Some(u) => u,
            None => {
                return Err(MacAddressError::InternalError);
            },
        };
        let name = match decode_utf16(units.as_slice()) {
            Some(n) => n,
            None => {
                return Err(MacAddressError::InternalError);
            },
        };
        let mac = read_mac(bytes, cursor);
        let ghost before = entries(out@);
        let entry = Interface { name, mac: Some(mac) };
        let ghost e = entry@;
        out.push(entry);
        proof {
            assert(entries(out@) =~= before + seq![e]);
        }
        let next = read_u32(bytes, cursor + NEXT_AT) as usize;
        if next <= cursor || next > bytes.len() {
            proof {
                assert(entries(out@) + Seq::<EntryView>::empty() =~= before + (seq![e]
                    + Seq::<EntryView>::empty()));
            }
            return Ok(out);
        }
        proof {
            match chain_entries(b, next as int) {
                Some(r) => {
                    assert(entries(out@) + r =~= before + (seq![e] + r));
                },
                None => {},
            }
        }
        cursor = next;
    }
}


/// A forward-only walk over the chain of records in a buffer that it owns.
/// The cursor is the offset of the next record to read, or `None` once the
/// chain has ended; it never outlives the buffer.
pub struct RecordCursor {
    bytes: Vec<u8>,
    at: Option<usize>,
}

impl View for RecordCursor {
    type V = Seq<Seq<u8>>;

    /// The addresses still to come.
    closed spec fn view(&self) -> Seq<Seq<u8>> {
        match self.at {
            Some(o) => chain_macs(self.bytes@, o as int),
            None => Seq::empty(),
        }
    }
}

impl RecordCursor {
    /// A walk over the chain that starts at offset 0 of `bytes`.
    pub fn new(bytes: Vec<u8>) -> (r: RecordCursor)
        ensures
            r@ == chain_macs(bytes@, 0),
    {
        RecordCursor { bytes, at: Some(0) }
    }

    /// The address of the next record, moving past it; `None` once the
    /// chain has ended, and on every call after that.
    pub fn next(&mut self) -> (r: Option<MacAddress>)
        ensures
            old(self)@.len() == 0 ==> r is None && final(self)@ == old(self)@,
            old(self)@.len() > 0 ==> (r matches Some(m) && m@ == old(self)@[0] && final(self)@
                == old(self)@.drop_first()),
    {
        match self.at {
            None => None,
            Some(o) => {
                if o > self.bytes.len() || self.bytes.len() - o < NAME_AT {
                    self.at = None;
                    return None;
                }
                let mac = read_mac(&self.bytes, o);
                let link = read_u32(&self.bytes, o + NEXT_AT) as usize;
                if o < link && link <= self.bytes.len() {
                    self.at = Some(link);
                } else {
                    self.at = None;
                }
                proof {
                    assert(seq![mac_of(self.bytes@, o as int)].drop_first() =~= Seq::<
                        Seq<u8>,
                    >::empty());
                }
                Some(MacAddress::new(mac))
            },
        }
    }
}


/// The addresses of `s` that are not all zero, in order, duplicates kept.
pub open spec fn without_zero(s: Seq<Seq<u8>>) -> Seq<Seq<u8>>
    decreases s.len(),
{
    if s.len() == 0 {
        Seq::empty()
    } else {
        let rest = without_zero(s.drop_first());
        if is_zero_mac(s[0]) {
            rest
        } else {
            seq![s[0]] + rest
        }
    }
}

/// The addresses of the chain in `bytes` that are not all zero, in chain
/// order, duplicates kept. Names are not read.
pub fn record_mac_list(bytes: Vec<u8>) -> (r: Vec<[u8; 6]>)
    ensures
        mac_views(r@) == without_zero(chain_macs(bytes@, 0)),
{
    let mut c = RecordCursor::new(bytes);
    let ghost all = c@;
    let mut out: Vec<[u8; 6]> = Vec::new();
    proof {
        assert(mac_views(out@) + without_zero(all) =~= without_zero(all));
    }
    loop
        invariant
            all == chain_macs(bytes@, 0),
            mac_views(out@) + without_zero(c@) == without_zero(all),
        decreases c@.len(),
    {
        let ghost before = c@;
        let ghost out_before = mac_views(out@);
        match c.next() {
            None => {
                proof {
                    assert(mac_views(out@) + without_zero(c@) =~= mac_views(out@));
                }
                return out;
            },
            Some(m) => {
                if !m.is_zero() {
                    out.push(m.bytes());
                    proof {
                        assert(mac_views(out@) =~= out_before + seq![m@]);
                        assert(mac_views(out@) + without_zero(c@) =~= out_before + without_zero(
                            before,
                        ));
                    }
                }
            },
        }
    }
}

/// The first address of the chain in `bytes` that is not all zero; `None`
/// where there is none. Names are not read.
pub fn record_first_mac(bytes: Vec<u8>) -> (r: Option<[u8; 6]>)
    ensures
        without_zero(chain_macs(bytes@, 0)).len() == 0 ==> r is None,
        without_zero(chain_macs(bytes@, 0)).len() > 0 ==> (r matches Some(b) && b@ == without_zero(
            chain_macs(bytes@, 0),
        )[0]),
{
    let mut c = RecordCursor::new(bytes);
    loop
        invariant
            without_zero(c@) == without_zero(chain_macs(bytes@, 0)),
        decreases c@.len(),
    {
        match c.next() {
            None => {
                return None;
            },
            Some(m) => {
                if !m.is_zero() {
                    return Some(m.bytes());
                }
            },
        }
    }
}

} // verus!
