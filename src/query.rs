//! Queries over a fresh snapshot of the host's interfaces. Each call takes a
//! snapshot of its own; two calls may see different interfaces.
use vstd::prelude::*;

use crate::address::{is_zero_mac, same_bytes, MacAddressError};
use crate::interface::{
    entry_answers, first_mac, first_name, name_view, nonzero_mac_list, nonzero_macs,
    opt_mac_view, EntryView, mac_views,
};
use crate::os::{next_entry, open_interfaces, pending_entries, read_interfaces};

verus! {

/// The address of the first entry still to come in `it` that is named
/// exactly `name` and carries an address, zero or not; without a name, the
/// first address still to come that is not all zero. The walk stops at the
/// first entry that answers.
pub fn first_mac_in(it: &mut nix::ifaddrs::InterfaceAddressIterator, name: Option<&str>) -> (r:
    Option<[u8; 6]>)
    ensures
        opt_mac_view(r) == first_mac(pending_entries(*old(it)), name_view(name)),
{
    let owned: Option<String> = match name {
        Some(n) => Some(n.to_owned()),
        None => None,
    };
    loop
        invariant
            owned matches Some(o) ==> name matches Some(n) && o@ == n@,
            owned is None <==> name is None,
            first_mac(pending_entries(*old(it)), name_view(name)) == first_mac(
                pending_entries(*it),
                name_view(name),
            ),
        decreases pending_entries(*it).len(),
    {
        match next_entry(it) {
            None => {
                return None;
            },
            Some(e) => {
                if entry_answers(&e, &owned) {
                    return e.mac;
                }
            },
        }
    }
}

/// The address of the host's first interface named exactly `name`, or,
/// without a name, the host's first address that is not all zero. A search
/// that finds nothing is `Ok(None)`.
pub fn get_mac(name: Option<&str>) -> (r: Result<Option<[u8; 6]>, MacAddressError>)
    ensures
        r matches Err(e) ==> e == MacAddressError::InternalError,
        r matches Ok(m) ==> exists|s: Seq<EntryView>|
            opt_mac_view(m) == first_mac(s, name_view(name)),
        name is None ==> (r matches Ok(Some(b)) ==> !is_zero_mac(b@)),
{
    let mut it = open_interfaces()?;
    let ghost all = pending_entries(it);
    let r = first_mac_in(&mut it, name);
    proof {
        if name is None && r is Some {
            crate::interface::lemma_default_is_first_listed(all);
            crate::interface::lemma_listed_macs_nonzero(all);
        }
    }
    Ok(r)
}

/// Every address of the host's interfaces that is not all zero, in the
/// order the operating system reports them, duplicates kept.
pub fn get_mac_list() -> (r: Result<Vec<[u8; 6]>, MacAddressError>)
    ensures
        r matches Err(e) ==> e == MacAddressError::InternalError,
        r matches Ok(v) ==> exists|s: Seq<EntryView>| mac_views(v@) == nonzero_macs(s),
        r matches Ok(v) ==> forall|i: int| 0 <= i < v@.len() ==> !is_zero_mac(#[trigger] v@[i]@),
{
    let interfaces = read_interfaces()?;
    let v = nonzero_mac_list(&interfaces);
    proof {
        let s = crate::interface::entries(interfaces@);
        crate::interface::lemma_listed_macs_nonzero(s);
        assert forall|i: int| 0 <= i < v@.len() implies !is_zero_mac(#[trigger] v@[i]@) by {
            assert(mac_views(v@)[i] == v@[i]@);
        }
    }
    Ok(v)
}

/// The name of the first entry still to come in `it` whose address is
/// exactly `mac`, the all-zero address included. The walk stops at the first
/// match.
pub fn first_name_in(it: &mut nix::ifaddrs::InterfaceAddressIterator, mac: &[u8; 6]) -> (r:
    Option<String>)
    ensures
        match r {
            Some(n) => first_name(pending_entries(*old(it)), mac@) == Some(n@),
            None => first_name(pending_entries(*old(it)), mac@) is None,
        },
{
    loop
        invariant
            first_name(pending_entries(*old(it)), mac@) == first_name(pending_entries(*it), mac@),
        decreases pending_entries(*it).len(),
    {
        match next_entry(it) {
            None => {
                return None;
            },
            Some(e) => {
                match e.mac {
                    Some(b) => {
                        if same_bytes(&b, mac) {
                            return Some(e.name);
                        }
                    },
                    None => {},
                }
            },
        }
    }
}

/// The name of the host's first interface whose address is exactly `mac`,
/// the all-zero address included. A search that finds nothing is `Ok(None)`.
pub fn get_ifname(mac: &[u8; 6]) -> (r: Result<Option<String>, MacAddressError>)
    ensures
        r matches Err(e) ==> e == MacAddressError::InternalError,
        r matches Ok(n) ==> exists|s: Seq<EntryView>|
            first_name(s, mac@) == match n {
                Some(t) => Some(t@),
                None => None::<Seq<char>>,
            },
{
    let mut it = open_interfaces()?;
    Ok(first_name_in(&mut it, mac))
}

} // verus!
