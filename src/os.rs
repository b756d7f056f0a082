//! The operating system's interface list, read through `getifaddrs`.
use vstd::prelude::*;

use crate::address::MacAddressError;
use crate::interface::{EntryView, Interface};

verus! {

#[verifier::external_type_specification]
#[verifier::external_body]
pub struct ExInterfaceAddressIterator(nix::ifaddrs::InterfaceAddressIterator);

#[verifier::external_type_specification]
#[verifier::external_body]
pub struct ExErrno(nix::errno::Errno);

/// The entries that an interface list has still to hand out, in the order in
/// which the operating system linked them. The list is finite and acyclic by
/// the operating system's contract.
pub uninterp spec fn pending_entries(it: nix::ifaddrs::InterfaceAddressIterator) -> Seq<EntryView>;

/// Relies on `nix::ifaddrs::getifaddrs`: a fresh snapshot of the host's
/// interface list, or the `Errno` that the system call reported. What the
/// snapshot holds depends on the host, so nothing is stated of it.
#[verifier::external_body]
fn system_interfaces() -> (r: Result<nix::ifaddrs::InterfaceAddressIterator, nix::errno::Errno>) {
    nix::ifaddrs::getifaddrs()
}

/// Relies on `Iterator::next` of `nix::ifaddrs::InterfaceAddressIterator`:
/// it hands out the head of the remaining linked list and moves to its
/// successor, and once the list is spent it keeps handing out nothing. The
/// entry is read as its name and, through `SockaddrStorage::as_link_addr`
/// and `LinkAddr::addr`, its link-layer address when it has one.
#[verifier::external_body]
pub(crate) fn next_entry(it: &mut nix::ifaddrs::InterfaceAddressIterator) -> (r: Option<Interface>)
    ensures
        pending_entries(*old(it)).len() == 0 ==> r is None && pending_entries(*final(it))
            == pending_entries(*old(it)),
        pending_entries(*old(it)).len() > 0 ==> (r matches Some(e) && e@ == pending_entries(
            *old(it),
        )[0] && pending_entries(*final(it)) == pending_entries(*old(it)).drop_first()),
{
    it.next().map(|ifa| Interface {
        mac: ifa.address.as_ref().and_then(|a| a.as_link_addr()).and_then(|l| l.addr()),
        name: ifa.interface_name,
    })
}

/// Opens a snapshot of the host's interface list; a failure of the system
/// call becomes `InternalError`.
pub fn open_interfaces() -> (r: Result<nix::ifaddrs::InterfaceAddressIterator, MacAddressError>)
    ensures
        r matches Err(e) ==> e == MacAddressError::InternalError,
{
    match system_interfaces() {
        Ok(it) => Ok(it),
        Err(_) => Err(MacAddressError::InternalError),
    }
}

/// Moves every remaining entry of `it`, in order, into a vector.
pub fn drain_entries(it: &mut nix::ifaddrs::InterfaceAddressIterator) -> (r: Vec<Interface>)
    ensures
        r@.map_values(|i: Interface| i@) == pending_entries(*old(it)),
        pending_entries(*final(it)).len() == 0,
{
    let ghost all = pending_entries(*it);
    let mut out: Vec<Interface> = Vec::new();
    loop
        invariant
            all == pending_entries(*old(it)),
            out@.map_values(|i: Interface| i@) + pending_entries(*it) == all,
        decreases pending_entries(*it).len(),
    {
        let ghost before = pending_entries(*it);
        match next_entry(it) {
            Some(e) => {
                let ghost out_before = out@;
                out.push(e);
                proof {
                    assert(out@.map_values(|i: Interface| i@) =~= out_before.map_values(
                        |i: Interface| i@,
                    ) + seq![e@]);
                    assert(out@.map_values(|i: Interface| i@) + pending_entries(*it)
                        =~= out_before.map_values(|i: Interface| i@) + before);
                }
            },
            None => {
                proof {
                    assert(out@.map_values(|i: Interface| i@) + pending_entries(*it)
                        =~= out@.map_values(|i: Interface| i@));
                }
                return out;
            },
        }
    }
}

/// A snapshot of the host's interface entries, in the order the operating
/// system reports them.
pub fn read_interfaces() -> (r: Result<Vec<Interface>, MacAddressError>)
    ensures
        r matches Err(e) ==> e == MacAddressError::InternalError,
{
    let mut it = open_interfaces()?;
    Ok(drain_entries(&mut it))
}

} // verus!
