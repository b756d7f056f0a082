//! A single-pass sequence of the hardware addresses of a snapshot of adapters.
use vstd::prelude::*;

use crate::address::{MacAddress, MacAddressError};
use crate::buffer::{chain_macs, RecordCursor};
use crate::interface::{link_macs, EntryView};
use crate::os::{next_entry, open_interfaces, pending_entries};

verus! {

/// Where the addresses come from: the system's interface list, or a buffer
/// of linked adapter records.
enum Source {
    System(nix::ifaddrs::InterfaceAddressIterator),
    Records(RecordCursor),
}

/// The hardware addresses of a snapshot of adapters, in the order in which
/// the snapshot lists them. The iterator owns the snapshot it walks.
pub struct MacAddressIterator {
    source: Source,
}

impl View for MacAddressIterator {
    type V = Seq<Seq<u8>>;

    /// The addresses still to come.
    closed spec fn view(&self) -> Seq<Seq<u8>> {
        match self.source {
            Source::System(it) => link_macs(pending_entries(it)),
            Source::Records(c) => c@,
        }
    }
}

proof fn lemma_link_macs_step(p: Seq<EntryView>)
    requires
        p.len() > 0,
    ensures
        p[0].1 is None ==> link_macs(p) == link_macs(p.drop_first()),
        p[0].1 matches Some(m) ==> link_macs(p).len() > 0 && link_macs(p)[0] == m
            && link_macs(p).drop_first() =~= link_macs(p.drop_first()),
{
}

impl MacAddressIterator {
    /// Takes a fresh snapshot of the host's interfaces.
    pub fn new() -> (r: Result<MacAddressIterator, MacAddressError>)
        ensures
            r matches Err(e) ==> e == MacAddressError::InternalError,
    {
        let inner = open_interfaces()?;
        Ok(MacAddressIterator { source: Source::System(inner) })
    }

    /// Walks the chain of adapter records held in `bytes`, starting at the
    /// record at offset 0.
    pub fn from_records(bytes: Vec<u8>) -> (r: MacAddressIterator)
        ensures
            r@ == chain_macs(bytes@, 0),
    {
        MacAddressIterator { source: Source::Records(RecordCursor::new(bytes)) }
    }

    /// The next address, or `None` once every address has been handed out;
    /// after that every call returns `None` again.
    pub fn next(&mut self) -> (r: Option<MacAddress>)
        ensures
            old(self)@.len() == 0 ==> r is None && final(self)@ == old(self)@,
            old(self)@.len() > 0 ==> (r matches Some(m) && m@ == old(self)@[0] && final(self)@
                == old(self)@.drop_first()),
    {
        match &mut self.source {
            Source::Records(c) => c.next(),
            Source::System(it) => next_link_mac(it),
        }
    }
}

/// The next link-layer address of the entries that `it` has still to hand
/// out, skipping entries without one.
fn next_link_mac(it: &mut nix::ifaddrs::InterfaceAddressIterator) -> (r: Option<MacAddress>)
    ensures
        link_macs(pending_entries(*old(it))).len() == 0 ==> r is None && link_macs(
            pending_entries(*final(it)),
        ) == link_macs(pending_entries(*old(it))),
        link_macs(pending_entries(*old(it))).len() > 0 ==> (r matches Some(m) && m@ == link_macs(
            pending_entries(*old(it)),
        )[0] && link_macs(pending_entries(*final(it))) == link_macs(
            pending_entries(*old(it)),
        ).drop_first()),
{
    loop
        invariant
            link_macs(pending_entries(*it)) == link_macs(pending_entries(*old(it))),
        decreases pending_entries(*it).len(),
    {
        let ghost before = pending_entries(*it);
        match next_entry(it) {
            None => {
                return None;
            },
            Some(e) => {
                proof {
                    lemma_link_macs_step(before);
                }
                match e.mac {
                    Some(b) => {
                        return Some(MacAddress::new(b));
                    },
                    None => {},
                }
            },
        }
    }
}

} // verus!
