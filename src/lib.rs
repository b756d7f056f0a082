//! Enumeration of the hardware (MAC) addresses of the host's network
//! interfaces, and queries over that enumeration: the first address, all
//! non-zero addresses, the address of a named interface, and the name of the
//! interface that carries a given address.
use vstd::prelude::*;

pub mod acquire;
pub mod address;
pub mod buffer;
pub mod interface;
pub mod iter;
pub mod os;
pub mod query;

pub use address::{MacAddress, MacAddressError};
pub use interface::Interface;
pub use iter::MacAddressIterator;
pub use query::{get_ifname, get_mac, get_mac_list};

verus! {

} // verus!
