//! Identification of the WiFi network (SSID) that the host is connected to.
//!
//! The verified part of the crate holds the logic that turns what the
//! operating system reports into an SSID: the 802.11 information-element
//! parser, the nl80211 attribute handling, and the lookup procedure that
//! decides which nl80211 request to make next and what the answer is. The
//! requests themselves (netlink socket I/O) are made by the caller of a
//! [`Lookup`], which reports back what came of each.
use vstd::prelude::*;

pub mod attrs;
pub mod ies;
pub mod linux;
pub mod nl80211;
pub mod text;
pub mod wlan;

pub use linux::{Action, Event, Lookup};

verus! {

/// Starts a lookup of the SSID of the currently active WiFi network,
/// auto-detecting the wireless interface.
///
/// The lookup answers `None` when no wireless interface is associated with a
/// network or the netlink socket cannot be opened. On machines with several
/// WiFi adapters the answer is that of the first associated interface that
/// the kernel lists; use [`get_ssid_for_interface`] to target one adapter.
pub fn get_ssid() -> (lookup: Lookup)
    ensures
        lookup@ == linux::start(None),
{
    linux::get_ssid()
}

/// Starts a lookup of the SSID of the WiFi network that the interface named
/// `interface_name` is associated with.
///
/// The lookup answers `None` when the interface is not found, not wireless,
/// or not associated.
pub fn get_ssid_for_interface(interface_name: &str) -> (lookup: Lookup)
    ensures
        lookup@ == linux::start(Some(interface_name@)),
{
    linux::get_ssid_for_interface(interface_name)
}

} // verus!
