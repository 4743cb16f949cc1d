//! Wake-on-LAN gateway for libvirt virtual machines: the verified core.
//!
//! The library decodes magic packets, extracts the MAC addresses declared by
//! a VM descriptor, and decides which VM owns a MAC address and which
//! lifecycle command it should receive.

pub mod error;
pub mod mac;
pub mod wakeonlan;
pub mod domain_xml;
pub mod locator;
