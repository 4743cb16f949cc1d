//! MAC addresses declared by a VM descriptor.
//!
//! A descriptor is modelled by its network interfaces, in document order,
//! each with the MAC address text it declares, if any.

use vstd::prelude::*;
use crate::error::{ExtractionError, WolGatewayError};
use crate::mac::{mac_text, mac_to_string, parse_mac, parse_mac_text};

verus! {

/// One network interface of a descriptor.
#[derive(Debug, Clone)]
pub struct InterfaceEntry {
    /// The `address` attribute of the interface's `mac` element, if present.
    pub mac_address: Option<String>,
}

/// The network interfaces of a descriptor, in document order.
#[derive(Debug, Clone)]
pub struct DomainDescriptor {
    pub interfaces: Vec<InterfaceEntry>,
}

impl View for InterfaceEntry {
    type V = Option<Seq<char>>;

    open spec fn view(&self) -> Option<Seq<char>> {
        match self.mac_address {
            Some(a) => Some(a@),
            None => None,
        }
    }
}

impl View for DomainDescriptor {
    type V = Seq<Option<Seq<char>>>;

    open spec fn view(&self) -> Seq<Option<Seq<char>>> {
        self.interfaces@.map_values(|e: InterfaceEntry| e@)
    }
}

/// The canonical MAC texts of the interfaces, in order, or the error of the
/// first interface that declares no address or an address that does not parse.
pub open spec fn extract_macs(ifs: Seq<Option<Seq<char>>>) -> Result<Seq<Seq<char>>, ExtractionError>
    decreases ifs.len(),
{
    if ifs.len() == 0 {
        Ok(Seq::empty())
    } else {
        match extract_macs(ifs.drop_last()) {
            Err(e) => Err(e),
            Ok(macs) => match ifs.last() {
                None => Err(ExtractionError::InterfaceWithoutMac { interface: (ifs.len() - 1) as usize }),
                Some(a) => match parse_mac_text(a) {
                    Err(e) => Err(ExtractionError::InvalidMac { interface: (ifs.len() - 1) as usize, error: e }),
                    Ok(m) => Ok(macs.push(mac_text(m))),
                },
            },
        }
    }
}

/// Once a prefix of the interfaces fails, the whole list fails with the same error.
proof fn lemma_extract_error_persists(ifs: Seq<Option<Seq<char>>>, k: int)
    requires
        0 <= k <= ifs.len(),
        extract_macs(ifs.take(k)) is Err,
    ensures
        extract_macs(ifs) == extract_macs(ifs.take(k)),
    decreases ifs.len() - k,
{
    if k < ifs.len() {
        assert(ifs.take(k + 1).drop_last() =~= ifs.take(k));
        lemma_extract_error_persists(ifs, k + 1);
    } else {
        assert(ifs.take(k) =~= ifs);
    }
}

/// Extracts the canonical MAC address of every interface of a descriptor.
///
/// An interface without an address, or with an address that does not parse,
/// fails the whole extraction; no partial result is returned.
pub fn get_mac_addresses(desc: &DomainDescriptor) -> (r: Result<Vec<String>, WolGatewayError>)
    ensures
        match extract_macs(desc@) {
            Ok(ms) => r is Ok && r->Ok_0@.map_values(|s: String| s@) == ms,
            Err(e) => r == Err::<Vec<String>, WolGatewayError>(WolGatewayError::MacExtractionError(e)),
        },
{
    let n = desc.interfaces.len();
    let mut out: Vec<String> = Vec::new();
    let mut i: usize = 0;
    assert(desc@.take(0) =~= Seq::<Option<Seq<char>>>::empty());
    assert(out@.map_values(|s: String| s@) =~= Seq::<Seq<char>>::empty());
    while i < n
        invariant
            n == desc@.len(),
            i <= n,
            extract_macs(desc@.take(i as int)) == Ok::<Seq<Seq<char>>, ExtractionError>(
                out@.map_values(|s: String| s@),
            ),
        decreases n - i,
    {
        let ghost prefix = desc@.take(i as int);
        let ghost next = desc@.take(i + 1);
        assert(next.drop_last() =~= prefix);
        assert(next.last() == desc.interfaces[i as int]@);
        match &desc.interfaces[i].mac_address {
            None => {
                proof { lemma_extract_error_persists(desc@, i + 1); }
                return Err(WolGatewayError::MacExtractionError(
                    ExtractionError::InterfaceWithoutMac { interface: i },
                ));
            },
            Some(a) => match parse_mac(a.as_str()) {
                Err(e) => {
                    proof { lemma_extract_error_persists(desc@, i + 1); }
                    return Err(WolGatewayError::MacExtractionError(
                        ExtractionError::InvalidMac { interface: i, error: e },
                    ));
                },
                Ok(m) => {
                    let ghost before = out@.map_values(|s: String| s@);
                    out.push(mac_to_string(&m));
                    assert(out@.map_values(|s: String| s@) =~= before.push(mac_text(m@)));
                },
            },
        }
        i = i + 1;
    }
    assert(desc@.take(n as int) =~= desc@);
    Ok(out)
}

} // verus!
