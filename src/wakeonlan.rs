//! Decoding of Wake-on-LAN magic packets.
//!
//! A magic packet is six `0xFF` bytes followed by sixteen copies of the
//! target MAC address; any bytes after that (a password) are tolerated.

use vstd::prelude::*;
use crate::error::{ParseError, WolGatewayError};
use crate::mac::{mac_text, mac_to_string, MacAddress};

verus! {

/// Minimum size of a valid WOL packet in bytes (6 sync bytes + 16 * 6 MAC bytes).
pub const WOL_PACKET_MIN_SIZE: usize = 102;

/// Length of a MAC address in bytes.
pub const MAC_ADDR_LEN: usize = 6;

/// The first six bytes are all `0xFF`.
pub open spec fn sync_stream_ok(p: Seq<u8>) -> bool {
    forall|i: int| 0 <= i < 6 ==> p[i] == 0xFF
}

/// Repetition `k` (bytes `6 + 6k .. 12 + 6k`) equals repetition 0.
pub open spec fn repetition_matches(p: Seq<u8>, k: int) -> bool {
    p.subrange(6 + 6 * k, 12 + 6 * k) == p.subrange(6, 12)
}

/// The first repetition at index `k` or later (below 16) that differs from repetition 0.
pub open spec fn first_mismatch_from(p: Seq<u8>, k: int) -> Option<int>
    decreases 16 - k,
{
    if k >= 16 {
        None
    } else if !repetition_matches(p, k) {
        Some(k)
    } else {
        first_mismatch_from(p, k + 1)
    }
}

/// What decoding a buffer yields: the target MAC, or the first check that fails.
pub open spec fn decode_packet(p: Seq<u8>) -> Result<Seq<u8>, ParseError> {
    if p.len() < WOL_PACKET_MIN_SIZE {
        Err(ParseError::PacketTooShort { actual: p.len() as usize, required: WOL_PACKET_MIN_SIZE })
    } else if !sync_stream_ok(p) {
        Err(ParseError::BadSyncStream)
    } else {
        match first_mismatch_from(p, 0) {
            Some(k) => Err(ParseError::RepetitionMismatch { index: k as usize }),
            None => Ok(p.subrange(6, 12)),
        }
    }
}

/// Six `0xFF` bytes followed by sixteen copies of `m`.
pub open spec fn magic_packet(m: Seq<u8>) -> Seq<u8> {
    Seq::new(6, |i: int| 0xFFu8) + Seq::new(96, |i: int| m[i % 6])
}

/// When repetitions `k` to 15 all match, the scan from `k` finds no mismatch.
proof fn lemma_no_mismatch_from(p: Seq<u8>, k: int)
    requires
        0 <= k <= 16,
        forall|j: int| k <= j < 16 ==> repetition_matches(p, j),
    ensures
        first_mismatch_from(p, k) is None,
    decreases 16 - k,
{
    if k < 16 {
        lemma_no_mismatch_from(p, k + 1);
    }
}

/// When repetitions `j` to `k - 1` match and `k` does not, the scan from `j` stops at `k`.
proof fn lemma_mismatch_at(p: Seq<u8>, j: int, k: int)
    requires
        0 <= j <= k < 16,
        forall|i: int| j <= i < k ==> repetition_matches(p, i),
        !repetition_matches(p, k),
    ensures
        first_mismatch_from(p, j) == Some(k),
    decreases k - j,
{
    if j < k {
        lemma_mismatch_at(p, j + 1, k);
    }
}

/// The scan over repetitions reads only the first 102 bytes.
proof fn lemma_mismatch_scan_prefix(p: Seq<u8>, t: Seq<u8>, k: int)
    requires
        p.len() >= WOL_PACKET_MIN_SIZE,
        0 <= k <= 16,
    ensures
        first_mismatch_from(p + t, k) == first_mismatch_from(p, k),
    decreases 16 - k,
{
    if k < 16 {
        assert((p + t).subrange(6 + 6 * k, 12 + 6 * k) =~= p.subrange(6 + 6 * k, 12 + 6 * k));
        assert((p + t).subrange(6, 12) =~= p.subrange(6, 12));
        lemma_mismatch_scan_prefix(p, t, k + 1);
    }
}

/// A buffer of six `0xFF` bytes and sixteen copies of any six bytes decodes,
/// and its target is those six bytes (so `target_mac_string` gives their
/// canonical text).
pub proof fn lemma_magic_packet_decodes(m: Seq<u8>)
    requires
        m.len() == MAC_ADDR_LEN,
    ensures
        decode_packet(magic_packet(m)) == Ok::<Seq<u8>, ParseError>(m),
{
    let p = magic_packet(m);
    assert forall|k: int| 0 <= k < 16 implies repetition_matches(p, k) by {
        assert forall|j: int| 0 <= j < 6 implies #[trigger] p.subrange(6 + 6 * k, 12 + 6 * k)[j]
            == p.subrange(6, 12)[j] by {
            assert((6 * k + j) % 6 == j) by (nonlinear_arith)
                requires 0 <= j < 6, 0 <= k;
            assert(j % 6 == j);
        }
        assert(p.subrange(6 + 6 * k, 12 + 6 * k) =~= p.subrange(6, 12));
    }
    lemma_no_mismatch_from(p, 0);
    assert forall|j: int| 0 <= j < 6 implies #[trigger] p.subrange(6, 12)[j] == m[j] by {
        assert(j % 6 == j);
    }
    assert(p.subrange(6, 12) =~= m);
}

/// Bytes after a valid packet do not change what it decodes to.
pub proof fn lemma_trailing_bytes_ignored(p: Seq<u8>, t: Seq<u8>)
    requires
        decode_packet(p) is Ok,
    ensures
        decode_packet(p + t) == decode_packet(p),
{
    lemma_mismatch_scan_prefix(p, t, 0);
    assert((p + t).subrange(6, 12) =~= p.subrange(6, 12));
    assert(sync_stream_ok(p + t));
}

/// A buffer shorter than 102 bytes is rejected with its length and the minimum.
pub proof fn lemma_short_packet_rejected(p: Seq<u8>)
    requires
        p.len() < WOL_PACKET_MIN_SIZE,
    ensures
        decode_packet(p) == Err::<Seq<u8>, ParseError>(
            ParseError::PacketTooShort { actual: p.len() as usize, required: WOL_PACKET_MIN_SIZE },
        ),
{
}

/// A long enough buffer whose first six bytes are not all `0xFF` is rejected
/// for its sync stream, whatever follows.
pub proof fn lemma_bad_sync_rejected(p: Seq<u8>, i: int)
    requires
        p.len() >= WOL_PACKET_MIN_SIZE,
        0 <= i < 6,
        p[i] != 0xFF,
    ensures
        decode_packet(p) == Err::<Seq<u8>, ParseError>(ParseError::BadSyncStream),
{
}

/// When the sync stream is valid, repetitions before `k` match and repetition
/// `k` differs from repetition 0, the reported index is exactly `k`.
pub proof fn lemma_mismatch_index_reported(p: Seq<u8>, k: int)
    requires
        p.len() >= WOL_PACKET_MIN_SIZE,
        sync_stream_ok(p),
        0 <= k < 16,
        forall|j: int| 0 <= j < k ==> repetition_matches(p, j),
        p.subrange(6 + 6 * k, 12 + 6 * k) != p.subrange(6, 12),
    ensures
        decode_packet(p) == Err::<Seq<u8>, ParseError>(ParseError::RepetitionMismatch { index: k as usize }),
{
    lemma_mismatch_at(p, 0, k);
}

/// A decoded magic packet; it keeps the target MAC address.
#[derive(Debug)]
pub struct WakeOnLanPacket {
    target_mac: MacAddress,
}

impl View for WakeOnLanPacket {
    type V = Seq<u8>;

    /// The target MAC address.
    closed spec fn view(&self) -> Seq<u8> {
        self.target_mac@
    }
}

impl WakeOnLanPacket {
    /// Validates a raw buffer as a magic packet and keeps its target MAC.
    ///
    /// Checks run in order and the first failing one decides the error:
    /// length, sync stream, then each repetition from index 0 to 15.
    pub fn parse(packet: &[u8]) -> (r: Result<Self, WolGatewayError>)
        ensures
            match decode_packet(packet@) {
                Ok(m) => r is Ok && r->Ok_0@ == m,
                Err(e) => r == Err::<Self, WolGatewayError>(WolGatewayError::WakeOnLanParseError(e)),
            },
    {
        if packet.len() < WOL_PACKET_MIN_SIZE {
            return Err(WolGatewayError::WakeOnLanParseError(
                ParseError::PacketTooShort { actual: packet.len(), required: WOL_PACKET_MIN_SIZE },
            ));
        }
        let mut i: usize = 0;
        while i < 6
            invariant
                i <= 6,
                packet@.len() >= WOL_PACKET_MIN_SIZE,
                forall|j: int| 0 <= j < i ==> packet@[j] == 0xFF,
            decreases 6 - i,
        {
            if packet[i] != 0xFF {
                return Err(WolGatewayError::WakeOnLanParseError(ParseError::BadSyncStream));
            }
            i = i + 1;
        }
        let mut k: usize = 0;
        while k < 16
            invariant
                k <= 16,
                packet@.len() >= WOL_PACKET_MIN_SIZE,
                sync_stream_ok(packet@),
                first_mismatch_from(packet@, 0) == first_mismatch_from(packet@, k as int),
            decreases 16 - k,
        {
            let mut j: usize = 0;
            while j < MAC_ADDR_LEN
                invariant
                    k < 16,
                    j <= 6,
                    sync_stream_ok(packet@),
                    first_mismatch_from(packet@, 0) == first_mismatch_from(packet@, k as int),
                    packet@.len() >= WOL_PACKET_MIN_SIZE,
                    forall|jj: int| 0 <= jj < j ==> packet@[6 + 6 * k + jj] == #[trigger] packet@[6 + jj],
                decreases 6 - j,
            {
                if packet[6 + 6 * k + j] != packet[6 + j] {
                    assert(packet@.subrange(6 + 6 * k, 12 + 6 * k)[j as int] != packet@.subrange(6, 12)[j as int]);
                    assert(!repetition_matches(packet@, k as int));
                    assert(first_mismatch_from(packet@, k as int) == Some(k as int));
                    return Err(WolGatewayError::WakeOnLanParseError(
                        ParseError::RepetitionMismatch { index: k },
                    ));
                }
                j = j + 1;
            }
            assert forall|jj: int| 0 <= jj < 6 implies #[trigger] packet@.subrange(6 + 6 * k, 12 + 6 * k)[jj]
                == packet@.subrange(6, 12)[jj] by {
                assert(packet@[6 + 6 * k + jj] == packet@[6 + jj]);
            }
            assert(packet@.subrange(6 + 6 * k, 12 + 6 * k) =~= packet@.subrange(6, 12));
            k = k + 1;
        }
        let target_mac: MacAddress = [packet[6], packet[7], packet[8], packet[9], packet[10], packet[11]];
        assert(target_mac@ =~= packet@.subrange(6, 12));
        Ok(WakeOnLanPacket { target_mac })
    }

    /// The target MAC address in its canonical text form.
    pub fn target_mac_string(&self) -> (r: String)
        ensures
            r@ == mac_text(self@),
    {
        mac_to_string(&self.target_mac)
    }
}

} // verus!
