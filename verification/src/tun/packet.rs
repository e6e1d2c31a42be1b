//! What the tunnel needs to know of an IP packet, and how large one may be.

use vstd::prelude::*;

use crate::protocol::data::DATA_HEADER_SIZE;
use crate::protocol::frame::HEADER_SIZE;

verus! {

/// The VPN network is 10.77.0.0/24.
pub const PAYPHONE_PREFIX: u8 = 24;

/// TUN MTU that fits every QUIC path: with the frame headers a packet stays
/// inside the datagram budget that QUIC guarantees before it knows the path.
pub const PAYPHONE_MTU: u16 = 1100;

/// The most that the MTU is raised to on a path with more budget.
pub const PAYPHONE_MTU_MAX: u16 = 1450;

/// Frame header and DATA header.
pub const PAYPHONE_FRAME_OVERHEAD: u16 = 40;

/// The server's address in the VPN.
pub const SERVER_TUN_IPV4: [u8; 4] = [10, 77, 0, 1];

/// The tunnel MTU for a datagram budget: what the headers leave, within the
/// two limits.
pub open spec fn mtu_for(max_datagram: int) -> int {
    let usable = max_datagram - PAYPHONE_FRAME_OVERHEAD;
    if usable < PAYPHONE_MTU {
        PAYPHONE_MTU as int
    } else if usable > PAYPHONE_MTU_MAX {
        PAYPHONE_MTU_MAX as int
    } else {
        usable
    }
}

pub fn mtu_from_datagram_budget(max_datagram: usize) -> (mtu: u16)
    ensures
        mtu == mtu_for(max_datagram as int),
{
    let usable: usize = max_datagram.saturating_sub(PAYPHONE_FRAME_OVERHEAD as usize);
    if usable < PAYPHONE_MTU as usize {
        PAYPHONE_MTU
    } else if usable > PAYPHONE_MTU_MAX as usize {
        PAYPHONE_MTU_MAX
    } else {
        usable as u16
    }
}

/// A packet of the chosen MTU fits its frame into the budget, where the
/// budget allows the smallest MTU at all.
pub proof fn law_mtu_fits_budget(max_datagram: int)
    requires
        max_datagram >= PAYPHONE_MTU + PAYPHONE_FRAME_OVERHEAD,
    ensures
        mtu_for(max_datagram) + HEADER_SIZE + DATA_HEADER_SIZE <= max_datagram,
        PAYPHONE_MTU <= mtu_for(max_datagram) <= PAYPHONE_MTU_MAX,
{
}

/// Whether a packet is long enough for an IPv4 header and says that it is
/// one.
pub open spec fn is_ipv4(packet: Seq<u8>) -> bool {
    packet.len() >= 20 && packet[0] / 16 == 4
}

pub open spec fn source_of(packet: Seq<u8>) -> Option<Seq<u8>> {
    if is_ipv4(packet) {
        Some(packet.subrange(12, 16))
    } else {
        None
    }
}

pub open spec fn destination_of(packet: Seq<u8>) -> Option<Seq<u8>> {
    if is_ipv4(packet) {
        Some(packet.subrange(16, 20))
    } else {
        None
    }
}

pub fn ipv4_destination(packet: &[u8]) -> (address: Option<[u8; 4]>)
    ensures
        match address {
            Some(address) => destination_of(packet@) == Some(address@),
            None => destination_of(packet@) is None,
        },
{
    if packet.len() < 20 || packet[0] / 16 != 4 {
        return None;
    }
    let address: [u8; 4] = [packet[16], packet[17], packet[18], packet[19]];
    assert(address@ =~= packet@.subrange(16, 20));
    Some(address)
}

pub fn ipv4_source(packet: &[u8]) -> (address: Option<[u8; 4]>)
    ensures
        match address {
            Some(address) => source_of(packet@) == Some(address@),
            None => source_of(packet@) is None,
        },
{
    if packet.len() < 20 || packet[0] / 16 != 4 {
        return None;
    }
    let address: [u8; 4] = [packet[12], packet[13], packet[14], packet[15]];
    assert(address@ =~= packet@.subrange(12, 16));
    Some(address)
}

/// The device takes packets of 1100 to 1450 bytes: what a datagram leaves
/// beside 40 bytes of headers, and no less than the least that every path
/// takes.
pub proof fn law_mtu(budget: usize, mtu: u16)
    requires
        call_ensures(mtu_from_datagram_budget, (budget,), mtu),
    ensures
        1100 <= mtu <= 1450,
        1140 <= budget <= 1490 ==> mtu == budget - 40,
        budget < 1140 ==> mtu == 1100,
        budget > 1490 ==> mtu == 1450,
{
}

/// An IPv4 packet has its source in bytes 12 to 15 and its destination in
/// bytes 16 to 19; anything else has neither.
pub proof fn law_addresses(packet: &[u8], from: Option<[u8; 4]>, to: Option<[u8; 4]>)
    requires
        call_ensures(ipv4_source, (packet,), from),
        call_ensures(ipv4_destination, (packet,), to),
    ensures
        from is Some <==> packet@.len() >= 20 && 0x40 <= packet@[0] <= 0x4f,
        to is Some <==> packet@.len() >= 20 && 0x40 <= packet@[0] <= 0x4f,
        from matches Some(from) ==> from[0] == packet@[12] && from[1] == packet@[13] && from[2] == packet@[14]
            && from[3] == packet@[15],
        to matches Some(to) ==> to[0] == packet@[16] && to[1] == packet@[17] && to[2] == packet@[18] && to[3]
            == packet@[19],
{
    if let Some(from) = from {
        let four = packet@.subrange(12, 16);
        assert(from@[0] == four[0] && from@[1] == four[1] && from@[2] == four[2] && from@[3] == four[3]);
    }
    if let Some(to) = to {
        let four = packet@.subrange(16, 20);
        assert(to@[0] == four[0] && to@[1] == four[1] && to@[2] == four[2] && to@[3] == four[3]);
    }
}

} // verus!
