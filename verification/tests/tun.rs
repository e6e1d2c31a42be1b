use payphone::tun::packet::{
    ipv4_destination, ipv4_source, mtu_from_datagram_budget, PAYPHONE_MTU, PAYPHONE_MTU_MAX,
};

#[test]
fn parses_ipv4_addresses() {
    let mut packet = [0u8; 20];
    packet[0] = 0x45;
    packet[12..16].copy_from_slice(&[10, 77, 0, 2]);
    packet[16..20].copy_from_slice(&[1, 1, 1, 1]);
    assert_eq!(ipv4_source(&packet), Some([10, 77, 0, 2]));
    assert_eq!(ipv4_destination(&packet), Some([1, 1, 1, 1]));
}

#[test]
fn datagram_budget_stays_inside_quic_floor_and_ceiling() {
    assert_eq!(mtu_from_datagram_budget(1140), PAYPHONE_MTU);
    assert_eq!(mtu_from_datagram_budget(1154), 1114);
    assert_eq!(mtu_from_datagram_budget(1440), 1400);
    assert_eq!(mtu_from_datagram_budget(1490), PAYPHONE_MTU_MAX);
    assert_eq!(mtu_from_datagram_budget(40), PAYPHONE_MTU);
}

#[test]
fn short_or_foreign_packets_have_no_ipv4_address() {
    assert_eq!(ipv4_source(&[0x45; 19]), None);
    assert_eq!(ipv4_destination(&[0x60; 40]), None);
}
