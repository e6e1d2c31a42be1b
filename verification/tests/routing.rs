use payphone::net::{is_ip, parse_ip, Ip};
use payphone::tun::route_output::{
    host_route_ok, ipv6_blackholes_ok, lan_default_ok, linux_default_gateway, mac_default_gateway,
    mac_default_interface, mac_outbound_ipv4, parse_linux_default_iface, parse_netsh_interface_index,
    parse_windows_route_print_gateway, parse_windows_route_print_iface_ipv4, route_failure_is_harmless, rule_name,
    split_default_ok, RouteError,
};
use payphone::tun::routing::{
    forwarding_is_on, forwarding_rules, linux_arm, linux_command, linux_disarm, linux_ensure, linux_install,
    linux_rearm, linux_restore, linux_teardown, mac_arm, mac_command, mac_install, mac_lan_default, mac_rearm,
    mac_restore, mac_teardown, next_command, rule_command, windows_arm, windows_command, windows_disarm, windows_ensure,
    windows_install, windows_rearm, windows_restore, windows_teardown, Command, ForwardRule, Half, LinuxStep, MacStep,
    OnFailure, Way, WindowsStep, PAYPHONE_SUBNET_CIDR,
};

fn way() -> Way {
    Way { server: "203.0.113.7".into(), gateway: "192.168.1.1".into(), device: "payphone0".into() }
}

fn line(command: &Command) -> String {
    let mut words = vec![command.program.to_string()];
    words.extend(command.args.iter().cloned());
    words.join(" ")
}

fn chars(text: &str) -> Vec<char> {
    text.chars().collect()
}

#[test]
fn parses_windows_route_print_gateway_and_iface() {
    let sample = "\
Network Destination        Netmask          Gateway       Interface  Metric
          0.0.0.0          0.0.0.0          0.0.0.0      192.168.1.9     25
          0.0.0.0          0.0.0.0      192.168.7.1        127.0.0.1     25
          0.0.0.0          0.0.0.0      192.168.8.1    192.168.8.50     25
";
    assert_eq!(parse_windows_route_print_gateway(sample), Some(Ip::V4([192, 168, 7, 1])));
    assert_eq!(parse_windows_route_print_iface_ipv4(sample), Some([192, 168, 8, 50]));
    let on_link = "0.0.0.0 0.0.0.0 On-link 192.168.1.50\n0.0.0.0 0.0.0.0 192.168.1.1 192.168.1.50\n";
    assert_eq!(parse_windows_route_print_gateway(on_link), Some(Ip::V4([192, 168, 1, 1])));
    assert_eq!(parse_windows_route_print_iface_ipv4(on_link), None);
}

#[test]
fn parses_windows_route_print_gateway() {
    let sample = "\
===========================================================================
IPv4 Route Table
===========================================================================
Active Routes:
Network Destination        Netmask          Gateway       Interface  Metric
          0.0.0.0          0.0.0.0      192.168.1.1    192.168.1.50     25
        127.0.0.0        255.0.0.0         On-link         127.0.0.1    331
";
    assert_eq!(parse_windows_route_print_gateway(sample), Some(Ip::V4([192, 168, 1, 1])));
    assert_eq!(parse_windows_route_print_iface_ipv4(sample), Some([192, 168, 1, 50]));
}

#[test]
fn parses_netsh_interface_index() {
    let sample = "\
Idx     Met         MTU          State                Name
  1      75  4294967295          connected            Loopback Pseudo-Interface 1
 12       5        1100          connected            payphone
";
    assert_eq!(parse_netsh_interface_index(sample, "payphone"), Some(12));
    assert_eq!(parse_netsh_interface_index(sample, "PAYPHONE"), Some(12));
    assert_eq!(parse_netsh_interface_index(sample, "missing"), None);
    assert_eq!(parse_netsh_interface_index(sample, "loopback pseudo-interface 1"), Some(1));
    assert_eq!(parse_netsh_interface_index(sample, " "), None);
}

#[test]
fn parses_linux_default_iface() {
    let sample = "default via 192.168.1.1 dev enp0s3 proto dhcp metric 100\n";
    assert_eq!(parse_linux_default_iface(sample).as_deref(), Some("enp0s3"));
    assert_eq!(linux_default_gateway(sample), Ok(Ip::V4([192, 168, 1, 1])));
    assert_eq!(parse_linux_default_iface("default via 1.2.3.4 dev"), None);
    assert_eq!(linux_default_gateway("default dev ppp0"), Err(RouteError::NoGateway));
    assert_eq!(linux_default_gateway("default via nowhere dev ppp0"), Err(RouteError::BadGateway));
}

#[test]
fn addresses_are_parsed() {
    assert_eq!(parse_ip(&chars("10.77.0.1")), Some(Ip::V4([10, 77, 0, 1])));
    assert_eq!(parse_ip(&chars("10.77.0.01")), None);
    assert_eq!(parse_ip(&chars("10.77.0.256")), None);
    assert_eq!(parse_ip(&chars("::")), Some(Ip::V6([0; 8])));
    assert!(parse_ip(&chars("::")).unwrap().is_unspecified());
    assert!(parse_ip(&chars("0.0.0.0")).unwrap().is_unspecified());
    assert_eq!(parse_ip(&chars("fe80::1:ABCD")), Some(Ip::V6([0xfe80, 0, 0, 0, 0, 0, 1, 0xabcd])));
    assert_eq!(parse_ip(&chars("::ffff:1.2.3.4")), Some(Ip::V6([0, 0, 0, 0, 0, 0xffff, 0x0102, 0x0304])));
    assert_eq!(parse_ip(&chars("1:2:3:4:5:6:7:8")), Some(Ip::V6([1, 2, 3, 4, 5, 6, 7, 8])));
    for bad in ["", ":", "1:2:3:4:5:6:7", "1:2:3:4:5:6:7:8:9", "::1::", "1.2.3.4::", "g::", "12345::"] {
        assert!(!is_ip(&chars(bad)), "{bad}");
    }
}

#[test]
fn longer_addresses_are_parsed() {
    let doc = [0x2001, 0xdb8, 0, 0, 8, 0x800, 0x200c, 0x417a];
    assert_eq!(parse_ip(&chars("2001:db8::8:800:200c:417a")), Some(Ip::V6(doc)));
    assert_eq!(parse_ip(&chars("::13.1.68.3")), Some(Ip::V6([0, 0, 0, 0, 0, 0, 0x0d01, 0x4403])));
    assert_eq!(parse_ip(&chars("1::8")), Some(Ip::V6([1, 0, 0, 0, 0, 0, 0, 8])));
    assert_eq!(parse_ip(&chars("a:b::")), Some(Ip::V6([10, 11, 0, 0, 0, 0, 0, 0])));
    assert_eq!(parse_ip(&chars("255.255.255.255")), Some(Ip::V4([255; 4])));
    assert_eq!(parse_ip(&chars("1.2.3")), None);
}

#[test]
fn mac_routes_are_read() {
    let sample = "   route to: default\n    gateway: 192.168.1.1\n  interface: en0\n";
    let gateway = mac_default_gateway(sample).unwrap();
    assert_eq!(gateway, Ip::V4([192, 168, 1, 1]));
    assert_eq!(mac_default_interface(sample).as_deref(), Some("en0"));
    assert!(host_route_ok(sample, &gateway));
    assert!(!host_route_ok("gateway: 192.168.1.1\ninterface: utun4\n", &gateway));
    assert!(!host_route_ok("gateway: 192.168.1.1\ninterface: lo0\n", &gateway));
    assert!(!host_route_ok("gateway: 192.168.1.2\ninterface: en0\n", &gateway));
    assert!(!host_route_ok("interface: en0\n", &gateway));
    assert!(split_default_ok("gateway: 10.77.0.1\n"));
    assert!(split_default_ok("interface: utun3\n"));
    assert!(!split_default_ok(sample));
    assert!(lan_default_ok(sample));
    assert!(!lan_default_ok("gateway: 10.77.0.1\ninterface: utun3\n"));
    assert!(ipv6_blackholes_ok("flags: <UP,BLACKHOLE>"));
    assert!(!ipv6_blackholes_ok("interface: en0"));
    assert!(route_failure_is_harmless("route: writing to routing socket: File exists"));
    assert!(route_failure_is_harmless("not in table"));
    assert!(!route_failure_is_harmless("permission denied"));
    assert_eq!(mac_default_gateway("interface: en0"), Err(RouteError::NoGateway));
    assert_eq!(mac_default_gateway("gateway: link#4"), Err(RouteError::BadGateway));
    assert_eq!(mac_outbound_ipv4("192.168.1.50\n"), Some([192, 168, 1, 50]));
}

#[test]
fn linux_commands_are_exact() {
    let lines: Vec<String> = linux_install().iter().map(|(step, _)| line(&linux_command(*step, &way()))).collect();
    assert_eq!(
        lines,
        vec![
            "ip route replace 203.0.113.7 via 192.168.1.1",
            "ip route replace 0.0.0.0/1 dev payphone0",
            "ip route replace 128.0.0.0/1 dev payphone0",
            "ip -6 route replace blackhole ::/1",
            "ip -6 route replace blackhole 8000::/1",
            "resolvectl dns payphone0 10.77.0.1",
            "resolvectl domain payphone0 ~.",
            "resolvectl default-route payphone0 yes",
        ]
    );
    assert_eq!(line(&linux_command(LinuxStep::Block(Half::V4Low), &way())), "ip route replace blackhole 0.0.0.0/1");
    let stops = linux_install().iter().filter(|(_, fate)| *fate == OnFailure::Stop).count();
    assert_eq!(stops, 3);
    let lines: Vec<String> = linux_teardown().iter().map(|(step, _)| line(&linux_command(*step, &way()))).collect();
    assert_eq!(
        lines,
        vec![
            "resolvectl revert payphone0",
            "ip -6 route del blackhole ::/1",
            "ip -6 route del blackhole 8000::/1",
            "ip route del 128.0.0.0/1 dev payphone0",
            "ip route del 0.0.0.0/1 dev payphone0",
            "ip route del 203.0.113.7 via 192.168.1.1",
        ]
    );
    assert_eq!(linux_restore().len(), 8);
    assert_eq!(linux_arm().len(), 8);
    assert_eq!(linux_rearm().len(), 5);
    assert_eq!(linux_ensure().len(), 8);
    assert_eq!(linux_disarm().len(), 6);
}

#[test]
fn mac_commands_are_exact() {
    assert_eq!(mac_install()[2], (MacStep::AddHost, OnFailure::Stop));
    assert_eq!(line(&mac_command(MacStep::AddHost, &way())), "route add -inet -host 203.0.113.7 192.168.1.1");
    assert_eq!(
        line(&mac_command(MacStep::AddScopedHost, &way())),
        "route add -ifscope payphone0 -inet -host 203.0.113.7 192.168.1.1"
    );
    assert_eq!(line(&mac_command(MacStep::AddTunnel(Half::V4High), &way())), "route add -inet -net 128.0.0.0/1 10.77.0.1");
    assert_eq!(line(&mac_command(MacStep::Block(Half::V6Low), &way())), "route add -inet6 -blackhole ::/1");
    assert_eq!(line(&mac_command(MacStep::DeleteRoute(Half::V6High), &way())), "route delete -inet6 8000::/1");
    let dns = mac_command(MacStep::SetResolver, &way());
    assert_eq!(dns.program, "scutil");
    assert!(dns.input.unwrap().contains("d.add ServerAddresses * 10.77.0.1\n"));
    assert_eq!(mac_restore(true, true, true), vec![(MacStep::SetResolver, OnFailure::Ignore)]);
    assert_eq!(mac_restore(false, false, false).len(), 4 + 10 + 2 + 1);
    assert_eq!(mac_rearm()[2], (MacStep::AddHost, OnFailure::Skip(1)));
    assert_eq!(mac_arm()[2], (MacStep::AddHost, OnFailure::Stop));
    assert_eq!(mac_teardown().len(), 12);
    assert_eq!(mac_lan_default().len(), 3);
}

#[test]
fn windows_commands_are_exact() {
    let show = |step: WindowsStep| line(&windows_command(step, &way(), "{rule}"));
    assert_eq!(
        show(WindowsStep::AddTunnel(Half::V4Low, Some(12))),
        "route add 0.0.0.0 mask 128.0.0.0 10.77.0.1 metric 1 IF 12"
    );
    assert_eq!(
        show(WindowsStep::DeleteTunnel(Half::V4High, None)),
        "route delete 128.0.0.0 mask 128.0.0.0 10.77.0.1"
    );
    assert_eq!(show(WindowsStep::AddHost), "route add 203.0.113.7 mask 255.255.255.255 192.168.1.1 metric 1");
    assert_eq!(
        show(WindowsStep::Block(Half::V4Low)),
        "route add 0.0.0.0 mask 128.0.0.0 127.0.0.1 metric 400"
    );
    assert_eq!(
        show(WindowsStep::SetResolver),
        "netsh interface ipv4 set dnsservers name=payphone0 static 10.77.0.1 validate=no"
    );
    assert_eq!(
        show(WindowsStep::RemoveRule),
        "powershell -NoProfile -NonInteractive -Command Remove-DnsClientNrptRule -Name '{rule}' -Force"
    );
    assert_eq!(windows_install(Some(3)).len(), 10);
    assert_eq!(windows_restore(None)[3], (WindowsStep::AddTunnel(Half::V4Low, None), OnFailure::Skip(2)));
    assert_eq!(windows_arm().len(), 9);
    assert_eq!(windows_rearm().len(), 8);
    assert_eq!(windows_ensure().len(), 9);
    assert_eq!(windows_disarm().len(), 6);
    assert_eq!(windows_teardown().len(), 7);
    assert_eq!(rule_name(" {1234}\r\n").as_deref(), Some("{1234}"));
    assert_eq!(rule_name(" \n"), None);
}

#[test]
fn forwarding_rules_are_exact() {
    let lines: Vec<String> =
        forwarding_rules().iter().map(|rule| line(&rule_command(*rule, false, PAYPHONE_SUBNET_CIDR))).collect();
    assert_eq!(
        lines,
        vec![
            "iptables -t nat -A POSTROUTING -s 10.77.0.0/24 -j MASQUERADE",
            "iptables -A FORWARD -s 10.77.0.0/24 -j ACCEPT",
            "iptables -A FORWARD -d 10.77.0.0/24 -j ACCEPT",
            "iptables -t mangle -A FORWARD -p tcp --tcp-flags SYN,RST SYN -j TCPMSS --clamp-mss-to-pmtu",
        ]
    );
    assert_eq!(
        line(&rule_command(ForwardRule::FromNetwork, true, "10.0.0.0/8")),
        "iptables -C FORWARD -s 10.0.0.0/8 -j ACCEPT"
    );
    assert!(forwarding_is_on("1\n"));
    assert!(!forwarding_is_on("0\n"));
}

#[test]
fn a_failed_command_ends_or_shortens_its_plan() {
    assert_eq!(next_command(3, OnFailure::Stop, true), Some(4));
    assert_eq!(next_command(3, OnFailure::Stop, false), None);
    assert_eq!(next_command(3, OnFailure::Skip(2), false), Some(6));
    assert_eq!(next_command(3, OnFailure::Skip(2), true), Some(4));
    assert_eq!(next_command(3, OnFailure::Ignore, false), Some(4));
}
