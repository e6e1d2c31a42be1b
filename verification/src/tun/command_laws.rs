//! What the commands for the routes do, word by word: each that undoes
//! another names the same route.

use vstd::prelude::*;

use super::routing::{
    forwarding_is_on, forwarding_rules, linux_command, mac_command, next_command, rule_command, windows_command,
    Command, ForwardRule, Half, LinuxStep, MacStep, OnFailure, Way, WindowsStep,
};
use crate::text::{decimal, trim};

verus! {

/// Half of all addresses, as it is written.
pub open spec fn written(half: Half) -> Seq<char> {
    match half {
        Half::V4Low => "0.0.0.0/1"@,
        Half::V4High => "128.0.0.0/1"@,
        Half::V6Low => "::/1"@,
        Half::V6High => "8000::/1"@,
    }
}

/// The lowest address of half of all IPv4 addresses.
pub open spec fn lowest(half: Half) -> Seq<char> {
    if half == Half::V4Low {
        "0.0.0.0"@
    } else {
        "128.0.0.0"@
    }
}

/// Whether a half is of IPv6 addresses.
pub open spec fn is_ipv6(half: Half) -> bool {
    half == Half::V6Low || half == Half::V6High
}

/// Whether `b` is `a` with its `k`th word, which is `from`, exchanged for
/// `to`, and nothing else changed.
pub open spec fn exchanged(a: Command, b: Command, k: int, from: Seq<char>, to: Seq<char>) -> bool {
    &&& a@.program == b@.program
    &&& a@.input is None && b@.input is None
    &&& 0 <= k < a@.args.len()
    &&& a@.args[k] == from
    &&& b@.args == a@.args.update(k, to)
}

/// On Linux the route of a half goes where it is told, in the table of its
/// family, and the command that removes it is the one that set it with `del`
/// in place of `replace`.
pub proof fn law_linux_undo(
    half: Half,
    way: &Way,
    block: Command,
    unblock: Command,
    there: Command,
    back: Command,
    bypass: Command,
    unbypass: Command,
)
    requires
        call_ensures(linux_command, (LinuxStep::Block(half), way), block),
        call_ensures(linux_command, (LinuxStep::Unblock(half), way), unblock),
        call_ensures(linux_command, (LinuxStep::ToDevice(half), way), there),
        call_ensures(linux_command, (LinuxStep::FromDevice(half), way), back),
        call_ensures(linux_command, (LinuxStep::Bypass, way), bypass),
        call_ensures(linux_command, (LinuxStep::Unbypass, way), unbypass),
    ensures
        block@.program == "ip"@ && there@.program == "ip"@ && bypass@.program == "ip"@,
        block@.args == (if is_ipv6(half) {
            seq!["-6"@]
        } else {
            seq![]
        }) + seq!["route"@, "replace"@, "blackhole"@, written(half)],
        there@.args == seq!["route"@, "replace"@, written(half), "dev"@, way.device@],
        bypass@.args == seq!["route"@, "replace"@, way.server@, "via"@, way.gateway@],
        exchanged(
            block,
            unblock,
            if is_ipv6(half) {
                2
            } else {
                1
            },
            "replace"@,
            "del"@,
        ),
        exchanged(there, back, 1, "replace"@, "del"@),
        exchanged(bypass, unbypass, 1, "replace"@, "del"@),
{
    let k: int = if is_ipv6(half) {
        2
    } else {
        1
    };
    assert(block@.args =~= (if is_ipv6(half) {
        seq!["-6"@]
    } else {
        seq![]
    }) + seq!["route"@, "replace"@, "blackhole"@, written(half)]);
    assert(unblock@.args =~= block@.args.update(k, "del"@));
    assert(back@.args =~= there@.args.update(1, "del"@));
    assert(unbypass@.args =~= bypass@.args.update(1, "del"@));
}

/// On Linux the tunnel's device asks the server for every name, and no more
/// once that is reverted.
pub proof fn law_linux_resolver(way: &Way, a: Command, b: Command, c: Command, d: Command)
    requires
        call_ensures(linux_command, (LinuxStep::Resolver, way), a),
        call_ensures(linux_command, (LinuxStep::ResolveAll, way), b),
        call_ensures(linux_command, (LinuxStep::ResolveFirst, way), c),
        call_ensures(linux_command, (LinuxStep::RevertResolver, way), d),
    ensures
        forall|x: Command|
            x == a || x == b || x == c || x == d ==> (#[trigger] x@).program == "resolvectl"@ && x@.input is None
                && x@.args[1] == way.device@,
        a@.args[0] == "dns"@ && a@.args.len() == 3 && a@.args[2] == "10.77.0.1"@,
        b@.args[0] == "domain"@ && b@.args.len() == 3 && b@.args[2] == "~."@,
        c@.args[0] == "default-route"@ && c@.args.len() == 3 && c@.args[2] == "yes"@,
        d@.args[0] == "revert"@ && d@.args.len() == 2,
{
}

/// On macOS a block and a route into the tunnel are removed by the command
/// that added them with `delete` in place of `add`.
pub proof fn law_mac_undo(
    half: Half,
    way: &Way,
    block: Command,
    unblock: Command,
    there: Command,
    back: Command,
    whatever: Command,
)
    requires
        call_ensures(mac_command, (MacStep::Block(half), way), block),
        call_ensures(mac_command, (MacStep::Unblock(half), way), unblock),
        call_ensures(mac_command, (MacStep::AddTunnel(half), way), there),
        call_ensures(mac_command, (MacStep::DeleteTunnel(half), way), back),
        call_ensures(mac_command, (MacStep::DeleteRoute(half), way), whatever),
    ensures
        block@.program == "route"@ && there@.program == "route"@ && whatever@.program == "route"@,
        block@.args == seq![
            "add"@,
            if is_ipv6(half) {
                "-inet6"@
            } else {
                "-inet"@
            },
            "-blackhole"@,
            written(half),
        ],
        there@.args == seq!["add"@, "-inet"@, "-net"@, written(half), "10.77.0.1"@],
        exchanged(block, unblock, 0, "add"@, "delete"@),
        exchanged(there, back, 0, "add"@, "delete"@),
        whatever@.input is None,
        !is_ipv6(half) ==> whatever@.args == back@.args.take(4),
        is_ipv6(half) ==> whatever@.args == seq!["delete"@, "-inet6"@, written(half)],
{
    assert(unblock@.args =~= block@.args.update(0, "delete"@));
    assert(back@.args =~= there@.args.update(0, "delete"@));
    assert(!is_ipv6(half) ==> whatever@.args =~= back@.args.take(4));
}

/// On macOS the server's own route goes by the gateway, for the device alone
/// and for all, and the command that removes it names the same host; so does
/// the default route.
pub proof fn law_mac_own_route(
    way: &Way,
    host: Command,
    scoped: Command,
    no_host: Command,
    no_scoped: Command,
    default: Command,
    scoped_default: Command,
    no_default: Command,
)
    requires
        call_ensures(mac_command, (MacStep::AddHost, way), host),
        call_ensures(mac_command, (MacStep::AddScopedHost, way), scoped),
        call_ensures(mac_command, (MacStep::DeleteHost, way), no_host),
        call_ensures(mac_command, (MacStep::DeleteScopedHost, way), no_scoped),
        call_ensures(mac_command, (MacStep::AddDefault, way), default),
        call_ensures(mac_command, (MacStep::AddScopedDefault, way), scoped_default),
        call_ensures(mac_command, (MacStep::DeleteDefault, way), no_default),
    ensures
        host@.program == "route"@ && scoped@.program == "route"@ && no_host@.program == "route"@,
        no_scoped@.program == "route"@ && default@.program == "route"@ && scoped_default@.program == "route"@,
        no_default@.program == "route"@,
        host@.args == seq!["add"@, "-inet"@, "-host"@, way.server@, way.gateway@],
        scoped@.args == seq!["add"@, "-ifscope"@, way.device@] + host@.args.skip(1),
        no_host@.args == host@.args.update(0, "delete"@).drop_last(),
        no_scoped@.args == scoped@.args.update(0, "delete"@).drop_last(),
        default@.args == seq!["add"@, "default"@, way.gateway@],
        scoped_default@.args == seq!["add"@, "-ifscope"@, way.device@] + default@.args.skip(1),
        no_default@.args == default@.args.update(0, "delete"@).drop_last(),
{
    assert(scoped@.args =~= seq!["add"@, "-ifscope"@, way.device@] + host@.args.skip(1));
    assert(no_host@.args =~= host@.args.update(0, "delete"@).drop_last());
    assert(no_scoped@.args =~= scoped@.args.update(0, "delete"@).drop_last());
    assert(scoped_default@.args =~= seq!["add"@, "-ifscope"@, way.device@] + default@.args.skip(1));
    assert(no_default@.args =~= default@.args.update(0, "delete"@).drop_last());
}

/// On macOS the resolver of the tunnel is a key of the system's configuration
/// that is set to the server and removed again.
pub proof fn law_mac_resolver(way: &Way, set: Command, clear: Command, flush: Command)
    requires
        call_ensures(mac_command, (MacStep::SetResolver, way), set),
        call_ensures(mac_command, (MacStep::ClearResolver, way), clear),
        call_ensures(mac_command, (MacStep::FlushResolver, way), flush),
    ensures
        set@.program == "scutil"@ && clear@.program == "scutil"@,
        set@.args.len() == 0 && clear@.args.len() == 0,
        set@.input == Some(
            "d.init\nd.add ServerAddresses * 10.77.0.1\nd.add SupplementalMatchDomains * \"\"\nset State:/Network/Service/PAYPHONE/DNS\n"@,
        ),
        clear@.input == Some(
            "remove State:/Network/Service/PAYPHONE/DNS\nremove Setup:/Network/Service/PAYPHONE/DNS\n"@,
        ),
        flush@.program == "killall"@,
        flush@.args == seq!["-HUP"@, "mDNSResponder"@],
        flush@.input is None,
{
}

/// On Windows a route is removed by the words that name it in the command
/// that added it, its metric left out, with `delete` in place of `add`.
pub proof fn law_windows_undo(
    half: Half,
    index: Option<u32>,
    way: &Way,
    rule: &str,
    block: Command,
    unblock: Command,
    there: Command,
    back: Command,
    host: Command,
    no_host: Command,
    whatever: Command,
)
    requires
        call_ensures(windows_command, (WindowsStep::Block(half), way, rule), block),
        call_ensures(windows_command, (WindowsStep::Unblock(half), way, rule), unblock),
        call_ensures(windows_command, (WindowsStep::AddTunnel(half, index), way, rule), there),
        call_ensures(windows_command, (WindowsStep::DeleteTunnel(half, index), way, rule), back),
        call_ensures(windows_command, (WindowsStep::AddHost, way, rule), host),
        call_ensures(windows_command, (WindowsStep::DeleteHost, way, rule), no_host),
        call_ensures(windows_command, (WindowsStep::DeleteRoute(half), way, rule), whatever),
    ensures
        host@.program == "route"@ && no_host@.program == "route"@,
        host@.args == seq!["add"@, way.server@, "mask"@, "255.255.255.255"@, way.gateway@, "metric"@, "1"@],
        no_host@.args == host@.args.take(5).update(0, "delete"@),
        is_ipv6(half) ==> {
            &&& block@.program == "netsh"@ && unblock@.program == "netsh"@
            &&& block@.args == seq![
                "interface"@,
                "ipv6"@,
                "add"@,
                "route"@,
                written(half),
                "interface=1"@,
                "metric=1"@,
                "store=active"@,
            ]
            &&& unblock@.args == block@.args.remove(6).update(2, "delete"@)
        },
        !is_ipv6(half) ==> {
            let device = match index {
                Some(index) => seq!["IF"@, decimal(index as nat)],
                None => seq![],
            };
            &&& block@.program == "route"@ && unblock@.program == "route"@ && there@.program == "route"@
                && back@.program == "route"@ && whatever@.program == "route"@
            &&& block@.args == seq!["add"@, lowest(half), "mask"@, "128.0.0.0"@, "127.0.0.1"@, "metric"@, "400"@]
            &&& unblock@.args == block@.args.take(5).update(0, "delete"@)
            &&& there@.args == seq!["add"@, lowest(half), "mask"@, "128.0.0.0"@, "10.77.0.1"@, "metric"@, "1"@]
                + device
            &&& back@.args == there@.args.take(5).update(0, "delete"@) + device
            &&& whatever@.args == back@.args.take(4)
        },
{
    let device = match index {
        Some(index) => seq!["IF"@, decimal(index as nat)],
        None => seq![],
    };
    assert(no_host@.args =~= host@.args.take(5).update(0, "delete"@));
    if is_ipv6(half) {
        assert(unblock@.args =~= block@.args.remove(6).update(2, "delete"@));
    } else {
        assert(unblock@.args =~= block@.args.take(5).update(0, "delete"@));
        assert(back@.args =~= there@.args.take(5).update(0, "delete"@) + device);
        assert(whatever@.args =~= back@.args.take(4));
    }
}

/// On Windows the device's resolver is the server until it is taken from the
/// network again, and the rule that is removed is the one that was added.
pub proof fn law_windows_resolver(
    way: &Way,
    rule: &str,
    set: Command,
    clear: Command,
    added: Command,
    removed: Command,
)
    requires
        call_ensures(windows_command, (WindowsStep::SetResolver, way, rule), set),
        call_ensures(windows_command, (WindowsStep::ClearResolver, way, rule), clear),
        call_ensures(windows_command, (WindowsStep::AddRule, way, rule), added),
        call_ensures(windows_command, (WindowsStep::RemoveRule, way, rule), removed),
    ensures
        set@.program == "netsh"@ && clear@.program == "netsh"@,
        set@.args == seq!["interface"@, "ipv4"@, "set"@, "dnsservers"@, "name="@ + way.device@, "static"@, "10.77.0.1"@, "validate=no"@],
        clear@.args == set@.args.take(5).push("source=dhcp"@),
        added@.program == "powershell"@ && removed@.program == "powershell"@,
        added@.args == seq![
            "-NoProfile"@,
            "-NonInteractive"@,
            "-Command"@,
            "Add-DnsClientNrptRule -Namespace '.' -NameServers '10.77.0.1' | Out-Null; (Get-DnsClientNrptRule | Where-Object { $_.NameServers -contains '10.77.0.1' } | Select-Object -Last 1).Name"@,
        ],
        removed@.args == added@.args.update(3, "Remove-DnsClientNrptRule -Name '"@ + rule@ + "' -Force"@),
{
    assert(clear@.args =~= set@.args.take(5).push("source=dhcp"@));
    assert(removed@.args =~= added@.args.update(3, "Remove-DnsClientNrptRule -Name '"@ + rule@ + "' -Force"@));
}

/// A command that went well is followed by the next one; so is one that
/// failed, unless the plan says to leave some out or to give up.
pub proof fn law_next_command(
    at: usize,
    n: u8,
    went: Option<usize>,
    ignored: Option<usize>,
    skipped: Option<usize>,
    stopped: Option<usize>,
    fate: OnFailure,
)
    requires
        at + 256 <= usize::MAX,
        call_ensures(next_command, (at, fate, true), went),
        call_ensures(next_command, (at, OnFailure::Ignore, false), ignored),
        call_ensures(next_command, (at, OnFailure::Skip(n), false), skipped),
        call_ensures(next_command, (at, OnFailure::Stop, false), stopped),
    ensures
        went == Some((at + 1) as usize),
        ignored == Some((at + 1) as usize),
        skipped == Some((at + 1 + n) as usize),
        stopped is None,
{
}

/// The server's firewall sends out what comes from the VPN's network under
/// the server's own address and lets it pass both ways; a rule is asked for
/// by the same words with which it is added.
pub proof fn law_forwarding(
    network: &str,
    masks: Command,
    out: Command,
    back: Command,
    clamp: Command,
    rule: ForwardRule,
    asks: Command,
    adds: Command,
    rules: [ForwardRule; 4],
)
    requires
        call_ensures(rule_command, (ForwardRule::Masquerade, false, network), masks),
        call_ensures(rule_command, (ForwardRule::FromNetwork, false, network), out),
        call_ensures(rule_command, (ForwardRule::ToNetwork, false, network), back),
        call_ensures(rule_command, (ForwardRule::ClampSegments, false, network), clamp),
        call_ensures(rule_command, (rule, true, network), asks),
        call_ensures(rule_command, (rule, false, network), adds),
        call_ensures(forwarding_rules, (), rules),
    ensures
        masks@.program == "iptables"@ && out@.program == "iptables"@ && clamp@.program == "iptables"@,
        masks@.args == seq!["-t"@, "nat"@, "-A"@, "POSTROUTING"@, "-s"@, network@, "-j"@, "MASQUERADE"@],
        out@.args == seq!["-A"@, "FORWARD"@, "-s"@, network@, "-j"@, "ACCEPT"@],
        exchanged(out, back, 2, "-s"@, "-d"@),
        clamp@.args == seq![
            "-t"@,
            "mangle"@,
            "-A"@,
            "FORWARD"@,
            "-p"@,
            "tcp"@,
            "--tcp-flags"@,
            "SYN,RST"@,
            "SYN"@,
            "-j"@,
            "TCPMSS"@,
            "--clamp-mss-to-pmtu"@,
        ],
        exchanged(adds, asks, 0, "-A"@, "-C"@) || exchanged(adds, asks, 2, "-A"@, "-C"@),
        exists|i: int| 0 <= i < 4 && #[trigger] rules@[i] == rule,
{
    assert(back@.args =~= out@.args.update(2, "-d"@));
    assert(rules@[0] == ForwardRule::Masquerade && rules@[1] == ForwardRule::FromNetwork);
    assert(rules@[2] == ForwardRule::ToNetwork && rules@[3] == ForwardRule::ClampSegments);
    match rule {
        ForwardRule::Masquerade | ForwardRule::ClampSegments => {
            assert(asks@.args =~= adds@.args.update(2, "-C"@));
        },
        ForwardRule::FromNetwork | ForwardRule::ToNetwork => {
            assert(asks@.args =~= adds@.args.update(0, "-C"@));
        },
    }
}

/// The system forwards where it says `1`, blanks aside.
pub proof fn law_forwarding_is_on(value: &str, on: bool)
    requires
        call_ensures(forwarding_is_on, (value,), on),
    ensures
        on <==> trim(value@) == "1"@,
{
}

} // verus!
