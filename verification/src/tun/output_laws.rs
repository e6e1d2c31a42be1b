//! What is read from the system's commands: line by line, and from each line
//! what stands behind its key.

use vstd::prelude::*;

use super::route_output::{
    first_value, host_route_ok, ipv6_blackholes_ok, lan_default_ok, last_value, lines,
    linux_default_gateway, mac_default_gateway, mac_default_interface, mac_outbound_ipv4, netsh_index,
    parse_linux_default_iface, parse_netsh_interface_index, parse_windows_route_print_gateway,
    parse_windows_route_print_iface_ipv4, route_failure_is_harmless, rule_name, split_default_ok, value_on,
    windows_gateway, windows_iface, word_after, RouteError,
};
use crate::net::{ip_in, v4_octets, Ip, IpValue};
use crate::text::{holds, lower_all, number, trim, words};
use crate::text_laws::{lemma_split_around, lemma_split_whole};

verus! {

// ---------------------------------------------------------------------------
// macOS
// ---------------------------------------------------------------------------

proof fn lemma_lines(text: Seq<char>, a: Seq<char>, b: Seq<char>)
    requires
        text == a.push('\n') + b,
    ensures
        lines(text) == lines(a) + lines(b),
{
    let newline = seq!['\n'];
    assert(newline[0] == '\n');
    lemma_split_around(a, '\n', b, newline);
}

proof fn lemma_one_line(text: Seq<char>)
    requires
        !text.contains('\n'),
    ensures
        lines(text) == seq![text],
{
    let newline = seq!['\n'];
    assert forall|i: int| 0 <= i < text.len() implies !newline.contains(#[trigger] text[i]) by {
        if newline.contains(text[i]) {
            assert(text[i] == '\n');
            assert(text.contains(text[i]));
        }
    }
    lemma_split_whole(text, newline);
}

proof fn lemma_first_of_both(a: Seq<Seq<char>>, b: Seq<Seq<char>>, key: Seq<char>)
    ensures
        first_value(a + b, key) == (if first_value(a, key) is Some {
            first_value(a, key)
        } else {
            first_value(b, key)
        }),
    decreases a.len(),
{
    if a.len() == 0 {
        assert(a + b =~= b);
    } else {
        lemma_first_of_both(a.skip(1), b, key);
        assert((a + b).skip(1) =~= a.skip(1) + b);
        assert((a + b)[0] == a[0]);
    }
}

proof fn lemma_last_of_both(a: Seq<Seq<char>>, b: Seq<Seq<char>>, key: Seq<char>)
    ensures
        last_value(a + b, key) == (if last_value(b, key) is Some {
            last_value(b, key)
        } else {
            last_value(a, key)
        }),
    decreases b.len(),
{
    if b.len() == 0 {
        assert(a + b =~= a);
    } else {
        lemma_last_of_both(a, b.drop_last(), key);
        assert((a + b).drop_last() =~= a + b.drop_last());
        assert((a + b).last() == b.last());
    }
}

proof fn lemma_value(line: Seq<char>, key: Seq<char>, value: Seq<char>)
    ensures
        trim(line) == key + value ==> value_on(line, key) == Some(trim(value)),
        (forall|rest: Seq<char>| trim(line) != #[trigger] (key + rest)) ==> value_on(line, key) is None,
{
    let t = trim(line);
    if t == key + value {
        assert(t.take(key.len() as int) =~= key);
        assert(t.skip(key.len() as int) =~= value);
    }
    if key.len() <= t.len() && t.take(key.len() as int) == key {
        assert(t =~= key + t.skip(key.len() as int));
    }
}

/// The first line that names a gateway counts, and the first that names a
/// device.
pub proof fn law_mac_lines(
    text: &str,
    a: &str,
    b: &str,
    both: Result<Ip, RouteError>,
    upper: Result<Ip, RouteError>,
    below: Result<Ip, RouteError>,
    name: Option<String>,
    upper_name: Option<String>,
    below_name: Option<String>,
)
    requires
        text@ == a@.push('\n') + b@,
        call_ensures(mac_default_gateway, (text,), both),
        call_ensures(mac_default_gateway, (a,), upper),
        call_ensures(mac_default_gateway, (b,), below),
        call_ensures(mac_default_interface, (text,), name),
        call_ensures(mac_default_interface, (a,), upper_name),
        call_ensures(mac_default_interface, (b,), below_name),
    ensures
        upper matches Ok(ip) ==> (both matches Ok(found) && found@ == ip@),
        upper == Err::<Ip, RouteError>(RouteError::BadGateway) ==> both == Err::<Ip, RouteError>(
            RouteError::BadGateway,
        ),
        upper == Err::<Ip, RouteError>(RouteError::NoGateway) ==> (both is Ok <==> below is Ok),
        upper == Err::<Ip, RouteError>(RouteError::NoGateway) && below is Ok ==> both->Ok_0@ == below->Ok_0@,
        upper_name matches Some(n) ==> (name matches Some(found) && found@ == n@),
        upper_name is None ==> (name is Some <==> below_name is Some),
        upper_name is None && below_name is Some ==> name->0@ == below_name->0@,
{
    lemma_lines(text@, a@, b@);
    lemma_first_of_both(lines(a@), lines(b@), "gateway:"@);
    lemma_first_of_both(lines(a@), lines(b@), "interface:"@);
}

/// On one line a gateway is the address behind `gateway:`, a device the name
/// behind `interface:`.
pub proof fn law_mac_line(
    line: &str,
    value: Seq<char>,
    gateway: Result<Ip, RouteError>,
    name: Option<String>,
)
    requires
        !line@.contains('\n'),
        call_ensures(mac_default_gateway, (line,), gateway),
        call_ensures(mac_default_interface, (line,), name),
    ensures
        trim(line@) == "gateway:"@ + value ==> {
            &&& gateway is Ok <==> ip_in(trim(value)) is Some
            &&& gateway matches Ok(ip) ==> Some(ip@) == ip_in(trim(value))
            &&& gateway is Err ==> gateway == Err::<Ip, RouteError>(RouteError::BadGateway)
        },
        (forall|rest: Seq<char>| trim(line@) != #[trigger] ("gateway:"@ + rest)) ==> gateway == Err::<Ip, RouteError>(
            RouteError::NoGateway,
        ),
        trim(line@) == "interface:"@ + value ==> (name matches Some(name) && name@ == trim(value)),
        (forall|rest: Seq<char>| trim(line@) != #[trigger] ("interface:"@ + rest)) ==> name is None,
{
    lemma_one_line(line@);
    lemma_value(line@, "gateway:"@, value);
    lemma_value(line@, "interface:"@, value);
    reveal_with_fuel(first_value, 3);
    let one = seq![line@];
    assert(one.skip(1) =~= Seq::<Seq<char>>::empty());
}

/// The server's own route goes by the gateway, and neither through a tunnel
/// nor through the host itself; a far address goes through the tunnel.
pub proof fn law_mac_routes(text: &str, gateway: &Ip, host: bool, split: bool, g: Seq<char>, i: Seq<char>)
    requires
        call_ensures(host_route_ok, (text, gateway), host),
        call_ensures(split_default_ok, (text,), split),
        last_value(lines(text@), "gateway:"@) == Some(g),
    ensures
        ip_in(g) != Some(gateway@) ==> !host,
        last_value(lines(text@), "interface:"@) is None ==> (host <==> ip_in(g) == Some(gateway@)),
        last_value(lines(text@), "interface:"@) == Some(i) ==> {
            let tunnel = i.len() >= 4 && i.take(4) == "utun"@;
            &&& host <==> ip_in(g) == Some(gateway@) && !tunnel && i != "lo0"@
            &&& split <==> g == "10.77.0.1"@ || tunnel
        },
        g == "10.77.0.1"@ ==> split,
{
}

/// Of the lines for one key the last counts where a route is checked.
pub proof fn law_mac_last_line(text: &str, a: &str, b: &str, value: Seq<char>, split: bool)
    requires
        text@ == a@.push('\n') + b@,
        !b@.contains('\n'),
        call_ensures(split_default_ok, (text,), split),
    ensures
        trim(b@) == "gateway:"@ + value && trim(value) == "10.77.0.1"@ ==> split,
{
    lemma_lines(text@, a@, b@);
    lemma_one_line(b@);
    lemma_last_of_both(lines(a@), lines(b@), "gateway:"@);
    lemma_value(b@, "gateway:"@, value);
    reveal_with_fuel(last_value, 3);
    let one = seq![b@];
    assert(one.drop_last() =~= Seq::<Seq<char>>::empty());
    assert(one.last() == b@);
}

/// Words that tell how a command went.
pub proof fn law_telling_words(
    text: &str,
    v6: bool,
    lan: bool,
    harmless: bool,
    a: Seq<char>,
    b: Seq<char>,
    rule: Option<String>,
    own: Option<[u8; 4]>,
)
    requires
        call_ensures(ipv6_blackholes_ok, (text,), v6),
        call_ensures(lan_default_ok, (text,), lan),
        call_ensures(route_failure_is_harmless, (text,), harmless),
        call_ensures(rule_name, (text,), rule),
        call_ensures(mac_outbound_ipv4, (text,), own),
    ensures
        lower_all(text@) == a + "blackhole"@ + b || lower_all(text@) == a + "interface: lo0"@ + b ==> v6,
        text@ == a + "File exists"@ + b || text@ == a + "not in table"@ + b ==> harmless,
        text@ == a + "interface: utun"@ + b ==> !lan,
        lan ==> holds(text@, "gateway:"@),
        text@ == a + "gateway:"@ + b && !holds(text@, "interface: utun"@) ==> lan,
        v6 ==> holds(lower_all(text@), "blackhole"@) || holds(lower_all(text@), "interface: lo0"@),
        harmless ==> holds(text@, "File exists"@) || holds(text@, "not in table"@),
        rule is None <==> trim(text@).len() == 0,
        rule matches Some(rule) ==> rule@ == trim(text@),
        own is Some <==> v4_octets(trim(text@)) is Some,
        own matches Some(own) ==> Some(own@) == v4_octets(trim(text@)),
{
    lemma_holds(lower_all(text@), a, "blackhole"@, b);
    lemma_holds(lower_all(text@), a, "interface: lo0"@, b);
    lemma_holds(text@, a, "File exists"@, b);
    lemma_holds(text@, a, "not in table"@, b);
    lemma_holds(text@, a, "interface: utun"@, b);
    lemma_holds(text@, a, "gateway:"@, b);
}

proof fn lemma_holds(s: Seq<char>, a: Seq<char>, p: Seq<char>, b: Seq<char>)
    ensures
        s == a + p + b ==> holds(s, p),
{
    if s == a + p + b {
        assert(s.subrange(a.len() as int, a.len() + p.len() as int) =~= p);
    }
}

// ---------------------------------------------------------------------------
// Linux
// ---------------------------------------------------------------------------

proof fn lemma_word_after(p: Seq<Seq<char>>, key: Seq<char>, w: Seq<char>, q: Seq<Seq<char>>)
    requires
        !p.contains(key),
    ensures
        word_after(p + seq![key, w] + q, key) == Some(w),
    decreases p.len(),
{
    let all = p + seq![key, w] + q;
    if p.len() == 0 {
        assert(all[0] == key && all[1] == w);
    } else {
        assert(all[0] == p[0]);
        assert(p.contains(p[0]));
        assert forall|i: int| 0 <= i < p.skip(1).len() implies p.skip(1)[i] != key by {
            assert(p.contains(p[i + 1]));
        }
        assert(!p.skip(1).contains(key));
        lemma_word_after(p.skip(1), key, w, q);
        assert(all.skip(1) =~= p.skip(1) + seq![key, w] + q);
    }
}

/// The gateway is the word behind the first `via`, the device the word behind
/// the first `dev`.
pub proof fn law_linux_words(
    text: &str,
    p: Seq<Seq<char>>,
    w: Seq<char>,
    q: Seq<Seq<char>>,
    gateway: Result<Ip, RouteError>,
    name: Option<String>,
)
    requires
        call_ensures(linux_default_gateway, (text,), gateway),
        call_ensures(parse_linux_default_iface, (text,), name),
    ensures
        words(text@) == p + seq!["via"@, w] + q && !p.contains("via"@) ==> {
            &&& gateway is Ok <==> ip_in(w) is Some
            &&& gateway matches Ok(ip) ==> Some(ip@) == ip_in(w)
            &&& gateway is Err ==> gateway == Err::<Ip, RouteError>(RouteError::BadGateway)
        },
        words(text@) == p + seq!["dev"@, w] + q && !p.contains("dev"@) ==> (name matches Some(name) && name@ == w),
        words(text@) == p && !p.contains("via"@) ==> gateway == Err::<Ip, RouteError>(RouteError::NoGateway),
        words(text@) == p && !p.contains("dev"@) ==> name is None,
{
    if !p.contains("via"@) {
        lemma_word_after(p, "via"@, w, q);
        lemma_no_word(p, "via"@);
    }
    if !p.contains("dev"@) {
        lemma_word_after(p, "dev"@, w, q);
        lemma_no_word(p, "dev"@);
    }
}

proof fn lemma_no_word(p: Seq<Seq<char>>, key: Seq<char>)
    requires
        !p.contains(key),
    ensures
        word_after(p, key) is None,
    decreases p.len(),
{
    if p.len() > 0 {
        assert(p.contains(p[0]));
        assert forall|i: int| 0 <= i < p.skip(1).len() implies p.skip(1)[i] != key by {
            assert(p.contains(p[i + 1]));
        }
        assert(!p.skip(1).contains(key));
        lemma_no_word(p.skip(1), key);
    }
}

// ---------------------------------------------------------------------------
// Windows
// ---------------------------------------------------------------------------

proof fn lemma_windows_both(a: Seq<Seq<char>>, b: Seq<Seq<char>>, name: Seq<char>)
    ensures
        windows_gateway(a + b) == (if windows_gateway(a) is Some {
            windows_gateway(a)
        } else {
            windows_gateway(b)
        }),
        windows_iface(a) is Some ==> windows_iface(a + b) == windows_iface(a),
        netsh_index(a + b, name) == (if netsh_index(a, name) is Some {
            netsh_index(a, name)
        } else {
            netsh_index(b, name)
        }),
    decreases a.len(),
{
    if a.len() == 0 {
        assert(a + b =~= b);
    } else {
        lemma_windows_both(a.skip(1), b, name);
        assert((a + b).skip(1) =~= a.skip(1) + b);
        assert((a + b)[0] == a[0]);
    }
}

/// The first default route with a gateway counts, and of the devices with the
/// name the first.
pub proof fn law_windows_lines(
    text: &str,
    a: &str,
    b: &str,
    name: &str,
    both: Option<Ip>,
    upper: Option<Ip>,
    below: Option<Ip>,
    index: Option<u32>,
    upper_index: Option<u32>,
    below_index: Option<u32>,
)
    requires
        text@ == a@.push('\n') + b@,
        call_ensures(parse_windows_route_print_gateway, (text,), both),
        call_ensures(parse_windows_route_print_gateway, (a,), upper),
        call_ensures(parse_windows_route_print_gateway, (b,), below),
        call_ensures(parse_netsh_interface_index, (text, name), index),
        call_ensures(parse_netsh_interface_index, (a, name), upper_index),
        call_ensures(parse_netsh_interface_index, (b, name), below_index),
    ensures
        upper matches Some(ip) ==> (both matches Some(found) && found@ == ip@),
        upper is None ==> (both is Some <==> below is Some),
        upper is None && below is Some ==> both->0@ == below->0@,
        upper_index is Some ==> index == upper_index,
        upper_index is None ==> index == below_index,
{
    lemma_lines(text@, a@, b@);
    lemma_windows_both(lines(a@), lines(b@), trim(name@));
}

/// A default route has zeros for network and mask, then its gateway, then the
/// address of the device. A gateway or a device without an address of its own
/// does not count.
pub proof fn law_windows_line(
    line: &str,
    gateway: Option<Ip>,
    own: Option<[u8; 4]>,
    name: &str,
    index: Option<u32>,
)
    requires
        !line@.contains('\n'),
        call_ensures(parse_windows_route_print_gateway, (line,), gateway),
        call_ensures(parse_windows_route_print_iface_ipv4, (line,), own),
        call_ensures(parse_netsh_interface_index, (line, name), index),
    ensures
        ({
            let w = words(line@);
            let default = w.len() >= 3 && w[0] == "0.0.0.0"@ && w[1] == "0.0.0.0"@;
            &&& !default ==> gateway is None && own is None
            &&& default && ip_in(w[2]) is None ==> gateway is None && own is None
            &&& default && ip_in(w[2]) is Some ==> {
                let ip = ip_in(w[2])->0;
                let nobody = ip == IpValue::V4(seq![0u8, 0, 0, 0]) || ip == IpValue::V6(
                    seq![0u16, 0, 0, 0, 0, 0, 0, 0],
                );
                &&& gateway is Some <==> !nobody
                &&& gateway matches Some(found) ==> found@ == ip
                &&& nobody || w.len() < 4 ==> own is None
                &&& !nobody && w.len() >= 4 && v4_octets(w[3]) is Some ==> {
                    let octets = v4_octets(w[3])->0;
                    &&& own is Some <==> octets[0] != 127 && octets != seq![0u8, 0, 0, 0]
                    &&& own matches Some(found) ==> found@ == octets
                }
            }
            &&& trim(name@).len() == 0 ==> index is None
            &&& w.len() == 0 || number(w[0], 0xffff_ffff) is None ==> index is None
            &&& w.len() == 5 && number(w[0], 0xffff_ffff) is Some && lower_all(w[4]) == lower_all(trim(name@)) && trim(
                name@,
            ).len() > 0 ==> (index matches Some(index) && Some(index as nat) == number(w[0], 0xffff_ffff))
            &&& w.len() == 5 && lower_all(w[4]) != lower_all(trim(name@)) ==> index is None
        }),
{
    lemma_one_line(line@);
    let one = seq![line@];
    assert(one.skip(1) =~= Seq::<Seq<char>>::empty());
    reveal_with_fuel(windows_gateway, 3);
    reveal_with_fuel(windows_iface, 3);
    reveal_with_fuel(netsh_index, 3);
    let w = words(line@);
    if w.len() == 5 {
        assert(w.skip(4) =~= seq![w[4]]);
    }
}

} // verus!
