//! What the system's commands say of its routes.

use vstd::prelude::*;

use super::routing::TUNNEL_GATEWAY;
use crate::net::{ip_in, parse_ip, parse_ipv4, v4_octets, Ip, IpValue};
use crate::text::{
    after, begins_with, chars_of, holds, holds_text, lower_all, lowered, number, owned, parse_number,
    same_ignoring_case, spells, split, split_at, split_words, string_of, trim, trimmed, views, words,
};
use crate::wire::same_bytes;

verus! {

/// The lines of a text.
pub open spec fn lines(text: Seq<char>) -> Seq<Seq<char>> {
    split(text, seq!['\n'])
}

fn lines_of(text: &str) -> (out: Vec<Vec<char>>)
    ensures
        views(out@) == lines(text@),
{
    let newline: [char; 1] = ['\n'];
    assert(newline@ =~= seq!['\n']);
    split_at(&chars_of(text), &newline)
}

// ---------------------------------------------------------------------------
// macOS
// ---------------------------------------------------------------------------

/// The value behind `key` where a line starts with it.
pub open spec fn value_on(line: Seq<char>, key: Seq<char>) -> Option<Seq<char>> {
    let line = trim(line);
    if key.len() <= line.len() && line.take(key.len() as int) == key {
        Some(trim(line.skip(key.len() as int)))
    } else {
        None
    }
}

/// The value on the first line that starts with `key`.
pub open spec fn first_value(lines: Seq<Seq<char>>, key: Seq<char>) -> Option<Seq<char>>
    decreases lines.len(),
{
    if lines.len() == 0 {
        None
    } else {
        match value_on(lines[0], key) {
            Some(value) => Some(value),
            None => first_value(lines.skip(1), key),
        }
    }
}

/// The value on the last line that starts with `key`.
pub open spec fn last_value(lines: Seq<Seq<char>>, key: Seq<char>) -> Option<Seq<char>>
    decreases lines.len(),
{
    if lines.len() == 0 {
        None
    } else {
        match value_on(lines.last(), key) {
            Some(value) => Some(value),
            None => last_value(lines.drop_last(), key),
        }
    }
}

fn read_value(line: &[char], key: &str) -> (value: Option<Vec<char>>)
    ensures
        match value {
            Some(value) => value_on(line@, key@) == Some(value@),
            None => value_on(line@, key@) is None,
        },
{
    let key = chars_of(key);
    let line = trimmed(line);
    if begins_with(line, &key) {
        Some(owned(trimmed(after(line, key.len()))))
    } else {
        None
    }
}

fn find_first_value(text: &str, key: &str) -> (value: Option<Vec<char>>)
    ensures
        match value {
            Some(value) => first_value(lines(text@), key@) == Some(value@),
            None => first_value(lines(text@), key@) is None,
        },
{
    let list = lines_of(text);
    let ghost all = lines(text@);
    let mut i: usize = 0;
    assert(all.skip(0) =~= all);
    while i < list.len()
        invariant
            i <= list@.len(),
            all == views(list@),
            all == lines(text@),
            first_value(all, key@) == first_value(all.skip(i as int), key@),
        decreases list@.len() - i,
    {
        assert(all.skip(i as int)[0] == all[i as int]);
        assert(all.skip(i as int).skip(1) =~= all.skip(i + 1));
        assert(all[i as int] == list@[i as int]@);
        if let Some(value) = read_value(&list[i], key) {
            return Some(value);
        }
        i = i + 1;
    }
    None
}

fn find_last_value(text: &str, key: &str) -> (value: Option<Vec<char>>)
    ensures
        match value {
            Some(value) => last_value(lines(text@), key@) == Some(value@),
            None => last_value(lines(text@), key@) is None,
        },
{
    let list = lines_of(text);
    let ghost all = lines(text@);
    let mut n: usize = list.len();
    assert(all.take(n as int) =~= all);
    while n > 0
        invariant
            n <= list@.len(),
            all == views(list@),
            all == lines(text@),
            last_value(all, key@) == last_value(all.take(n as int), key@),
        decreases n,
    {
        assert(all.take(n as int).last() == all[n - 1]);
        assert(all.take(n as int).drop_last() =~= all.take(n - 1));
        assert(all[n - 1] == list@[n - 1]@);
        if let Some(value) = read_value(&list[n - 1], key) {
            return Some(value);
        }
        n = n - 1;
    }
    None
}

#[derive(Debug, Clone, Copy, PartialEq, Eq, Structural)]
pub enum RouteError {
    /// no default gateway found
    NoGateway,
    /// cannot parse default gateway
    BadGateway,
}

/// The gateway that a text names, if any.
pub open spec fn gateway_of(value: Option<Seq<char>>) -> Result<IpValue, RouteError> {
    match value {
        None => Err(RouteError::NoGateway),
        Some(value) => match ip_in(value) {
            Some(ip) => Ok(ip),
            None => Err(RouteError::BadGateway),
        },
    }
}

/// What `route -n get default` says of the gateway.
pub fn mac_default_gateway(text: &str) -> (gateway: Result<Ip, RouteError>)
    ensures
        match gateway {
            Ok(ip) => gateway_of(first_value(lines(text@), "gateway:"@)) == Ok::<IpValue, RouteError>(ip@),
            Err(error) => gateway_of(first_value(lines(text@), "gateway:"@)) == Err::<IpValue, RouteError>(error),
        },
{
    match find_first_value(text, "gateway:") {
        None => Err(RouteError::NoGateway),
        Some(value) => match parse_ip(&value) {
            Some(ip) => Ok(ip),
            None => Err(RouteError::BadGateway),
        },
    }
}

/// What `route -n get default` says of the device.
pub fn mac_default_interface(text: &str) -> (name: Option<String>)
    ensures
        match name {
            Some(name) => first_value(lines(text@), "interface:"@) == Some(name@),
            None => first_value(lines(text@), "interface:"@) is None,
        },
{
    match find_first_value(text, "interface:") {
        Some(value) => Some(string_of(&value)),
        None => None,
    }
}

/// Whether a device is a tunnel.
pub open spec fn is_tunnel_name(name: Seq<char>) -> bool {
    name.len() >= 4 && name.take(4) == "utun"@
}

fn names_tunnel(name: &[char]) -> (yes: bool)
    ensures
        yes == is_tunnel_name(name@),
{
    proof {
        reveal_strlit("utun");
    }
    begins_with(name, &chars_of("utun"))
}

/// Whether `route -n get -inet` of the server shows its own route: by the
/// gateway, and neither through a tunnel nor to the host itself.
pub open spec fn is_host_route(text: Seq<char>, gateway: IpValue) -> bool {
    &&& last_value(lines(text), "gateway:"@) matches Some(value)
    &&& ip_in(value) == Some(gateway)
    &&& last_value(lines(text), "interface:"@) matches Some(name) ==> !is_tunnel_name(name) && name != "lo0"@
}

fn ip_matches(a: &Ip, b: &Ip) -> (yes: bool)
    ensures
        yes == (a@ == b@),
{
    match (a, b) {
        (Ip::V4(x), Ip::V4(y)) => same_bytes(x, y),
        (Ip::V6(x), Ip::V6(y)) => {
            let yes: bool = x[0] == y[0] && x[1] == y[1] && x[2] == y[2] && x[3] == y[3] && x[4] == y[4] && x[5] == y[5]
                && x[6] == y[6] && x[7] == y[7];
            assert(yes ==> x@ =~= y@);
            yes
        },
        _ => false,
    }
}

pub fn host_route_ok(text: &str, gateway: &Ip) -> (ok: bool)
    ensures
        ok == is_host_route(text@, gateway@),
{
    let value = match find_last_value(text, "gateway:") {
        Some(value) => value,
        None => return false,
    };
    let found = match parse_ip(&value) {
        Some(ip) => ip,
        None => return false,
    };
    if !ip_matches(&found, gateway) {
        return false;
    }
    match find_last_value(text, "interface:") {
        Some(name) => !names_tunnel(&name) && !spells(&name, "lo0"),
        None => true,
    }
}

/// Whether `route -n get -inet` of a far address leads into the tunnel.
pub fn split_default_ok(text: &str) -> (ok: bool)
    ensures
        ok == (last_value(lines(text@), "gateway:"@) == Some(TUNNEL_GATEWAY@) || (last_value(
            lines(text@),
            "interface:"@,
        ) matches Some(name) && is_tunnel_name(name))),
{
    if let Some(value) = find_last_value(text, "gateway:") {
        if spells(&value, TUNNEL_GATEWAY) {
            return true;
        }
    }
    match find_last_value(text, "interface:") {
        Some(name) => names_tunnel(&name),
        None => false,
    }
}

/// Whether `route -n get -inet6` of a far address leads nowhere.
pub fn ipv6_blackholes_ok(text: &str) -> (ok: bool)
    ensures
        ok == (holds(lower_all(text@), "blackhole"@) || holds(lower_all(text@), "interface: lo0"@)),
{
    let low = lowered(&chars_of(text));
    holds_text(&low, &chars_of("blackhole")) || holds_text(&low, &chars_of("interface: lo0"))
}

/// Whether `route -n get default` shows a gateway outside the tunnel.
pub fn lan_default_ok(text: &str) -> (ok: bool)
    ensures
        ok == (holds(text@, "gateway:"@) && !holds(text@, "interface: utun"@)),
{
    let chars = chars_of(text);
    holds_text(&chars, &chars_of("gateway:")) && !holds_text(&chars, &chars_of("interface: utun"))
}

/// Whether a route command failed only because there was nothing to do.
pub fn route_failure_is_harmless(stderr: &str) -> (harmless: bool)
    ensures
        harmless == (holds(stderr@, "File exists"@) || holds(stderr@, "not in table"@)),
{
    let chars = chars_of(stderr);
    holds_text(&chars, &chars_of("File exists")) || holds_text(&chars, &chars_of("not in table"))
}

/// The device's own address, from `ipconfig getifaddr`.
pub fn mac_outbound_ipv4(text: &str) -> (ip: Option<[u8; 4]>)
    ensures
        match ip {
            Some(octets) => v4_octets(trim(text@)) == Some(octets@),
            None => v4_octets(trim(text@)) is None,
        },
{
    let chars = chars_of(text);
    parse_ipv4(trimmed(&chars))
}

// ---------------------------------------------------------------------------
// Linux
// ---------------------------------------------------------------------------

/// The word behind the first `key`.
pub open spec fn word_after(words: Seq<Seq<char>>, key: Seq<char>) -> Option<Seq<char>>
    decreases words.len(),
{
    if words.len() == 0 {
        None
    } else if words[0] == key {
        if words.len() > 1 {
            Some(words[1])
        } else {
            None
        }
    } else {
        word_after(words.skip(1), key)
    }
}

fn find_word_after(text: &str, key: &str) -> (word: Option<Vec<char>>)
    ensures
        match word {
            Some(word) => word_after(words(text@), key@) == Some(word@),
            None => word_after(words(text@), key@) is None,
        },
{
    let list = split_words(&chars_of(text));
    let ghost all = words(text@);
    let mut i: usize = 0;
    assert(all.skip(0) =~= all);
    while i < list.len()
        invariant
            i <= list@.len(),
            all == views(list@),
            all == words(text@),
            word_after(all, key@) == word_after(all.skip(i as int), key@),
        decreases list@.len() - i,
    {
        assert(all.skip(i as int)[0] == all[i as int]);
        assert(all.skip(i as int).skip(1) =~= all.skip(i + 1));
        assert(all[i as int] == list@[i as int]@);
        if spells(&list[i], key) {
            if i + 1 < list.len() {
                assert(all.skip(i as int)[1] == all[i + 1]);
                return Some(owned(&list[i + 1]));
            }
            return None;
        }
        i = i + 1;
    }
    None
}

/// What `ip route show default` says of the gateway.
pub fn linux_default_gateway(text: &str) -> (gateway: Result<Ip, RouteError>)
    ensures
        match gateway {
            Ok(ip) => gateway_of(word_after(words(text@), "via"@)) == Ok::<IpValue, RouteError>(ip@),
            Err(error) => gateway_of(word_after(words(text@), "via"@)) == Err::<IpValue, RouteError>(error),
        },
{
    match find_word_after(text, "via") {
        None => Err(RouteError::NoGateway),
        Some(value) => match parse_ip(&value) {
            Some(ip) => Ok(ip),
            None => Err(RouteError::BadGateway),
        },
    }
}

/// What `ip route show default` says of the device.
pub fn parse_linux_default_iface(text: &str) -> (name: Option<String>)
    ensures
        match name {
            Some(name) => word_after(words(text@), "dev"@) == Some(name@),
            None => word_after(words(text@), "dev"@) is None,
        },
{
    match find_word_after(text, "dev") {
        Some(word) => Some(string_of(&word)),
        None => None,
    }
}

// ---------------------------------------------------------------------------
// Windows
// ---------------------------------------------------------------------------

/// Whether the columns are those of a default route.
pub open spec fn is_default_line(columns: Seq<Seq<char>>) -> bool {
    columns.len() >= 3 && columns[0] == "0.0.0.0"@ && columns[1] == "0.0.0.0"@
}

/// The gateway of the first default route that has one.
pub open spec fn windows_gateway(lines: Seq<Seq<char>>) -> Option<IpValue>
    decreases lines.len(),
{
    if lines.len() == 0 {
        None
    } else {
        let columns = words(lines[0]);
        if is_default_line(columns) && ip_in(columns[2]) is Some && !ip_in(columns[2])->0.unspecified() {
            ip_in(columns[2])
        } else {
            windows_gateway(lines.skip(1))
        }
    }
}

fn is_default(columns: &Vec<Vec<char>>) -> (yes: bool)
    ensures
        yes == is_default_line(views(columns@)),
{
    if columns.len() < 3 {
        return false;
    }
    assert(views(columns@)[0] == columns@[0]@ && views(columns@)[1] == columns@[1]@);
    spells(&columns[0], "0.0.0.0") && spells(&columns[1], "0.0.0.0")
}

/// The default gateway in what `route print -4` says.
pub fn parse_windows_route_print_gateway(text: &str) -> (gateway: Option<Ip>)
    ensures
        match gateway {
            Some(ip) => windows_gateway(lines(text@)) == Some(ip@),
            None => windows_gateway(lines(text@)) is None,
        },
{
    let list = lines_of(text);
    let ghost all = lines(text@);
    let mut i: usize = 0;
    assert(all.skip(0) =~= all);
    while i < list.len()
        invariant
            i <= list@.len(),
            all == views(list@),
            all == lines(text@),
            windows_gateway(all) == windows_gateway(all.skip(i as int)),
        decreases list@.len() - i,
    {
        assert(all.skip(i as int)[0] == all[i as int]);
        assert(all.skip(i as int).skip(1) =~= all.skip(i + 1));
        assert(all[i as int] == list@[i as int]@);
        let columns = split_words(&list[i]);
        if is_default(&columns) {
            assert(views(columns@)[2] == columns@[2]@);
            if let Some(ip) = parse_ip(&columns[2]) {
                if !ip.is_unspecified() {
                    return Some(ip);
                }
            }
        }
        i = i + 1;
    }
    None
}

/// Whether a host can be reached at these octets from outside it.
pub open spec fn outward(octets: Seq<u8>) -> bool {
    !IpValue::V4(octets).unspecified() && octets[0] != 127
}

/// The device's own address on the first default route that has one. A
/// gateway that is no address ends the search.
pub open spec fn windows_iface(lines: Seq<Seq<char>>) -> Option<Seq<u8>>
    decreases lines.len(),
{
    if lines.len() == 0 {
        None
    } else {
        let columns = words(lines[0]);
        let rest = windows_iface(lines.skip(1));
        if !is_default_line(columns) || columns.len() < 4 {
            rest
        } else {
            match ip_in(columns[2]) {
                None => None,
                Some(gateway) => if gateway.unspecified() {
                    rest
                } else {
                    match v4_octets(columns[3]) {
                        Some(octets) => if outward(octets) {
                            Some(octets)
                        } else {
                            rest
                        },
                        None => rest,
                    }
                },
            }
        }
    }
}

/// The default route's own address in what `route print -4` says.
pub fn parse_windows_route_print_iface_ipv4(text: &str) -> (ip: Option<[u8; 4]>)
    ensures
        match ip {
            Some(octets) => windows_iface(lines(text@)) == Some(octets@),
            None => windows_iface(lines(text@)) is None,
        },
{
    let list = lines_of(text);
    let ghost all = lines(text@);
    let mut i: usize = 0;
    assert(all.skip(0) =~= all);
    while i < list.len()
        invariant
            i <= list@.len(),
            all == views(list@),
            all == lines(text@),
            windows_iface(all) == windows_iface(all.skip(i as int)),
        decreases list@.len() - i,
    {
        assert(all.skip(i as int)[0] == all[i as int]);
        assert(all.skip(i as int).skip(1) =~= all.skip(i + 1));
        assert(all[i as int] == list@[i as int]@);
        let columns = split_words(&list[i]);
        if is_default(&columns) && columns.len() >= 4 {
            assert(views(columns@)[2] == columns@[2]@);
            assert(views(columns@)[3] == columns@[3]@);
            match parse_ip(&columns[2]) {
                None => return None,
                Some(gateway) => {
                    if !gateway.is_unspecified() {
                        if let Some(octets) = parse_ipv4(&columns[3]) {
                            let own = Ip::V4(octets);
                            if !own.is_unspecified() && octets[0] != 127 {
                                return Some(octets);
                            }
                        }
                    }
                },
            }
        }
        i = i + 1;
    }
    None
}

/// Words with a space between them.
pub open spec fn spaced(list: Seq<Seq<char>>) -> Seq<char>
    decreases list.len(),
{
    if list.len() == 0 {
        Seq::empty()
    } else if list.len() == 1 {
        list[0]
    } else {
        spaced(list.drop_last()) + seq![' '] + list.last()
    }
}

/// The number of the device with this name, case aside: first column and,
/// behind three more, the name.
pub open spec fn netsh_index(lines: Seq<Seq<char>>, name: Seq<char>) -> Option<nat>
    decreases lines.len(),
{
    if lines.len() == 0 {
        None
    } else {
        let columns = words(lines[0]);
        let rest = netsh_index(lines.skip(1), name);
        if columns.len() == 0 {
            rest
        } else {
            match number(columns[0], u32::MAX as nat) {
                None => rest,
                Some(index) => if lower_all(name_from(columns)) == lower_all(name) {
                    Some(index)
                } else {
                    rest
                },
            }
        }
    }
}

/// The columns behind the fourth, as one name.
pub open spec fn name_from(columns: Seq<Seq<char>>) -> Seq<char> {
    if columns.len() <= 4 {
        Seq::empty()
    } else {
        spaced(columns.skip(4))
    }
}

fn read_name(columns: &Vec<Vec<char>>) -> (name: Vec<char>)
    ensures
        name@ == name_from(views(columns@)),
{
    let ghost all = views(columns@);
    let mut name: Vec<char> = Vec::new();
    if columns.len() <= 4 {
        assert(name@ =~= Seq::<char>::empty());
        return name;
    }
    let mut i: usize = 4;
    assert(all.skip(4).take(0) =~= Seq::empty());
    while i < columns.len()
        invariant
            4 <= i <= columns@.len(),
            all == views(columns@),
            name@ == spaced(all.skip(4).take(i - 4)),
        decreases columns@.len() - i,
    {
        assert(all.skip(4).take(i - 3).drop_last() =~= all.skip(4).take(i - 4));
        assert(all.skip(4).take(i - 3).last() == columns@[i as int]@);
        if i > 4 {
            name.push(' ');
        }
        name.extend_from_slice(&columns[i]);
        i = i + 1;
        assert(name@ =~= spaced(all.skip(4).take(i - 4)));
    }
    assert(all.skip(4).take(i - 4) =~= all.skip(4));
    name
}

/// The number of the tunnel device in what `netsh` says.
pub fn parse_netsh_interface_index(text: &str, tun_name: &str) -> (index: Option<u32>)
    ensures
        ({
            let name = trim(tun_name@);
            let found = if name.len() == 0 {
                None
            } else {
                netsh_index(lines(text@), name)
            };
            match index {
                Some(index) => found == Some(index as nat),
                None => found is None,
            }
        }),
{
    let chars = chars_of(tun_name);
    let want = trimmed(&chars);
    if want.len() == 0 {
        return None;
    }
    let list = lines_of(text);
    let ghost all = lines(text@);
    let mut i: usize = 0;
    assert(all.skip(0) =~= all);
    while i < list.len()
        invariant
            i <= list@.len(),
            all == views(list@),
            all == lines(text@),
            want@ == trim(tun_name@),
            want@.len() > 0,
            netsh_index(all, want@) == netsh_index(all.skip(i as int), want@),
        decreases list@.len() - i,
    {
        assert(all.skip(i as int)[0] == all[i as int]);
        assert(all.skip(i as int).skip(1) =~= all.skip(i + 1));
        assert(all[i as int] == list@[i as int]@);
        let columns = split_words(&list[i]);
        if columns.len() > 0 {
            assert(views(columns@)[0] == columns@[0]@);
            if let Some(index) = parse_number(&columns[0], u32::MAX as u64) {
                if same_ignoring_case(&read_name(&columns), want) {
                    return Some(index as u32);
                }
            }
        }
        i = i + 1;
    }
    None
}

/// The name of the rule that was added, where the system tells it.
pub fn rule_name(text: &str) -> (name: Option<String>)
    ensures
        match name {
            Some(name) => name@ == trim(text@) && name@.len() > 0,
            None => trim(text@).len() == 0,
        },
{
    let chars = chars_of(text);
    let name = trimmed(&chars);
    if name.len() == 0 {
        None
    } else {
        Some(string_of(name))
    }
}

} // verus!
