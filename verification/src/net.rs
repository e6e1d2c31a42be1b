//! Addresses as plain values.

use vstd::prelude::*;

use crate::text::{
    after, all_digits, all_hex, before, char_hex_value, digits_value, hex_value, is_all_hex, is_digit, lemma_split_len,
    number, parse_number, split, split_at, views,
};

verus! {

/// Where a peer is: an IP address and a port.
#[derive(Debug, Clone, Copy, PartialEq, Eq, Structural)]
pub enum PeerAddr {
    V4 { ip: u32, port: u16 },
    V6 { address: u128, port: u16, flowinfo: u32, scope_id: u32 },
}

impl PeerAddr {
    /// The address of nobody: 0.0.0.0, port 0.
    pub open spec fn nobody() -> PeerAddr {
        PeerAddr::V4 { ip: 0, port: 0 }
    }

    pub fn unspecified() -> (address: PeerAddr)
        ensures
            address == PeerAddr::nobody(),
    {
        PeerAddr::V4 { ip: 0, port: 0 }
    }
}

// ---------------------------------------------------------------------------
// IP addresses as text
// ---------------------------------------------------------------------------

/// A number up to 255 in decimal, without zeros before it.
pub open spec fn octet_text(s: Seq<char>) -> bool {
    &&& 1 <= s.len() <= 3
    &&& all_digits(s)
    &&& s.len() == 1 || s[0] != '0'
    &&& digits_value(s) <= 255
}

/// The four numbers with dots between them.
pub open spec fn v4_octets(s: Seq<char>) -> Option<Seq<u8>> {
    let pieces = split(s, seq!['.']);
    if pieces.len() == 4 && forall|i: int| 0 <= i < 4 ==> octet_text(#[trigger] pieces[i]) {
        Some(Seq::new(4, |i: int| digits_value(pieces[i]) as u8))
    } else {
        None
    }
}

/// One to four hexadecimal digits.
pub open spec fn group_text(s: Seq<char>) -> bool {
    1 <= s.len() <= 4 && all_hex(s)
}

pub open spec fn hex_number(s: Seq<char>) -> nat
    decreases s.len(),
{
    if s.len() == 0 {
        0
    } else {
        hex_number(s.drop_last()) * 16 + hex_value(s.last())->0
    }
}

pub open spec fn group_numbers(pieces: Seq<Seq<char>>) -> Seq<u16> {
    Seq::new(pieces.len(), |i: int| hex_number(pieces[i]) as u16)
}

/// The groups of an IPv6 address in `s`, with colons between them. An IPv4
/// address at the end stands for two, where it may.
pub open spec fn groups_in(s: Seq<char>, v4_ends: bool) -> Option<Seq<u16>> {
    let pieces = split(s, seq![':']);
    if s.len() == 0 {
        Some(Seq::empty())
    } else if !(forall|i: int| 0 <= i < pieces.len() - 1 ==> group_text(#[trigger] pieces[i])) {
        None
    } else if group_text(pieces.last()) {
        Some(group_numbers(pieces))
    } else if v4_ends && v4_octets(pieces.last()) is Some {
        let octets = v4_octets(pieces.last())->0;
        Some(
            group_numbers(pieces.drop_last()) + seq![
                (octets[0] * 256 + octets[1]) as u16,
                (octets[2] * 256 + octets[3]) as u16,
            ],
        )
    } else {
        None
    }
}

/// Where two colons stand first.
pub open spec fn gap_in(s: Seq<char>) -> Option<int>
    decreases s.len(),
{
    if s.len() < 2 {
        None
    } else if s[0] == ':' && s[1] == ':' {
        Some(0)
    } else {
        match gap_in(s.skip(1)) {
            Some(at) => Some(at + 1),
            None => None,
        }
    }
}

/// Eight groups, or fewer with two colons for the zeros that are left out.
pub open spec fn v6_groups(s: Seq<char>) -> Option<Seq<u16>> {
    match gap_in(s) {
        None => match groups_in(s, true) {
            Some(groups) => if groups.len() == 8 {
                Some(groups)
            } else {
                None
            },
            None => None,
        },
        Some(at) => match (groups_in(s.take(at), false), groups_in(s.skip(at + 2), true)) {
            (Some(head), Some(tail)) => if head.len() + tail.len() <= 7 {
                Some(head + Seq::new((8 - head.len() - tail.len()) as nat, |i: int| 0u16) + tail)
            } else {
                None
            },
            _ => None,
        },
    }
}

/// An IP address.
#[derive(Debug, Clone, Copy, PartialEq, Eq)]
pub enum Ip {
    V4([u8; 4]),
    V6([u16; 8]),
}

pub ghost enum IpValue {
    V4(Seq<u8>),
    V6(Seq<u16>),
}

impl View for Ip {
    type V = IpValue;

    open spec fn view(&self) -> IpValue {
        match self {
            Ip::V4(octets) => IpValue::V4(octets@),
            Ip::V6(groups) => IpValue::V6(groups@),
        }
    }
}

impl IpValue {
    /// The address that stands for none.
    pub open spec fn unspecified(self) -> bool {
        match self {
            IpValue::V4(octets) => octets == seq![0u8, 0, 0, 0],
            IpValue::V6(groups) => groups == seq![0u16, 0, 0, 0, 0, 0, 0, 0],
        }
    }
}

impl Ip {
    pub fn is_unspecified(&self) -> (yes: bool)
        ensures
            yes == self@.unspecified(),
    {
        match self {
            Ip::V4(octets) => {
                let yes: bool = octets[0] == 0 && octets[1] == 0 && octets[2] == 0 && octets[3] == 0;
                proof {
                    let none = seq![0u8, 0, 0, 0];
                    assert(none[0] == 0 && none[1] == 0 && none[2] == 0 && none[3] == 0);
                    assert(yes ==> octets@ =~= none);
                }
                yes
            },
            Ip::V6(groups) => {
                let yes: bool = groups[0] == 0 && groups[1] == 0 && groups[2] == 0 && groups[3] == 0 && groups[4] == 0
                    && groups[5] == 0 && groups[6] == 0 && groups[7] == 0;
                proof {
                    let none = seq![0u16, 0, 0, 0, 0, 0, 0, 0];
                    assert(none[0] == 0 && none[1] == 0 && none[2] == 0 && none[3] == 0);
                    assert(none[4] == 0 && none[5] == 0 && none[6] == 0 && none[7] == 0);
                    assert(yes ==> groups@ =~= none);
                }
                yes
            },
        }
    }
}

/// The address that a text spells.
pub open spec fn ip_in(s: Seq<char>) -> Option<IpValue> {
    match v4_octets(s) {
        Some(octets) => Some(IpValue::V4(octets)),
        None => match v6_groups(s) {
            Some(groups) => Some(IpValue::V6(groups)),
            None => None,
        },
    }
}

/// An IP address.
pub open spec fn ip_text(s: Seq<char>) -> bool {
    ip_in(s) is Some
}

fn parse_octet(s: &[char]) -> (octet: Option<u8>)
    ensures
        match octet {
            Some(octet) => octet_text(s@) && digits_value(s@) == octet,
            None => !octet_text(s@),
        },
{
    if s.len() < 1 || s.len() > 3 {
        return None;
    }
    if s[0] == '+' || (s.len() > 1 && s[0] == '0') {
        assert(s[0] == '+' ==> !all_digits(s@)) by {
            if s@[0] == '+' && all_digits(s@) {
                assert(is_digit(s@[0]));
            }
        }
        return None;
    }
    proof {
        if s@.len() > 0 && s@[0] != '+' {
            assert(number(s@, 255) is Some <==> all_digits(s@) && digits_value(s@) <= 255);
        }
    }
    match parse_number(s, 255) {
        Some(value) => Some(value as u8),
        None => None,
    }
}

/// The IPv4 address that a text spells.
pub fn parse_ipv4(s: &[char]) -> (octets: Option<[u8; 4]>)
    ensures
        match octets {
            Some(octets) => v4_octets(s@) == Some(octets@),
            None => v4_octets(s@) is None,
        },
{
    let dot: [char; 1] = ['.'];
    assert(dot@ =~= seq!['.']);
    let pieces = split_at(s, &dot);
    let ghost all = split(s@, seq!['.']);
    assert(views(pieces@) == all);
    if pieces.len() != 4 {
        return None;
    }
    let mut octets: [u8; 4] = [0u8; 4];
    let mut i: usize = 0;
    while i < 4
        invariant
            i <= 4,
            pieces@.len() == 4,
            all == views(pieces@),
            forall|j: int| 0 <= j < i ==> octet_text(#[trigger] all[j]) && octets@[j] == digits_value(all[j]),
            all == split(s@, seq!['.']),
        decreases 4 - i,
    {
        match parse_octet(&pieces[i]) {
            Some(octet) => {
                octets[i] = octet;
                assert(octets@[i as int] == digits_value(all[i as int]));
            },
            None => {
                assert(!octet_text(all[i as int]));
                return None;
            },
        }
        i = i + 1;
    }
    assert(octets@ =~= Seq::new(4, |i: int| digits_value(all[i]) as u8)) by {
        assert forall|j: int| 0 <= j < 4 implies octets@[j] == digits_value(all[j]) as u8 by {
            assert(octet_text(all[j]));
        }
    }
    Some(octets)
}

fn parse_group(s: &[char]) -> (group: Option<u16>)
    ensures
        match group {
            Some(group) => group_text(s@) && group == hex_number(s@) as u16 && hex_number(s@) <= 0xffff,
            None => !group_text(s@),
        },
{
    if s.len() < 1 || s.len() > 4 || !is_all_hex(s) {
        return None;
    }
    let mut value: u32 = 0;
    let mut limit: Ghost<nat> = Ghost(1);
    let mut i: usize = 0;
    assert(s@.take(0) =~= Seq::<char>::empty());
    while i < s.len()
        invariant
            i <= s.len(),
            s@.len() <= 4,
            all_hex(s@),
            value == hex_number(s@.take(i as int)),
            value < limit@,
            limit@ == (if i == 0 {
                1nat
            } else if i == 1 {
                16
            } else if i == 2 {
                256
            } else if i == 3 {
                4096
            } else {
                65536
            }),
        decreases s.len() - i,
    {
        let digit: u32 = match char_hex_value(s[i]) {
            Some(digit) => digit as u32,
            None => 0,
        };
        proof {
            assert(hex_value(s@[i as int]) is Some);
            assert(s@.take(i + 1).drop_last() =~= s@.take(i as int));
            limit@ = limit@ * 16;
        }
        value = value * 16 + digit;
        i = i + 1;
    }
    assert(s@.take(i as int) =~= s@);
    Some(value as u16)
}

fn collect_groups(s: &[char], v4_ends: bool) -> (groups: Option<Vec<u16>>)
    ensures
        match groups {
            Some(groups) => groups_in(s@, v4_ends) == Some(groups@),
            None => groups_in(s@, v4_ends) is None,
        },
{
    let mut groups: Vec<u16> = Vec::new();
    if s.len() == 0 {
        assert(groups@ =~= Seq::<u16>::empty());
        return Some(groups);
    }
    let colon: [char; 1] = [':'];
    assert(colon@ =~= seq![':']);
    let pieces = split_at(s, &colon);
    let ghost all = split(s@, seq![':']);
    proof {
        lemma_split_len(s@, seq![':']);
    }
    let mut i: usize = 0;
    while i < pieces.len() - 1
        invariant
            i < pieces@.len(),
            all == views(pieces@),
            all == split(s@, seq![':']),
            s@.len() > 0,
            forall|j: int| 0 <= j < i ==> group_text(#[trigger] all[j]),
            groups@ == group_numbers(all.take(i as int)),
        decreases pieces@.len() - i,
    {
        match parse_group(&pieces[i]) {
            Some(group) => {
                groups.push(group);
                assert(groups@ =~= group_numbers(all.take(i + 1)));
            },
            None => {
                assert(!group_text(all[i as int]));
                return None;
            },
        }
        i = i + 1;
    }
    let last = &pieces[i];
    assert(all.last() == last@);
    assert(all.take(i as int) =~= all.drop_last());
    if let Some(group) = parse_group(last) {
        groups.push(group);
        assert(groups@ =~= group_numbers(all));
        return Some(groups);
    }
    if v4_ends {
        if let Some(octets) = parse_ipv4(last) {
            let first: u16 = octets[0] as u16 * 256 + octets[1] as u16;
            let second: u16 = octets[2] as u16 * 256 + octets[3] as u16;
            groups.push(first);
            groups.push(second);
            assert(groups@ =~= groups_in(s@, v4_ends)->0);
            return Some(groups);
        }
    }
    None
}

fn find_gap(s: &[char]) -> (gap: Option<usize>)
    ensures
        match gap {
            Some(at) => gap_in(s@) == Some(at as int) && at + 2 <= s.len(),
            None => gap_in(s@) is None,
        },
{
    let mut i: usize = 0;
    assert(s@.skip(0) =~= s@);
    while s.len() - i >= 2
        invariant
            i <= s.len(),
            gap_in(s@) == (match gap_in(s@.skip(i as int)) {
                Some(at) => Some(at + i),
                None => None,
            }),
        decreases s.len() - i,
    {
        assert(s@.skip(i as int).skip(1) =~= s@.skip(i + 1));
        if s[i] == ':' && s[i + 1] == ':' {
            return Some(i);
        }
        i = i + 1;
    }
    None
}

fn parse_ipv6(s: &[char]) -> (groups: Option<[u16; 8]>)
    ensures
        match groups {
            Some(groups) => v6_groups(s@) == Some(groups@),
            None => v6_groups(s@) is None,
        },
{
    let mut out: [u16; 8] = [0u16; 8];
    match find_gap(s) {
        None => {
            let groups = match collect_groups(s, true) {
                Some(groups) => groups,
                None => return None,
            };
            if groups.len() != 8 {
                return None;
            }
            let mut i: usize = 0;
            while i < 8
                invariant
                    i <= 8,
                    groups@.len() == 8,
                    forall|j: int| 0 <= j < i ==> #[trigger] out@[j] == groups@[j],
                decreases 8 - i,
            {
                out[i] = groups[i];
                i = i + 1;
            }
            assert(out@ =~= groups@);
        },
        Some(at) => {
            let head = match collect_groups(before(s, at), false) {
                Some(head) => head,
                None => return None,
            };
            let tail = match collect_groups(after(s, at + 2), true) {
                Some(tail) => tail,
                None => return None,
            };
            if head.len() > 7 || tail.len() > 7 - head.len() {
                return None;
            }
            let start: usize = 8 - tail.len();
            let mut i: usize = 0;
            while i < 8
                invariant
                    i <= 8,
                    head@.len() <= 7,
                    tail@.len() <= 7 - head@.len(),
                    start == 8 - tail@.len(),
                    forall|j: int|
                        0 <= j < i ==> #[trigger] out@[j] == (if j < head@.len() {
                            head@[j]
                        } else if j < start {
                            0
                        } else {
                            tail@[j - start]
                        }),
                    forall|j: int| i <= j < 8 ==> #[trigger] out@[j] == 0,
                decreases 8 - i,
            {
                if i < head.len() {
                    out[i] = head[i];
                } else if i >= start {
                    out[i] = tail[i - start];
                }
                i = i + 1;
            }
            assert(out@ =~= v6_groups(s@)->0);
        },
    }
    Some(out)
}

/// The IP address that a text spells.
pub fn parse_ip(s: &[char]) -> (ip: Option<Ip>)
    ensures
        match ip {
            Some(ip) => ip_in(s@) == Some(ip@),
            None => ip_in(s@) is None,
        },
{
    if let Some(octets) = parse_ipv4(s) {
        return Some(Ip::V4(octets));
    }
    match parse_ipv6(s) {
        Some(groups) => Some(Ip::V6(groups)),
        None => None,
    }
}

/// Whether a text is an IP address of either kind.
pub fn is_ip(s: &[char]) -> (yes: bool)
    ensures
        yes == ip_text(s@),
{
    parse_ip(s).is_some()
}

} // verus!
