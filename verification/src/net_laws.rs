//! IP addresses as they are written.

use vstd::prelude::*;

use crate::net::{
    gap_in, group_numbers, group_text, groups_in, hex_number, is_ip, parse_ip, parse_ipv4, v4_octets, Ip, PeerAddr,
};
use crate::text::{hex_value, split};

verus! {

/// Whether two colons stand at a place.
pub open spec fn gap_at(s: Seq<char>, i: int) -> bool {
    0 <= i && i + 1 < s.len() && s[i] == ':' && s[i + 1] == ':'
}

proof fn lemma_gap(s: Seq<char>, at: int)
    requires
        forall|i: int| 0 <= i < at ==> !gap_at(s, i),
        gap_at(s, at),
    ensures
        gap_in(s) == Some(at),
    decreases s.len(),
{
    if at > 0 {
        assert(!gap_at(s, 0));
        let t = s.skip(1);
        assert forall|i: int| 0 <= i < at - 1 implies !gap_at(t, i) by {
            assert(!gap_at(s, i + 1));
            assert(gap_at(t, i) == gap_at(s, i + 1));
        }
        assert(gap_at(t, at - 1));
        lemma_gap(t, at - 1);
    }
}

proof fn lemma_no_gap(s: Seq<char>)
    requires
        forall|i: int| !gap_at(s, i),
    ensures
        gap_in(s) is None,
    decreases s.len(),
{
    if s.len() >= 2 {
        assert(!gap_at(s, 0));
        let t = s.skip(1);
        assert forall|i: int| !gap_at(t, i) by {
            assert(!gap_at(s, i + 1));
            if gap_at(t, i) {
                assert(gap_at(s, i + 1));
            }
        }
        lemma_no_gap(t);
    }
}

/// The number that up to four hexadecimal digits spell.
pub open spec fn spelled(s: Seq<char>) -> int {
    let d = |k: int|
        if k < 0 {
            0int
        } else {
            hex_value(s[k])->0 as int
        };
    let n = s.len() as int;
    d(n - 4) * 4096 + d(n - 3) * 256 + d(n - 2) * 16 + d(n - 1)
}

proof fn lemma_spelled(s: Seq<char>)
    requires
        group_text(s),
    ensures
        hex_number(s) == spelled(s),
        0 <= spelled(s) <= 0xffff,
{
    reveal_with_fuel(hex_number, 6);
    let n = s.len() as int;
    let a = s.drop_last();
    let b = a.drop_last();
    let c = b.drop_last();
    assert forall|i: int| 0 <= i < s.len() implies hex_value(#[trigger] s[i]) is Some && hex_value(s[i])->0 < 16 by {}
}

/// Eight groups of digits with colons between them are an address, group by
/// group.
pub proof fn law_eight_groups(s: &[char], ip: Option<Ip>, pieces: Seq<Seq<char>>, i: int)
    requires
        call_ensures(parse_ip, (s,), ip),
        v4_octets(s@) is None,
        forall|k: int| !gap_at(s@, k),
        split(s@, seq![':']) == pieces,
        pieces.len() == 8,
        forall|k: int| 0 <= k < 8 ==> group_text(#[trigger] pieces[k]),
        0 <= i < 8,
    ensures
        ip matches Some(Ip::V6(groups)) && groups@[i] == spelled(pieces[i]),
{
    lemma_no_gap(s@);
    if s@.len() == 0 {
        assert(split(s@, seq![':']).len() == 1);
    }
    assert(group_text(pieces[7]));
    lemma_spelled(pieces[i]);
    assert(group_numbers(pieces)[i] == hex_number(pieces[i]) as u16);
}

/// Two colons stand for the groups of zeros that are left out: those before
/// them come first, those behind them last.
pub proof fn law_gap(
    s: &[char],
    ip: Option<Ip>,
    a: Seq<char>,
    b: Seq<char>,
    before: Seq<Seq<char>>,
    after: Seq<Seq<char>>,
    i: int,
)
    requires
        call_ensures(parse_ip, (s,), ip),
        v4_octets(s@) is None,
        s@ == a + seq![':', ':'] + b,
        forall|k: int| 0 <= k < a.len() ==> !gap_at(s@, k),
        a.len() == 0 && before.len() == 0 || a.len() > 0 && split(a, seq![':']) == before,
        b.len() == 0 && after.len() == 0 || b.len() > 0 && split(b, seq![':']) == after,
        a.len() > 0 ==> before.len() > 0,
        b.len() > 0 ==> after.len() > 0,
        forall|k: int| 0 <= k < before.len() ==> group_text(#[trigger] before[k]),
        forall|k: int| 0 <= k < after.len() ==> group_text(#[trigger] after[k]),
        0 <= i < 8,
    ensures
        before.len() + after.len() <= 7 ==> (ip matches Some(Ip::V6(groups)) && {
            &&& i < before.len() ==> groups@[i] == spelled(before[i])
            &&& before.len() <= i < 8 - after.len() ==> groups@[i] == 0
            &&& 8 - after.len() <= i ==> groups@[i] == spelled(after[i - 8 + after.len()])
        }),
        before.len() + after.len() > 7 ==> ip is None,
{
    let at = a.len() as int;
    assert(s@[at] == ':' && s@[at + 1] == ':');
    lemma_gap(s@, at);
    assert(s@.take(at) =~= a);
    assert(s@.skip(at + 2) =~= b);
    if a.len() > 0 {
        assert(group_text(before[before.len() - 1]));
        assert(groups_in(a, false) == Some(group_numbers(before)));
    } else {
        assert(group_numbers(before) =~= Seq::<u16>::empty());
    }
    if b.len() > 0 {
        assert(group_text(after[after.len() - 1]));
        assert(groups_in(b, true) == Some(group_numbers(after)));
    } else {
        assert(group_numbers(after) =~= Seq::<u16>::empty());
    }
    if i < before.len() {
        lemma_spelled(before[i]);
    }
    if 0 <= i - 8 + after.len() < after.len() {
        lemma_spelled(after[i - 8 + after.len()]);
    }
}

/// Text is an address where it is one of either kind; four numbers are always
/// the first kind. All zeros are the address of nobody.
pub proof fn law_either_kind(
    s: &[char],
    ip: Option<Ip>,
    four: Option<[u8; 4]>,
    yes: bool,
    any: &Ip,
    nobody: bool,
    peer: PeerAddr,
    i: int,
)
    requires
        call_ensures(parse_ip, (s,), ip),
        call_ensures(parse_ipv4, (s,), four),
        call_ensures(is_ip, (s,), yes),
        call_ensures(Ip::is_unspecified, (any,), nobody),
        call_ensures(PeerAddr::unspecified, (), peer),
    ensures
        yes <==> ip is Some,
        four matches Some(four) ==> (ip matches Some(Ip::V4(octets)) && octets@ == four@),
        ip matches Some(Ip::V4(octets)) ==> (four matches Some(four) && four@ == octets@),
        *any matches Ip::V4(octets) ==> (nobody <==> octets@[0] == 0 && octets@[1] == 0 && octets@[2] == 0 && octets@[3]
            == 0),
        *any matches Ip::V6(groups) ==> (nobody && 0 <= i < 8 ==> groups@[i] == 0),
        *any matches Ip::V6(groups) ==> ((forall|k: int| 0 <= k < 8 ==> #[trigger] groups@[k] == 0) ==> nobody),
        peer == (PeerAddr::V4 { ip: 0, port: 0 }),
{
    match *any {
        Ip::V4(octets) => {
            let zero = seq![0u8, 0, 0, 0];
            if octets@[0] == 0 && octets@[1] == 0 && octets@[2] == 0 && octets@[3] == 0 {
                assert(octets@ =~= zero);
            }
            assert(zero[0] == 0 && zero[1] == 0 && zero[2] == 0 && zero[3] == 0);
        },
        Ip::V6(groups) => {
            let zero = seq![0u16, 0, 0, 0, 0, 0, 0, 0];
            assert forall|k: int| 0 <= k < 8 implies #[trigger] zero[k] == 0 by {}
            if forall|k: int| 0 <= k < 8 ==> #[trigger] groups@[k] == 0 {
                assert(groups@ =~= zero);
            }
            if 0 <= i < 8 {
                assert(zero[i] == 0);
            }
        },
    }
}

} // verus!
