//! What becomes of a connection, and what its records carry.

use vstd::prelude::*;

use super::auth::x25519_public;
use super::cert::{stamp_leaf, verify_hmac_certificate, LeafError};
use super::config::{
    authenticate_at, dest_host, AuthError, AuthenticatedHello, RealityConfigError, RealityServerConfig,
};
use super::hello::{client_hello_in, handshake_in};
use super::hello_build::build_server_hello_handshake;
use super::record_detect::{probe_alpn, RecordSpy};
use super::splice::{
    hello_rest, judge_hello, record_rest, with_post_handshake, DestFlight, DestProbe, HelloVerdict,
};
use super::tls_messages::{
    certificate_msg, encrypted_extensions_msg, parse_certificate, split_handshake, tls_record, CertificateFault,
    TlsError,
};
use super::tls_server::{answer_hello, ServerTalk};
use super::tls_stream::{record_body_len, RecordAssembler, Tls13State};
use crate::text::lower_all;
use crate::wire::{be_bytes, be_value, lemma_be_bytes_len};

verus! {

// ---------------------------------------------------------------------------
// The first record
// ---------------------------------------------------------------------------

/// The number that two bytes spell.
pub open spec fn pair(high: u8, low: u8) -> int {
    high * 256 + low
}

proof fn lemma_pair(s: Seq<u8>, at: int)
    requires
        0 <= at,
        at + 2 <= s.len(),
    ensures
        be_value(s.subrange(at, at + 2)) == pair(s[at], s[at + 1]),
{
    let t = s.subrange(at, at + 2);
    reveal_with_fuel(be_value, 3);
    assert(t.drop_last() =~= seq![s[at]]);
    assert(t.drop_last().drop_last() =~= Seq::<u8>::empty());
}

/// A hello is read in full where it is a handshake record of at most 16384
/// bytes; of another first record nothing more is read. Any other record may
/// have as many bytes.
pub proof fn law_how_much_to_read(
    header: &[u8; 5],
    first: usize,
    next: Option<usize>,
    len: Result<usize, TlsError>,
)
    requires
        call_ensures(hello_rest, (header,), first),
        call_ensures(record_rest, (header,), next),
        call_ensures(record_body_len, (header,), len),
    ensures
        ({
            let n = pair(header@[3], header@[4]);
            &&& header@[0] == 0x16 && n <= 16_384 ==> first == n
            &&& header@[0] != 0x16 || n > 16_384 ==> first == 0
            &&& n <= 16_384 <==> next is Some
            &&& next matches Some(rest) ==> rest == n
            &&& 0 < n <= 16_640 <==> len is Ok
            &&& len matches Ok(len) ==> len == n
            &&& len matches Err(error) ==> error == TlsError::RecordLength
        }),
{
    lemma_pair(header@, 3);
}

/// Each size that the site's records have is used once: a first record over
/// 512 bytes is the whole flight; else the first four are one message each.
/// What is left comes after.
pub proof fn law_sizes(
    flight: &DestFlight,
    whole: Option<usize>,
    apart: Option<[Option<usize>; 4]>,
    rest: &[usize],
    later: &[usize],
    i: int,
)
    requires
        call_ensures(DestFlight::handshake_pad, (flight,), whole),
        call_ensures(DestFlight::split_pads, (flight,), apart),
        call_ensures(DestFlight::extra_pads, (flight,), rest),
        call_ensures(DestFlight::post_handshake_pads, (flight,), later),
    ensures
        ({
            let lens = flight.encrypted_record_lens@;
            let big = lens.len() > 0 && lens[0] > 512;
            &&& big ==> whole == Some(lens[0]) && apart is None && rest@ == lens.subrange(1, lens.len() as int)
            &&& !big ==> whole is None
            &&& !big && lens.len() > 0 ==> apart is Some
            &&& lens.len() == 0 ==> apart is None && rest@.len() == 0
            &&& apart matches Some(apart) ==> {
                &&& 0 <= i < 4 && i < lens.len() ==> apart@[i] == Some(lens[i])
                &&& 0 <= i < 4 && i >= lens.len() ==> apart@[i] is None
            }
            &&& !big && lens.len() <= 4 ==> rest@.len() == 0
            &&& !big && lens.len() > 4 ==> rest@ == lens.subrange(4, lens.len() as int)
            &&& later@ == flight.post_handshake_lens@
        }),
{
    let lens = flight.encrypted_record_lens@;
    if lens.len() > 0 {
        assert(lens.skip(1) =~= lens.subrange(1, lens.len() as int));
    }
    if lens.len() > 4 {
        assert(lens.skip(4) =~= lens.subrange(4, lens.len() as int));
    }
}

/// A sample waits 8000 ms for the first encrypted record and 250 for each
/// after it, up to eight. Encrypted records count with all their bytes; one
/// that changes the cipher is passed over; any other ends the sample.
pub proof fn law_sample(probe: &mut DestProbe, now: &DestProbe, wait: Option<u64>, record: &[u8], more: bool)
    requires
        *now == *old(probe),
        call_ensures(DestProbe::wait_ms, (now,), wait),
        call_ensures(DestProbe::note, (probe, record), more),
    ensures
        ({
            let before = old(probe).flight().encrypted_record_lens@;
            let after = final(probe).flight().encrypted_record_lens@;
            &&& before.len() == 0 ==> wait == Some(8_000u64)
            &&& 0 < before.len() < 8 ==> wait == Some(250u64)
            &&& before.len() >= 8 ==> wait is None
            &&& record@.len() > 0 && record@[0] == 0x17 ==> more && after == before.push(record@.len() as usize)
            &&& record@.len() > 0 && record@[0] == 0x14 ==> more && after == before
            &&& record@.len() == 0 || (record@[0] != 0x17 && record@[0] != 0x14) ==> !more && after == before
            &&& final(probe).flight().server_hello@ == old(probe).flight().server_hello@
        }),
{
}

/// The sizes after the handshake go with the flight; without one they make
/// one, where there are any.
pub proof fn law_later_sizes(
    flight: DestFlight,
    lens: Vec<usize>,
    both: Option<DestFlight>,
    alone: Option<DestFlight>,
)
    requires
        call_ensures(with_post_handshake, (Some(flight), lens), both),
        call_ensures(with_post_handshake, (None::<DestFlight>, lens), alone),
    ensures
        both matches Some(out) && out.server_hello@ == flight.server_hello@ && out.encrypted_record_lens@
            == flight.encrypted_record_lens@ && out.post_handshake_lens@ == lens@,
        lens@.len() == 0 <==> alone is None,
        alone matches Some(out) ==> out.server_hello@.len() == 0 && out.encrypted_record_lens@.len() == 0
            && out.post_handshake_lens@ == lens@,
{
}

/// Who passes the check is a client, with the key of the check. Of the others
/// those stay here who ask for `acme-tls/1` or for one of the server's own
/// names, capital letters aside; the rest goes to the site.
pub proof fn law_verdict(
    record: &[u8],
    config: &RealityServerConfig,
    now: u64,
    check: Result<AuthenticatedHello, AuthError>,
    verdict: HelloVerdict,
    i: int,
)
    requires
        call_ensures(authenticate_at, (record, config, now), check),
        call_ensures(judge_hello, (record, config, now), verdict),
    ensures
        check is Ok <==> verdict is Vpn,
        check matches Ok(auth) ==> (verdict matches HelloVerdict::Vpn { auth_key, server_name, alpn_class } && {
            &&& auth_key@ == auth.auth_key@
            &&& auth.hello.sni matches Some(name) ==> server_name@ == name@
            &&& auth.hello@.alpn.len() == 0 ==> alpn_class == 0
            &&& auth.hello@.alpn.len() > 0 && auth.hello@.alpn[0] == seq![104u8, 50] ==> alpn_class == 2
            &&& auth.hello@.alpn.len() > 0 && auth.hello@.alpn[0] != seq![104u8, 50] ==> alpn_class == 1
        }),
        check is Err && handshake_in(record@) is None ==> verdict is Splice,
        check is Err && handshake_in(record@) is Some && client_hello_in(handshake_in(record@)->0) is None
            ==> verdict is Splice,
        check is Err && handshake_in(record@) is Some && client_hello_in(handshake_in(record@)->0) is Some ==> {
            let hello = client_hello_in(handshake_in(record@)->0)->0;
            let acme = hello.alpn.contains(seq![97u8, 99, 109, 101, 45, 116, 108, 115, 47, 49]);
            &&& acme ==> (verdict matches HelloVerdict::Local { acme } && acme)
            &&& !acme && hello.sni is None ==> verdict is Splice
            &&& !acme && hello.sni is Some && 0 <= i < config.local_names@.len() && lower_all(config.local_names@[i]@)
                == lower_all(hello.sni->0) ==> (verdict matches HelloVerdict::Local { acme } && !acme)
            &&& verdict matches HelloVerdict::Local { acme: false } ==> hello.sni is Some && exists|k: int|
                0 <= k < config.local_names@.len() && lower_all(#[trigger] config.local_names@[k]@) == lower_all(
                    hello.sni->0,
                )
        },
{
    let h2 = super::hello::ALPN_H2;
    let name = super::hello::ALPN_ACME;
    assert(h2@ =~= seq![104u8, 50]);
    assert(name@ =~= seq![97u8, 99, 109, 101, 45, 116, 108, 115, 47, 49]);
}

// ---------------------------------------------------------------------------
// The spy
// ---------------------------------------------------------------------------

/// A client of class 2 offers `h2` and `http/1.1`, one of class 1 the latter,
/// any other nothing.
pub proof fn law_offers(class: u8, protocols: Vec<Vec<u8>>)
    requires
        call_ensures(probe_alpn, (class,), protocols),
    ensures
        class == 2 ==> protocols@.len() == 2 && protocols@[0]@ == seq![104u8, 50] && protocols@[1]@ == seq![
            104u8,
            116,
            116,
            112,
            47,
            49,
            46,
            49,
        ],
        class == 1 ==> protocols@.len() == 1 && protocols@[0]@ == seq![104u8, 116, 116, 112, 47, 49, 46, 49],
        class != 1 && class != 2 ==> protocols@.len() == 0,
{
    let views = super::hello::byte_views(protocols@);
    assert(views.len() == protocols@.len());
    let h2 = super::hello::ALPN_H2;
    let http = super::hello::ALPN_HTTP11;
    assert(h2@ =~= seq![104u8, 50]);
    assert(http@ =~= seq![104u8, 116, 116, 112, 47, 49, 46, 49]);
    if class == 2 || class == 1 {
        assert(views[0] == protocols@[0]@);
    }
    if class == 2 {
        assert(views[1] == protocols@[1]@);
    }
}

/// Nothing that is read counts before the record that changes the cipher is
/// written; that is noticed in a write wherever it stands.
pub proof fn law_spy_waits(
    fresh: RecordSpy,
    spy: &mut RecordSpy,
    buf: &[u8],
    a: Seq<u8>,
    b: Seq<u8>,
    other: &mut RecordSpy,
    input: &[u8],
)
    requires
        call_ensures(RecordSpy::new, (), fresh),
        call_ensures(RecordSpy::note_write, (spy, buf), ()),
        call_ensures(RecordSpy::note_read, (other, input), ()),
    ensures
        !fresh.ccs_sent(),
        fresh.lens_spec().len() == 0 && fresh.leftover().len() == 0 && fresh.write_tail().len() == 0,
        old(spy).ccs_sent() ==> final(spy).ccs_sent(),
        buf@ == a + seq![0x14u8, 3, 3, 0, 1, 1] + b ==> final(spy).ccs_sent(),
        !old(spy).ccs_sent() && buf@.len() + old(spy).write_tail().len() < 6 ==> !final(spy).ccs_sent(),
        final(spy).lens_spec() == old(spy).lens_spec(),
        !old(other).ccs_sent() ==> final(other).lens_spec() == old(other).lens_spec(),
        final(other).ccs_sent() == old(other).ccs_sent(),
{
    let ccs = super::record_detect::CCS;
    let six = seq![0x14u8, 3, 3, 0, 1, 1];
    assert(ccs@ =~= six);
    if buf@ == a + six + b {
        let seen = old(spy).write_tail() + buf@;
        let at = old(spy).write_tail().len() + a.len();
        assert(seen.subrange(at as int, at as int + 6) =~= six);
    }
}

/// A whole record counts with its header where it holds application data, and
/// is passed over where it does not; of a part of one nothing counts yet.
pub proof fn law_spy_counts(spy: &mut RecordSpy, buf: &[u8])
    requires
        call_ensures(RecordSpy::note_read, (spy, buf), ()),
        old(spy).ccs_sent(),
        old(spy).leftover().len() == 0,
        buf@.len() >= 5,
    ensures
        ({
            let total = 5 + pair(buf@[3], buf@[4]);
            &&& buf@.len() == total && total <= 16_640 && buf@[0] == 0x17 ==> final(spy).lens_spec() == old(spy).lens_spec().push(total as usize) && final(spy).leftover().len() == 0
            &&& buf@.len() == total && total <= 16_640 && buf@[0] != 0x17 ==> final(spy).lens_spec() == old(spy).lens_spec() && final(spy).leftover().len() == 0
            &&& buf@.len() < total || total > 16_640 ==> final(spy).lens_spec() == old(spy).lens_spec() && final(spy).leftover() == buf@
        }),
{
    let all = old(spy).leftover() + buf@;
    assert(all =~= buf@);
    lemma_pair(buf@, 3);
    let total = 5 + pair(buf@[3], buf@[4]);
    if buf@.len() == total {
        assert(buf@.skip(total) =~= Seq::<u8>::empty());
        reveal_with_fuel(super::record_detect::take_records, 3);
    }
}

// ---------------------------------------------------------------------------
// After the handshake
// ---------------------------------------------------------------------------

/// What one side writes the other reads, 14336 bytes a record at most: the
/// record is taken with the same keys, and both have counted it.
pub proof fn law_text_arrives(
    here: &mut Tls13State,
    buf: &[u8],
    there: &mut Tls13State,
    body: &[u8],
    filled: Result<bool, TlsError>,
)
    requires
        old(here).wf(),
        old(here).unsent().len() == 0,
        call_ensures(Tls13State::queue, (here, buf), ()),
        old(there).wf(),
        old(there).recv() == old(here).send(),
        body@ == final(here).unsent().skip(5),
        call_ensures(Tls13State::on_record, (there, 0x17, body), filled),
    ensures
        filled == Ok::<bool, TlsError>(true),
        final(there).unread() == (if buf@.len() <= 14_336 {
            buf@
        } else {
            buf@.take(14_336)
        }),
        final(here).queued() == final(there).unread().len(),
        final(here).unsent().len() == final(there).unread().len() + 22,
        final(there).recv() == final(here).send(),
        final(here).send().key == old(here).send().key,
        final(here).send().iv == old(here).send().iv,
        old(here).send().seq < u64::MAX ==> final(here).send().seq == old(here).send().seq + 1,
        final(here).unread() == old(here).unread(),
{
    assert(buf@.take(buf@.len() as int) =~= buf@);
}

/// Text is read in order and once; records that carry none change nothing of
/// it, and an alert ends the connection.
pub proof fn law_reading(
    state: &mut Tls13State,
    max: usize,
    out: Vec<u8>,
    other: &mut Tls13State,
    typ: u8,
    body: &[u8],
    filled: Result<bool, TlsError>,
)
    requires
        old(state).wf(),
        call_ensures(Tls13State::read, (state, max), out),
        old(other).wf(),
        call_ensures(Tls13State::on_record, (other, typ, body), filled),
    ensures
        old(state).unread() == out@ + final(state).unread(),
        out@.len() <= max,
        out@.len() == max || final(state).unread().len() == 0,
        typ != 0x17 ==> final(other).unread() == old(other).unread() && final(other).recv() == old(other).recv(),
        typ == 0x14 ==> filled == Ok::<bool, TlsError>(false),
        typ == 0x15 ==> filled == Err::<bool, TlsError>(TlsError::Alert),
        typ != 0x14 && typ != 0x15 && typ != 0x17 ==> filled == Err::<bool, TlsError>(TlsError::UnexpectedRecord(typ)),
        filled is Err && final(other).recv() == old(other).recv() ==> final(other).unread() == old(other).unread(),
{
    let unread = old(state).unread();
    assert(out@ + final(state).unread() =~= unread);
}

/// A record is written in pieces, and its text counts when the last is out.
pub proof fn law_writing(state: &mut Tls13State, n: usize, done: Result<Option<usize>, TlsError>)
    requires
        old(state).wf(),
        n <= old(state).unsent().len(),
        call_ensures(Tls13State::wrote, (state, n), done),
    ensures
        n == 0 ==> done == Err::<Option<usize>, TlsError>(TlsError::WriteZero) && final(state).unsent() == old(state).unsent(),
        n > 0 ==> done is Ok && final(state).unsent() == old(state).unsent().skip(n as int),
        0 < n < old(state).unsent().len() ==> done == Ok::<Option<usize>, TlsError>(None),
        0 < n && n == old(state).unsent().len() ==> done == Ok::<Option<usize>, TlsError>(Some(old(state).queued())),
{
    if n == old(state).unsent().len() {
        assert(old(state).unsent().skip(n as int) =~= Seq::<u8>::empty());
    }
}

/// A record comes out when its last byte is in, whatever pieces it came in;
/// the end of the connection within one is an error, as is a length of none
/// or more than 16640.
pub proof fn law_record_is_put_together(
    assembler: &mut RecordAssembler,
    bytes: &[u8],
    out: Result<Option<(u8, Vec<u8>)>, TlsError>,
)
    requires
        old(assembler).wf(),
        !old(assembler).refused(),
        bytes@.len() <= old(assembler).missing(),
        call_ensures(RecordAssembler::feed, (assembler, bytes), out),
    ensures
        ({
            let all = old(assembler).got() + bytes@;
            let n = pair(all[3], all[4]);
            &&& bytes@.len() == 0 ==> out == Err::<Option<(u8, Vec<u8>)>, TlsError>(TlsError::UnexpectedEof)
            &&& 0 < bytes@.len() && all.len() < 5 ==> (out matches Ok(None)) && final(assembler).got() == all
            &&& 0 < bytes@.len() && all.len() == 5 && !(0 < n <= 16_640) ==> out == Err::<
                Option<(u8, Vec<u8>)>,
                TlsError,
            >(TlsError::RecordLength)
            &&& 0 < bytes@.len() && all.len() >= 5 && 0 < n <= 16_640 && all.len() < 5 + n ==> (out matches Ok(None))
                && final(assembler).got() == all
            &&& 0 < bytes@.len() && all.len() > 5 && all.len() == 5 + n ==> (out matches Ok(Some((typ, body))) && typ
                == all[0] && body@ == all.skip(5)) && final(assembler).got().len() == 0
        }),
{
    let all = old(assembler).got() + bytes@;
    if all.len() >= 5 {
        lemma_pair(all, 3);
        if old(assembler).got().len() >= 5 {
            assert(all.subrange(3, 5) =~= old(assembler).got().subrange(3, 5));
        }
    }
}

// ---------------------------------------------------------------------------
// Messages
// ---------------------------------------------------------------------------

/// A record is its type, 3, 3, its length and its body.
pub proof fn law_plain_record(typ: u8, body: &[u8], record: Vec<u8>)
    requires
        call_ensures(tls_record, (typ, body), record),
        body@.len() < 65_536,
    ensures
        record@.len() == 5 + body@.len(),
        record@[0] == typ && record@[1] == 3 && record@[2] == 3,
        pair(record@[3], record@[4]) == body@.len(),
        record@.skip(5) == body@,
{
    let n = body@.len();
    lemma_be_bytes_len(n, 2);
    reveal_with_fuel(be_bytes, 3);
    assert(record@[3] == be_bytes(n, 2)[0] && record@[4] == be_bytes(n, 2)[1]);
    assert(record@.skip(5) =~= body@);
}

/// Messages stand one behind the other: the first ends where its length of
/// three bytes says, and what follows is left.
pub proof fn law_messages_part(buf: &[u8], parts: Option<(Vec<u8>, Vec<u8>)>)
    requires
        call_ensures(split_handshake, (buf,), parts),
    ensures
        buf@.len() < 4 ==> parts is None,
        buf@.len() >= 4 ==> {
            let n = 4 + buf@[1] * 65_536 + buf@[2] * 256 + buf@[3];
            &&& parts is Some <==> n <= buf@.len()
            &&& parts matches Some((msg, rest)) ==> msg@.len() == n && msg@ + rest@ == buf@
        },
{
    if buf@.len() >= 4 {
        let t = buf@.subrange(1, 4);
        reveal_with_fuel(be_value, 4);
        assert(t.drop_last() =~= seq![buf@[1], buf@[2]]);
        assert(t.drop_last().drop_last() =~= seq![buf@[1]]);
        assert(t.drop_last().drop_last().drop_last() =~= Seq::<u8>::empty());
        if let Some((msg, rest)) = parts {
            assert(msg@ + rest@ =~= buf@);
        }
    }
}

/// The server answers `h2` where that is offered, else the first protocol,
/// and with no protocol where none is.
pub proof fn law_protocol_answer(alpn: &[Vec<u8>], msg: Vec<u8>, k: int)
    requires
        call_ensures(encrypted_extensions_msg, (alpn,), msg),
    ensures
        alpn@.len() == 0 ==> msg@ == seq![8u8, 0, 0, 2, 0, 0],
        0 <= k < alpn@.len() && alpn@[k]@ == seq![104u8, 50] ==> msg@ == seq![
            8u8,
            0,
            0,
            11,
            0,
            9,
            0,
            16,
            0,
            5,
            0,
            3,
            2,
            104,
            50,
        ],
        alpn@.len() > 0 && alpn@[0]@.len() < 200 && (forall|j: int|
            0 <= j < alpn@.len() ==> (#[trigger] alpn@[j])@ != seq![104u8, 50]) ==> {
            let name = alpn@[0]@;
            msg@ == seq![
                8u8,
                0,
                0,
                (name.len() + 9) as u8,
                0,
                (name.len() + 7) as u8,
                0,
                16,
                0,
                (name.len() + 3) as u8,
                0,
                (name.len() + 1) as u8,
                name.len() as u8,
            ] + name
        },
{
    let views = super::hello::byte_views(alpn@);
    let h2 = super::hello::ALPN_H2;
    assert(h2@ =~= seq![104u8, 50]);
    assert(views.len() == alpn@.len());
    reveal_with_fuel(be_bytes, 4);
    if alpn@.len() == 0 {
        assert(!views.contains(h2@));
        assert(msg@ =~= seq![8u8, 0, 0, 2, 0, 0]);
    }
    if 0 <= k < alpn@.len() && alpn@[k]@ == seq![104u8, 50] {
        assert(views[k] == h2@);
        assert(msg@ =~= seq![8u8, 0, 0, 11, 0, 9, 0, 16, 0, 5, 0, 3, 2, 104, 50]);
    }
    if alpn@.len() > 0 && alpn@[0]@.len() < 200 && forall|j: int|
        0 <= j < alpn@.len() ==> (#[trigger] alpn@[j])@ != seq![104u8, 50] {
        if views.contains(h2@) {
            let j = views.index_of(h2@);
            assert(alpn@[j]@ == h2@);
        }
        let name = alpn@[0]@;
        assert(views[0] == name);
        let head = seq![
            8u8,
            0,
            0,
            (name.len() + 9) as u8,
            0,
            (name.len() + 7) as u8,
            0,
            16,
            0,
            (name.len() + 3) as u8,
            0,
            (name.len() + 1) as u8,
            name.len() as u8,
        ];
        assert(msg@ =~= head + name);
    }
}

/// The leaf that goes into a Certificate message comes out of it.
pub proof fn law_leaf_is_read(der: &[u8], msg: Vec<u8>, heard: &[u8], leaf: Result<Vec<u8>, CertificateFault>)
    requires
        call_ensures(certificate_msg, (der,), msg),
        der@.len() + 9 < 0x100_0000,
        heard@ == msg@,
        call_ensures(parse_certificate, (heard,), leaf),
    ensures
        msg@[0] == 11,
        leaf matches Ok(leaf) && leaf@ == der@,
{
    super::tls_messages::law_certificate_roundtrip(der@);
}

/// A stamped leaf is the certificate with other last 64 bytes, and passes the
/// check with the key that it was stamped with.
pub proof fn law_stamp(
    auth_key: &[u8; 32],
    der: Vec<u8>,
    out: Result<Vec<u8>, LeafError>,
    heard: &[u8],
    fits: bool,
)
    requires
        call_ensures(stamp_leaf, (auth_key, der), out),
        call_ensures(verify_hmac_certificate, (auth_key, heard), fits),
    ensures
        der@.len() < 64 ==> out == Err::<Vec<u8>, LeafError>(LeafError::TooShort),
        out matches Ok(out) ==> out@.len() == der@.len() && out@.take(der@.len() - 64) == der@.take(der@.len() - 64),
        super::cert::carries_key(der@) ==> out is Ok,
        super::cert::carries_key(der@) && heard@ == out->Ok_0@ ==> fits,
        heard@.len() < 64 ==> !fits,
{
    if let Ok(out) = out {
        assert(out@.take(der@.len() - 64) =~= der@.take(der@.len() - 64));
    }
}

/// A client that names no server is taken to mean the site, or `localhost`
/// where that has no host.
pub proof fn law_unnamed_client(
    record: &[u8],
    config: &RealityServerConfig,
    now: u64,
    auth: AuthenticatedHello,
    verdict: HelloVerdict,
    dest: &str,
    host: Result<String, RealityConfigError>,
)
    requires
        call_ensures(authenticate_at, (record, config, now), Ok::<AuthenticatedHello, AuthError>(auth)),
        call_ensures(judge_hello, (record, config, now), verdict),
        auth.hello.sni is None,
        dest@ == config.dest@,
        call_ensures(dest_host, (dest,), host),
    ensures
        host matches Ok(host) ==> (verdict matches HelloVerdict::Vpn { server_name, .. } && server_name@ == host@),
        host is Err ==> (verdict matches HelloVerdict::Vpn { server_name, .. } && server_name@ == "localhost"@),
{
}

// ---------------------------------------------------------------------------
// The server's hello
// ---------------------------------------------------------------------------

/// The server answers one ClientHello in a handshake record with a ServerHello
/// and the record that changes the cipher, and nothing else. Without a hello
/// of the site it is one of our own: with the client's session id and the
/// suite 0x1301.
pub proof fn law_server_answers(
    typ: u8,
    body: &[u8],
    private: &[u8; 32],
    random: &[u8; 32],
    out: Result<(ServerTalk, Vec<u8>), TlsError>,
    public: &[u8; 32],
    order: &[u16],
    session_id: &[u8],
    own: Vec<u8>,
    record: Vec<u8>,
    msg: &[u8],
)
    requires
        call_ensures(answer_hello, (typ, body, private, random, None::<&[u8]>), out),
        call_ensures(x25519_public, (private,), *public),
        order@ == seq![43u16, 51],
        call_ensures(build_server_hello_handshake, (random, session_id, 0x1301, public, order), own),
        msg@ == own@,
        call_ensures(tls_record, (0x16, msg), record),
    ensures
        typ != 0x16 ==> out == Err::<(ServerTalk, Vec<u8>), TlsError>(TlsError::NoClientHelloRecord),
        ({
            let hello = handshake_in(super::hello_build::hello_record(body@));
            out matches Ok((talk, sent)) ==> {
                &&& hello is Some && client_hello_in(hello->0) is Some
                &&& client_hello_in(hello->0)->0.x25519_public is Some
                &&& session_id@ == client_hello_in(hello->0)->0.session_id ==> {
                    &&& sent@ == record@ + seq![0x14u8, 3, 3, 0, 1, 1]
                    &&& talk.said() == body@ + own@
                    &&& talk.alpn() == client_hello_in(hello->0)->0.alpn
                }
            }
        }),
{
    let own_order = super::tls_server::OWN_ORDER;
    assert(own_order@ =~= seq![43u16, 51]);
    let ccs = super::record_detect::CCS;
    assert(ccs@ =~= seq![0x14u8, 3, 3, 0, 1, 1]);
}

} // verus!
