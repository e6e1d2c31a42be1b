//! What goes over the network, and how what comes from it is taken.

use vstd::prelude::*;

use super::https_front::{looks_like_http, open_front, request_is_over, Opening};
use super::identity::{
    hostname_from_addr, is_yes, looks_like_public_dns_name, looks_like_pem, load_certificates, load_private_key,
    parse_sans, plan_identity, same_path, ClientTlsConfig, IdentityError, IdentityPlan, KeyKind, ServerTlsConfig,
    ServerTlsEnv,
};
use super::obfuscated_socket::{deobfuscate_into, obfuscate_transmit_from, RecvMeta};
use super::obfuscation::{
    drawn, drawn_state, masked, padded, revealed, validate_passphrase, ObfuscationError, ObfuscationKey, XorShift,
};
use super::tls::{acme_contact, needs_reload, served, FileTimes, Served};
use super::tuning::datagram_fits;
use crate::crypto::sha256;
use crate::net::ip_text;
use crate::protocol::error::FrameError;
use crate::text::{all_digits, lower_all, string_views, trim};
use crate::text_laws::{lemma_first_place, lemma_last_place};
use crate::wire::{be_bytes, be_value, lemma_be_bytes_len};

verus! {

// ---------------------------------------------------------------------------
// Obfuscation
// ---------------------------------------------------------------------------

/// A datagram is the salt, and behind it the length of the payload in two
/// bytes, the payload and the padding, each byte XORed with one of the hash
/// of key and salt, whose 32 bytes are used in turn. The key is the hash of
/// the passphrase.
pub proof fn law_datagram_layout(
    passphrase: &str,
    key: &ObfuscationKey,
    payload: &[u8],
    salt: &[u8],
    padding: &[u8],
    wire: Vec<u8>,
    i: int,
)
    requires
        call_ensures(ObfuscationKey::from_passphrase, (passphrase,), *key),
        call_ensures(ObfuscationKey::obfuscate_with, (key, payload, salt, padding), wire),
        payload@.len() <= 65_535,
        salt@.len() == 8,
        padding@.len() <= 32,
    ensures
        key.key@ == sha256(vstd::utf8::encode_utf8(passphrase@)),
        wire@.len() == 10 + payload@.len() + padding@.len(),
        wire@.take(8) == salt@,
        ({
            let stream = sha256(key.key@ + salt@);
            let n = payload@.len() as int;
            &&& wire@[8] == ((n / 256) as u8) ^ stream[0]
            &&& wire@[9] == ((n % 256) as u8) ^ stream[1]
            &&& 0 <= i < n ==> wire@[10 + i] == payload@[i] ^ stream[(i + 2) % 32]
            &&& 0 <= i < padding@.len() ==> wire@[10 + n + i] == padding@[i] ^ stream[(n + i + 2) % 32]
        }),
{
    let n = payload@.len();
    lemma_be_bytes_len(n, 2);
    reveal_with_fuel(be_bytes, 3);
    let plain = padded(payload@, padding@);
    assert(wire@.take(8) =~= salt@);
    assert(plain[0] == (n / 256 % 256) as u8 && plain[1] == (n % 256) as u8);
    let stream = sha256(key.key@ + salt@);
    let body = masked(plain, stream);
    assert(wire@[8] == body[0] && wire@[9] == body[1]);
    if 0 <= i < n {
        assert(plain[2 + i] == payload@[i]);
        assert(wire@[10 + i] == body[2 + i]);
    }
    if 0 <= i < padding@.len() {
        assert(plain[2 + n + i] == padding@[i]);
        assert(wire@[10 + n + i] == body[2 + n + i]);
    }
}

/// Who has the same key reads the payload of a datagram, whatever salt and
/// padding it has.
pub proof fn law_payload_is_read(
    key: &ObfuscationKey,
    payload: &[u8],
    salt: &[u8],
    padding: &[u8],
    wire: Vec<u8>,
    data: &[u8],
    read: Option<Vec<u8>>,
)
    requires
        call_ensures(ObfuscationKey::obfuscate_with, (key, payload, salt, padding), wire),
        payload@.len() <= 65_535,
        salt@.len() == 8,
        padding@.len() <= 32,
        data@ == wire@,
        call_ensures(ObfuscationKey::deobfuscate, (key, data), read),
    ensures
        read matches Some(read) && read@ == payload@,
{
    super::obfuscation::law_deobfuscate_inverts(key.key@, payload@, salt@, padding@);
}

/// Of the bytes that come in, the first eight are the salt and the next two
/// the length; where there are fewer than ten, or fewer than the length says,
/// it is noise.
pub proof fn law_noise(key: &ObfuscationKey, data: &[u8], read: Option<Vec<u8>>, i: int)
    requires
        call_ensures(ObfuscationKey::deobfuscate, (key, data), read),
    ensures
        data@.len() < 10 ==> read is None,
        data@.len() >= 10 ==> {
            let stream = sha256(key.key@ + data@.take(8));
            let len = (data@[8] ^ stream[0]) * 256 + (data@[9] ^ stream[1]);
            &&& read is Some <==> len <= data@.len() - 10
            &&& read matches Some(read) ==> read@.len() == len
            &&& read matches Some(read) ==> (0 <= i < len ==> read@[i] == data@[10 + i] ^ stream[(i + 2) % 32])
        },
{
    if data@.len() >= 10 {
        let stream = sha256(key.key@ + data@.take(8));
        let plain = masked(data@.skip(8), stream);
        let two = plain.take(2);
        reveal_with_fuel(be_value, 3);
        assert(two[0] == data@[8] ^ stream[0] && two[1] == data@[9] ^ stream[1]);
        assert(two.drop_last() =~= seq![two[0]]);
        assert(two.drop_last().drop_last() =~= Seq::<u8>::empty());
        assert(be_value(two) == two[0] * 256 + two[1]);
    }
}

/// Obfuscation takes up to 65535 bytes, and adds at most 32 of padding: as
/// many as asked for, drawn behind a salt of eight bytes.
pub proof fn law_obfuscation_limits(
    key: &ObfuscationKey,
    payload: &[u8],
    pad_len: usize,
    rng: &mut XorShift,
    result: Result<Vec<u8>, ObfuscationError>,
    again: &mut XorShift,
    drawing: Result<Vec<u8>, ObfuscationError>,
)
    requires
        call_ensures(ObfuscationKey::obfuscate_from, (key, payload, pad_len, rng), result),
        call_ensures(ObfuscationKey::obfuscate_drawn, (key, payload, again), drawing),
    ensures
        result is Ok <==> payload@.len() <= 65_535,
        drawing is Ok <==> payload@.len() <= 65_535,
        result matches Ok(wire) ==> {
            &&& pad_len <= 32 ==> wire@.len() == 10 + payload@.len() + pad_len
            &&& pad_len > 32 ==> wire@.len() == 42 + payload@.len()
            &&& wire@.take(8) == drawn(old(rng).state, 8)
            &&& revealed(key.key@, wire@) == Some(payload@)
        },
        drawing matches Ok(wire) ==> {
            &&& wire@.len() == 10 + payload@.len() + drawn(old(again).state, 1)[0] as int % 33
            &&& wire@.take(8) == drawn(drawn_state(old(again).state, 1), 8)
            &&& revealed(key.key@, wire@) == Some(payload@)
        },
{
    super::obfuscation::lemma_drawn_len(old(rng).state, 8);
    super::obfuscation::lemma_drawn_len(drawn_state(old(again).state, 1), 8);
    if let Ok(wire) = result {
        assert(wire@.take(8) =~= drawn(old(rng).state, 8));
    }
    if let Ok(wire) = drawing {
        assert(wire@.take(8) =~= drawn(drawn_state(old(again).state, 1), 8));
    }
}

/// A generator steps by three shifts and gives the bytes of its state, the
/// lowest first; it is never at zero, where it would stay.
pub proof fn law_generator(seed: &[u8; 8], fresh: XorShift, rng: &mut XorShift, out: Vec<u8>)
    requires
        call_ensures(XorShift::new, (seed,), fresh),
        call_ensures(XorShift::draw, (rng, 1), out),
    ensures
        fresh.state & 1 == 1,
        fresh.state != 0,
        ({
            let x = old(rng).state;
            let a = x ^ (x << 13);
            let b = a ^ (a >> 7);
            let c = b ^ (b << 17);
            &&& final(rng).state == c
            &&& out@ == seq![(c % 256) as u8]
        }),
{
    let v = super::obfuscation::le_value(seed@) as u64;
    assert((v | 1) & 1 == 1) by (bit_vector);
    assert(forall|y: u64| #[trigger] (y & 1) == 1 ==> y != 0) by (bit_vector);
    assert(fresh.state & 1 == 1);
    let x = old(rng).state;
    let c = super::obfuscation::xor_step(x);
    reveal_with_fuel(super::obfuscation::le_bytes, 2);
    assert(super::obfuscation::le_bytes(c as nat, 1) =~= seq![(c % 256) as u8]);
}

/// A passphrase has 16 characters at least and is not the one of the example.
pub proof fn law_passphrase(passphrase: &str, result: Result<(), &'static str>)
    requires
        call_ensures(validate_passphrase, (passphrase,), result),
    ensures
        result is Ok <==> passphrase@.len() >= 16 && passphrase@ != "change-me-to-a-real-random-secret"@,
{
}

/// What was sent in one piece comes out in one piece, in the buffer that it
/// came in.
pub proof fn law_datagram_comes_through(
    key: &ObfuscationKey,
    contents: &[u8],
    segment_size: Option<usize>,
    rng: &mut XorShift,
    wire: Vec<u8>,
    segment: Option<usize>,
    buf: &mut [u8],
    meta: &mut RecvMeta,
    any: bool,
)
    requires
        call_ensures(
            obfuscate_transmit_from,
            (key, contents, segment_size, rng),
            Ok::<(Vec<u8>, Option<usize>), ObfuscationError>((wire, segment)),
        ),
        segment is None,
        wire@.len() < 0x1_0000_0000,
        old(meta).len == wire@.len(),
        old(meta).stride == wire@.len(),
        old(buf)@.len() >= wire@.len(),
        old(buf)@.take(wire@.len() as int) == wire@,
        call_ensures(deobfuscate_into, (key, buf, meta), any),
    ensures
        any,
        contents@.len() <= 65_535,
        final(meta).len == contents@.len(),
        final(buf)@.take(contents@.len() as int) == contents@,
{
    let state = drawn_state(old(rng).state, 1);
    let pad = super::obfuscation::pad_drawn(old(rng).state);
    assert(wire@ == super::obfuscation::obfuscated_from(key.key@, contents@, state, pad));
    super::obfuscation::lemma_obfuscated_from(key.key@, contents@, state, pad);
    let list = super::obfuscated_socket::payloads(key.key@, wire@, wire@.len());
    reveal_with_fuel(super::obfuscated_socket::payloads, 2);
    assert(wire@.take(wire@.len() as int) =~= wire@);
    assert(wire@.skip(wire@.len() as int) =~= Seq::<u8>::empty());
    assert(list =~= seq![contents@]);
    reveal_with_fuel(super::obfuscated_socket::joined, 2);
    assert(list.drop_last() =~= Seq::<Seq<u8>>::empty());
    assert(super::obfuscated_socket::joined(list) =~= contents@);
    assert(final(buf)@.take(contents@.len() as int) =~= contents@);
}

/// Segments are as many bytes on the wire as they have, and ten for salt and
/// length, and the same padding each.
pub proof fn law_segments(
    key: &ObfuscationKey,
    contents: &[u8],
    segment_size: Option<usize>,
    rng: &mut XorShift,
    result: Result<(Vec<u8>, Option<usize>), ObfuscationError>,
)
    requires
        call_ensures(obfuscate_transmit_from, (key, contents, segment_size, rng), result),
    ensures
        ({
            let cut = segment_size matches Some(size) && 0 < size < contents@.len();
            let largest = if cut {
                segment_size->0 as int
            } else {
                contents@.len() as int
            };
            let pad = drawn(old(rng).state, 1)[0] as int % 33;
            &&& result is Ok <==> largest <= 65_535
            &&& result matches Ok(out) ==> {
                &&& cut ==> out.1 == Some((10 + segment_size->0 + pad) as usize)
                &&& !cut ==> out.1 is None && out.0@.len() == 10 + contents@.len() + pad
            }
        }),
{
    if let Ok(out) = result {
        if out.1 is None {
            super::obfuscation::lemma_obfuscated_from(
                key.key@,
                contents@,
                drawn_state(old(rng).state, 1),
                super::obfuscation::pad_drawn(old(rng).state),
            );
        }
    }
}

// ---------------------------------------------------------------------------
// The web site in front
// ---------------------------------------------------------------------------

/// A connection whose first byte is 1 brings a frame, of the length that its
/// header tells; any other gets the page.
pub proof fn law_front(header: &[u8; 16], opening: Opening, first: u8, http: bool)
    requires
        call_ensures(open_front, (header,), opening),
        call_ensures(looks_like_http, (first,), http),
    ensures
        http <==> first != 1,
        ({
            let len = header@[4] * 0x100_0000 + header@[5] * 0x1_0000 + header@[6] * 0x100 + header@[7];
            &&& header@[0] != 1 ==> opening == Opening::Page
            &&& header@[0] == 1 && !(1 <= header@[1] <= 10) ==> opening == Opening::Refuse(
                FrameError::UnknownFrameType(header@[1]),
            )
            &&& header@[0] == 1 && 1 <= header@[1] <= 10 && len > 65_536 ==> opening == Opening::Refuse(
                FrameError::PayloadTooLarge,
            )
            &&& header@[0] == 1 && 1 <= header@[1] <= 10 && len <= 65_536 ==> opening == Opening::Frame(len as usize)
        }),
{
    let four = header@.subrange(4, 8);
    crate::protocol::wire_laws::law_highest_byte_first(four, 0);
}

/// A request is answered once it has an empty line, or 32768 bytes.
pub proof fn law_request_end(request: &[u8], over: bool, a: Seq<u8>, b: Seq<u8>)
    requires
        call_ensures(request_is_over, (request,), over),
    ensures
        request@ == a + seq![13u8, 10, 13, 10] + b ==> over,
        request@.len() >= 32_768 ==> over,
        request@.len() < 4 ==> !over,
        over && request@.len() < 32_768 ==> exists|i: int|
            0 <= i && i + 4 <= request@.len() && #[trigger] request@[i] == 13 && request@[i + 1] == 10 && request@[i
                + 2] == 13 && request@[i + 3] == 10,
{
    if request@ == a + seq![13u8, 10, 13, 10] + b {
        let at = a.len() as int;
        assert(request@.subrange(at, at + 4) =~= seq![13u8, 10, 13, 10]);
    }
    if over && request@.len() < 32_768 {
        let i = choose|i: int|
            0 <= i && i + 4 <= request@.len() && #[trigger] request@.subrange(i, i + 4) == seq![13u8, 10, 13, 10];
        let four = request@.subrange(i, i + 4);
        assert(four[0] == request@[i] && four[1] == request@[i + 1] && four[2] == request@[i + 2] && four[3]
            == request@[i + 3]);
    }
}

/// A certificate is read again when a file has another time than the one in
/// memory; what was in memory is served where that fails.
pub proof fn law_certificates_are_fresh(
    cached: Option<FileTimes>,
    now: FileTimes,
    reload: bool,
    cached_one: bool,
    stale: bool,
    ok: bool,
    what: Served,
)
    requires
        call_ensures(needs_reload, (cached, now), reload),
        call_ensures(served, (cached_one, stale, ok), what),
    ensures
        cached is None ==> reload,
        cached matches Some(cached) ==> (reload <==> cached.cert != now.cert || cached.key != now.key),
        stale && ok ==> what == Served::Fresh,
        !(stale && ok) && cached_one ==> what == Served::Cached,
        !(stale && ok) && !cached_one ==> what == Served::Nothing,
{
}

/// The contact of an ACME account is an address with `mailto:` before it,
/// once.
pub proof fn law_acme_contact(email: &str, domain: &str, given: String, own: String)
    requires
        call_ensures(acme_contact, (Some(email), domain), given),
        call_ensures(acme_contact, (None::<&str>, domain), own),
    ensures
        own@ == "mailto:admin@"@ + domain@,
        given@ == email@ || given@ == "mailto:"@ + email@,
        "mailto:"@.is_prefix_of(email@) ==> given@ == email@,
        !"mailto:"@.is_prefix_of(email@) ==> given@ == "mailto:"@ + email@,
{
    let start = "mailto:"@;
    if start.len() <= email@.len() {
        assert(email@.subrange(0, start.len() as int) =~= email@.take(start.len() as int));
    }
}

/// A frame goes into a datagram that is as long or longer, and is tried where
/// no limit is known.
pub proof fn law_datagram_fits(max: Option<usize>, len: usize, fits: bool)
    requires
        call_ensures(datagram_fits, (max, len), fits),
    ensures
        max is None ==> fits,
        max matches Some(max) ==> (fits <==> len <= max),
{
}

// ---------------------------------------------------------------------------
// Names and certificates
// ---------------------------------------------------------------------------

/// The host of an address is what stands before the colon of its port, or
/// between its brackets, or all of it.
pub proof fn law_host(addr: &str, host: Option<String>, name: Seq<char>, port: Seq<char>)
    requires
        call_ensures(hostname_from_addr, (addr,), host),
    ensures
        trim(addr@).len() == 0 ==> host is None,
        trim(addr@) == name.push(':') + port && name.len() > 0 && name[0] != '[' && all_digits(port) ==> (
        host matches Some(host) && host@ == name),
        trim(addr@) == seq!['['] + name.push(']') + port && !name.contains(']') && trim(name).len() > 0 ==> (
        host matches Some(host) && host@ == trim(name)),
        trim(addr@) == name && name.len() > 0 && name[0] != '[' && !name.contains(':') ==> (host matches Some(host)
            && host@ == name),
{
    let a = trim(addr@);
    if a == name.push(':') + port && name.len() > 0 && name[0] != '[' && all_digits(port) {
        lemma_last_place(a, ':');
        assert(a[name.len() as int] == ':');
        let at = crate::text::last_place(a, ':')->0;
        if at > name.len() {
            assert(a[at] == port[at - name.len() - 1]);
            assert(crate::text::is_digit(port[at - name.len() - 1]));
        }
        assert(at == name.len());
        assert(a.skip(at + 1) =~= port);
        assert(a.take(at) =~= name);
        assert(a[0] == name[0]);
    }
    if a == seq!['['] + name.push(']') + port && !name.contains(']') && trim(name).len() > 0 {
        let rest = a.skip(1);
        assert(a[0] == '[');
        assert(rest =~= name.push(']') + port);
        lemma_first_place(rest, ']');
        assert(rest[name.len() as int] == ']');
        let end = crate::text::first_place(rest, ']')->0;
        if end < name.len() {
            assert(name[end] == rest[end]);
        }
        assert(end == name.len());
        assert(rest.take(end) =~= name);
    }
    if a == name && name.len() > 0 && !name.contains(':') {
        lemma_last_place(a, ':');
        if let Some(at) = crate::text::last_place(a, ':') {
            assert(name[at] == ':');
        }
    }
}

/// A public name has a dot, and is neither an address nor `localhost`.
pub proof fn law_public_name(name: &str, yes: bool)
    requires
        call_ensures(looks_like_public_dns_name, (name,), yes),
    ensures
        ({
            let n = trim(name@);
            &&& n.len() == 0 ==> !yes
            &&& n.len() > 0 && n.last() != '.' && ip_text(n) ==> !yes
            &&& n.len() > 0 && n.last() != '.' && lower_all(n) == lower_all("localhost"@) ==> !yes
            &&& n.len() > 0 && n.last() != '.' && !n.contains('.') ==> !yes
            &&& n.len() > 0 && n.last() != '.' && !ip_text(n) && lower_all(n) != lower_all("localhost"@)
                && n.contains('.') ==> yes
        }),
{
}

/// A certificate has the names that the list gives it, or is for `localhost`
/// where it gives none.
pub proof fn law_names(value: Option<String>, names: Vec<String>, name: Seq<char>)
    requires
        call_ensures(parse_sans, (value,), names),
    ensures
        names@.len() > 0,
        value is None ==> string_views(names@) == seq!["localhost"@],
        value matches Some(value) ==> (value@ == name && !name.contains(',') && trim(name).len() > 0 ==> string_views(
            names@,
        ) == seq![trim(name)]),
        value matches Some(value) ==> (value@ == name && !name.contains(',') && trim(name).len() == 0 ==> string_views(
            names@,
        ) == seq!["localhost"@]),
{
    let comma = seq![','];
    if let Some(value) = value {
        if value@ == name && !name.contains(',') {
            assert forall|i: int| 0 <= i < name.len() implies !comma.contains(#[trigger] name[i]) by {
                if comma.contains(name[i]) {
                    assert(name[i] == ',');
                    assert(name.contains(name[i]));
                }
            }
            crate::text_laws::lemma_split_whole(name, comma);
            let pieces = seq![name];
            reveal_with_fuel(super::identity::names_in, 2);
            assert(pieces.drop_last() =~= Seq::<Seq<char>>::empty());
            assert(pieces.last() == name);
            if trim(name).len() > 0 {
                assert(super::identity::names_in(pieces) =~= seq![trim(name)]);
            }
        }
    }
    assert(string_views(names@).len() == names@.len());
}

/// `1`, `true`, `on` and `yes` mean yes, in small letters and in capitals;
/// nothing else does.
pub proof fn law_yes(value: &str, yes: bool)
    requires
        call_ensures(is_yes, (value,), yes),
    ensures
        yes <==> {
            let v = lower_all(value@);
            v == "1"@ || v == "true"@ || v == "on"@ || v == "yes"@
        },
{
}

/// A file that begins with five dashes and BEGIN is PEM; any other is taken
/// as it is: one certificate, or a PKCS #8 key.
pub proof fn law_der_files(
    bytes: &[u8],
    pem: bool,
    certs: Result<Vec<Vec<u8>>, IdentityError>,
    key: Result<(KeyKind, Vec<u8>), IdentityError>,
)
    requires
        call_ensures(looks_like_pem, (bytes,), pem),
        call_ensures(load_certificates, (bytes,), certs),
        call_ensures(load_private_key, (bytes,), key),
    ensures
        pem <==> bytes@.len() >= 10 && bytes@.take(10) == seq![45u8, 45, 45, 45, 45, 66, 69, 71, 73, 78],
        !pem ==> (certs matches Ok(certs) && certs@.len() == 1 && certs@[0]@ == bytes@),
        !pem ==> (key matches Ok(key) && key.0 == KeyKind::Pkcs8 && key.1@ == bytes@),
{
    let start = super::identity::PEM_START;
    assert(start@ =~= seq![45u8, 45, 45, 45, 45, 66, 69, 71, 73, 78]);
    if !pem {
        let views = super::reality::hello::byte_views(certs->Ok_0@);
        assert(views.len() == 1);
        assert(views[0] == bytes@);
    }
}

/// An identity is made only where both files are the default ones and one is
/// missing; files that an operator named are never made up.
pub proof fn law_identity_plan(
    config: &ServerTlsConfig,
    cert: bool,
    key: bool,
    plan: Result<IdentityPlan, IdentityError>,
)
    requires
        call_ensures(plan_identity, (config, cert, key), plan),
    ensures
        cert && key ==> (plan matches Ok(IdentityPlan::Keep)),
        !(cert && key) && config.default_paths() ==> (plan matches Ok(IdentityPlan::Generate(_))),
        !(cert && key) && !config.default_paths() ==> (plan matches Err(IdentityError::Missing)),
        plan matches Ok(IdentityPlan::Generate(names)) ==> forall|i: int|
            0 <= i < config.sans@.len() ==> #[trigger] names@[i]@ == config.sans@[i]@,
        plan matches Ok(IdentityPlan::Generate(names)) ==> (config.acme_domain is None ==> names@.len()
            == config.sans@.len()),
{
    if let Ok(IdentityPlan::Generate(names)) = plan {
        assert(string_views(names@).len() == names@.len());
        assert forall|i: int| 0 <= i < config.sans@.len() implies #[trigger] names@[i]@ == config.sans@[i]@ by {
            assert(string_views(names@)[i] == names@[i]@);
            assert(string_views(config.sans@)[i] == config.sans@[i]@);
        }
    }
}

/// A path is the same with a slash more where one is, or at its end; a dot
/// between slashes changes nothing either. One from the root is none from
/// elsewhere.
pub proof fn law_paths(a: &str, b: &str, same: bool, x: Seq<char>, y: Seq<char>)
    requires
        call_ensures(same_path, (a, b), same),
    ensures
        a@ == b@ ==> same,
        x.len() > 0 && a@ == x.push('/').push('/') + y && b@ == x.push('/') + y ==> same,
        x.len() > 0 && a@ == x.push('/').push('.').push('/') + y && b@ == x.push('/') + y ==> same,
        x.len() > 0 && a@ == x.push('/') && b@ == x ==> same,
        a@.len() > 0 && a@[0] == '/' && (b@.len() == 0 || b@[0] != '/') ==> !same,
        a@.len() > 0 && b@.len() > 0 && !a@.contains('/') && !b@.contains('/') && a@ != b@ ==> !same,
{
    let slash = seq!['/'];
    assert(slash[0] == '/');
    let none = Seq::<char>::empty();
    let dot = seq!['.'];
    if x.len() > 0 {
        let first = crate::text::split(x, slash);
        let rest = crate::text::split(y, slash);
        crate::text_laws::lemma_split_around(x, '/', y, slash);
        lemma_pieces(x, slash);
        assert(crate::text::split(none, slash) =~= seq![none]);
        assert(crate::text::split(dot, slash) =~= seq![dot]) by {
            assert(!slash.contains(dot[0])) by {
                if slash.contains(dot[0]) {
                    assert(dot[0] == '/');
                }
            }
            crate::text_laws::lemma_split_whole(dot, slash);
        }
        let with_empty = first.push(none);
        let with_dot = first.push(dot);
        assert(with_empty.drop_last() =~= first && with_dot.drop_last() =~= first);
        assert(super::identity::components(with_empty) == super::identity::components(first));
        assert(super::identity::components(with_dot) == super::identity::components(first));
        lemma_components(with_empty, first, rest);
        lemma_components(with_dot, first, rest);
        crate::text_laws::lemma_split_around(x, '/', none, slash);
        crate::text_laws::lemma_split_around(x, '/', dot, slash);
        assert(x.push('/') + none =~= x.push('/'));
        assert(x.push('/') + dot =~= x.push('/').push('.'));
        assert(first + seq![none] =~= with_empty);
        assert(first + seq![dot] =~= with_dot);
        crate::text_laws::lemma_split_around(x.push('/'), '/', y, slash);
        crate::text_laws::lemma_split_around(x.push('/').push('.'), '/', y, slash);
        assert(x.push('/')[0] == x[0]);
        assert((x.push('/').push('/') + y)[0] == x[0]);
        assert((x.push('/').push('.').push('/') + y)[0] == x[0]);
        assert((x.push('/') + y)[0] == x[0]);
    }
    if a@.len() > 0 && b@.len() > 0 && !a@.contains('/') && !b@.contains('/') {
        lemma_one_piece(a@);
        lemma_one_piece(b@);
        if a@ != b@ {
            assert(seq![a@][0] != seq![b@][0]);
        }
    }
}

proof fn lemma_pieces(s: Seq<char>, seps: Seq<char>)
    ensures
        crate::text::split(s, seps).len() > 0,
    decreases s.len(),
{
    if s.len() > 0 {
        lemma_pieces(s.drop_last(), seps);
    }
}

proof fn lemma_one_piece(s: Seq<char>)
    requires
        s.len() > 0,
        !s.contains('/'),
    ensures
        super::identity::path_of(s) == (false, seq![s]),
{
    let slash = seq!['/'];
    assert forall|i: int| 0 <= i < s.len() implies !slash.contains(#[trigger] s[i]) by {
        if slash.contains(s[i]) {
            assert(s[i] == '/');
            assert(s.contains(s[i]));
        }
    }
    crate::text_laws::lemma_split_whole(s, slash);
    let one = seq![s];
    assert(one.drop_last() =~= Seq::<Seq<char>>::empty());
    reveal_with_fuel(super::identity::components, 2);
    assert(super::identity::components(one) =~= seq![s]);
    assert(s.contains(s[0]));
}

proof fn lemma_components(p: Seq<Seq<char>>, q: Seq<Seq<char>>, rest: Seq<Seq<char>>)
    requires
        p.len() > 0,
        q.len() > 0,
        super::identity::components(p) == super::identity::components(q),
    ensures
        super::identity::components(p + rest) == super::identity::components(q + rest),
    decreases rest.len(),
{
    if rest.len() == 0 {
        assert(p + rest =~= p);
        assert(q + rest =~= q);
    } else {
        lemma_components(p, q, rest.drop_last());
        assert((p + rest).drop_last() =~= p + rest.drop_last());
        assert((q + rest).drop_last() =~= q + rest.drop_last());
        assert((p + rest).last() == rest.last() && (q + rest).last() == rest.last());
    }
}

/// What the environment says of the server's certificate. Names without a
/// character are none.
pub proof fn law_server_environment(env: ServerTlsEnv, container: bool, c: ServerTlsConfig)
    requires
        call_ensures(ServerTlsConfig::from_env, (env, container), c),
    ensures
        env.cert matches Some(path) ==> c.cert_path@ == path@,
        env.cert is None ==> c.cert_path@ == "dev-certs/payphone-cert.der"@,
        env.key matches Some(path) ==> c.key_path@ == path@,
        env.key is None ==> c.key_path@ == "dev-certs/payphone-key.der"@,
        env.domain is None ==> c.acme_domain is None,
        env.domain matches Some(name) ==> (name@.len() == 0 <==> c.acme_domain is None),
        env.domain matches Some(name) ==> (c.acme_domain matches Some(kept) ==> kept@ == name@),
        env.email is None ==> c.acme_email is None,
        env.email matches Some(name) ==> (name@.len() == 0 <==> c.acme_email is None),
        env.email matches Some(name) ==> (c.acme_email matches Some(kept) ==> kept@ == name@),
        env.acme_dir matches Some(path) ==> c.acme_dir@ == path@,
        env.acme_dir is None && container ==> c.acme_dir@ == "/app/state/acme"@,
        env.acme_dir is None && !container ==> c.acme_dir@ == "dev-certs/acme"@,
        env.staging is None ==> !c.acme_staging,
        env.staging matches Some(value) ==> (c.acme_staging <==> {
            let v = lower_all(value@);
            v == "1"@ || v == "true"@ || v == "on"@ || v == "yes"@
        }),
{
}

/// What the environment says of the certificate that a client trusts.
pub proof fn law_client_environment(
    name: Option<String>,
    pin: Option<String>,
    cert: Option<String>,
    ca: Option<String>,
    c: ClientTlsConfig,
    there: bool,
    trusts: Result<bool, IdentityError>,
)
    requires
        call_ensures(ClientTlsConfig::from_env, (name, pin, cert, ca), c),
        call_ensures(ClientTlsConfig::trusts_pin, (&c, there), trusts),
    ensures
        name is None ==> c.server_name@ == "localhost"@,
        name matches Some(n) ==> (n@.len() > 0 ==> c.server_name@ == n@) && (n@.len() == 0 ==> c.server_name@
            == "localhost"@),
        pin matches Some(path) ==> c.pin_path@ == path@,
        pin is None && cert is Some ==> c.pin_path@ == cert->0@,
        pin is None && cert is None ==> c.pin_path@ == "dev-certs/payphone-cert.der"@,
        ca is None ==> !c.use_webpki,
        ca matches Some(value) ==> (c.use_webpki <==> {
            let v = lower_all(value@);
            v == "system"@ || v == "webpki"@ || v == "public"@ || v == "1"@ || v == "true"@
        }),
        there ==> trusts == Ok::<bool, IdentityError>(true),
        !there && c.use_webpki ==> trusts == Ok::<bool, IdentityError>(false),
        !there && !c.use_webpki ==> trusts is Err,
{
}

/// The names that stay with the server are its certificate's and its domain,
/// each once and in order.
pub proof fn law_own_names(c: &ServerTlsConfig, names: Vec<String>, i: int, j: int, k: int)
    requires
        call_ensures(ServerTlsConfig::local_hostnames, (c,), names),
    ensures
        0 <= i < j < names@.len() ==> names@[i]@ != names@[j]@,
        0 <= k < c.sans@.len() && c.sans@[k]@.len() > 0 ==> exists|m: int|
            0 <= m < names@.len() && (#[trigger] names@[m])@ == c.sans@[k]@,
        c.acme_domain matches Some(domain) ==> (domain@.len() > 0 ==> exists|m: int|
            0 <= m < names@.len() && (#[trigger] names@[m])@ == domain@),
        0 <= i < names@.len() ==> names@[i]@.len() > 0 && ((exists|m: int|
            0 <= m < c.sans@.len() && (#[trigger] c.sans@[m])@ == names@[i]@) || (c.acme_domain matches Some(domain)
            && domain@ == names@[i]@)),
{
    let views = string_views(names@);
    if 0 <= i < j < names@.len() {
        assert(views[i] == names@[i]@ && views[j] == names@[j]@);
        assert(super::identity::before_in_order(views[i], views[j]));
        super::identity::lemma_order_total(views[i], views[j]);
    }
    if 0 <= k < c.sans@.len() && c.sans@[k]@.len() > 0 {
        assert(string_views(c.sans@)[k] == c.sans@[k]@);
        assert(c.is_own(c.sans@[k]@));
        let m = views.index_of(c.sans@[k]@);
        assert(views.contains(c.sans@[k]@));
        assert(names@[m]@ == c.sans@[k]@);
    }
    if let Some(domain) = c.acme_domain {
        if domain@.len() > 0 {
            assert(c.is_own(domain@));
            assert(views.contains(domain@));
            let m = views.index_of(domain@);
            assert(names@[m]@ == domain@);
        }
    }
    if 0 <= i < names@.len() {
        assert(views[i] == names@[i]@);
        assert(views.contains(views[i]));
        if string_views(c.sans@).contains(names@[i]@) {
            let m = string_views(c.sans@).index_of(names@[i]@);
            assert(c.sans@[m]@ == names@[i]@);
        }
    }
}

/// A certificate is asked for only for a public domain, and only where the
/// operator has not named files of their own.
pub proof fn law_acme(c: &ServerTlsConfig, on: bool, default: bool, domain: &str, public: bool)
    requires
        call_ensures(ServerTlsConfig::acme_enabled, (c,), on),
        call_ensures(ServerTlsConfig::uses_default_paths, (c,), default),
        call_ensures(looks_like_public_dns_name, (domain,), public),
    ensures
        on ==> default && c.acme_domain is Some,
        c.acme_domain matches Some(name) ==> (name@ == domain@ ==> (on <==> public && default)),
        c.cert_path@ == "dev-certs/payphone-cert.der"@ && c.key_path@ == "dev-certs/payphone-key.der"@ ==> default,
{
}

/// A certificate that is made is for the configured names and, behind them,
/// for the domain, where that is public and not among them, capital letters
/// aside.
pub proof fn law_names_to_sign(
    config: &ServerTlsConfig,
    cert: bool,
    key: bool,
    names: Vec<String>,
    domain: &str,
    public: bool,
    i: int,
)
    requires
        call_ensures(plan_identity, (config, cert, key), Ok::<IdentityPlan, IdentityError>(IdentityPlan::Generate(names))),
        config.acme_domain matches Some(name) && name@ == domain@,
        call_ensures(looks_like_public_dns_name, (domain,), public),
    ensures
        !public ==> names@.len() == config.sans@.len(),
        0 <= i < config.sans@.len() && lower_all(config.sans@[i]@) == lower_all(domain@) ==> names@.len()
            == config.sans@.len(),
        names@.len() == config.sans@.len() || names@.len() == config.sans@.len() + 1 && names@.last()@ == domain@,
        public && names@.len() == config.sans@.len() ==> exists|k: int|
            0 <= k < config.sans@.len() && lower_all((#[trigger] config.sans@[k])@) == lower_all(domain@),
{
    let views = string_views(names@);
    assert(views.len() == names@.len());
    if names@.len() == config.sans@.len() + 1 {
        assert(views[config.sans@.len() as int] == names@[config.sans@.len() as int]@);
    }
}

} // verus!
