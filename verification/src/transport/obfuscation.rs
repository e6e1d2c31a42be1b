//! Datagram obfuscation: `[salt][XOR(tiled SHA-256(key, salt), [length][payload][padding])]`.
//!
//! This is no encryption; TLS inside QUIC is that. It takes the look of QUIC
//! off the wire, and who does not know the secret cannot make a datagram that
//! gets an answer.

use vstd::prelude::*;

use crate::crypto::{sha256, sha256_digest};
use crate::random::os_random_array;
use crate::wire::{be_bytes, be_value, lemma_be_bytes_len, lemma_be_range, lemma_value_of_bytes, push_be, read_u16};

verus! {

pub const SALT_LEN: usize = 8;

pub const KEY_LEN: usize = 32;

pub const LENGTH_PREFIX_LEN: usize = 2;

/// Padding is small and even, so that it never inflates a path MTU probe.
pub const MAX_PADDING: usize = 32;

/// The secret that stands in the example configuration.
pub const PLACEHOLDER_PASSPHRASE: &'static str = "change-me-to-a-real-random-secret";

pub const MIN_PASSPHRASE_LEN: usize = 16;

/// Refuses the placeholder and anything under 16 characters.
pub fn validate_passphrase(passphrase: &str) -> (result: Result<(), &'static str>)
    ensures
        match result {
            Ok(_) => passphrase@ != PLACEHOLDER_PASSPHRASE@ && passphrase@.len() >= MIN_PASSPHRASE_LEN,
            Err(text) => if passphrase@ == PLACEHOLDER_PASSPHRASE@ {
                text@
                    == "PAYPHONE_OBFS_PSK is still the placeholder from .env.example; generate a real secret, e.g. `openssl rand -hex 32`"@
            } else {
                &&& passphrase@.len() < MIN_PASSPHRASE_LEN
                &&& text@ == "PAYPHONE_OBFS_PSK is too short; use at least 16 characters of real entropy"@
            },
        },
{
    let chars = crate::text::chars_of(passphrase);
    if crate::text::spells(&chars, PLACEHOLDER_PASSPHRASE) {
        return Err(
            "PAYPHONE_OBFS_PSK is still the placeholder from .env.example; generate a real secret, e.g. `openssl rand -hex 32`",
        );
    }
    if chars.len() < MIN_PASSPHRASE_LEN {
        return Err("PAYPHONE_OBFS_PSK is too short; use at least 16 characters of real entropy");
    }
    Ok(())
}

// ---------------------------------------------------------------------------
// Random bytes for salt and padding
// ---------------------------------------------------------------------------

/// A xorshift generator: one seed from the operating system, and who keeps it
/// needs no system call per datagram. Salt and padding need no more.
#[derive(Debug, Clone, Copy, PartialEq, Eq, Structural)]
pub struct XorShift {
    pub state: u64,
}

pub open spec fn le_value(s: Seq<u8>) -> nat
    decreases s.len(),
{
    if s.len() == 0 {
        0
    } else {
        s[0] as nat + 256 * le_value(s.skip(1))
    }
}

/// The `n` low base-256 digits of `v`, least significant first.
pub open spec fn le_bytes(v: nat, n: nat) -> Seq<u8>
    decreases n,
{
    if n == 0 {
        Seq::empty()
    } else {
        seq![(v % 256) as u8] + le_bytes(v / 256, (n - 1) as nat)
    }
}

pub open spec fn xor_step(x: u64) -> u64 {
    let a = x ^ (x << 13);
    let b = a ^ (a >> 7);
    b ^ (b << 17)
}

/// The state after `n` bytes were drawn, eight to a step.
pub open spec fn drawn_state(x: u64, n: nat) -> u64
    decreases n,
{
    if n == 0 {
        x
    } else if n <= 8 {
        xor_step(x)
    } else {
        drawn_state(xor_step(x), (n - 8) as nat)
    }
}

/// The `n` bytes that are drawn next.
pub open spec fn drawn(x: u64, n: nat) -> Seq<u8>
    decreases n,
{
    if n == 0 {
        Seq::empty()
    } else if n <= 8 {
        le_bytes(xor_step(x) as nat, n)
    } else {
        le_bytes(xor_step(x) as nat, 8) + drawn(xor_step(x), (n - 8) as nat)
    }
}

proof fn lemma_le_len(v: nat, n: nat)
    ensures
        le_bytes(v, n).len() == n,
    decreases n,
{
    if n > 0 {
        lemma_le_len(v / 256, (n - 1) as nat);
    }
}

pub proof fn lemma_drawn_len(x: u64, n: nat)
    ensures
        drawn(x, n).len() == n,
    decreases n,
{
    if n > 8 {
        lemma_le_len(xor_step(x) as nat, 8);
        lemma_drawn_len(xor_step(x), (n - 8) as nat);
    } else if n > 0 {
        lemma_le_len(xor_step(x) as nat, n);
    }
}

impl XorShift {
    /// The state that an eight-byte seed starts with; never zero, which would
    /// stay zero.
    pub open spec fn from_seed(seed: Seq<u8>) -> u64 {
        le_value(seed) as u64 | 1
    }

    pub fn new(seed: &[u8; 8]) -> (rng: Self)
        ensures
            rng.state == Self::from_seed(seed@),
    {
        let mut value: u64 = 0;
        let mut i: usize = 8;
        assert(seed@.skip(8) =~= Seq::empty());
        while i > 0
            invariant
                i <= 8,
                seed@.len() == 8,
                value == le_value(seed@.skip(i as int)),
                i == 8 ==> value == 0,
                i == 7 ==> value < 0x100,
                i == 6 ==> value < 0x1_0000,
                i == 5 ==> value < 0x100_0000,
                i == 4 ==> value < 0x1_0000_0000,
                i == 3 ==> value < 0x100_0000_0000,
                i == 2 ==> value < 0x1_0000_0000_0000,
                i == 1 ==> value < 0x100_0000_0000_0000,
            decreases i,
        {
            assert(seed@.skip(i - 1).skip(1) =~= seed@.skip(i as int));
            value = value * 256 + seed[i - 1] as u64;
            i = i - 1;
        }
        assert(seed@.skip(0) =~= seed@);
        XorShift { state: value | 1 }
    }

    /// A generator seeded by the operating system, or by zeros where it has
    /// nothing to give.
    pub fn from_os() -> (rng: Self)
        ensures
            exists|seed: Seq<u8>| seed.len() == 8 && rng.state == #[trigger] Self::from_seed(seed),
    {
        let seed: [u8; 8] = match os_random_array() {
            Some(seed) => seed,
            None => [0u8; 8],
        };
        assert(seed@.len() == 8);
        Self::new(&seed)
    }

    /// Draws `n` bytes.
    pub fn draw(&mut self, n: usize) -> (out: Vec<u8>)
        ensures
            out@ == drawn(old(self).state, n as nat),
            out@.len() == n,
            final(self).state == drawn_state(old(self).state, n as nat),
    {
        let ghost start = self.state;
        let mut out: Vec<u8> = Vec::new();
        let mut left: usize = n;
        while left > 0
            invariant
                left <= n,
                out@ + drawn(self.state, left as nat) == drawn(start, n as nat),
                drawn_state(self.state, left as nat) == drawn_state(start, n as nat),
            decreases left,
        {
            let mut x: u64 = self.state;
            x = x ^ (x << 13);
            x = x ^ (x >> 7);
            x = x ^ (x << 17);
            assert(x == xor_step(self.state));
            let take: usize = if left < 8 {
                left
            } else {
                8
            };
            let ghost before = out@;
            push_le(&mut out, x, take);
            proof {
                if left <= 8 {
                    assert(drawn(x, 0) =~= Seq::empty());
                    assert(out@ + drawn(x, 0) =~= before + drawn(self.state, left as nat));
                } else {
                    assert(out@ + drawn(x, (left - 8) as nat) =~= before + drawn(self.state, left as nat));
                }
            }
            self.state = x;
            left = left - take;
        }
        assert(out@ + drawn(self.state, 0) =~= out@);
        proof {
            lemma_drawn_len(start, n as nat);
        }
        out
    }

    /// Draws a padding length from 0 to `MAX_PADDING`.
    pub fn draw_pad_len(&mut self) -> (len: usize)
        ensures
            len == pad_drawn(old(self).state),
            len <= MAX_PADDING,
            final(self).state == drawn_state(old(self).state, 1),
    {
        let byte = self.draw(1);
        byte[0] as usize % (MAX_PADDING + 1)
    }
}

fn push_le(out: &mut Vec<u8>, value: u64, n: usize)
    requires
        n <= 8,
    ensures
        final(out)@ == old(out)@ + le_bytes(value as nat, n as nat),
    decreases n,
{
    if n > 0 {
        out.push((value % 256) as u8);
        push_le(out, value / 256, n - 1);
    }
    assert(out@ =~= old(out)@ + le_bytes(value as nat, n as nat));
}

// ---------------------------------------------------------------------------
// Masking
// ---------------------------------------------------------------------------

#[derive(Debug, Clone, Copy, PartialEq, Eq, Structural)]
pub enum ObfuscationError {
    /// payload too large to obfuscate (> 65535 bytes)
    PayloadTooLarge,
}

/// `data` XORed with `stream`, repeated as often as it takes.
pub open spec fn masked(data: Seq<u8>, stream: Seq<u8>) -> Seq<u8> {
    Seq::new(data.len(), |i: int| data[i] ^ stream[i % KEY_LEN as int])
}

/// What goes under the mask: length, payload, padding.
pub open spec fn padded(payload: Seq<u8>, padding: Seq<u8>) -> Seq<u8> {
    be_bytes(payload.len(), 2) + payload + padding
}

fn mask(data: &[u8], stream: &[u8; KEY_LEN]) -> (out: Vec<u8>)
    ensures
        out@ == masked(data@, stream@),
{
    let mut out: Vec<u8> = Vec::new();
    let mut i: usize = 0;
    while i < data.len()
        invariant
            i <= data.len(),
            out@ == masked(data@.take(i as int), stream@),
        decreases data.len() - i,
    {
        out.push(data[i] ^ stream[i % KEY_LEN]);
        i = i + 1;
        assert(out@ =~= masked(data@.take(i as int), stream@));
    }
    assert(data@.take(i as int) =~= data@);
    out
}

/// Masking twice changes nothing.
pub proof fn lemma_mask_twice(data: Seq<u8>, stream: Seq<u8>)
    ensures
        masked(masked(data, stream), stream) == data,
{
    assert forall|i: int| 0 <= i < data.len() implies masked(masked(data, stream), stream)[i] == data[i] by {
        let a = data[i];
        let b = stream[i % KEY_LEN as int];
        assert((a ^ b) ^ b == a) by (bit_vector);
    }
    assert(masked(masked(data, stream), stream) =~= data);
}

/// The shared secret, hashed.
#[derive(Clone, Copy)]
pub struct ObfuscationKey {
    pub key: [u8; KEY_LEN],
}

/// The mask for a salt.
pub open spec fn keystream(key: Seq<u8>, salt: Seq<u8>) -> Seq<u8> {
    sha256(key + salt)
}

/// A datagram as it goes out.
pub open spec fn obfuscated(key: Seq<u8>, payload: Seq<u8>, salt: Seq<u8>, padding: Seq<u8>) -> Seq<u8> {
    salt + masked(padded(payload, padding), keystream(key, salt))
}

/// The payload of a datagram that came in, if it can be one.
pub open spec fn revealed(key: Seq<u8>, data: Seq<u8>) -> Option<Seq<u8>> {
    if data.len() < SALT_LEN + LENGTH_PREFIX_LEN {
        None
    } else {
        let plain = masked(data.skip(SALT_LEN as int), keystream(key, data.take(SALT_LEN as int)));
        let len = be_value(plain.take(2)) as int;
        if plain.len() < LENGTH_PREFIX_LEN + len {
            None
        } else {
            Some(plain.subrange(2, 2 + len))
        }
    }
}

pub open spec fn min_pad(pad_len: nat) -> nat {
    if pad_len < MAX_PADDING {
        pad_len
    } else {
        MAX_PADDING as nat
    }
}

/// What obfuscating with a generator in state `state` and a padding length
/// gives: salt first, then the padding.
pub open spec fn obfuscated_from(key: Seq<u8>, payload: Seq<u8>, state: u64, pad_len: nat) -> Seq<u8> {
    obfuscated(key, payload, drawn(state, SALT_LEN as nat), drawn(drawn_state(state, SALT_LEN as nat), min_pad(pad_len)))
}

/// The state of a generator after it gave a salt and padding.
pub open spec fn spent(state: u64, pad_len: nat) -> u64 {
    drawn_state(drawn_state(state, SALT_LEN as nat), min_pad(pad_len))
}

/// The padding length that a generator in state `state` gives.
pub open spec fn pad_drawn(state: u64) -> nat {
    (drawn(state, 1)[0] as int % (MAX_PADDING + 1)) as nat
}

impl ObfuscationKey {
    pub fn from_passphrase(passphrase: &str) -> (key: Self)
        ensures
            key.key@ == sha256(vstd::utf8::encode_utf8(passphrase@)),
    {
        ObfuscationKey { key: sha256_digest(passphrase.as_bytes()) }
    }

    fn keystream(&self, salt: &[u8]) -> (stream: [u8; KEY_LEN])
        ensures
            stream@ == keystream(self.key@, salt@),
    {
        let mut input: Vec<u8> = Vec::new();
        input.extend_from_slice(&self.key);
        input.extend_from_slice(salt);
        assert(input@ =~= self.key@ + salt@);
        sha256_digest(&input)
    }

    /// Obfuscates with a random salt and random padding.
    pub fn obfuscate(&self, payload: &[u8]) -> (result: Result<Vec<u8>, ObfuscationError>)
        ensures
            match result {
                Ok(wire) => payload@.len() <= 65535 && exists|state: u64, pad_len: nat|
                    pad_len <= MAX_PADDING && wire@ == #[trigger] obfuscated_from(
                        self.key@,
                        payload@,
                        state,
                        pad_len,
                    ) && wire@.len() == SALT_LEN + LENGTH_PREFIX_LEN + payload@.len() + pad_len && revealed(
                        self.key@,
                        wire@,
                    ) == Some(payload@),
                Err(error) => payload@.len() > 65535 && error == ObfuscationError::PayloadTooLarge,
            },
    {
        let mut rng = XorShift::from_os();
        let ghost state = drawn_state(rng.state, 1);
        let ghost pad_len = pad_drawn(rng.state);
        let result = self.obfuscate_drawn(payload, &mut rng);
        assert(result matches Ok(wire) ==> wire@ == obfuscated_from(self.key@, payload@, state, pad_len));
        result
    }

    /// The same with padding length, salt and padding from a generator.
    pub fn obfuscate_drawn(&self, payload: &[u8], rng: &mut XorShift) -> (result: Result<Vec<u8>, ObfuscationError>)
        ensures
            ({
                let pad_len = pad_drawn(old(rng).state);
                let state = drawn_state(old(rng).state, 1);
                &&& pad_len <= MAX_PADDING
                &&& match result {
                    Ok(wire) => {
                        &&& payload@.len() <= 65535
                        &&& wire@ == obfuscated_from(self.key@, payload@, state, pad_len)
                        &&& wire@.len() == SALT_LEN + LENGTH_PREFIX_LEN + payload@.len() + pad_len
                        &&& revealed(self.key@, wire@) == Some(payload@)
                        &&& final(rng).state == spent(state, pad_len)
                    },
                    Err(error) => {
                        &&& payload@.len() > 65535
                        &&& error == ObfuscationError::PayloadTooLarge
                        &&& final(rng).state == drawn_state(state, SALT_LEN as nat)
                    },
                }
            }),
    {
        let pad_len: usize = rng.draw_pad_len();
        self.obfuscate_from(payload, pad_len, rng)
    }

    /// The same with a padding length that the caller chooses: the segments of
    /// one batch all have to grow alike.
    pub fn obfuscate_padded(&self, payload: &[u8], pad_len: usize) -> (result: Result<Vec<u8>, ObfuscationError>)
        ensures
            match result {
                Ok(wire) => payload@.len() <= 65535 && exists|state: u64|
                    wire@ == #[trigger] obfuscated_from(self.key@, payload@, state, pad_len as nat) && wire@.len()
                        == SALT_LEN + LENGTH_PREFIX_LEN + payload@.len() + min_pad(pad_len as nat) && revealed(
                        self.key@,
                        wire@,
                    ) == Some(payload@),
                Err(error) => payload@.len() > 65535 && error == ObfuscationError::PayloadTooLarge,
            },
    {
        let mut rng = XorShift::from_os();
        self.obfuscate_from(payload, pad_len, &mut rng)
    }

    /// Obfuscates with salt and padding from a generator.
    pub fn obfuscate_from(&self, payload: &[u8], pad_len: usize, rng: &mut XorShift) -> (result: Result<
        Vec<u8>,
        ObfuscationError,
    >)
        ensures
            match result {
                Ok(wire) => payload@.len() <= 65535 && wire@ == obfuscated_from(
                    self.key@,
                    payload@,
                    old(rng).state,
                    pad_len as nat,
                ) && wire@.len() == SALT_LEN + LENGTH_PREFIX_LEN + payload@.len() + min_pad(pad_len as nat)
                    && revealed(self.key@, wire@) == Some(payload@) && final(rng).state == spent(
                    old(rng).state,
                    pad_len as nat,
                ),
                Err(error) => payload@.len() > 65535 && error == ObfuscationError::PayloadTooLarge && final(rng).state
                    == drawn_state(old(rng).state, SALT_LEN as nat),
            },
    {
        let pad_len: usize = if pad_len < MAX_PADDING {
            pad_len
        } else {
            MAX_PADDING
        };
        let salt = rng.draw(SALT_LEN);
        if payload.len() > 65535 {
            return Err(ObfuscationError::PayloadTooLarge);
        }
        let padding = rng.draw(pad_len);
        let wire = self.obfuscate_with(payload, &salt, &padding);
        proof {
            law_deobfuscate_inverts(self.key@, payload@, salt@, padding@);
        }
        Ok(wire)
    }

    /// Obfuscates with a given salt and padding.
    pub fn obfuscate_with(&self, payload: &[u8], salt: &[u8], padding: &[u8]) -> (wire: Vec<u8>)
        requires
            payload@.len() <= 65535,
            salt@.len() == SALT_LEN,
            padding@.len() <= MAX_PADDING,
        ensures
            wire@ == obfuscated(self.key@, payload@, salt@, padding@),
    {
        let stream = self.keystream(salt);
        let mut plain: Vec<u8> = Vec::new();
        push_be(&mut plain, payload.len() as u64, 2);
        plain.extend_from_slice(payload);
        plain.extend_from_slice(padding);
        assert(plain@ =~= padded(payload@, padding@));
        let mut wire: Vec<u8> = Vec::new();
        wire.extend_from_slice(salt);
        let mut body = mask(&plain, &stream);
        wire.append(&mut body);
        assert(wire@ =~= obfuscated(self.key@, payload@, salt@, padding@));
        wire
    }

    /// The payload of a datagram; nothing where it is too short or its length
    /// field points past its end, as noise does.
    pub fn deobfuscate(&self, data: &[u8]) -> (payload: Option<Vec<u8>>)
        ensures
            match payload {
                Some(payload) => revealed(self.key@, data@) == Some(payload@),
                None => revealed(self.key@, data@) is None,
            },
    {
        if data.len() < SALT_LEN + LENGTH_PREFIX_LEN {
            return None;
        }
        let salt = vstd::slice::slice_subrange(data, 0, SALT_LEN);
        assert(salt@ =~= data@.take(SALT_LEN as int));
        let stream = self.keystream(salt);
        let body = vstd::slice::slice_subrange(data, SALT_LEN, data.len());
        assert(body@ =~= data@.skip(SALT_LEN as int));
        let plain = mask(body, &stream);
        assert(plain@.subrange(0, 2) =~= plain@.take(2));
        let len: usize = read_u16(&plain, 0) as usize;
        if plain.len() - LENGTH_PREFIX_LEN < len {
            return None;
        }
        let payload = vstd::slice::slice_subrange(&plain, LENGTH_PREFIX_LEN, LENGTH_PREFIX_LEN + len);
        Some(vstd::slice::slice_to_vec(payload))
    }
}

/// A payload is shorter than its datagram by salt and length at least.
pub proof fn lemma_revealed_is_shorter(key: Seq<u8>, data: Seq<u8>)
    ensures
        revealed(key, data) matches Some(payload) ==> payload.len() + SALT_LEN + LENGTH_PREFIX_LEN <= data.len(),
{
}

/// Deobfuscating gives the payload back, whatever salt and padding were used.
pub proof fn law_deobfuscate_inverts(key: Seq<u8>, payload: Seq<u8>, salt: Seq<u8>, padding: Seq<u8>)
    requires
        payload.len() <= 65535,
        salt.len() == SALT_LEN,
    ensures
        revealed(key, obfuscated(key, payload, salt, padding)) == Some(payload),
        obfuscated(key, payload, salt, padding).len() == SALT_LEN + LENGTH_PREFIX_LEN + payload.len() + padding.len(),
{
    let wire = obfuscated(key, payload, salt, padding);
    let plain = padded(payload, padding);
    lemma_be_bytes_len(payload.len(), 2);
    lemma_be_range();
    lemma_value_of_bytes(payload.len(), 2);
    assert(wire.take(SALT_LEN as int) =~= salt);
    assert(wire.skip(SALT_LEN as int) =~= masked(plain, keystream(key, salt)));
    lemma_mask_twice(plain, keystream(key, salt));
    assert(plain.take(2) =~= be_bytes(payload.len(), 2));
    assert(plain.subrange(2, 2 + payload.len() as int) =~= payload);
}

/// What a generator obfuscates can be deobfuscated, and how long it is.
pub proof fn lemma_obfuscated_from(key: Seq<u8>, payload: Seq<u8>, state: u64, pad_len: nat)
    requires
        payload.len() <= 65535,
    ensures
        revealed(key, obfuscated_from(key, payload, state, pad_len)) == Some(payload),
        obfuscated_from(key, payload, state, pad_len).len() == SALT_LEN + LENGTH_PREFIX_LEN + payload.len() + min_pad(
            pad_len,
        ),
{
    let next = drawn_state(state, SALT_LEN as nat);
    lemma_drawn_len(state, SALT_LEN as nat);
    lemma_drawn_len(next, min_pad(pad_len));
    law_deobfuscate_inverts(key, payload, drawn(state, SALT_LEN as nat), drawn(next, min_pad(pad_len)));
}

/// Datagrams of one payload length and one padding length are equally long.
pub proof fn law_equal_padding_equal_length(
    key: Seq<u8>,
    a: Seq<u8>,
    b: Seq<u8>,
    salt_a: Seq<u8>,
    salt_b: Seq<u8>,
    padding_a: Seq<u8>,
    padding_b: Seq<u8>,
)
    requires
        a.len() == b.len(),
        salt_a.len() == salt_b.len(),
        padding_a.len() == padding_b.len(),
    ensures
        obfuscated(key, a, salt_a, padding_a).len() == obfuscated(key, b, salt_b, padding_b).len(),
{
    lemma_be_bytes_len(a.len(), 2);
    lemma_be_bytes_len(b.len(), 2);
}

} // verus!
