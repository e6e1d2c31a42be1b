//! What happens to a connection after its ClientHello, and what is learned
//! from the site that the server stands in for.

use vstd::prelude::*;

use super::config::{authenticate_at, authenticated, dest_host, host_of, RealityServerConfig};
use super::hello::{
    client_hello_in, handshake_from_record, handshake_in, server_hello_in, ClientHelloView, ServerHelloView, ALPN_ACME,
};
use crate::crypto::AEAD_LIMIT;
use crate::text::{chars_of, is_listed, listed, text};
use crate::wire::{be_value, read_u16};

verus! {

/// The longest record that is read in full.
pub const MAX_RECORD: usize = 16 * 1024;

pub const PEEK_TIMEOUT_MS: u64 = 10_000;

pub const DEST_TIMEOUT_MS: u64 = 8_000;

pub const DEST_TAIL_WAIT_MS: u64 = 250;

// ---------------------------------------------------------------------------
// Record headers
// ---------------------------------------------------------------------------

pub open spec fn record_len(header: Seq<u8>) -> nat {
    be_value(header.subrange(3, 5))
}

/// How many bytes to read after the header of a connection's first record:
/// none where it is no handshake record or has no sensible length.
pub fn hello_rest(header: &[u8; 5]) -> (rest: usize)
    ensures
        rest == (if header@[0] == 0x16 && record_len(header@) <= MAX_RECORD {
            record_len(header@)
        } else {
            0
        }),
{
    if header[0] != 0x16 {
        return 0;
    }
    let len: usize = read_u16(header, 3) as usize;
    if len > MAX_RECORD {
        return 0;
    }
    len
}

/// How many bytes to read after the header of any record; `None` where it
/// would be too long.
pub fn record_rest(header: &[u8; 5]) -> (rest: Option<usize>)
    ensures
        match rest {
            Some(rest) => rest == record_len(header@) && rest <= MAX_RECORD,
            None => record_len(header@) > MAX_RECORD,
        },
{
    let len: usize = read_u16(header, 3) as usize;
    if len > MAX_RECORD {
        return None;
    }
    Some(len)
}

// ---------------------------------------------------------------------------
// The answer of the site
// ---------------------------------------------------------------------------

/// The ServerHello of the site, the sizes of its encrypted records, and those
/// of the records that it sends after the handshake.
#[derive(Debug)]
pub struct DestFlight {
    pub server_hello: Vec<u8>,
    pub encrypted_record_lens: Vec<usize>,
    pub post_handshake_lens: Vec<usize>,
}

impl Default for DestFlight {
    fn default() -> (flight: Self)
        ensures
            flight.server_hello@.len() == 0,
            flight.encrypted_record_lens@.len() == 0,
            flight.post_handshake_lens@.len() == 0,
    {
        DestFlight { server_hello: Vec::new(), encrypted_record_lens: Vec::new(), post_handshake_lens: Vec::new() }
    }
}

/// The size of the first record, where that holds the whole handshake: it is
/// then longer than 512 bytes.
pub open spec fn whole_pad(lens: Seq<usize>) -> Option<usize> {
    if lens.len() > 0 && lens[0] > 512 {
        Some(lens[0])
    } else {
        None
    }
}

/// The sizes of the first four records, where each holds one message.
pub open spec fn split_pads_of(lens: Seq<usize>) -> Option<Seq<Option<usize>>> {
    if whole_pad(lens) is Some || lens.len() == 0 {
        None
    } else {
        Some(
            Seq::new(
                4,
                |i: int|
                    if i < lens.len() {
                        Some(lens[i])
                    } else {
                        None
                    },
            ),
        )
    }
}

/// The sizes of the records after the handshake flight.
pub open spec fn extra_pads_of(lens: Seq<usize>) -> Seq<usize> {
    if whole_pad(lens) is Some {
        lens.skip(1)
    } else if lens.len() > 4 {
        lens.skip(4)
    } else {
        Seq::empty()
    }
}

impl DestFlight {
    /// Whether every size is one that a record can be padded to.
    pub open spec fn sizes_fit(&self) -> bool {
        &&& forall|i: int|
            0 <= i < self.encrypted_record_lens@.len() ==> (#[trigger] self.encrypted_record_lens@[i]) <= AEAD_LIMIT
        &&& forall|i: int|
            0 <= i < self.post_handshake_lens@.len() ==> (#[trigger] self.post_handshake_lens@[i]) <= AEAD_LIMIT
    }

    /// The size to pad the handshake flight to, where the site sent it in one
    /// record.
    pub fn handshake_pad(&self) -> (pad: Option<usize>)
        ensures
            pad == whole_pad(self.encrypted_record_lens@),
    {
        if self.encrypted_record_lens.len() > 0 && self.encrypted_record_lens[0] > 512 {
            Some(self.encrypted_record_lens[0])
        } else {
            None
        }
    }

    /// The sizes to pad the four messages to, where the site sent them apart.
    pub fn split_pads(&self) -> (pads: Option<[Option<usize>; 4]>)
        ensures
            match pads {
                Some(pads) => split_pads_of(self.encrypted_record_lens@) == Some(pads@),
                None => split_pads_of(self.encrypted_record_lens@) is None,
            },
    {
        if self.handshake_pad().is_some() || self.encrypted_record_lens.len() == 0 {
            return None;
        }
        let mut pads: [Option<usize>; 4] = [None, None, None, None];
        let mut i: usize = 0;
        while i < 4 && i < self.encrypted_record_lens.len()
            invariant
                i <= 4,
                i <= self.encrypted_record_lens@.len(),
                forall|j: int|
                    0 <= j < 4 ==> #[trigger] pads@[j] == (if j < i {
                        Some(self.encrypted_record_lens@[j])
                    } else {
                        None
                    }),
            decreases 4 - i,
        {
            pads[i] = Some(self.encrypted_record_lens[i]);
            i = i + 1;
        }
        assert(pads@ =~= split_pads_of(self.encrypted_record_lens@)->0);
        Some(pads)
    }

    pub fn extra_pads(&self) -> (pads: &[usize])
        ensures
            pads@ == extra_pads_of(self.encrypted_record_lens@),
    {
        let lens = &self.encrypted_record_lens;
        let from: usize = if self.handshake_pad().is_some() {
            1
        } else if lens.len() > 4 {
            4
        } else {
            lens.len()
        };
        let pads = vstd::slice::slice_subrange(lens, from, lens.len());
        assert(pads@ =~= extra_pads_of(lens@));
        pads
    }

    pub fn post_handshake_pads(&self) -> (pads: &[usize])
        ensures
            pads@ == self.post_handshake_lens@,
    {
        &self.post_handshake_lens
    }
}

/// How many records are sampled at most.
pub const MAX_SAMPLES: usize = 8;

/// Reads the site's answer record by record.
pub struct DestProbe {
    flight: DestFlight,
}

impl DestProbe {
    pub closed spec fn flight(&self) -> DestFlight {
        self.flight
    }

    /// Starts with the first record, which has to hold a ServerHello.
    pub fn begin(record: &[u8]) -> (probe: Option<Self>)
        ensures
            match probe {
                Some(probe) => {
                    &&& handshake_in(record@) == Some(probe.flight().server_hello@)
                    &&& server_hello_in(probe.flight().server_hello@) is Some
                    &&& probe.flight().encrypted_record_lens@.len() == 0
                    &&& probe.flight().post_handshake_lens@.len() == 0
                },
                None => handshake_in(record@) is None || server_hello_in(handshake_in(record@)->0) is None,
            },
    {
        match handshake_from_record(record) {
            None => None,
            Some(handshake) => match ServerHelloView::parse(handshake) {
                None => None,
                Some(_) => Some(
                    DestProbe {
                        flight: DestFlight {
                            server_hello: vstd::slice::slice_to_vec(handshake),
                            encrypted_record_lens: Vec::new(),
                            post_handshake_lens: Vec::new(),
                        },
                    },
                ),
            },
        }
    }

    /// How long to wait for the next record: long for the first encrypted one,
    /// not long after that, not at all when there are enough.
    pub fn wait_ms(&self) -> (wait: Option<u64>)
        ensures
            wait == (if self.flight().encrypted_record_lens@.len() >= MAX_SAMPLES {
                None
            } else if self.flight().encrypted_record_lens@.len() > 0 {
                Some(DEST_TAIL_WAIT_MS)
            } else {
                Some(DEST_TIMEOUT_MS)
            }),
    {
        if self.flight.encrypted_record_lens.len() >= MAX_SAMPLES {
            None
        } else if self.flight.encrypted_record_lens.len() > 0 {
            Some(DEST_TAIL_WAIT_MS)
        } else {
            Some(DEST_TIMEOUT_MS)
        }
    }

    /// Takes the next record; `false` where it ends the sample.
    pub fn note(&mut self, record: &[u8]) -> (more: bool)
        ensures
            more == (record@.len() > 0 && (record@[0] == 0x14 || record@[0] == 0x17)),
            final(self).flight().server_hello@ == old(self).flight().server_hello@,
            final(self).flight().post_handshake_lens@ == old(self).flight().post_handshake_lens@,
            final(self).flight().encrypted_record_lens@ == (if record@.len() > 0 && record@[0] == 0x17 {
                old(self).flight().encrypted_record_lens@.push(record.len())
            } else {
                old(self).flight().encrypted_record_lens@
            }),
    {
        if record.len() == 0 {
            return false;
        }
        if record[0] == 0x17 {
            self.flight.encrypted_record_lens.push(record.len());
            return true;
        }
        record[0] == 0x14
    }

    pub fn finish(self) -> (flight: DestFlight)
        ensures
            flight == self.flight(),
    {
        self.flight
    }
}

/// The flight with the sizes of the records after the handshake. Without a
/// flight these make one, if there are any.
pub fn with_post_handshake(flight: Option<DestFlight>, lens: Vec<usize>) -> (out: Option<DestFlight>)
    ensures
        match flight {
            Some(flight) => out matches Some(out) && out.server_hello@ == flight.server_hello@
                && out.encrypted_record_lens@ == flight.encrypted_record_lens@ && out.post_handshake_lens@ == lens@,
            None => if lens@.len() == 0 {
                out is None
            } else {
                out matches Some(out) && out.server_hello@.len() == 0 && out.encrypted_record_lens@.len() == 0
                    && out.post_handshake_lens@ == lens@
            },
        },
{
    match flight {
        Some(flight) => Some(
            DestFlight {
                server_hello: flight.server_hello,
                encrypted_record_lens: flight.encrypted_record_lens,
                post_handshake_lens: lens,
            },
        ),
        None => {
            if lens.len() == 0 {
                return None;
            }
            Some(
                DestFlight { server_hello: Vec::new(), encrypted_record_lens: Vec::new(), post_handshake_lens: lens },
            )
        },
    }
}

// ---------------------------------------------------------------------------
// The verdict on a connection
// ---------------------------------------------------------------------------

/// What to do with a connection after its first record.
#[derive(Debug)]
pub enum HelloVerdict {
    /// A client of ours.
    Vpn { auth_key: [u8; 32], server_name: String, alpn_class: u8 },
    /// A name of ours, or a check of an ACME server: the server speaks TLS
    /// itself.
    Local { acme: bool },
    /// Everybody else talks to the site.
    Splice,
}

/// Whether a hello asks for ACME.
pub open spec fn asks_acme(alpn: Seq<Seq<u8>>) -> bool {
    alpn.contains(ALPN_ACME@)
}

/// Whether a record is for the server's own TLS.
pub open spec fn is_local(record: Seq<u8>, config: RealityServerConfig) -> bool {
    &&& handshake_in(record) matches Some(handshake)
    &&& client_hello_in(handshake) matches Some(hello)
    &&& asks_acme(hello.alpn) || (hello.sni matches Some(sni) && listed(config.local_names@, sni))
}

pub open spec fn verdict_fits(verdict: HelloVerdict, record: Seq<u8>, config: RealityServerConfig, now: nat) -> bool {
    match authenticated(record, config, now) {
        Ok((hello, key)) => match verdict {
            HelloVerdict::Vpn { auth_key, server_name, alpn_class } => {
                &&& auth_key@ == key
                &&& server_name@ == (match hello.sni {
                    Some(name) => name,
                    None => match host_of(config.dest@) {
                        Ok(host) => host,
                        Err(_) => "localhost"@,
                    },
                })
                &&& alpn_class == (if hello.alpn.len() == 0 {
                    0u8
                } else if hello.alpn[0] == super::hello::ALPN_H2@ {
                    2
                } else {
                    1
                })
            },
            _ => false,
        },
        Err(_) => if is_local(record, config) {
            verdict matches HelloVerdict::Local { acme } && acme == asks_acme(
                client_hello_in(handshake_in(record)->0)->0.alpn,
            )
        } else {
            verdict is Splice
        },
    }
}

/// Decides by the first record, at the time `now` in seconds since 1970.
pub fn judge_hello(record: &[u8], config: &RealityServerConfig, now: u64) -> (verdict: HelloVerdict)
    ensures
        verdict_fits(verdict, record@, *config, now as nat),
{
    if let Ok(auth) = authenticate_at(record, config, now) {
        let alpn_class: u8 = auth.hello.alpn_class();
        let auth_key = auth.auth_key;
        let server_name = match auth.hello.sni {
            Some(name) => name,
            None => match dest_host(&config.dest) {
                Ok(host) => host,
                Err(_) => text("localhost"),
            },
        };
        return HelloVerdict::Vpn { auth_key, server_name, alpn_class };
    }
    let view = match ClientHelloView::parse(record) {
        Some(view) => view,
        None => return HelloVerdict::Splice,
    };
    if view.has_acme_alpn() {
        return HelloVerdict::Local { acme: true };
    }
    match &view.sni {
        Some(name) => {
            if is_listed(&config.local_names, &chars_of(name)) {
                HelloVerdict::Local { acme: false }
            } else {
                HelloVerdict::Splice
            }
        },
        None => HelloVerdict::Splice,
    }
}

} // verus!
