//! WHATS_UP_DUDE: a client introduces itself and shows its token.

use bytes::Bytes;
use vstd::prelude::*;

use super::error::FrameError;
use super::frame::PROTOCOL_VERSION;
use crate::buffer::{
    bytes_len, bytes_slice, bytes_view, freeze, get_array, get_bytes, get_u16, get_u32, get_u8, new_buffer, put_slice,
    put_u16, put_u32, put_u8,
};
use crate::random::random_array;
use crate::wire::{be_bytes, be_value, lemma_be_bytes_len, lemma_be_range, lemma_bytes_of_value, lemma_value_of_bytes};

verus! {

pub const CLIENT_NONCE_SIZE: usize = 32;

pub const WHATS_UP_DUDE_HEADER_SIZE: usize = 41;

pub const MAX_AUTH_TOKEN_SIZE: usize = 2048;

pub const CAP_IPV4: u32 = 1;

pub const CAP_IPV6: u32 = 2;

pub const CAP_DNS: u32 = 4;

pub const CAP_RESUME: u32 = 8;

pub const CAP_ROAMING: u32 = 16;

#[derive(Debug)]
pub struct WhatsUpDude {
    pub protocol_version: u8,
    pub client_version: u16,
    pub capabilities: u32,
    pub client_nonce: [u8; CLIENT_NONCE_SIZE],
    pub auth_token: Bytes,
}

impl Clone for WhatsUpDude {
    fn clone(&self) -> (copy: Self)
        ensures
            copy.protocol_version == self.protocol_version,
            copy.client_version == self.client_version,
            copy.capabilities == self.capabilities,
            copy.client_nonce == self.client_nonce,
            copy.token() == self.token(),
    {
        WhatsUpDude {
            protocol_version: self.protocol_version,
            client_version: self.client_version,
            capabilities: self.capabilities,
            client_nonce: self.client_nonce,
            auth_token: self.auth_token.clone(),
        }
    }
}

/// The first fault counts: header size, missing token, oversized token,
/// a length field that does not match what follows.
pub open spec fn whats_up_fault(data: Seq<u8>) -> Option<FrameError> {
    if data.len() < WHATS_UP_DUDE_HEADER_SIZE {
        Some(FrameError::InvalidWhatsUpDudeLength)
    } else {
        let token_len = be_value(data.subrange(39, 41));
        if token_len == 0 {
            Some(FrameError::MissingAuthToken)
        } else if token_len > MAX_AUTH_TOKEN_SIZE {
            Some(FrameError::AuthTokenTooLarge)
        } else if data.len() - WHATS_UP_DUDE_HEADER_SIZE != token_len {
            Some(FrameError::InvalidAuthTokenLength)
        } else {
            None
        }
    }
}

impl WhatsUpDude {
    pub open spec fn token(self) -> Seq<u8> {
        bytes_view(self.auth_token)
    }

    /// version, client version, capabilities, nonce, token length, token.
    pub open spec fn wire(self) -> Seq<u8> {
        seq![self.protocol_version] + be_bytes(self.client_version as nat, 2) + be_bytes(self.capabilities as nat, 4)
            + self.client_nonce@ + be_bytes(self.token().len(), 2) + self.token()
    }

    /// A message with a random nonce.
    pub fn new(client_version: u16, capabilities: u32, auth_token: Bytes) -> (message: Self)
        ensures
            message.protocol_version == PROTOCOL_VERSION,
            message.client_version == client_version,
            message.capabilities == capabilities,
            message.auth_token == auth_token,
    {
        WhatsUpDude {
            protocol_version: PROTOCOL_VERSION,
            client_version,
            capabilities,
            client_nonce: random_array(),
            auth_token,
        }
    }

    /// Whether any of the bits of `capability` is on.
    pub fn supports(&self, capability: u32) -> (yes: bool)
        ensures
            yes == (self.capabilities & capability != 0),
    {
        self.capabilities & capability != 0
    }

    pub fn encode(&self) -> (out: Bytes)
        requires
            self.token().len() <= MAX_AUTH_TOKEN_SIZE,
        ensures
            bytes_view(out) == self.wire(),
            bytes_view(out).len() == WHATS_UP_DUDE_HEADER_SIZE + self.token().len(),
    {
        let token_len: usize = bytes_len(&self.auth_token);
        let mut buffer = new_buffer(WHATS_UP_DUDE_HEADER_SIZE + token_len);
        proof {
            lemma_be_bytes_len(self.client_version as nat, 2);
            lemma_be_bytes_len(self.capabilities as nat, 4);
            lemma_be_bytes_len(self.token().len(), 2);
        }
        put_u8(&mut buffer, self.protocol_version);
        put_u16(&mut buffer, self.client_version);
        put_u32(&mut buffer, self.capabilities);
        put_slice(&mut buffer, &self.client_nonce);
        put_u16(&mut buffer, token_len as u16);
        put_slice(&mut buffer, bytes_slice(&self.auth_token));
        let out = freeze(buffer);
        assert(bytes_view(out) =~= self.wire());
        out
    }

    pub fn decode(buffer: Bytes) -> (result: Result<Self, FrameError>)
        ensures
            match result {
                Ok(message) => whats_up_fault(bytes_view(buffer)) is None && message.wire() == bytes_view(buffer),
                Err(error) => whats_up_fault(bytes_view(buffer)) == Some(error),
            },
    {
        let ghost data = bytes_view(buffer);
        let mut buffer = buffer;
        if bytes_len(&buffer) < WHATS_UP_DUDE_HEADER_SIZE {
            return Err(FrameError::InvalidWhatsUpDudeLength);
        }
        let protocol_version: u8 = get_u8(&mut buffer);
        let client_version: u16 = get_u16(&mut buffer);
        let capabilities: u32 = get_u32(&mut buffer);
        let client_nonce: [u8; CLIENT_NONCE_SIZE] = get_array(&mut buffer);
        let token_len: usize = get_u16(&mut buffer) as usize;
        proof {
            assert(data.skip(1).skip(2).skip(4).skip(32).take(2) =~= data.subrange(39, 41));
            assert(bytes_view(buffer) =~= data.skip(41));
        }
        if token_len == 0 {
            return Err(FrameError::MissingAuthToken);
        }
        if token_len > MAX_AUTH_TOKEN_SIZE {
            return Err(FrameError::AuthTokenTooLarge);
        }
        if bytes_len(&buffer) != token_len {
            return Err(FrameError::InvalidAuthTokenLength);
        }
        let auth_token = get_bytes(&mut buffer, token_len);
        let message = WhatsUpDude { protocol_version, client_version, capabilities, client_nonce, auth_token };
        proof {
            assert(data.skip(1).take(2) =~= data.subrange(1, 3));
            assert(data.skip(1).skip(2).take(4) =~= data.subrange(3, 7));
            assert(data.skip(1).skip(2).skip(4).take(32) =~= data.subrange(7, 39));
            lemma_bytes_of_value(data.subrange(1, 3));
            lemma_bytes_of_value(data.subrange(3, 7));
            lemma_bytes_of_value(data.subrange(39, 41));
            assert(message.token() =~= data.skip(41));
            assert(message.wire() =~= data);
        }
        Ok(message)
    }
}

/// Decoding what was encoded gives the message back, and nothing else does:
/// the wire form decides every field.
pub proof fn law_whats_up_roundtrip(a: WhatsUpDude, b: WhatsUpDude)
    ensures
        0 < a.token().len() <= MAX_AUTH_TOKEN_SIZE ==> whats_up_fault(a.wire()) is None,
        a.wire() == b.wire() ==> {
            &&& a.protocol_version == b.protocol_version
            &&& a.client_version == b.client_version
            &&& a.capabilities == b.capabilities
            &&& a.client_nonce == b.client_nonce
            &&& a.token() == b.token()
        },
{
    lemma_be_range();
    lemma_whats_up_fields(a);
    lemma_whats_up_fields(b);
    lemma_value_of_bytes(a.client_version as nat, 2);
    lemma_value_of_bytes(b.client_version as nat, 2);
    lemma_value_of_bytes(a.capabilities as nat, 4);
    lemma_value_of_bytes(b.capabilities as nat, 4);
    if a.token().len() <= MAX_AUTH_TOKEN_SIZE {
        lemma_value_of_bytes(a.token().len(), 2);
    }
    if a.wire() == b.wire() {
        assert(a.client_nonce =~= b.client_nonce);
    }
}

proof fn lemma_whats_up_fields(m: WhatsUpDude)
    ensures
        m.wire().len() == WHATS_UP_DUDE_HEADER_SIZE + m.token().len(),
        m.wire()[0] == m.protocol_version,
        m.wire().subrange(1, 3) == be_bytes(m.client_version as nat, 2),
        m.wire().subrange(3, 7) == be_bytes(m.capabilities as nat, 4),
        m.wire().subrange(7, 39) == m.client_nonce@,
        m.wire().subrange(39, 41) == be_bytes(m.token().len(), 2),
        m.wire().skip(41) == m.token(),
{
    lemma_be_bytes_len(m.client_version as nat, 2);
    lemma_be_bytes_len(m.capabilities as nat, 4);
    lemma_be_bytes_len(m.token().len(), 2);
    assert(m.wire().subrange(1, 3) =~= be_bytes(m.client_version as nat, 2));
    assert(m.wire().subrange(3, 7) =~= be_bytes(m.capabilities as nat, 4));
    assert(m.wire().subrange(7, 39) =~= m.client_nonce@);
    assert(m.wire().subrange(39, 41) =~= be_bytes(m.token().len(), 2));
    assert(m.wire().skip(41) =~= m.token());
}

/// The message that some bytes are the wire form of.
pub open spec fn whats_up_in(data: Seq<u8>) -> WhatsUpDude {
    choose|m: WhatsUpDude| m.wire() == data
}

} // verus!
