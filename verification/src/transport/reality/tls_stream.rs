//! A TLS 1.3 connection after its handshake: records are put together from
//! what is read and cut from what is written. The caller moves the bytes.

use vstd::prelude::*;

use super::suite::{
    counted, decrypt_app, encrypt_app, opened_record, record_of, RecordError, TrafficKeys,
};
use super::tls_messages::TlsError;
use crate::wire::{be_value, read_u16};

verus! {

/// The longest record body that is taken.
pub const MAX_RECORD: usize = 16 * 1024 + 256;

/// The longest text that goes into one record.
pub const MAX_CHUNK: usize = 14 * 1024;

/// The length in the header of a record.
pub open spec fn body_len(header: Seq<u8>) -> nat {
    be_value(header.subrange(3, 5))
}

pub open spec fn len_fits(len: nat) -> bool {
    0 < len <= MAX_RECORD
}

/// The length in a record's header, where it is one that is taken.
pub fn record_body_len(header: &[u8; 5]) -> (len: Result<usize, TlsError>)
    ensures
        match len {
            Ok(len) => len == body_len(header@) && len_fits(body_len(header@)),
            Err(error) => !len_fits(body_len(header@)) && error == TlsError::RecordLength,
        },
{
    let len: usize = read_u16(header, 3) as usize;
    if len == 0 || len > MAX_RECORD {
        return Err(TlsError::RecordLength);
    }
    Ok(len)
}

/// Puts records together.
pub struct RecordAssembler {
    got: Vec<u8>,
}

impl Default for RecordAssembler {
    fn default() -> (assembler: Self)
        ensures
            assembler.got() == Seq::<u8>::empty(),
            assembler.wf(),
    {
        RecordAssembler { got: Vec::new() }
    }
}

impl RecordAssembler {
    /// The part of a record that is there.
    pub closed spec fn got(&self) -> Seq<u8> {
        self.got@
    }

    /// A record that is not complete, or the header of one that is refused.
    pub open spec fn wf(&self) -> bool {
        self.got().len() > 5 ==> len_fits(body_len(self.got())) && self.got().len() < 5 + body_len(self.got())
    }

    /// Whether the header is there and refused.
    pub open spec fn refused(&self) -> bool {
        self.got().len() >= 5 && !len_fits(body_len(self.got()))
    }

    /// How many bytes are missing: of the header first, then of the body.
    pub open spec fn missing(&self) -> int {
        if self.got().len() < 5 {
            5 - self.got().len()
        } else {
            5 + body_len(self.got()) - self.got().len()
        }
    }

    /// How many bytes to read next, at most.
    pub fn needed(&self) -> (needed: Result<usize, TlsError>)
        requires
            self.wf(),
        ensures
            match needed {
                Ok(needed) => !self.refused() && needed == self.missing() && needed > 0,
                Err(error) => self.refused() && error == TlsError::RecordLength,
            },
    {
        if self.got.len() < 5 {
            return Ok(5 - self.got.len());
        }
        let len: usize = read_u16(&self.got, 3) as usize;
        if len == 0 || len > MAX_RECORD {
            return Err(TlsError::RecordLength);
        }
        Ok(5 + len - self.got.len())
    }

    /// Takes bytes that were read; none at all is the end of the connection.
    /// A record comes out when it is complete.
    pub fn feed(&mut self, bytes: &[u8]) -> (out: Result<Option<(u8, Vec<u8>)>, TlsError>)
        requires
            old(self).wf(),
            !old(self).refused(),
            bytes@.len() <= old(self).missing(),
        ensures
            final(self).wf(),
            ({
                let all = old(self).got() + bytes@;
                if bytes@.len() == 0 {
                    out == Err::<Option<(u8, Vec<u8>)>, TlsError>(TlsError::UnexpectedEof) && final(self).got()
                        == old(self).got()
                } else if all.len() == 5 && !len_fits(body_len(all)) {
                    out == Err::<Option<(u8, Vec<u8>)>, TlsError>(TlsError::RecordLength) && final(self).got() == all
                } else if all.len() > 5 && all.len() == 5 + body_len(all) {
                    &&& out matches Ok(Some((typ, body)))
                    &&& typ == all[0]
                    &&& body@ == all.skip(5)
                    &&& final(self).got() == Seq::<u8>::empty()
                } else {
                    out matches Ok(None) && final(self).got() == all
                }
            }),
    {
        if bytes.len() == 0 {
            return Err(TlsError::UnexpectedEof);
        }
        let ghost all = self.got@ + bytes@;
        assert(self.got@.len() >= 5 ==> all.subrange(3, 5) =~= self.got@.subrange(3, 5));
        self.got.extend_from_slice(bytes);
        assert(self.got@ =~= all);
        if self.got.len() < 5 {
            return Ok(None);
        }
        let len: usize = read_u16(&self.got, 3) as usize;
        if len == 0 || len > MAX_RECORD {
            return Err(TlsError::RecordLength);
        }
        if self.got.len() < 5 + len {
            return Ok(None);
        }
        let typ: u8 = self.got[0];
        let body = vstd::slice::slice_to_vec(vstd::slice::slice_subrange(&self.got, 5, self.got.len()));
        assert(body@ =~= all.skip(5));
        self.got = Vec::new();
        Ok(Some((typ, body)))
    }
}

/// The state of a connection.
pub struct Tls13State {
    send: TrafficKeys,
    recv: TrafficKeys,
    plaintext: Vec<u8>,
    plaintext_at: usize,
    pending: Vec<u8>,
    pending_at: usize,
    pending_plain: usize,
}

impl Tls13State {
    pub closed spec fn send(&self) -> TrafficKeys {
        self.send
    }

    pub closed spec fn recv(&self) -> TrafficKeys {
        self.recv
    }

    /// The text that was received and not read yet.
    pub closed spec fn unread(&self) -> Seq<u8> {
        self.plaintext@.skip(self.plaintext_at as int)
    }

    /// The part of a record that is still to be written.
    pub closed spec fn unsent(&self) -> Seq<u8> {
        self.pending@.skip(self.pending_at as int)
    }

    /// How much text that record holds.
    pub closed spec fn queued(&self) -> usize {
        self.pending_plain
    }

    pub closed spec fn wf(&self) -> bool {
        self.plaintext_at <= self.plaintext@.len() && self.pending_at <= self.pending@.len()
    }

    pub fn new(send: TrafficKeys, recv: TrafficKeys) -> (state: Self)
        ensures
            state.wf(),
            state.send() == send,
            state.recv() == recv,
            state.unread() == Seq::<u8>::empty(),
            state.unsent() == Seq::<u8>::empty(),
    {
        let state = Tls13State {
            send,
            recv,
            plaintext: Vec::new(),
            plaintext_at: 0,
            pending: Vec::new(),
            pending_at: 0,
            pending_plain: 0,
        };
        assert(state.unread() =~= Seq::<u8>::empty());
        assert(state.unsent() =~= Seq::<u8>::empty());
        state
    }

    /// Takes a record; `true` where it brought text to read, which then takes
    /// the place of what was not read before.
    pub fn on_record(&mut self, typ: u8, body: &[u8]) -> (filled: Result<bool, TlsError>)
        requires
            old(self).wf(),
        ensures
            final(self).wf(),
            final(self).send() == old(self).send(),
            final(self).unsent() == old(self).unsent(),
            final(self).queued() == old(self).queued(),
            if typ == 0x17 {
                match opened_record(old(self).recv(), body@) {
                    Err(error) => filled == Err::<bool, TlsError>(TlsError::Record(error)) && final(self).recv()
                        == old(self).recv() && final(self).unread() == old(self).unread(),
                    Ok((inner, text)) => {
                        &&& final(self).recv() == counted(old(self).recv())
                        &&& final(self).unread() == (if inner == 0x17 {
                            text
                        } else {
                            old(self).unread()
                        })
                        &&& filled == (if inner == 0x17 {
                            Ok::<bool, TlsError>(true)
                        } else if inner == 0x16 {
                            Ok(false)
                        } else if inner == 0x15 {
                            Err(TlsError::Alert)
                        } else {
                            Err(TlsError::Inner(inner))
                        })
                    },
                }
            } else {
                &&& final(self).recv() == old(self).recv()
                &&& final(self).unread() == old(self).unread()
                &&& filled == (if typ == 0x14 {
                    Ok::<bool, TlsError>(false)
                } else if typ == 0x15 {
                    Err(TlsError::Alert)
                } else {
                    Err(TlsError::UnexpectedRecord(typ))
                })
            },
    {
        if typ == 0x14 {
            return Ok(false);
        }
        if typ == 0x15 {
            return Err(TlsError::Alert);
        }
        if typ != 0x17 {
            return Err(TlsError::UnexpectedRecord(typ));
        }
        let (inner, text) = match decrypt_app(&self.recv, body) {
            Ok(opened) => opened,
            Err(error) => return Err(TlsError::Record(error)),
        };
        self.recv.count();
        if inner == 0x17 {
            self.plaintext = text;
            self.plaintext_at = 0;
            assert(self.unread() =~= text@);
            return Ok(true);
        }
        if inner == 0x16 {
            return Ok(false);
        }
        if inner == 0x15 {
            return Err(TlsError::Alert);
        }
        Err(TlsError::Inner(inner))
    }

    /// Whether there is text to read.
    pub fn has_unread(&self) -> (yes: bool)
        requires
            self.wf(),
        ensures
            yes == (self.unread().len() > 0),
    {
        self.plaintext_at < self.plaintext.len()
    }

    /// Reads up to `max` bytes.
    pub fn read(&mut self, max: usize) -> (out: Vec<u8>)
        requires
            old(self).wf(),
        ensures
            final(self).wf(),
            final(self).send() == old(self).send(),
            final(self).recv() == old(self).recv(),
            final(self).unsent() == old(self).unsent(),
            final(self).queued() == old(self).queued(),
            ({
                let unread = old(self).unread();
                let n: int = if unread.len() < max {
                    unread.len() as int
                } else {
                    max as int
                };
                out@ == unread.take(n) && final(self).unread() == unread.skip(n)
            }),
    {
        let left: usize = self.plaintext.len() - self.plaintext_at;
        let n: usize = if left < max {
            left
        } else {
            max
        };
        let from: usize = self.plaintext_at;
        let out = vstd::slice::slice_to_vec(vstd::slice::slice_subrange(&self.plaintext, from, from + n));
        self.plaintext_at = from + n;
        assert(out@ =~= old(self).unread().take(n as int));
        assert(self.unread() =~= old(self).unread().skip(n as int));
        out
    }

    /// Whether a record is still to be written.
    pub fn has_unsent(&self) -> (yes: bool)
        requires
            self.wf(),
        ensures
            yes == (self.unsent().len() > 0),
    {
        self.pending_at < self.pending.len()
    }

    /// What is to be written next.
    pub fn to_send(&self) -> (bytes: &[u8])
        requires
            self.wf(),
        ensures
            bytes@ == self.unsent(),
    {
        let bytes = vstd::slice::slice_subrange(&self.pending, self.pending_at, self.pending.len());
        assert(bytes@ =~= self.unsent());
        bytes
    }

    /// Encrypts as much of `buf` as goes into one record. Whoever has the same
    /// keys opens the record to that text.
    pub fn queue(&mut self, buf: &[u8])
        requires
            old(self).wf(),
            old(self).unsent().len() == 0,
        ensures
            final(self).wf(),
            final(self).send() == counted(old(self).send()),
            final(self).recv() == old(self).recv(),
            final(self).unread() == old(self).unread(),
            ({
                let n: int = if buf@.len() < MAX_CHUNK {
                    buf@.len() as int
                } else {
                    MAX_CHUNK as int
                };
                let text = buf@.take(n);
                &&& final(self).queued() == n
                &&& final(self).unsent() == record_of(old(self).send(), 0x17, text, None)
                &&& final(self).unsent().len() == n + 22
                &&& opened_record(old(self).send(), final(self).unsent().skip(5)) == Ok::<(u8, Seq<u8>), RecordError>(
                    (0x17, text),
                )
            }),
    {
        let n: usize = if buf.len() < MAX_CHUNK {
            buf.len()
        } else {
            MAX_CHUNK
        };
        let chunk = vstd::slice::slice_subrange(buf, 0, n);
        assert(chunk@ =~= buf@.take(n as int));
        self.pending = encrypt_app(&self.send, 0x17, chunk);
        self.pending_at = 0;
        self.pending_plain = n;
        self.send.count();
        assert(self.unsent() =~= self.pending@);
    }

    /// Notes that `n` bytes were written. When that was the last of the
    /// record, it says how much text went with it.
    pub fn wrote(&mut self, n: usize) -> (done: Result<Option<usize>, TlsError>)
        requires
            old(self).wf(),
            n <= old(self).unsent().len(),
        ensures
            final(self).wf(),
            final(self).send() == old(self).send(),
            final(self).recv() == old(self).recv(),
            final(self).unread() == old(self).unread(),
            if n == 0 {
                done == Err::<Option<usize>, TlsError>(TlsError::WriteZero) && final(self).unsent() == old(
                    self,
                ).unsent() && final(self).queued() == old(self).queued()
            } else if n < old(self).unsent().len() {
                done == Ok::<Option<usize>, TlsError>(None) && final(self).unsent() == old(self).unsent().skip(n as int)
                    && final(self).queued() == old(self).queued()
            } else {
                done == Ok::<Option<usize>, TlsError>(Some(old(self).queued())) && final(self).unsent() == Seq::<
                    u8,
                >::empty()
            },
    {
        if n == 0 {
            return Err(TlsError::WriteZero);
        }
        if n < self.pending.len() - self.pending_at {
            self.pending_at = self.pending_at + n;
            assert(self.unsent() =~= old(self).unsent().skip(n as int));
            return Ok(None);
        }
        let reported: usize = self.pending_plain;
        self.pending = Vec::new();
        self.pending_at = 0;
        self.pending_plain = 0;
        assert(self.unsent() =~= Seq::<u8>::empty());
        Ok(Some(reported))
    }

    /// The alert that closes the connection.
    pub fn close(&mut self) -> (record: Vec<u8>)
        requires
            old(self).wf(),
        ensures
            final(self).wf(),
            record@ == record_of(old(self).send(), 0x15, seq![1u8, 0], None),
            final(self).send() == counted(old(self).send()),
            final(self).recv() == old(self).recv(),
            final(self).unread() == old(self).unread(),
            final(self).unsent() == old(self).unsent(),
            final(self).queued() == old(self).queued(),
    {
        let alert: [u8; 2] = [1, 0];
        assert(alert@ =~= seq![1u8, 0]);
        let record = encrypt_app(&self.send, 0x15, &alert);
        self.send.count();
        record
    }
}

} // verus!
