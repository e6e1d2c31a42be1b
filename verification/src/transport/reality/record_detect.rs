//! How long the records are that the site sends after the handshake. A spy
//! on a connection to it watches what is written and read.

use vstd::prelude::*;

use super::hello::{ALPN_H2, ALPN_HTTP11};
use crate::wire::{be_value, read_u16, same_bytes};

verus! {

pub const DRAIN_WAIT_MS: u64 = 800;

/// The ChangeCipherSpec record, which a client sends before it finishes.
pub const CCS: [u8; 6] = [0x14, 0x03, 0x03, 0x00, 0x01, 0x01];

/// The longest record that counts.
pub const MAX_SPIED_RECORD: usize = 16 * 1024 + 256;

/// The protocols to offer for a class of clients.
pub fn probe_alpn(class: u8) -> (protocols: Vec<Vec<u8>>)
    ensures
        super::hello::byte_views(protocols@) == (if class == 2 {
            seq![ALPN_H2@, ALPN_HTTP11@]
        } else if class == 1 {
            seq![ALPN_HTTP11@]
        } else {
            Seq::empty()
        }),
{
    let h2 = ALPN_H2;
    let http11 = ALPN_HTTP11;
    let mut protocols: Vec<Vec<u8>> = Vec::new();
    if class == 2 {
        protocols.push(vstd::slice::slice_to_vec(&h2));
    }
    if class == 1 || class == 2 {
        protocols.push(vstd::slice::slice_to_vec(&http11));
    }
    assert(super::hello::byte_views(protocols@) =~= (if class == 2 {
        seq![ALPN_H2@, ALPN_HTTP11@]
    } else if class == 1 {
        seq![ALPN_HTTP11@]
    } else {
        Seq::empty()
    }));
    protocols
}

/// Whether `s` holds a ChangeCipherSpec record anywhere.
pub open spec fn holds_ccs(s: Seq<u8>) -> bool {
    exists|i: int| 0 <= i && i + 6 <= s.len() && #[trigger] s.subrange(i, i + 6) == CCS@
}

/// The last five bytes, or all where there are fewer.
pub open spec fn tail(s: Seq<u8>) -> Seq<u8> {
    if s.len() > 5 {
        s.skip(s.len() - 5)
    } else {
        s
    }
}

/// Takes whole records off the front of `s`: what is left, and the lengths of
/// those that hold application data. A record that is too long stops it.
pub open spec fn take_records(s: Seq<u8>, lens: Seq<usize>) -> (Seq<u8>, Seq<usize>)
    decreases s.len(),
{
    if s.len() < 5 {
        (s, lens)
    } else {
        let total = 5 + be_value(s.subrange(3, 5));
        if total > MAX_SPIED_RECORD || s.len() < total {
            (s, lens)
        } else {
            take_records(
                s.skip(total as int),
                if s[0] == 0x17 {
                    lens.push(total as usize)
                } else {
                    lens
                },
            )
        }
    }
}

pub struct RecordSpy {
    ccs_sent: bool,
    write_tail: Vec<u8>,
    leftover: Vec<u8>,
    lens: Vec<usize>,
}

impl RecordSpy {
    pub closed spec fn ccs_sent(&self) -> bool {
        self.ccs_sent
    }

    pub closed spec fn write_tail(&self) -> Seq<u8> {
        self.write_tail@
    }

    pub closed spec fn leftover(&self) -> Seq<u8> {
        self.leftover@
    }

    pub closed spec fn lens_spec(&self) -> Seq<usize> {
        self.lens@
    }

    pub fn new() -> (spy: Self)
        ensures
            !spy.ccs_sent(),
            spy.write_tail() == Seq::<u8>::empty(),
            spy.leftover() == Seq::<u8>::empty(),
            spy.lens_spec() == Seq::<usize>::empty(),
    {
        RecordSpy { ccs_sent: false, write_tail: Vec::new(), leftover: Vec::new(), lens: Vec::new() }
    }

    /// The lengths seen so far.
    pub fn lens(&self) -> (lens: Vec<usize>)
        ensures
            lens@ == self.lens_spec(),
    {
        vstd::slice::slice_to_vec(&self.lens)
    }

    /// Watches for the ChangeCipherSpec record in what is written.
    pub fn note_write(&mut self, buf: &[u8])
        ensures
            final(self).leftover() == old(self).leftover(),
            final(self).lens_spec() == old(self).lens_spec(),
            ({
                let seen = old(self).write_tail() + buf@;
                if old(self).ccs_sent() {
                    final(self).ccs_sent() && final(self).write_tail() == old(self).write_tail()
                } else {
                    final(self).ccs_sent() == holds_ccs(seen) && final(self).write_tail() == tail(seen)
                }
            }),
    {
        if self.ccs_sent {
            return;
        }
        let mut seen: Vec<u8> = vstd::slice::slice_to_vec(&self.write_tail);
        seen.extend_from_slice(buf);
        assert(seen@ =~= self.write_tail@ + buf@);
        let ccs = CCS;
        let mut found = false;
        let mut i: usize = 0;
        while !found && seen.len() - i >= 6
            invariant
                i <= seen@.len(),
                ccs@ == CCS@,
                found ==> holds_ccs(seen@),
                !found ==> forall|j: int| 0 <= j < i && j + 6 <= seen@.len() ==> #[trigger] seen@.subrange(j, j + 6) != CCS@,
            decreases seen@.len() - i,
        {
            if same_bytes(vstd::slice::slice_subrange(&seen, i, i + 6), &ccs) {
                found = true;
            }
            i = i + 1;
        }
        assert(found == holds_ccs(seen@));
        self.ccs_sent = found;
        if seen.len() > 5 {
            let keep = vstd::slice::slice_subrange(&seen, seen.len() - 5, seen.len());
            assert(keep@ =~= tail(seen@));
            self.write_tail = vstd::slice::slice_to_vec(keep);
        } else {
            self.write_tail = seen;
        }
    }

    /// Counts records in what is read, once the ChangeCipherSpec record is out.
    pub fn note_read(&mut self, buf: &[u8])
        ensures
            final(self).ccs_sent() == old(self).ccs_sent(),
            final(self).write_tail() == old(self).write_tail(),
            if !old(self).ccs_sent() || buf@.len() == 0 {
                final(self).leftover() == old(self).leftover() && final(self).lens_spec() == old(self).lens_spec()
            } else {
                (final(self).leftover(), final(self).lens_spec()) == take_records(
                    old(self).leftover() + buf@,
                    old(self).lens_spec(),
                )
            },
    {
        if !self.ccs_sent || buf.len() == 0 {
            return;
        }
        let mut seen: Vec<u8> = vstd::slice::slice_to_vec(&self.leftover);
        seen.extend_from_slice(buf);
        let ghost all = self.leftover@ + buf@;
        let ghost before = self.lens@;
        assert(seen@ =~= all);
        let mut at: usize = 0;
        let mut lens: Vec<usize> = vstd::slice::slice_to_vec(&self.lens);
        let mut more = true;
        assert(seen@.skip(0) =~= all);
        while more
            invariant
                at <= seen@.len(),
                take_records(seen@.skip(at as int), lens@) == take_records(all, before),
                !more ==> take_records(seen@.skip(at as int), lens@) == (seen@.skip(at as int), lens@),
            decreases (if more { 1int } else { 0int }), seen@.len() - at,
        {
            let rest = vstd::slice::slice_subrange(&seen, at, seen.len());
            assert(rest@ =~= seen@.skip(at as int));
            if rest.len() < 5 {
                more = false;
            } else {
                let total: usize = 5 + read_u16(rest, 3) as usize;
                if total > MAX_SPIED_RECORD || rest.len() < total {
                    more = false;
                } else {
                    if rest[0] == 0x17 {
                        lens.push(total);
                    }
                    assert(seen@.skip(at as int).skip(total as int) =~= seen@.skip(at + total));
                    at = at + total;
                }
            }
        }
        let left = vstd::slice::slice_subrange(&seen, at, seen.len());
        assert(left@ =~= seen@.skip(at as int));
        self.leftover = vstd::slice::slice_to_vec(left);
        self.lens = lens;
    }
}

/// Records count the same however they are cut into reads.
pub proof fn law_reads_in_pieces(s: Seq<u8>, more: Seq<u8>, lens: Seq<usize>)
    ensures
        take_records(s + more, lens) == take_records(take_records(s, lens).0 + more, take_records(s, lens).1),
    decreases s.len(),
{
    if s.len() >= 5 {
        let both = s + more;
        assert(both.subrange(3, 5) =~= s.subrange(3, 5));
        let total = 5 + be_value(s.subrange(3, 5));
        if total <= MAX_SPIED_RECORD && s.len() >= total {
            let next = if s[0] == 0x17 {
                lens.push(total as usize)
            } else {
                lens
            };
            assert(both.skip(total as int) =~= s.skip(total as int) + more);
            law_reads_in_pieces(s.skip(total as int), more, next);
        }
    }
}

/// The ChangeCipherSpec record is found however it is cut into writes: where
/// it is not in what was written before, it is in all that is written exactly
/// where it is in what is kept and the new part.
pub proof fn law_writes_in_pieces(s: Seq<u8>, more: Seq<u8>)
    requires
        !holds_ccs(s),
    ensures
        holds_ccs(s + more) == holds_ccs(tail(s) + more),
        tail(s + more) == tail(tail(s) + more),
{
    let both = s + more;
    let kept = tail(s) + more;
    let cut = both.len() - kept.len();
    assert(tail(both) =~= tail(kept));
    if holds_ccs(both) {
        let i = choose|i: int| 0 <= i && i + 6 <= both.len() && #[trigger] both.subrange(i, i + 6) == CCS@;
        if i + 6 <= s.len() {
            assert(s.subrange(i, i + 6) =~= both.subrange(i, i + 6));
        }
        assert(kept.subrange(i - cut, i - cut + 6) =~= both.subrange(i, i + 6));
    }
    if holds_ccs(kept) {
        let i = choose|i: int| 0 <= i && i + 6 <= kept.len() && #[trigger] kept.subrange(i, i + 6) == CCS@;
        assert(both.subrange(i + cut, i + cut + 6) =~= kept.subrange(i, i + 6));
    }
}

} // verus!
