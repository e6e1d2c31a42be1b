//! Batches of datagrams: the segments of one send, and the datagrams that one
//! receive brought.
//!
//! Segments of a batch have to stay equally long on the wire, so they share
//! one padding length. What was received together is taken apart, each
//! datagram is deobfuscated by itself, and the payloads are put together
//! again.

use vstd::prelude::*;

use super::obfuscation::{
    drawn_state, lemma_revealed_is_shorter, min_pad, obfuscated_from, pad_drawn, revealed, spent, ObfuscationError,
    ObfuscationKey, XorShift, LENGTH_PREFIX_LEN, MAX_PADDING, SALT_LEN,
};

verus! {

/// How much a receive brought: the number of bytes, and the length of each
/// datagram in them (the last may be shorter; zero means one datagram).
#[derive(Debug, Clone, Copy, PartialEq, Eq, Structural)]
pub struct RecvMeta {
    pub len: usize,
    pub stride: usize,
}

/// How much the next of several segments takes.
pub open spec fn step(len: nat, size: nat) -> int {
    if size < len {
        size as int
    } else {
        len as int
    }
}

/// The segments of `data`, each obfuscated, one behind the other.
pub open spec fn sent(key: Seq<u8>, data: Seq<u8>, size: nat, pad_len: nat, state: u64) -> Seq<u8>
    decreases data.len(),
{
    if data.len() == 0 || size == 0 {
        Seq::empty()
    } else {
        let n = step(data.len(), size);
        obfuscated_from(key, data.take(n), state, pad_len) + sent(
            key,
            data.skip(n),
            size,
            pad_len,
            spent(state, pad_len),
        )
    }
}

/// The state of a generator after it gave salt and padding for the segments
/// of that many bytes.
pub open spec fn sent_state(len: nat, size: nat, pad_len: nat, state: u64) -> u64
    decreases len,
{
    if len == 0 || size == 0 {
        state
    } else {
        sent_state((len - step(len, size)) as nat, size, pad_len, spent(state, pad_len))
    }
}

/// The size of the segments that a send is cut in, if it is.
pub open spec fn cut_size(len: nat, segment_size: Option<usize>) -> Option<nat> {
    match segment_size {
        Some(size) => if 0 < size < len {
            Some(size as nat)
        } else {
            None
        },
        None => None,
    }
}

/// What one send gives with a generator in state `before`: the bytes, the
/// length of each segment on the wire, and the state of the generator.
pub open spec fn transmitted(
    key: Seq<u8>,
    contents: Seq<u8>,
    segment_size: Option<usize>,
    before: u64,
) -> (Result<(Seq<u8>, Option<usize>), ObfuscationError>, u64) {
    let pad_len = pad_drawn(before);
    let state = drawn_state(before, 1);
    let cut = cut_size(contents.len(), segment_size);
    let largest = match cut {
        Some(size) => size,
        None => contents.len(),
    };
    if largest > 65535 {
        (Err(ObfuscationError::PayloadTooLarge), drawn_state(state, SALT_LEN as nat))
    } else {
        match cut {
            None => (Ok((obfuscated_from(key, contents, state, pad_len), None)), spent(state, pad_len)),
            Some(size) => (
                Ok(
                    (
                        sent(key, contents, size, pad_len, state),
                        Some((SALT_LEN + LENGTH_PREFIX_LEN + size + pad_len) as usize),
                    ),
                ),
                sent_state(contents.len(), size, pad_len, state),
            ),
        }
    }
}

/// Whether a send gave what it gives with a generator in state `before`.
pub open spec fn transmits(
    key: Seq<u8>,
    contents: Seq<u8>,
    segment_size: Option<usize>,
    before: u64,
    result: Result<(Vec<u8>, Option<usize>), ObfuscationError>,
) -> bool {
    match transmitted(key, contents, segment_size, before).0 {
        Ok((wire, segment)) => result matches Ok(out) && out.0@ == wire && out.1 == segment,
        Err(error) => result == Err::<(Vec<u8>, Option<usize>), ObfuscationError>(error),
    }
}

/// Obfuscates what one send hands over: one datagram, or segments of
/// `segment_size`. Says how long each segment is on the wire.
pub fn obfuscate_transmit(key: &ObfuscationKey, contents: &[u8], segment_size: Option<usize>) -> (result: Result<
    (Vec<u8>, Option<usize>),
    ObfuscationError,
>)
    ensures
        exists|before: u64| #[trigger] transmits(key.key@, contents@, segment_size, before, result),
{
    let mut rng = XorShift::from_os();
    obfuscate_transmit_from(key, contents, segment_size, &mut rng)
}

/// The same with a generator that the caller keeps.
pub fn obfuscate_transmit_from(
    key: &ObfuscationKey,
    contents: &[u8],
    segment_size: Option<usize>,
    rng: &mut XorShift,
) -> (result: Result<(Vec<u8>, Option<usize>), ObfuscationError>)
    ensures
        transmits(key.key@, contents@, segment_size, old(rng).state, result),
        final(rng).state == transmitted(key.key@, contents@, segment_size, old(rng).state).1,
{
    let size: usize = match segment_size {
        Some(size) => if 0 < size && size < contents.len() {
            size
        } else {
            0
        },
        None => 0,
    };
    if size == 0 {
        return match key.obfuscate_drawn(contents, rng) {
            Ok(wire) => Ok((wire, None)),
            Err(error) => Err(error),
        };
    }
    let pad_len: usize = rng.draw_pad_len();
    let ghost state = rng.state;
    let ghost all = sent(key.key@, contents@, size as nat, pad_len as nat, state);
    let ghost end = sent_state(contents@.len(), size as nat, pad_len as nat, state);
    let mut wire: Vec<u8> = Vec::new();
    let mut at: usize = 0;
    assert(contents@.skip(0) =~= contents@);
    assert(wire@ + all =~= all);
    while at < contents.len()
        invariant
            at <= contents.len(),
            0 < size < contents.len(),
            pad_len <= MAX_PADDING,
            at == 0 ==> rng.state == state,
            at > 0 ==> size <= 65535,
            all == wire@ + sent(key.key@, contents@.skip(at as int), size as nat, pad_len as nat, rng.state),
            end == sent_state((contents@.len() - at) as nat, size as nat, pad_len as nat, rng.state),
            cut_size(contents@.len(), segment_size) == Some(size as nat),
            pad_len == pad_drawn(old(rng).state),
            state == drawn_state(old(rng).state, 1),
        decreases contents.len() - at,
    {
        let rest: usize = contents.len() - at;
        let n: usize = if size < rest {
            size
        } else {
            rest
        };
        let chunk = vstd::slice::slice_subrange(contents, at, at + n);
        let ghost left = contents@.skip(at as int);
        assert(chunk@ =~= left.take(n as int));
        assert(left.skip(n as int) =~= contents@.skip(at + n));
        let ghost before = wire@;
        match key.obfuscate_from(chunk, pad_len, rng) {
            Ok(mut piece) => {
                let ghost bytes = piece@;
                wire.append(&mut piece);
                assert(before + (bytes + sent(
                    key.key@,
                    left.skip(n as int),
                    size as nat,
                    pad_len as nat,
                    rng.state,
                )) =~= wire@ + sent(key.key@, left.skip(n as int), size as nat, pad_len as nat, rng.state));
            },
            Err(error) => return Err(error),
        }
        at = at + n;
    }
    assert(wire@ =~= all) by {
        assert(contents@.skip(at as int).len() == 0);
    }
    Ok((wire, Some(SALT_LEN + LENGTH_PREFIX_LEN + size + pad_len)))
}

/// The payloads of the datagrams in `data`, noise left out.
pub open spec fn payloads(key: Seq<u8>, data: Seq<u8>, stride: nat) -> Seq<Seq<u8>>
    decreases data.len(),
{
    if data.len() == 0 || stride == 0 {
        Seq::empty()
    } else {
        let n = step(data.len(), stride);
        let rest = payloads(key, data.skip(n), stride);
        match revealed(key, data.take(n)) {
            Some(payload) => seq![payload] + rest,
            None => rest,
        }
    }
}

pub open spec fn joined(list: Seq<Seq<u8>>) -> Seq<u8>
    decreases list.len(),
{
    if list.len() == 0 {
        Seq::empty()
    } else {
        joined(list.drop_last()) + list.last()
    }
}

/// Whether all but the last are as long as the first.
pub open spec fn uniform(list: Seq<Seq<u8>>) -> bool {
    forall|i: int| 0 <= i < list.len() - 1 ==> (#[trigger] list[i]).len() == list[0].len()
}

/// What a receive amounts to: the payloads put together and their length, or
/// only the first where they would not line up.
pub open spec fn received(list: Seq<Seq<u8>>) -> (Seq<u8>, RecvMeta) {
    let first = list[0].len();
    if uniform(list) {
        (joined(list), RecvMeta {
            len: joined(list).len() as usize,
            stride: (if first == 0 {
                1
            } else {
                first
            }) as usize,
        })
    } else {
        (list[0], RecvMeta { len: first as usize, stride: first as usize })
    }
}

pub open spec fn stride_of(meta: RecvMeta) -> nat {
    if meta.stride == 0 || meta.stride > meta.len {
        meta.len as nat
    } else {
        meta.stride as nat
    }
}

spec fn bytes_of(list: Seq<Vec<u8>>) -> Seq<Seq<u8>> {
    Seq::new(list.len(), |i: int| list[i]@)
}

proof fn lemma_joined_len(list: Seq<Seq<u8>>, more: Seq<u8>)
    ensures
        joined(list.push(more)) == joined(list) + more,
{
    assert(list.push(more).drop_last() =~= list);
}

/// Replaces the front of `buf` by `data`.
fn write_front(buf: &mut [u8], data: &[u8], at: usize)
    requires
        at + data@.len() <= old(buf)@.len(),
    ensures
        final(buf)@ == old(buf)@.take(at as int) + data@ + old(buf)@.skip(at + data@.len()),
        final(buf)@.len() == old(buf)@.len(),
{
    let ghost before = buf@;
    let mut i: usize = 0;
    while i < data.len()
        invariant
            i <= data.len(),
            at + data@.len() <= before.len(),
            buf@.len() == before.len(),
            buf@.len() == buf.len(),
            forall|j: int| 0 <= j < before.len() ==> #[trigger] buf@[j] == (if at <= j < at + i {
                data@[j - at]
            } else {
                before[j]
            }),
        decreases data.len() - i,
    {
        buf[at + i] = data[i];
        i = i + 1;
    }
    assert(buf@ =~= before.take(at as int) + data@ + before.skip(at + data@.len()));
}

/// Replaces what a receive brought by its payloads. False, and nothing
/// changed, where it was all noise.
pub fn deobfuscate_into(key: &ObfuscationKey, buf: &mut [u8], meta: &mut RecvMeta) -> (any: bool)
    requires
        old(meta).len <= old(buf)@.len(),
    ensures
        ({
            let list = payloads(key.key@, old(buf)@.take(old(meta).len as int), stride_of(*old(meta)));
            &&& any == (list.len() > 0)
            &&& !any ==> final(buf)@ == old(buf)@ && *final(meta) == *old(meta)
            &&& any ==> {
                let (data, now) = received(list);
                &&& data.len() <= old(meta).len
                &&& final(buf)@ == data + old(buf)@.skip(data.len() as int)
                &&& *final(meta) == now
            }
        }),
{
    let total: usize = meta.len;
    if total == 0 {
        return false;
    }
    let stride: usize = if meta.stride == 0 || meta.stride > total {
        total
    } else {
        meta.stride
    };
    let ghost start = buf@;
    let ghost data = buf@.take(total as int);
    let ghost all = payloads(key.key@, data, stride as nat);
    let mut plains: Vec<Vec<u8>> = Vec::new();
    let mut at: usize = 0;
    proof {
        assert(data.skip(0) =~= data);
        assert(bytes_of(plains@) =~= Seq::empty());
        assert(bytes_of(plains@) + all =~= all);
        assert(joined(bytes_of(plains@)) =~= Seq::empty());
    }
    while at < total
        invariant
            at <= total,
            0 < stride <= total,
            buf@ == start,
            total <= start.len(),
            start.len() == buf.len(),
            data == start.take(total as int),
            all == bytes_of(plains@) + payloads(key.key@, data.skip(at as int), stride as nat),
            joined(bytes_of(plains@)).len() <= at,
        decreases total - at,
    {
        let rest: usize = total - at;
        let n: usize = if stride < rest {
            stride
        } else {
            rest
        };
        let chunk = vstd::slice::slice_subrange(buf, at, at + n);
        let ghost left = data.skip(at as int);
        let ghost list = bytes_of(plains@);
        proof {
            assert(chunk@ =~= left.take(n as int));
            assert(left.skip(n as int) =~= data.skip(at + n));
            lemma_revealed_is_shorter(key.key@, chunk@);
        }
        match key.deobfuscate(chunk) {
            Some(plain) => {
                let ghost bytes = plain@;
                plains.push(plain);
                proof {
                    assert(bytes_of(plains@) =~= list.push(bytes));
                    lemma_joined_len(list, bytes);
                    assert(list + (seq![bytes] + payloads(key.key@, left.skip(n as int), stride as nat))
                        =~= list.push(bytes) + payloads(key.key@, left.skip(n as int), stride as nat));
                }
            },
            None => {},
        }
        at = at + n;
    }
    assert(bytes_of(plains@) =~= all) by {
        assert(data.skip(at as int).len() == 0);
    }
    if plains.len() == 0 {
        return false;
    }
    let first_len: usize = plains[0].len();
    assert(all[0] == plains@[0]@);
    let mut even: bool = true;
    let last: usize = plains.len() - 1;
    let mut i: usize = 0;
    while i < last
        invariant
            i <= last,
            last == plains@.len() - 1,
            bytes_of(plains@) == all,
            first_len == all[0].len(),
            even == (forall|j: int| 0 <= j < i ==> (#[trigger] all[j]).len() == all[0].len()),
        decreases plains@.len() - i,
    {
        assert(all[i as int] == plains@[i as int]@);
        if plains[i].len() != first_len {
            even = false;
        }
        i = i + 1;
    }
    assert(even == uniform(all));
    if !even {
        proof {
            lemma_first_fits(all);
        }
        write_front(buf, &plains[0], 0);
        meta.len = first_len;
        meta.stride = first_len;
        assert(buf@ =~= all[0] + start.skip(all[0].len() as int));
        return true;
    }
    let mut out: usize = 0;
    let mut k: usize = 0;
    assert(all.take(0) =~= Seq::empty());
    assert(buf@ =~= joined(all.take(0)) + start.skip(0));
    assert(all.take(all.len() as int) =~= all);
    while k < plains.len()
        invariant
            k <= plains@.len(),
            bytes_of(plains@) == all,
            out == joined(all.take(k as int)).len(),
            joined(all).len() <= total <= start.len(),
            buf@.len() == start.len(),
            buf@ == joined(all.take(k as int)) + start.skip(out as int),
        decreases plains@.len() - k,
    {
        let ghost sofar = joined(all.take(k as int));
        proof {
            assert(all[k as int] == plains@[k as int]@);
            assert(all.take(k + 1) =~= all.take(k as int).push(all[k as int]));
            lemma_joined_len(all.take(k as int), all[k as int]);
            lemma_joined_grows(all, k + 1);
        }
        let ghost before = buf@;
        write_front(buf, &plains[k], out);
        assert(buf@ =~= (sofar + all[k as int]) + start.skip(out + all[k as int].len()));
        out = out + plains[k].len();
        k = k + 1;
    }
    assert(all.take(k as int) =~= all);
    meta.len = out;
    meta.stride = if first_len == 0 {
        1
    } else {
        first_len
    };
    true
}

proof fn lemma_joined_grows(list: Seq<Seq<u8>>, k: int)
    requires
        0 <= k <= list.len(),
    ensures
        joined(list.take(k)).len() <= joined(list).len(),
    decreases list.len() - k,
{
    if k < list.len() {
        lemma_joined_grows(list, k + 1);
        assert(list.take(k + 1) =~= list.take(k).push(list[k]));
        lemma_joined_len(list.take(k), list[k]);
    } else {
        assert(list.take(k) =~= list);
    }
}

proof fn lemma_first_fits(list: Seq<Seq<u8>>)
    requires
        list.len() > 0,
    ensures
        list[0].len() <= joined(list).len(),
{
    lemma_joined_grows(list, 1);
    assert(list.take(1) =~= Seq::<Seq<u8>>::empty().push(list[0]));
    lemma_joined_len(Seq::empty(), list[0]);
}

/// Receiving a batch of equal segments as it was sent gives the contents of
/// the send, cut in the same segments.
pub proof fn law_batch_roundtrip(key: Seq<u8>, data: Seq<u8>, size: nat, pad_len: nat, state: u64)
    requires
        0 < size <= 65535,
    ensures
        joined(
            payloads(
                key,
                sent(key, data, size, pad_len, state),
                (SALT_LEN + LENGTH_PREFIX_LEN + size + min_pad(pad_len)) as nat,
            ),
        ) == data,
    decreases data.len(),
{
    let stride = (SALT_LEN + LENGTH_PREFIX_LEN + size + min_pad(pad_len)) as nat;
    let wire = sent(key, data, size, pad_len, state);
    if data.len() == 0 {
        assert(payloads(key, wire, stride) =~= Seq::empty());
        assert(joined(payloads(key, wire, stride)) =~= data);
    } else {
        let n = step(data.len(), size);
        let piece = obfuscated_from(key, data.take(n), state, pad_len);
        let rest = sent(key, data.skip(n), size, pad_len, spent(state, pad_len));
        super::obfuscation::lemma_obfuscated_from(key, data.take(n), state, pad_len);
        law_batch_roundtrip(key, data.skip(n), size, pad_len, spent(state, pad_len));
        if n == size {
            assert(step(wire.len(), stride) == piece.len());
        } else {
            assert(data.skip(n).len() == 0);
            assert(rest =~= Seq::empty());
            assert(step(wire.len(), stride) == piece.len());
        }
        assert(wire.take(piece.len() as int) =~= piece);
        assert(wire.skip(piece.len() as int) =~= rest);
        let tail = payloads(key, rest, stride);
        assert(payloads(key, wire, stride) == seq![data.take(n)] + tail);
        lemma_joined_front(data.take(n), tail);
        assert(data.take(n) + data.skip(n) =~= data);
    }
}

proof fn lemma_joined_front(first: Seq<u8>, tail: Seq<Seq<u8>>)
    ensures
        joined(seq![first] + tail) == first + joined(tail),
    decreases tail.len(),
{
    let list = seq![first] + tail;
    if tail.len() == 0 {
        assert(list.drop_last() =~= Seq::empty());
        assert(list.last() == first);
        assert(joined(list.drop_last()) =~= Seq::empty());
        assert(joined(list) =~= first + joined(tail));
    } else {
        assert(list.drop_last() =~= seq![first] + tail.drop_last());
        lemma_joined_front(first, tail.drop_last());
        assert(joined(list) =~= first + joined(tail));
    }
}

} // verus!
