//! What travels over a pipe: the handshake that opens it, and the frames
//! that carry messages.
//!
//! The handshake is eight bytes, `00 'S' 'P' 00`, then the sender's protocol
//! identifier in big-endian order, then two zero bytes. A frame is the length
//! of the payload as a big-endian 64-bit number, followed by the payload.

use vstd::prelude::*;
use crate::error::{invalid_data_io_error, Error, ErrorKind};

verus! {

/// The number of bytes of a handshake, and of a frame's length prefix.
pub const HEADER_LEN: usize = 8;

/// The handshake of a socket that speaks the protocol `proto_id`.
pub open spec fn handshake(proto_id: u16) -> Seq<u8> {
    seq![0u8, 0x53u8, 0x50u8, 0u8, (proto_id / 256) as u8, (proto_id % 256) as u8, 0u8, 0u8]
}

/// The number that `bytes` spell in big-endian order.
pub open spec fn be_value(bytes: Seq<u8>) -> nat
    decreases bytes.len(),
{
    if bytes.len() == 0 {
        0
    } else {
        be_value(bytes.drop_last()) * 256 + bytes.last() as nat
    }
}

/// The last `len` big-endian digits of `value`.
pub open spec fn be_bytes(value: nat, len: nat) -> Seq<u8>
    decreases len,
{
    if len == 0 {
        Seq::empty()
    } else {
        be_bytes(value / 256, (len - 1) as nat).push((value % 256) as u8)
    }
}

/// 256 to the power `n`.
pub open spec fn pow256(n: nat) -> nat
    decreases n,
{
    if n == 0 {
        1
    } else {
        256 * pow256((n - 1) as nat)
    }
}

/// A frame: the length of the payload in eight bytes, then the payload.
pub open spec fn frame(payload: Seq<u8>) -> Seq<u8> {
    be_bytes(payload.len(), 8) + payload
}

/// What reading a frame from the front of `bytes` gives.
pub enum FrameView {
    /// More bytes are needed.
    Incomplete,
    /// The frame announces more than the limit allows.
    TooLarge,
    /// A whole frame lies at the front, with this payload.
    Complete(Seq<u8>),
}

/// Reads a frame from the front of `bytes`, under the limit `max`.
pub open spec fn parse_frame(bytes: Seq<u8>, max: u64) -> FrameView {
    if bytes.len() < 8 {
        FrameView::Incomplete
    } else {
        let len = be_value(bytes.subrange(0, 8));
        if len > max {
            FrameView::TooLarge
        } else if bytes.len() < 8 + len {
            FrameView::Incomplete
        } else {
            FrameView::Complete(bytes.subrange(8, 8 + len as int))
        }
    }
}

/// Big-endian digits have the length asked for.
pub proof fn lemma_be_bytes_len(value: nat, len: nat)
    ensures
        be_bytes(value, len).len() == len,
    decreases len,
{
    if len > 0 {
        lemma_be_bytes_len(value / 256, (len - 1) as nat);
    }
}

/// The digits of a number spell that number, where it fits.
pub proof fn lemma_be_round_trip(value: nat, len: nat)
    requires
        value < pow256(len),
    ensures
        be_value(be_bytes(value, len)) == value,
    decreases len,
{
    if len > 0 {
        let front = be_bytes(value / 256, (len - 1) as nat);
        let all = be_bytes(value, len);
        assert(all.drop_last() =~= front);
        assert(all.last() == (value % 256) as u8);
        lemma_be_round_trip(value / 256, (len - 1) as nat);
    }
}

/// A number spelled by `n` bytes is below 256 to the `n`.
pub proof fn lemma_be_value_bound(bytes: Seq<u8>)
    ensures
        be_value(bytes) < pow256(bytes.len()),
    decreases bytes.len(),
{
    if bytes.len() > 0 {
        lemma_be_value_bound(bytes.drop_last());
    }
}

/// Eight bytes spell a number of 64 bits.
pub proof fn lemma_pow256_8()
    ensures
        pow256(8) == 0x1_0000_0000_0000_0000,
{
    reveal_with_fuel(pow256, 9);
}

/// Different protocols have different handshakes.
pub proof fn lemma_handshake_injective(a: u16, b: u16)
    ensures
        handshake(a) == handshake(b) <==> a == b,
{
    if handshake(a) == handshake(b) {
        assert(handshake(a)[4] == handshake(b)[4]);
        assert(handshake(a)[5] == handshake(b)[5]);
    }
}

/// A frame is read back as its payload, whatever follows it, where the
/// payload is within the limit; and is refused where it is not.
pub proof fn lemma_frame_round_trip(payload: Seq<u8>, rest: Seq<u8>, max: u64)
    requires
        payload.len() <= u64::MAX,
    ensures
        parse_frame(frame(payload) + rest, max) == if payload.len() <= max {
            FrameView::Complete(payload)
        } else {
            FrameView::TooLarge
        },
{
    let bytes = frame(payload) + rest;
    lemma_be_bytes_len(payload.len(), 8);
    lemma_pow256_8();
    lemma_be_round_trip(payload.len(), 8);
    assert(bytes.subrange(0, 8) =~= be_bytes(payload.len(), 8));
    if payload.len() <= max {
        assert(bytes.subrange(8, 8 + payload.len() as int) =~= payload);
    }
}

/// The handshake that a socket of protocol `proto_id` writes.
pub fn create_handshake(proto_id: u16) -> (bytes: [u8; 8])
    ensures
        bytes@ == handshake(proto_id),
{
    let hi: u8 = (proto_id / 256) as u8;
    let lo: u8 = (proto_id % 256) as u8;
    let bytes: [u8; 8] = [0, 0x53, 0x50, 0, hi, lo, 0, 0];
    assert(bytes@ =~= handshake(proto_id));
    bytes
}

/// Accepts the handshake of a peer that speaks `peer_id`, and nothing else.
pub fn check_handshake(bytes: &[u8; 8], peer_id: u16) -> (res: Result<(), Error>)
    ensures
        res is Ok <==> bytes@ == handshake(peer_id),
        res matches Err(e) ==> e.kind == ErrorKind::InvalidData,
{
    let expected = create_handshake(peer_id);
    let mut i: usize = 0;
    while i < 8
        invariant
            i <= 8,
            expected@ == handshake(peer_id),
            forall|k: int| 0 <= k < i ==> bytes@[k] == expected@[k],
        decreases 8 - i,
    {
        if bytes[i] != expected[i] {
            return Err(invalid_data_io_error("received bad handshake"));
        }
        i += 1;
    }
    assert(bytes@ =~= expected@);
    Ok(())
}

/// The length prefix of a frame whose payload has `len` bytes.
pub fn encode_length(len: u64) -> (bytes: [u8; 8])
    ensures
        bytes@ == be_bytes(len as nat, 8),
{
    let b7: u8 = (len % 256) as u8;
    let r6: u64 = len / 256;
    let b6: u8 = (r6 % 256) as u8;
    let r5: u64 = r6 / 256;
    let b5: u8 = (r5 % 256) as u8;
    let r4: u64 = r5 / 256;
    let b4: u8 = (r4 % 256) as u8;
    let r3: u64 = r4 / 256;
    let b3: u8 = (r3 % 256) as u8;
    let r2: u64 = r3 / 256;
    let b2: u8 = (r2 % 256) as u8;
    let r1: u64 = r2 / 256;
    let b1: u8 = (r1 % 256) as u8;
    let r0: u64 = r1 / 256;
    let b0: u8 = (r0 % 256) as u8;
    let bytes: [u8; 8] = [b0, b1, b2, b3, b4, b5, b6, b7];
    proof {
        reveal_with_fuel(be_bytes, 9);
        assert(bytes@ =~= be_bytes(len as nat, 8));
    }
    bytes
}

/// The length that the prefix of a frame announces.
pub fn decode_length(bytes: &[u8; 8]) -> (len: u64)
    ensures
        len == be_value(bytes@),
{
    let mut len: u64 = 0;
    let mut i: usize = 0;
    proof {
        assert(bytes@.subrange(0, 0) =~= Seq::<u8>::empty());
        reveal_with_fuel(pow256, 9);
    }
    while i < 8
        invariant
            i <= 8,
            len == be_value(bytes@.subrange(0, i as int)),
            len < pow256(i as nat),
        decreases 8 - i,
    {
        proof {
            reveal_with_fuel(pow256, 9);
            let next = bytes@.subrange(0, i + 1);
            assert(next.drop_last() =~= bytes@.subrange(0, i as int));
            assert(next.last() == bytes@[i as int]);
            assert(pow256((i + 1) as nat) == 256 * pow256(i as nat));
            assert(pow256(i as nat) <= pow256(7)) by {
                lemma_pow256_monotonic(i as nat, 7);
            }
        }
        len = len * 256 + bytes[i] as u64;
        i += 1;
    }
    assert(bytes@.subrange(0, 8) =~= bytes@);
    len
}

/// Powers of 256 grow with the exponent.
pub proof fn lemma_pow256_monotonic(a: nat, b: nat)
    requires
        a <= b,
    ensures
        pow256(a) <= pow256(b),
        pow256(a) >= 1,
    decreases b,
{
    if a < b {
        lemma_pow256_monotonic(a, (b - 1) as nat);
    } else if a > 0 {
        lemma_pow256_monotonic((a - 1) as nat, (b - 1) as nat);
    }
}

/// A payload as a frame: its length in eight bytes, then the payload.
pub fn encode_frame(payload: &[u8]) -> (bytes: Vec<u8>)
    requires
        payload@.len() + 8 <= usize::MAX,
    ensures
        bytes@ == frame(payload@),
{
    let prefix = encode_length(payload.len() as u64);
    let mut bytes: Vec<u8> = Vec::new();
    let mut i: usize = 0;
    while i < 8
        invariant
            i <= 8,
            bytes@ == prefix@.subrange(0, i as int),
        decreases 8 - i,
    {
        bytes.push(prefix[i]);
        assert(bytes@ =~= prefix@.subrange(0, i + 1));
        i += 1;
    }
    assert(prefix@.subrange(0, 8) =~= prefix@);
    let mut j: usize = 0;
    while j < payload.len()
        invariant
            j <= payload@.len(),
            bytes@ == prefix@ + payload@.subrange(0, j as int),
        decreases payload@.len() - j,
    {
        bytes.push(payload[j]);
        assert(bytes@ =~= prefix@ + payload@.subrange(0, j + 1));
        j += 1;
    }
    assert(payload@.subrange(0, payload@.len() as int) =~= payload@);
    bytes
}

/// Reads one frame from the front of `bytes`. `Ok(None)` asks for more
/// bytes; a frame that announces more than `recv_max_size` bytes is refused
/// as soon as its length prefix is there.
pub fn decode_frame(bytes: &[u8], recv_max_size: u64) -> (res: Result<Option<Vec<u8>>, Error>)
    ensures
        match parse_frame(bytes@, recv_max_size) {
            FrameView::Incomplete => res == Ok::<Option<Vec<u8>>, Error>(None),
            FrameView::TooLarge => res matches Err(e) && e.kind == ErrorKind::InvalidData,
            FrameView::Complete(payload) => res matches Ok(Some(v)) && v@ == payload,
        },
{
    if bytes.len() < 8 {
        return Ok(None);
    }
    let mut prefix: [u8; 8] = [0, 0, 0, 0, 0, 0, 0, 0];
    let mut i: usize = 0;
    while i < 8
        invariant
            i <= 8,
            bytes@.len() >= 8,
            forall|k: int| 0 <= k < i ==> prefix@[k] == bytes@[k],
        decreases 8 - i,
    {
        prefix[i] = bytes[i];
        i += 1;
    }
    assert(prefix@ =~= bytes@.subrange(0, 8));
    let len = decode_length(&prefix);
    if len > recv_max_size {
        return Err(invalid_data_io_error("message is too long"));
    }
    if ((bytes.len() - 8) as u64) < len {
        return Ok(None);
    }
    let end: usize = 8 + len as usize;
    let mut payload: Vec<u8> = Vec::new();
    let mut j: usize = 8;
    while j < end
        invariant
            8 <= j <= end <= bytes@.len(),
            payload@ == bytes@.subrange(8, j as int),
        decreases end - j,
    {
        payload.push(bytes[j]);
        assert(payload@ =~= bytes@.subrange(8, j + 1));
        j += 1;
    }
    Ok(Some(payload))
}

} // verus!
