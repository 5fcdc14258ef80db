use vstd::bytes::{spec_u64_from_le_bytes, spec_u64_to_le_bytes, u64_from_le_bytes, u64_to_le_bytes};
use vstd::prelude::*;

use crate::shop_const::{OFFLINE_SHOP, SYN_TYPE, TOKEN_TYPE};

verus! {

/// A payload preceded by its length, as 8 little-endian bytes.
pub open spec fn length_prefixed(payload: Seq<u8>) -> Seq<u8> {
    spec_u64_to_le_bytes(payload.len() as u64) + payload
}

/// A message on the ring: one byte for its kind, then its length-prefixed
/// payload.
pub open spec fn framed(kind: u8, payload: Seq<u8>) -> Seq<u8> {
    seq![kind] + length_prefixed(payload)
}

/// Why a buffer does not hold a whole message.
#[derive(Debug, PartialEq, Eq)]
pub enum FrameError {
    MissingKind,
    MissingLength,
    MissingPayload,
}

/// The kinds of message that travel around the ring.
#[derive(Debug, PartialEq, Eq)]
pub enum MessageKind {
    Syn,
    Token,
    OfflineShop,
    Unknown(u8),
}

/// The kind of message that the byte `kind` announces.
pub open spec fn kind_of(kind: u8) -> MessageKind {
    if kind == SYN_TYPE {
        MessageKind::Syn
    } else if kind == TOKEN_TYPE {
        MessageKind::Token
    } else if kind == OFFLINE_SHOP {
        MessageKind::OfflineShop
    } else {
        MessageKind::Unknown(kind)
    }
}

/// Tells the kind of message from its first byte.
pub fn message_kind(kind: u8) -> (k: MessageKind)
    ensures
        k == kind_of(kind),
{
    if kind == SYN_TYPE {
        MessageKind::Syn
    } else if kind == TOKEN_TYPE {
        MessageKind::Token
    } else if kind == OFFLINE_SHOP {
        MessageKind::OfflineShop
    } else {
        MessageKind::Unknown(kind)
    }
}

/// Copies `bytes[from..to]`.
fn copy_range(bytes: &[u8], from: usize, to: usize) -> (out: Vec<u8>)
    requires
        from <= to <= bytes@.len(),
    ensures
        out@ == bytes@.subrange(from as int, to as int),
{
    let mut out: Vec<u8> = Vec::new();
    let mut i = from;
    while i < to
        invariant
            from <= i <= to <= bytes@.len(),
            out@ == bytes@.subrange(from as int, i as int),
        decreases to - i,
    {
        out.push(bytes[i]);
        i = i + 1;
        assert(out@ =~= bytes@.subrange(from as int, i as int));
    }
    out
}

/// Appends `bytes` to `out`.
fn append_all(out: &mut Vec<u8>, bytes: &[u8])
    ensures
        final(out)@ == old(out)@ + bytes@,
{
    let mut i: usize = 0;
    while i < bytes.len()
        invariant
            i <= bytes@.len(),
            out@ == old(out)@ + bytes@.subrange(0, i as int),
        decreases bytes.len() - i,
    {
        out.push(bytes[i]);
        i = i + 1;
        assert(out@ =~= old(out)@ + bytes@.subrange(0, i as int));
    }
    assert(bytes@.subrange(0, bytes@.len() as int) =~= bytes@);
}

/// Reads the length field of a message: 8 bytes, little-endian.
pub fn decode_length(len_bytes: &[u8]) -> (len: u64)
    requires
        len_bytes@.len() == 8,
    ensures
        len == spec_u64_from_le_bytes(len_bytes@),
{
    u64_from_le_bytes(len_bytes)
}

/// The payload preceded by its length as 8 little-endian bytes.
pub fn encode_length_prefixed(payload: &[u8]) -> (bytes: Vec<u8>)
    requires
        payload@.len() <= u64::MAX,
    ensures
        bytes@ == length_prefixed(payload@),
{
    let mut bytes = u64_to_le_bytes(payload.len() as u64);
    append_all(&mut bytes, payload);
    bytes
}

/// The message of kind `kind` that carries `payload`.
pub fn encode_message(kind: u8, payload: &[u8]) -> (bytes: Vec<u8>)
    requires
        payload@.len() <= u64::MAX,
    ensures
        bytes@ == framed(kind, payload@),
{
    let mut bytes: Vec<u8> = Vec::new();
    bytes.push(kind);
    let prefixed = encode_length_prefixed(payload);
    append_all(&mut bytes, prefixed.as_slice());
    assert(bytes@ =~= framed(kind, payload@));
    bytes
}

/// Reads a length-prefixed payload from the front of `bytes`; what follows it
/// is left alone.
pub fn split_length_prefixed(bytes: &[u8]) -> (result: Result<Vec<u8>, FrameError>)
    ensures
        match result {
            Ok(payload) => 8 + payload@.len() <= bytes@.len() && length_prefixed(payload@) == bytes@.subrange(
                0,
                8 + payload@.len() as int,
            ),
            Err(e) => if bytes@.len() < 8 {
                e == FrameError::MissingLength
            } else {
                &&& e == FrameError::MissingPayload
                &&& bytes@.len() - 8 < spec_u64_from_le_bytes(bytes@.subrange(0, 8))
            },
        },
        bytes@.len() >= 8 && bytes@.len() - 8 >= spec_u64_from_le_bytes(bytes@.subrange(0, 8))
            ==> result is Ok,
{
    if bytes.len() < 8 {
        return Err(FrameError::MissingLength);
    }
    let head = copy_range(bytes, 0, 8);
    let len = decode_length(head.as_slice());
    let available = bytes.len() - 8;
    if (available as u64) < len {
        return Err(FrameError::MissingPayload);
    }
    let payload = copy_range(bytes, 8, 8 + len as usize);
    proof {
        vstd::bytes::lemma_auto_spec_u64_to_from_le_bytes();
        assert(spec_u64_to_le_bytes(spec_u64_from_le_bytes(head@)) == head@);
        assert(length_prefixed(payload@) =~= bytes@.subrange(0, 8 + payload@.len() as int));
    }
    Ok(payload)
}

/// Reads one message from the front of `bytes`: its kind and its payload;
/// what follows it is left alone.
pub fn split_message(bytes: &[u8]) -> (result: Result<(u8, Vec<u8>), FrameError>)
    ensures
        match result {
            Ok((kind, payload)) => 9 + payload@.len() <= bytes@.len() && framed(kind, payload@) == bytes@.subrange(
                0,
                9 + payload@.len() as int,
            ),
            Err(e) => if bytes@.len() < 1 {
                e == FrameError::MissingKind
            } else if bytes@.len() < 9 {
                e == FrameError::MissingLength
            } else {
                &&& e == FrameError::MissingPayload
                &&& bytes@.len() - 9 < spec_u64_from_le_bytes(bytes@.subrange(1, 9))
            },
        },
        bytes@.len() >= 9 && bytes@.len() - 9 >= spec_u64_from_le_bytes(bytes@.subrange(1, 9))
            ==> result is Ok,
{
    if bytes.len() < 1 {
        return Err(FrameError::MissingKind);
    }
    let kind = bytes[0];
    let rest = copy_range(bytes, 1, bytes.len());
    if bytes.len() >= 9 {
        assert(rest@.subrange(0, 8) =~= bytes@.subrange(1, 9));
    }
    match split_length_prefixed(rest.as_slice()) {
        Ok(payload) => {
            let ghost n = payload@.len() as int;
            assert(rest@.subrange(0, 8 + n) =~= bytes@.subrange(1, 9 + n));
            assert(rest@.subrange(0, 8) =~= bytes@.subrange(1, 9));
            assert(framed(kind, payload@) =~= bytes@.subrange(0, 9 + n));
            Ok((kind, payload))
        },
        Err(e) => Err(e),
    }
}

/// Reading back a message gives the kind and payload it was written with.
pub proof fn lemma_split_encoded_message(kind: u8, payload: Seq<u8>)
    requires
        payload.len() <= u64::MAX,
    ensures
        framed(kind, payload).len() == 9 + payload.len(),
        framed(kind, payload)[0] == kind,
        spec_u64_from_le_bytes(framed(kind, payload).subrange(1, 9)) == payload.len(),
        framed(kind, payload).subrange(9, 9 + payload.len() as int) == payload,
        forall|k: u8, p: Seq<u8>|
            9 + p.len() <= framed(kind, payload).len() && #[trigger] framed(k, p) == framed(
                kind,
                payload,
            ).subrange(0, 9 + p.len() as int) ==> k == kind && p == payload,
{
    vstd::bytes::lemma_auto_spec_u64_to_from_le_bytes();
    let f = framed(kind, payload);
    let len_bytes = spec_u64_to_le_bytes(payload.len() as u64);
    assert(f.subrange(1, 9) =~= len_bytes);
    assert(f.subrange(9, 9 + payload.len() as int) =~= payload);
    assert forall|k: u8, p: Seq<u8>|
        9 + p.len() <= f.len() && #[trigger] framed(k, p) == f.subrange(
            0,
            9 + p.len() as int,
        ) implies k == kind && p == payload by {
        let g = framed(k, p);
        assert(g[0] == f[0]);
        assert(g.subrange(1, 9) =~= spec_u64_to_le_bytes(p.len() as u64));
        assert(g.subrange(1, 9) =~= f.subrange(1, 9));
        assert(spec_u64_from_le_bytes(spec_u64_to_le_bytes(p.len() as u64)) == p.len());
        assert(p.len() == payload.len());
        assert(g.subrange(9, 9 + p.len() as int) =~= p);
        assert(p =~= payload);
    }
}

/// Reading back a length-prefixed payload gives the payload it was written
/// with.
pub proof fn lemma_split_length_prefixed(payload: Seq<u8>)
    requires
        payload.len() <= u64::MAX,
    ensures
        length_prefixed(payload).len() == 8 + payload.len(),
        spec_u64_from_le_bytes(length_prefixed(payload).subrange(0, 8)) == payload.len(),
        forall|p: Seq<u8>|
            8 + p.len() <= length_prefixed(payload).len() && #[trigger] length_prefixed(p)
                == length_prefixed(payload).subrange(0, 8 + p.len() as int) ==> p == payload,
{
    vstd::bytes::lemma_auto_spec_u64_to_from_le_bytes();
    let f = length_prefixed(payload);
    assert(f.subrange(0, 8) =~= spec_u64_to_le_bytes(payload.len() as u64));
    assert forall|p: Seq<u8>|
        8 + p.len() <= f.len() && #[trigger] length_prefixed(p) == f.subrange(
            0,
            8 + p.len() as int,
        ) implies p == payload by {
        let g = length_prefixed(p);
        assert(g.subrange(0, 8) =~= spec_u64_to_le_bytes(p.len() as u64));
        assert(g.subrange(0, 8) =~= f.subrange(0, 8));
        assert(p.len() == payload.len());
        assert(g.subrange(8, 8 + p.len() as int) =~= p);
        assert(f.subrange(8, 8 + p.len() as int) =~= payload);
        assert(p =~= payload);
    }
}

} // verus!
