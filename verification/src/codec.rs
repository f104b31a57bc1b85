//! The wire form of a message envelope, and the content id by which
//! messages are told apart.
//!
//! An envelope travels as four fields in a row: topic, sender, payload and
//! signature. A field is its length as eight big-endian bytes followed by its
//! bytes. The signature is one byte 0 when there is none, or one byte 1 and a
//! field. The content id is not sent: every peer derives it from the payload.

use vstd::prelude::*;
use crate::bytes::{append_bytes, copy_bytes, copy_range};

verus! {

/// The identifier of a peer, as the bytes of its public identity.
pub struct PeerId {
    pub bytes: Vec<u8>,
}

impl View for PeerId {
    type V = Seq<u8>;

    open spec fn view(&self) -> Seq<u8> {
        self.bytes@
    }
}

impl PeerId {
    pub fn new(bytes: Vec<u8>) -> (r: PeerId)
        ensures
            r@ == bytes@,
    {
        PeerId { bytes }
    }

    /// Whether `self` and `other` name the same peer.
    pub fn same(&self, other: &PeerId) -> (r: bool)
        ensures
            r == (self@ == other@),
    {
        crate::bytes::same_bytes(&self.bytes, &other.bytes)
    }

    pub fn copy(&self) -> (r: PeerId)
        ensures
            r@ == self@,
    {
        PeerId { bytes: copy_bytes(&self.bytes) }
    }
}

/// What an envelope holds, as mathematical values.
pub ghost struct EnvelopeView {
    pub content_id: u64,
    pub topic: Seq<u8>,
    pub sender: Seq<u8>,
    pub payload: Seq<u8>,
    pub signature: Option<Seq<u8>>,
}

/// A message on its way between peers.
pub struct Envelope {
    pub content_id: u64,
    pub topic: Vec<u8>,
    pub sender: PeerId,
    pub payload: Vec<u8>,
    pub signature: Option<Vec<u8>>,
}

/// The bytes of a byte string that may be missing.
pub open spec fn bytes_view(bytes: Option<Vec<u8>>) -> Option<Seq<u8>> {
    match bytes {
        Some(s) => Some(s@),
        None => None,
    }
}

impl View for Envelope {
    type V = EnvelopeView;

    open spec fn view(&self) -> EnvelopeView {
        EnvelopeView {
            content_id: self.content_id,
            topic: self.topic@,
            sender: self.sender@,
            payload: self.payload@,
            signature: bytes_view(self.signature),
        }
    }
}

/// Why bytes from the wire were not taken as an envelope.
#[derive(Debug, Clone, Copy, PartialEq, Eq, Structural)]
pub enum CodecError {
    /// The bytes end too early, go on too long, or hold a tag that is none.
    Malformed,
}

pub const HASH_SEED: u64 = 0xcbf29ce484222325;

pub const HASH_PRIME: u64 = 0x100000001b3;

/// One step of the content hash: the byte is folded into the state.
pub open spec fn spec_mix(h: u64, b: u8) -> u64 {
    (h ^ (b as u64)).wrapping_mul(HASH_PRIME)
}

/// The content id of a payload: the 64-bit FNV-1a hash of its bytes.
pub open spec fn spec_content_id(payload: Seq<u8>) -> u64
    decreases payload.len(),
{
    if payload.len() == 0 {
        HASH_SEED
    } else {
        spec_mix(spec_content_id(payload.drop_last()), payload.last())
    }
}

/// A number as eight bytes, the most significant first.
pub open spec fn spec_be_bytes(n: u64) -> Seq<u8> {
    seq![
        ((n >> 56) & 0xff) as u8,
        ((n >> 48) & 0xff) as u8,
        ((n >> 40) & 0xff) as u8,
        ((n >> 32) & 0xff) as u8,
        ((n >> 24) & 0xff) as u8,
        ((n >> 16) & 0xff) as u8,
        ((n >> 8) & 0xff) as u8,
        (n & 0xff) as u8,
    ]
}

/// The number that eight bytes spell, the most significant first.
pub open spec fn spec_join(b0: u8, b1: u8, b2: u8, b3: u8, b4: u8, b5: u8, b6: u8, b7: u8) -> u64 {
    (b0 as u64) << 56 | (b1 as u64) << 48 | (b2 as u64) << 40 | (b3 as u64) << 32 | (b4 as u64)
        << 24 | (b5 as u64) << 16 | (b6 as u64) << 8 | (b7 as u64)
}

/// The number that the eight bytes of `b` from `pos` on spell.
pub open spec fn spec_be_value(b: Seq<u8>, pos: int) -> u64 {
    spec_join(
        b[pos],
        b[pos + 1],
        b[pos + 2],
        b[pos + 3],
        b[pos + 4],
        b[pos + 5],
        b[pos + 6],
        b[pos + 7],
    )
}

/// A field on the wire: its length, then its bytes.
pub open spec fn spec_field(s: Seq<u8>) -> Seq<u8> {
    spec_be_bytes(s.len() as u64) + s
}

/// The signature on the wire.
pub open spec fn spec_signature(sig: Option<Seq<u8>>) -> Seq<u8> {
    match sig {
        None => seq![0u8],
        Some(s) => seq![1u8] + spec_field(s),
    }
}

/// The wire form of an envelope.
pub open spec fn spec_encode(e: EnvelopeView) -> Seq<u8> {
    spec_field(e.topic) + spec_field(e.sender) + spec_field(e.payload) + spec_signature(
        e.signature,
    )
}

/// The field that starts at `pos` in `b`, with the position behind it, if a
/// whole field stands there.
pub open spec fn spec_read_field(b: Seq<u8>, pos: int) -> Option<(Seq<u8>, int)> {
    if 0 <= pos && pos + 8 <= b.len() && pos + 8 + spec_be_value(b, pos) <= b.len() {
        let end = pos + 8 + spec_be_value(b, pos);
        Some((b.subrange(pos + 8, end), end))
    } else {
        None
    }
}

/// The signature that starts at `pos` in `b` and ends where `b` ends.
pub open spec fn spec_read_signature(b: Seq<u8>, pos: int) -> Option<Option<Seq<u8>>> {
    if 0 <= pos < b.len() {
        if b[pos] == 0 {
            if pos + 1 == b.len() {
                Some(None)
            } else {
                None
            }
        } else if b[pos] == 1 {
            match spec_read_field(b, pos + 1) {
                Some((sig, end)) => if end == b.len() {
                    Some(Some(sig))
                } else {
                    None
                },
                None => None,
            }
        } else {
            None
        }
    } else {
        None
    }
}

/// The envelope that `b` is the wire form of, if it is one.
pub open spec fn spec_decode(b: Seq<u8>) -> Option<EnvelopeView> {
    match spec_read_field(b, 0) {
        Some((topic, after_topic)) => match spec_read_field(b, after_topic) {
            Some((sender, after_sender)) => match spec_read_field(b, after_sender) {
                Some((payload, after_payload)) => match spec_read_signature(b, after_payload) {
                    Some(signature) => Some(
                        EnvelopeView {
                            content_id: spec_content_id(payload),
                            topic,
                            sender,
                            payload,
                            signature,
                        },
                    ),
                    None => None,
                },
                None => None,
            },
            None => None,
        },
        None => None,
    }
}

/// An envelope that can travel: its content id is that of its payload, and
/// the length of each part can be written in eight bytes.
pub open spec fn valid_envelope(e: EnvelopeView) -> bool {
    &&& e.content_id == spec_content_id(e.payload)
    &&& e.topic.len() <= u64::MAX
    &&& e.sender.len() <= u64::MAX
    &&& e.payload.len() <= u64::MAX
    &&& match e.signature {
        Some(s) => s.len() <= u64::MAX,
        None => true,
    }
}

impl Envelope {
    /// The content id is the one that the payload gives.
    pub open spec fn wf(&self) -> bool {
        self.content_id == spec_content_id(self.payload@)
    }

    /// Wraps a payload, deriving its content id.
    pub fn new(topic: Vec<u8>, sender: PeerId, payload: Vec<u8>, signature: Option<Vec<u8>>) -> (e:
        Envelope)
        ensures
            e.wf(),
            e.topic@ == topic@,
            e.sender@ == sender@,
            e.payload@ == payload@,
            e.signature == signature,
            valid_envelope(e@),
    {
        let content_id = content_id(&payload);
        proof {
            assert(usize::MAX <= u64::MAX);
            assert(topic.len() <= usize::MAX);
            assert(sender.bytes.len() <= usize::MAX);
            assert(payload.len() <= usize::MAX);
            if signature.is_some() {
                assert(signature.unwrap().len() <= usize::MAX);
            }
        }
        Envelope { content_id, topic, sender, payload, signature }
    }

    pub fn copy(&self) -> (e: Envelope)
        ensures
            e@ == self@,
    {
        let signature = match &self.signature {
            Some(s) => Some(copy_bytes(s)),
            None => None,
        };
        Envelope {
            content_id: self.content_id,
            topic: copy_bytes(&self.topic),
            sender: self.sender.copy(),
            payload: copy_bytes(&self.payload),
            signature,
        }
    }
}

/// The content id of `payload`.
pub fn content_id(payload: &Vec<u8>) -> (id: u64)
    ensures
        id == spec_content_id(payload@),
{
    let mut h: u64 = HASH_SEED;
    let mut i: usize = 0;
    assert(payload@.take(0).len() == 0);
    while i < payload.len()
        invariant
            0 <= i <= payload@.len(),
            h == spec_content_id(payload@.take(i as int)),
        decreases payload@.len() - i,
    {
        let b: u8 = payload[i];
        proof {
            let next = payload@.take(i + 1);
            assert(next.drop_last() =~= payload@.take(i as int));
            assert(next.last() == b);
        }
        h = (h ^ (b as u64)).wrapping_mul(HASH_PRIME);
        i += 1;
    }
    assert(payload@.take(payload@.len() as int) =~= payload@);
    h
}

/// Eight big-endian bytes spell the number they were made from.
pub proof fn lemma_be_round_trip(n: u64)
    ensures
        spec_be_bytes(n).len() == 8,
        spec_be_value(spec_be_bytes(n), 0) == n,
{
    assert(((((n >> 56) & 0xff) as u8) as u64) << 56 | ((((n >> 48) & 0xff) as u8) as u64) << 48 | ((((n
        >> 40) & 0xff) as u8) as u64) << 40 | ((((n >> 32) & 0xff) as u8) as u64) << 32 | ((((n >> 24)
        & 0xff) as u8) as u64) << 24 | ((((n >> 16) & 0xff) as u8) as u64) << 16 | ((((n >> 8) & 0xff) as u8) as u64)
        << 8 | (((n & 0xff) as u8) as u64) == n) by (bit_vector);
}

/// A field is read back from where it was written, whatever stands round it.
pub proof fn lemma_read_written_field(before: Seq<u8>, s: Seq<u8>, after: Seq<u8>)
    requires
        s.len() <= u64::MAX,
    ensures
        spec_read_field(before + spec_field(s) + after, before.len() as int) == Some(
            (s, (before.len() + 8 + s.len()) as int),
        ),
{
    let n = s.len() as u64;
    let b = before + spec_field(s) + after;
    let pos = before.len() as int;
    lemma_be_round_trip(n);
    assert forall|i: int| 0 <= i < 8 implies b[pos + i] == spec_be_bytes(n)[i] by {}
    assert(spec_be_value(b, pos) == spec_be_value(spec_be_bytes(n), 0));
    assert(b.subrange(pos + 8, pos + 8 + s.len()) =~= s);
}

/// Decoding undoes encoding: the wire form of a valid envelope is read back
/// as that envelope.
pub proof fn lemma_round_trip(e: EnvelopeView)
    requires
        valid_envelope(e),
    ensures
        spec_decode(spec_encode(e)) == Some(e),
{
    let t = spec_field(e.topic);
    let s = spec_field(e.sender);
    let p = spec_field(e.payload);
    let g = spec_signature(e.signature);
    let b = spec_encode(e);
    let empty = Seq::<u8>::empty();
    lemma_be_round_trip(e.topic.len() as u64);
    lemma_be_round_trip(e.sender.len() as u64);
    lemma_be_round_trip(e.payload.len() as u64);
    assert(b =~= empty + t + (s + p + g));
    lemma_read_written_field(empty, e.topic, s + p + g);
    assert(b =~= t + s + (p + g));
    lemma_read_written_field(t, e.sender, p + g);
    assert(b =~= (t + s) + p + g);
    lemma_read_written_field(t + s, e.payload, g);
    let after_payload = (t + s + p).len() as int;
    assert(after_payload == 24 + e.topic.len() + e.sender.len() + e.payload.len());
    match e.signature {
        None => {
            assert(b[after_payload] == 0);
            assert(spec_read_signature(b, after_payload) == Some(None::<Seq<u8>>));
        },
        Some(sig) => {
            lemma_be_round_trip(sig.len() as u64);
            assert(b[after_payload] == 1);
            assert(b =~= (t + s + p + seq![1u8]) + spec_field(sig) + empty);
            lemma_read_written_field(t + s + p + seq![1u8], sig, empty);
            assert(spec_read_signature(b, after_payload) == Some(Some(sig)));
        },
    }
}

/// Appends `n` as eight big-endian bytes.
fn push_be(out: &mut Vec<u8>, n: u64)
    ensures
        final(out)@ == old(out)@ + spec_be_bytes(n),
{
    assert((n >> 56) & 0xff <= 255) by (bit_vector);
    assert((n >> 48) & 0xff <= 255) by (bit_vector);
    assert((n >> 40) & 0xff <= 255) by (bit_vector);
    assert((n >> 32) & 0xff <= 255) by (bit_vector);
    assert((n >> 24) & 0xff <= 255) by (bit_vector);
    assert((n >> 16) & 0xff <= 255) by (bit_vector);
    assert((n >> 8) & 0xff <= 255) by (bit_vector);
    assert(n & 0xff <= 255) by (bit_vector);
    out.push(((n >> 56) & 0xff) as u8);
    out.push(((n >> 48) & 0xff) as u8);
    out.push(((n >> 40) & 0xff) as u8);
    out.push(((n >> 32) & 0xff) as u8);
    out.push(((n >> 24) & 0xff) as u8);
    out.push(((n >> 16) & 0xff) as u8);
    out.push(((n >> 8) & 0xff) as u8);
    out.push((n & 0xff) as u8);
    assert(out@ =~= old(out)@ + spec_be_bytes(n));
}

/// Appends a field: the length of `s`, then `s`.
fn push_field(out: &mut Vec<u8>, s: &Vec<u8>)
    ensures
        final(out)@ == old(out)@ + spec_field(s@),
{
    push_be(out, s.len() as u64);
    append_bytes(out, s);
    assert(out@ =~= old(out)@ + spec_field(s@));
}

/// The wire form of `e`.
pub fn encode(e: &Envelope) -> (out: Vec<u8>)
    ensures
        out@ == spec_encode(e@),
{
    let mut out: Vec<u8> = Vec::new();
    push_field(&mut out, &e.topic);
    push_field(&mut out, &e.sender.bytes);
    push_field(&mut out, &e.payload);
    match &e.signature {
        None => {
            out.push(0u8);
        },
        Some(s) => {
            out.push(1u8);
            push_field(&mut out, s);
        },
    }
    assert(out@ =~= spec_encode(e@));
    out
}

/// The number that the eight bytes of `b` from `pos` on spell.
fn read_be(b: &Vec<u8>, pos: usize) -> (n: u64)
    requires
        pos + 8 <= b@.len() <= usize::MAX,
    ensures
        n == spec_be_value(b@, pos as int),
{
    let b0: u64 = b[pos] as u64;
    let b1: u64 = b[pos + 1] as u64;
    let b2: u64 = b[pos + 2] as u64;
    let b3: u64 = b[pos + 3] as u64;
    let b4: u64 = b[pos + 4] as u64;
    let b5: u64 = b[pos + 5] as u64;
    let b6: u64 = b[pos + 6] as u64;
    let b7: u64 = b[pos + 7] as u64;
    b0 << 56 | b1 << 48 | b2 << 40 | b3 << 32 | b4 << 24 | b5 << 16 | b6 << 8 | b7
}

/// Reads the field that starts at `pos`.
fn read_field(b: &Vec<u8>, pos: usize) -> (r: Option<(Vec<u8>, usize)>)
    requires
        pos <= b@.len(),
    ensures
        match r {
            Some((f, next)) => spec_read_field(b@, pos as int) == Some((f@, next as int)),
            None => spec_read_field(b@, pos as int).is_none(),
        },
{
    if b.len() - pos < 8 {
        return None;
    }
    let n: u64 = read_be(b, pos);
    let room: usize = b.len() - pos - 8;
    if n > room as u64 {
        return None;
    }
    let start: usize = pos + 8;
    let end: usize = start + n as usize;
    let f = copy_range(b, start, end);
    Some((f, end))
}

/// Reads the signature that starts at `pos` and ends with `b`.
fn read_signature(b: &Vec<u8>, pos: usize) -> (r: Option<Option<Vec<u8>>>)
    requires
        pos <= b@.len(),
    ensures
        match r {
            Some(Some(s)) => spec_read_signature(b@, pos as int) == Some(Some(s@)),
            Some(None) => spec_read_signature(b@, pos as int) == Some(None::<Seq<u8>>),
            None => spec_read_signature(b@, pos as int).is_none(),
        },
{
    if pos >= b.len() {
        return None;
    }
    let tag: u8 = b[pos];
    if tag == 0 {
        if pos + 1 == b.len() {
            Some(None)
        } else {
            None
        }
    } else if tag == 1 {
        match read_field(b, pos + 1) {
            Some((sig, end)) => {
                if end == b.len() {
                    Some(Some(sig))
                } else {
                    None
                }
            },
            None => None,
        }
    } else {
        None
    }
}

/// Reads an envelope from its wire form. Bytes that are no wire form of any
/// envelope are refused as malformed.
pub fn decode(b: &Vec<u8>) -> (r: Result<Envelope, CodecError>)
    ensures
        match r {
            Ok(e) => spec_decode(b@) == Some(e@) && e.wf(),
            Err(err) => spec_decode(b@).is_none() && err == CodecError::Malformed,
        },
{
    let (topic, after_topic) = match read_field(b, 0) {
        Some(x) => x,
        None => {
            return Err(CodecError::Malformed);
        },
    };
    let (sender, after_sender) = match read_field(b, after_topic) {
        Some(x) => x,
        None => {
            return Err(CodecError::Malformed);
        },
    };
    let (payload, after_payload) = match read_field(b, after_sender) {
        Some(x) => x,
        None => {
            return Err(CodecError::Malformed);
        },
    };
    let signature = match read_signature(b, after_payload) {
        Some(x) => x,
        None => {
            return Err(CodecError::Malformed);
        },
    };
    Ok(Envelope::new(topic, PeerId::new(sender), payload, signature))
}

} // verus!
