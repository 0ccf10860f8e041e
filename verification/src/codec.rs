//! Binary framing of tagged messages.
//!
//! A frame is the identity bytes, a big-endian version, one kind byte
//! and a kind-specific body; length-prefixed byte strings use four-byte
//! big-endian lengths bounded by the maximum buffer size. Decoding
//! validates the identity and the version and fails on any unknown
//! kind byte. Encoding refuses the reserved default messages and
//! oversize buffers.
use vstd::prelude::*;

use crate::error::Error;
use crate::message::{
    Encoding, HandshakeMessage, OpaqueMessage, RequestMessage, ResponseMessage, SealedEnvelope,
    TransparentMessage, ENCODING_BLOB, ENCODING_JSON, HANDSHAKE_INITIATOR, HANDSHAKE_PEER,
    HANDSHAKE_RESPONDER, HANDSHAKE_SERVER, OPAQUE, OPAQUE_PEER, OPAQUE_SERVER, TRANSPARENT,
};
use crate::session::SessionId;

verus! {

/// Maximum size in bytes of a length-prefixed buffer.
pub const MAX_BUFFER_SIZE: u32 = 16777216;

/// The four identity bytes that open every frame, as one big-endian
/// word.
pub const IDENTITY: u32 = 1347439945;

/// The version of this wire format.
pub const VERSION: u16 = 1;

/// A number rendered big-endian in a fixed count of bytes, most
/// significant first.
pub open spec fn enc_be(v: nat, n: nat) -> Seq<u8>
    decreases n,
{
    if n == 0 {
        Seq::empty()
    } else {
        enc_be(v / 256, (n - 1) as nat).push((v % 256) as u8)
    }
}

/// The number a big-endian byte sequence denotes.
pub open spec fn dec_be(s: Seq<u8>) -> nat
    decreases s.len(),
{
    if s.len() == 0 {
        0
    } else {
        dec_be(s.drop_last()) * 256 + s.last() as nat
    }
}

/// The n-th power of 256.
pub open spec fn pow256(n: nat) -> nat
    decreases n,
{
    if n == 0 {
        1
    } else {
        256 * pow256((n - 1) as nat)
    }
}

/// A big-endian rendering has exactly the asked-for length.
pub proof fn lemma_enc_be_len(v: nat, n: nat)
    ensures
        enc_be(v, n).len() == n,
    decreases n,
{
    if n > 0 {
        lemma_enc_be_len(v / 256, (n - 1) as nat);
    }
}

/// Reading back a big-endian rendering of a number below the range
/// bound yields the number.
pub proof fn lemma_dec_enc_be(v: nat, n: nat)
    requires
        v < pow256(n),
    ensures
        dec_be(enc_be(v, n)) == v,
    decreases n,
{
    if n == 0 {
    } else {
        lemma_enc_be_len(v / 256, (n - 1) as nat);
        assert(v / 256 < pow256((n - 1) as nat)) by (nonlinear_arith)
            requires
                v < pow256(n),
                pow256(n) == 256 * pow256((n - 1) as nat),
        ;
        lemma_dec_enc_be(v / 256, (n - 1) as nat);
        let s = enc_be(v, n);
        assert(s.drop_last() =~= enc_be(v / 256, (n - 1) as nat));
        assert(dec_be(s) == (v / 256) * 256 + v % 256);
        assert((v / 256) * 256 + v % 256 == v) by (nonlinear_arith);
    }
}

/// Every big-endian reading lies below the range bound of its length.
pub proof fn lemma_dec_be_bound(s: Seq<u8>)
    ensures
        dec_be(s) < pow256(s.len() as nat),
    decreases s.len(),
{
    if s.len() > 0 {
        lemma_dec_be_bound(s.drop_last());
        assert(dec_be(s.drop_last()) * 256 + (s.last() as nat) < pow256(s.len() as nat))
            by (nonlinear_arith)
            requires
                dec_be(s.drop_last()) < pow256((s.len() - 1) as nat),
                s.last() < 256,
                pow256(s.len() as nat) == 256 * pow256((s.len() - 1) as nat),
        ;
    }
}

/// Append the big-endian rendering of a number.
pub(crate) fn write_be(out: &mut Vec<u8>, v: u128, n: usize)
    requires
        n <= 16,
    ensures
        final(out)@ == old(out)@ + enc_be(v as nat, n as nat),
    decreases n,
{
    if n == 0 {
        proof {
            assert(out@ =~= old(out)@ + enc_be(v as nat, 0));
        }
    } else {
        write_be(out, v / 256, n - 1);
        out.push((v % 256) as u8);
        proof {
            assert(out@ =~= old(out)@ + enc_be(v as nat, n as nat));
        }
    }
}

/// Read a big-endian number of a fixed count of bytes.
pub(crate) fn read_be(s: &[u8], start: usize, n: usize) -> (r: u128)
    requires
        n <= 16,
        start + n <= s@.len(),
    ensures
        r as nat == dec_be(s@.subrange(start as int, start + n)),
{
    let slen = s.len();
    let mut acc: u128 = 0;
    let mut i: usize = 0;
    proof {
        assert(s@.subrange(start as int, start as int) =~= Seq::<u8>::empty());
    }
    while i < n
        invariant
            i <= n,
            n <= 16,
            start + n <= s@.len(),
            slen == s@.len(),
            acc as nat == dec_be(s@.subrange(start as int, start + i)),
            (acc as nat) < pow256(i as nat),
        decreases n - i,
    {
        proof {
            assert(s@.subrange(start as int, start + i + 1).drop_last() =~= s@.subrange(
                start as int,
                start + i,
            ));
            assert(s@.subrange(start as int, start + i + 1).last() == s@[start + i]);
            assert(pow256(16) == 0x100000000000000000000000000000000) by {
                reveal_with_fuel(pow256, 17);
            }
            assert(pow256((i + 1) as nat) == 256 * pow256(i as nat));
            assert(pow256(i as nat) * 256 <= pow256(16)) by {
                lemma_pow256_increases((i + 1) as nat, 16);
            }
            assert((acc as nat) * 256 + 255 < pow256((i + 1) as nat)) by (nonlinear_arith)
                requires
                    (acc as nat) < pow256(i as nat),
                    pow256((i + 1) as nat) == 256 * pow256(i as nat),
            ;
        }
        acc = acc * 256 + (s[start + i] as u128);
        i += 1;
    }
    proof {
        assert(s@.subrange(start as int, start + n) == s@.subrange(start as int, start + i));
    }
    acc
}

/// Powers of 256 do not decrease with the exponent.
pub proof fn lemma_pow256_increases(a: nat, b: nat)
    requires
        a <= b,
    ensures
        pow256(a) <= pow256(b),
    decreases b,
{
    if a < b {
        lemma_pow256_increases(a, (b - 1) as nat);
        assert(pow256(b) == 256 * pow256((b - 1) as nat));
        assert(256 * pow256((b - 1) as nat) >= pow256((b - 1) as nat)) by (nonlinear_arith);
    }
}

/// Append a length-prefixed byte string.
pub(crate) fn write_bytes(out: &mut Vec<u8>, b: &[u8])
    requires
        b@.len() <= MAX_BUFFER_SIZE,
    ensures
        final(out)@ == old(out)@ + enc_bytes(b@),
{
    let ghost pre = out@;
    write_be(out, b.len() as u128, 4);
    out.extend_from_slice(b);
    proof {
        assert(out@ =~= pre + enc_bytes(b@));
    }
}

/// Mathematical view of a handshake message.
pub enum HandshakeView {
    /// Reserved default value.
    Noop,
    /// Initiator: meaningful length and buffer.
    Initiator(int, Seq<u8>),
    /// Responder: meaningful length and buffer.
    Responder(int, Seq<u8>),
}

impl HandshakeView {
    /// The length field of a handshake message.
    pub open spec fn length_field(self) -> nat {
        match self {
            HandshakeView::Noop => 0,
            HandshakeView::Initiator(n, _) => n as nat,
            HandshakeView::Responder(n, _) => n as nat,
        }
    }

    /// The buffer of a handshake message.
    pub open spec fn buffer(self) -> Seq<u8> {
        match self {
            HandshakeView::Noop => Seq::empty(),
            HandshakeView::Initiator(_, buf) => buf,
            HandshakeView::Responder(_, buf) => buf,
        }
    }
}

/// Mathematical view of a transparent message.
pub enum TransparentView {
    /// Reserved default value.
    Noop,
    /// Server handshake message.
    ServerHandshake(HandshakeView),
    /// Peer handshake message: receiver key, then the message.
    PeerHandshake(Seq<u8>, HandshakeView),
}

/// Mathematical view of a sealed envelope.
pub struct EnvelopeView {
    /// Payload encoding.
    pub encoding: Encoding,
    /// Meaningful payload length.
    pub length: int,
    /// Encrypted payload.
    pub payload: Seq<u8>,
    /// Whether this is a broadcast message.
    pub broadcast: bool,
}

/// Mathematical view of an opaque message.
pub enum OpaqueView {
    /// Reserved default value.
    Noop,
    /// Server-channel message.
    ServerMessage(EnvelopeView),
    /// Peer message: receiver key, session identifier, envelope.
    PeerMessage(Seq<u8>, Option<u128>, EnvelopeView),
}

/// Mathematical view of a whole frame.
pub enum FrameView {
    /// Reserved default value.
    Noop,
    /// Transparent message.
    Transparent(TransparentView),
    /// Opaque message.
    Opaque(OpaqueView),
}

impl View for HandshakeMessage {
    type V = HandshakeView;

    open spec fn view(&self) -> HandshakeView {
        match self {
            HandshakeMessage::Noop => HandshakeView::Noop,
            HandshakeMessage::Initiator(n, buf) => HandshakeView::Initiator(*n as int, buf@),
            HandshakeMessage::Responder(n, buf) => HandshakeView::Responder(*n as int, buf@),
        }
    }
}

impl View for TransparentMessage {
    type V = TransparentView;

    open spec fn view(&self) -> TransparentView {
        match self {
            TransparentMessage::Noop => TransparentView::Noop,
            TransparentMessage::ServerHandshake(h) => TransparentView::ServerHandshake(h@),
            TransparentMessage::PeerHandshake { public_key, message } => (
            TransparentView::PeerHandshake(public_key@, message@)),
        }
    }
}

impl View for SealedEnvelope {
    type V = EnvelopeView;

    open spec fn view(&self) -> EnvelopeView {
        EnvelopeView {
            encoding: self.encoding,
            length: self.length as int,
            payload: self.payload@,
            broadcast: self.broadcast,
        }
    }
}

impl View for OpaqueMessage {
    type V = OpaqueView;

    open spec fn view(&self) -> OpaqueView {
        match self {
            OpaqueMessage::Noop => OpaqueView::Noop,
            OpaqueMessage::ServerMessage(env) => OpaqueView::ServerMessage(env@),
            OpaqueMessage::PeerMessage { public_key, session_id, envelope } => (
            OpaqueView::PeerMessage(
                public_key@,
                match session_id {
                    Some(id) => Some(id.0),
                    None => None,
                },
                envelope@,
            )),
        }
    }
}

impl View for RequestMessage {
    type V = FrameView;

    open spec fn view(&self) -> FrameView {
        match self {
            RequestMessage::Noop => FrameView::Noop,
            RequestMessage::Transparent(t) => FrameView::Transparent(t@),
            RequestMessage::Opaque(o) => FrameView::Opaque(o@),
        }
    }
}

impl View for ResponseMessage {
    type V = FrameView;

    open spec fn view(&self) -> FrameView {
        match self {
            ResponseMessage::Noop => FrameView::Noop,
            ResponseMessage::Transparent(t) => FrameView::Transparent(t@),
            ResponseMessage::Opaque(o) => FrameView::Opaque(o@),
        }
    }
}

/// A handshake message fits on the wire: not the reserved value, with
/// its length field and buffer within the buffer bound.
pub open spec fn wf_handshake(h: HandshakeView) -> bool {
    match h {
        HandshakeView::Noop => false,
        HandshakeView::Initiator(n, buf) => 0 <= n <= MAX_BUFFER_SIZE && buf.len()
            <= MAX_BUFFER_SIZE,
        HandshakeView::Responder(n, buf) => 0 <= n <= MAX_BUFFER_SIZE && buf.len()
            <= MAX_BUFFER_SIZE,
    }
}

/// A transparent message fits on the wire.
pub open spec fn wf_transparent(t: TransparentView) -> bool {
    match t {
        TransparentView::Noop => false,
        TransparentView::ServerHandshake(h) => wf_handshake(h),
        TransparentView::PeerHandshake(pk, h) => pk.len() <= MAX_BUFFER_SIZE && wf_handshake(h),
    }
}

/// The tag byte of an encoding, at the specification level.
pub open spec fn encoding_tag(e: Encoding) -> u8 {
    match e {
        Encoding::Noop => 0,
        Encoding::Blob => ENCODING_BLOB,
        Encoding::Json => ENCODING_JSON,
    }
}

/// An envelope fits on the wire: a real encoding, with its length
/// field and payload within the buffer bound.
pub open spec fn wf_envelope(e: EnvelopeView) -> bool {
    &&& !(e.encoding is Noop)
    &&& 0 <= e.length <= MAX_BUFFER_SIZE
    &&& e.payload.len() <= MAX_BUFFER_SIZE
}

/// An opaque message fits on the wire.
pub open spec fn wf_opaque(o: OpaqueView) -> bool {
    match o {
        OpaqueView::Noop => false,
        OpaqueView::ServerMessage(env) => wf_envelope(env),
        OpaqueView::PeerMessage(pk, _sid, env) => pk.len() <= MAX_BUFFER_SIZE && wf_envelope(env),
    }
}

/// A frame fits on the wire.
pub open spec fn wf_frame(f: FrameView) -> bool {
    match f {
        FrameView::Noop => false,
        FrameView::Transparent(t) => wf_transparent(t),
        FrameView::Opaque(o) => wf_opaque(o),
    }
}

/// Wire rendering of a length-prefixed byte string.
pub open spec fn enc_bytes(b: Seq<u8>) -> Seq<u8> {
    enc_be(b.len() as nat, 4) + b
}

/// Wire rendering of a handshake message.
pub open spec fn enc_handshake(h: HandshakeView) -> Seq<u8> {
    match h {
        HandshakeView::Noop => Seq::empty(),
        HandshakeView::Initiator(n, buf) => seq![HANDSHAKE_INITIATOR] + enc_be(n as nat, 4)
            + enc_bytes(buf),
        HandshakeView::Responder(n, buf) => seq![HANDSHAKE_RESPONDER] + enc_be(n as nat, 4)
            + enc_bytes(buf),
    }
}

/// Wire rendering of a transparent message.
pub open spec fn enc_transparent(t: TransparentView) -> Seq<u8> {
    match t {
        TransparentView::Noop => Seq::empty(),
        TransparentView::ServerHandshake(h) => seq![HANDSHAKE_SERVER] + enc_handshake(h),
        TransparentView::PeerHandshake(pk, h) => seq![HANDSHAKE_PEER] + enc_bytes(pk)
            + enc_handshake(h),
    }
}

/// Wire rendering of a sealed envelope.
pub open spec fn enc_envelope(e: EnvelopeView) -> Seq<u8> {
    seq![encoding_tag(e.encoding)] + enc_be(e.length as nat, 4) + enc_bytes(e.payload) + seq![
        if e.broadcast {
            1u8
        } else {
            0u8
        },
    ]
}

/// Wire rendering of an optional session identifier.
pub open spec fn enc_session_id(sid: Option<u128>) -> Seq<u8> {
    match sid {
        None => seq![0u8],
        Some(id) => seq![1u8] + enc_be(id as nat, 16),
    }
}

/// Wire rendering of an opaque message.
pub open spec fn enc_opaque(o: OpaqueView) -> Seq<u8> {
    match o {
        OpaqueView::Noop => Seq::empty(),
        OpaqueView::ServerMessage(env) => seq![OPAQUE_SERVER] + enc_envelope(env),
        OpaqueView::PeerMessage(pk, sid, env) => seq![OPAQUE_PEER] + enc_bytes(pk)
            + enc_session_id(sid) + enc_envelope(env),
    }
}

/// Wire rendering of a whole frame: identity, version, kind, body.
pub open spec fn enc_frame(f: FrameView) -> Seq<u8> {
    enc_be(IDENTITY as nat, 4) + enc_be(VERSION as nat, 2) + (match f {
        FrameView::Noop => Seq::empty(),
        FrameView::Transparent(t) => seq![TRANSPARENT] + enc_transparent(t),
        FrameView::Opaque(o) => seq![OPAQUE] + enc_opaque(o),
    })
}

/// Append the wire rendering of a handshake message, refusing the
/// reserved value and oversize buffers.
fn encode_handshake_into(out: &mut Vec<u8>, h: &HandshakeMessage) -> (r: Result<(), Error>)
    ensures
        r is Ok <==> wf_handshake(h@),
        r is Ok ==> final(out)@ == old(out)@ + enc_handshake(h@),
        r is Err ==> final(out)@ == old(out)@,
{
    let ghost pre = out@;
    match h {
        HandshakeMessage::Noop => Err(Error::EncodingKind(0)),
        HandshakeMessage::Initiator(n, buf) => {
            if *n > MAX_BUFFER_SIZE as usize {
                return Err(Error::MaxBufferSize(*n));
            }
            if buf.len() > MAX_BUFFER_SIZE as usize {
                return Err(Error::MaxBufferSize(buf.len()));
            }
            out.push(HANDSHAKE_INITIATOR);
            write_be(out, *n as u128, 4);
            write_bytes(out, buf.as_slice());
            proof {
                assert(out@ =~= pre + enc_handshake(h@));
            }
            Ok(())
        },
        HandshakeMessage::Responder(n, buf) => {
            if *n > MAX_BUFFER_SIZE as usize {
                return Err(Error::MaxBufferSize(*n));
            }
            if buf.len() > MAX_BUFFER_SIZE as usize {
                return Err(Error::MaxBufferSize(buf.len()));
            }
            out.push(HANDSHAKE_RESPONDER);
            write_be(out, *n as u128, 4);
            write_bytes(out, buf.as_slice());
            proof {
                assert(out@ =~= pre + enc_handshake(h@));
            }
            Ok(())
        },
    }
}

/// Append the wire rendering of a transparent message.
fn encode_transparent_into(out: &mut Vec<u8>, t: &TransparentMessage) -> (r: Result<(), Error>)
    ensures
        r is Ok <==> wf_transparent(t@),
        r is Ok ==> final(out)@ == old(out)@ + enc_transparent(t@),
        r is Err ==> final(out)@ == old(out)@,
{
    let ghost pre = out@;
    match t {
        TransparentMessage::Noop => Err(Error::EncodingKind(0)),
        TransparentMessage::ServerHandshake(h) => {
            let mut body: Vec<u8> = Vec::new();
            match encode_handshake_into(&mut body, h) {
                Ok(()) => {
                    out.push(HANDSHAKE_SERVER);
                    out.append(&mut body);
                    proof {
                        assert(out@ =~= pre + enc_transparent(t@));
                    }
                    Ok(())
                },
                Err(e) => Err(e),
            }
        },
        TransparentMessage::PeerHandshake { public_key, message } => {
            if public_key.len() > MAX_BUFFER_SIZE as usize {
                return Err(Error::MaxBufferSize(public_key.len()));
            }
            let mut body: Vec<u8> = Vec::new();
            match encode_handshake_into(&mut body, message) {
                Ok(()) => {
                    out.push(HANDSHAKE_PEER);
                    write_bytes(out, public_key.as_slice());
                    out.append(&mut body);
                    proof {
                        assert(out@ =~= pre + enc_transparent(t@));
                    }
                    Ok(())
                },
                Err(e) => Err(e),
            }
        },
    }
}

/// Append the wire rendering of a sealed envelope.
fn encode_envelope_into(out: &mut Vec<u8>, e: &SealedEnvelope) -> (r: Result<(), Error>)
    ensures
        r is Ok <==> wf_envelope(e@),
        r is Ok ==> final(out)@ == old(out)@ + enc_envelope(e@),
        r is Err ==> final(out)@ == old(out)@,
{
    let ghost pre = out@;
    let tag = e.encoding.kind();
    if tag == 0 {
        return Err(Error::EncodingKind(0));
    }
    if e.length > MAX_BUFFER_SIZE as usize {
        return Err(Error::MaxBufferSize(e.length));
    }
    if e.payload.len() > MAX_BUFFER_SIZE as usize {
        return Err(Error::MaxBufferSize(e.payload.len()));
    }
    out.push(tag);
    proof {
        assert(tag == encoding_tag(e.encoding));
    }
    write_be(out, e.length as u128, 4);
    write_bytes(out, e.payload.as_slice());
    out.push(if e.broadcast { 1 } else { 0 });
    proof {
        assert(out@ =~= pre + enc_envelope(e@));
    }
    Ok(())
}

/// Append the wire rendering of an opaque message.
fn encode_opaque_into(out: &mut Vec<u8>, o: &OpaqueMessage) -> (r: Result<(), Error>)
    ensures
        r is Ok <==> wf_opaque(o@),
        r is Ok ==> final(out)@ == old(out)@ + enc_opaque(o@),
        r is Err ==> final(out)@ == old(out)@,
{
    let ghost pre = out@;
    match o {
        OpaqueMessage::Noop => Err(Error::EncodingKind(0)),
        OpaqueMessage::ServerMessage(env) => {
            let mut body: Vec<u8> = Vec::new();
            match encode_envelope_into(&mut body, env) {
                Ok(()) => {
                    out.push(OPAQUE_SERVER);
                    out.append(&mut body);
                    proof {
                        assert(out@ =~= pre + enc_opaque(o@));
                    }
                    Ok(())
                },
                Err(e) => Err(e),
            }
        },
        OpaqueMessage::PeerMessage { public_key, session_id, envelope } => {
            if public_key.len() > MAX_BUFFER_SIZE as usize {
                return Err(Error::MaxBufferSize(public_key.len()));
            }
            let mut body: Vec<u8> = Vec::new();
            match encode_envelope_into(&mut body, envelope) {
                Ok(()) => {
                    out.push(OPAQUE_PEER);
                    write_bytes(out, public_key.as_slice());
                    match session_id {
                        None => {
                            out.push(0);
                        },
                        Some(id) => {
                            out.push(1);
                            write_be(out, id.0, 16);
                        },
                    }
                    out.append(&mut body);
                    proof {
                        assert(out@ =~= pre + enc_opaque(o@));
                    }
                    Ok(())
                },
                Err(e) => Err(e),
            }
        },
    }
}

/// Encode a request frame: identity, version, kind byte, body. The
/// reserved default messages and oversize buffers are refused.
pub fn encode_request(message: &RequestMessage) -> (r: Result<Vec<u8>, Error>)
    ensures
        r is Ok <==> wf_frame(message@),
        r matches Ok(v) ==> v@ == enc_frame(message@),
{
    let mut out: Vec<u8> = Vec::new();
    write_be(&mut out, IDENTITY as u128, 4);
    write_be(&mut out, VERSION as u128, 2);
    match message {
        RequestMessage::Noop => Err(Error::EncodingKind(0)),
        RequestMessage::Transparent(t) => {
            out.push(TRANSPARENT);
            match encode_transparent_into(&mut out, t) {
                Ok(()) => {
                    proof {
                        assert(out@ =~= enc_frame(message@));
                    }
                    Ok(out)
                },
                Err(e) => Err(e),
            }
        },
        RequestMessage::Opaque(o) => {
            out.push(OPAQUE);
            match encode_opaque_into(&mut out, o) {
                Ok(()) => {
                    proof {
                        assert(out@ =~= enc_frame(message@));
                    }
                    Ok(out)
                },
                Err(e) => Err(e),
            }
        },
    }
}

/// Read one byte at an offset.
pub open spec fn rd_u8(s: Seq<u8>, i: int) -> Option<(u8, int)> {
    if 0 <= i && i + 1 <= s.len() {
        Some((s[i], i + 1))
    } else {
        None
    }
}

/// Read a big-endian number of a fixed count of bytes at an offset.
pub open spec fn rd_be_n(s: Seq<u8>, i: int, n: int) -> Option<(nat, int)> {
    if 0 <= i && 0 <= n && i + n <= s.len() {
        Some((dec_be(s.subrange(i, i + n)), i + n))
    } else {
        None
    }
}

/// Read a length-prefixed byte string at an offset; a length over the
/// buffer bound, or past the end of the input, fails.
pub open spec fn rd_bytes(s: Seq<u8>, i: int) -> Option<(Seq<u8>, int)> {
    match rd_be_n(s, i, 4) {
        None => None,
        Some((len, j)) => if len <= MAX_BUFFER_SIZE && j + len <= s.len() {
            Some((s.subrange(j, j + len), j + len))
        } else {
            None
        },
    }
}

/// Read a handshake message at an offset.
pub open spec fn rd_handshake(s: Seq<u8>, i: int) -> Option<(HandshakeView, int)> {
    match rd_u8(s, i) {
        None => None,
        Some((tag, j)) => if tag == HANDSHAKE_INITIATOR || tag == HANDSHAKE_RESPONDER {
            match rd_be_n(s, j, 4) {
                None => None,
                Some((n, j2)) => if n <= MAX_BUFFER_SIZE {
                    match rd_bytes(s, j2) {
                        None => None,
                        Some((buf, j3)) => if tag == HANDSHAKE_INITIATOR {
                            Some((HandshakeView::Initiator(n as int, buf), j3))
                        } else {
                            Some((HandshakeView::Responder(n as int, buf), j3))
                        },
                    }
                } else {
                    None
                },
            }
        } else {
            None
        },
    }
}

/// Read a transparent message at an offset.
pub open spec fn rd_transparent(s: Seq<u8>, i: int) -> Option<(TransparentView, int)> {
    match rd_u8(s, i) {
        None => None,
        Some((tag, j)) => if tag == HANDSHAKE_SERVER {
            match rd_handshake(s, j) {
                None => None,
                Some((h, j2)) => Some((TransparentView::ServerHandshake(h), j2)),
            }
        } else if tag == HANDSHAKE_PEER {
            match rd_bytes(s, j) {
                None => None,
                Some((pk, j2)) => match rd_handshake(s, j2) {
                    None => None,
                    Some((h, j3)) => Some((TransparentView::PeerHandshake(pk, h), j3)),
                },
            }
        } else {
            None
        },
    }
}

/// Read a sealed envelope at an offset.
pub open spec fn rd_envelope(s: Seq<u8>, i: int) -> Option<(EnvelopeView, int)> {
    match rd_u8(s, i) {
        None => None,
        Some((tag, j)) => if tag == ENCODING_BLOB || tag == ENCODING_JSON {
            match rd_be_n(s, j, 4) {
                None => None,
                Some((n, j2)) => if n <= MAX_BUFFER_SIZE {
                    match rd_bytes(s, j2) {
                        None => None,
                        Some((payload, j3)) => match rd_u8(s, j3) {
                            None => None,
                            Some((b, j4)) => if b == 1 || b == 0 {
                                Some(
                                    (
                                        EnvelopeView {
                                            encoding: if tag == ENCODING_BLOB {
                                                Encoding::Blob
                                            } else {
                                                Encoding::Json
                                            },
                                            length: n as int,
                                            payload,
                                            broadcast: b == 1,
                                        },
                                        j4,
                                    ),
                                )
                            } else {
                                None
                            },
                        },
                    }
                } else {
                    None
                },
            }
        } else {
            None
        },
    }
}

/// Read an optional session identifier at an offset.
pub open spec fn rd_session_id(s: Seq<u8>, i: int) -> Option<(Option<u128>, int)> {
    match rd_u8(s, i) {
        None => None,
        Some((flag, j)) => if flag == 0 {
            Some((None, j))
        } else if flag == 1 {
            match rd_be_n(s, j, 16) {
                None => None,
                Some((id, j2)) => Some((Some(id as u128), j2)),
            }
        } else {
            None
        },
    }
}

/// Read an opaque message at an offset.
pub open spec fn rd_opaque(s: Seq<u8>, i: int) -> Option<(OpaqueView, int)> {
    match rd_u8(s, i) {
        None => None,
        Some((tag, j)) => if tag == OPAQUE_SERVER {
            match rd_envelope(s, j) {
                None => None,
                Some((env, j2)) => Some((OpaqueView::ServerMessage(env), j2)),
            }
        } else if tag == OPAQUE_PEER {
            match rd_bytes(s, j) {
                None => None,
                Some((pk, j2)) => match rd_session_id(s, j2) {
                    None => None,
                    Some((sid, j3)) => match rd_envelope(s, j3) {
                        None => None,
                        Some((env, j4)) => Some((OpaqueView::PeerMessage(pk, sid, env), j4)),
                    },
                },
            }
        } else {
            None
        },
    }
}

/// Read a whole frame: the identity and version are validated, the
/// kind byte selects the body, and the body must consume the whole
/// input.
pub open spec fn dec_frame(s: Seq<u8>) -> Option<FrameView> {
    if s.len() < 7 {
        None
    } else if dec_be(s.subrange(0, 4)) != IDENTITY as nat {
        None
    } else if dec_be(s.subrange(4, 6)) != VERSION as nat {
        None
    } else if s[6] == TRANSPARENT {
        match rd_transparent(s, 7) {
            None => None,
            Some((t, j)) => if j == s.len() {
                Some(FrameView::Transparent(t))
            } else {
                None
            },
        }
    } else if s[6] == OPAQUE {
        match rd_opaque(s, 7) {
            None => None,
            Some((o, j)) => if j == s.len() {
                Some(FrameView::Opaque(o))
            } else {
                None
            },
        }
    } else {
        None
    }
}

/// Encode a response frame, exactly as a request frame is encoded.
pub fn encode_response(message: &ResponseMessage) -> (r: Result<Vec<u8>, Error>)
    ensures
        r is Ok <==> wf_frame(message@),
        r matches Ok(v) ==> v@ == enc_frame(message@),
{
    let mut out: Vec<u8> = Vec::new();
    write_be(&mut out, IDENTITY as u128, 4);
    write_be(&mut out, VERSION as u128, 2);
    match message {
        ResponseMessage::Noop => Err(Error::EncodingKind(0)),
        ResponseMessage::Transparent(t) => {
            out.push(TRANSPARENT);
            match encode_transparent_into(&mut out, t) {
                Ok(()) => {
                    proof {
                        assert(out@ =~= enc_frame(message@));
                    }
                    Ok(out)
                },
                Err(e) => Err(e),
            }
        },
        ResponseMessage::Opaque(o) => {
            out.push(OPAQUE);
            match encode_opaque_into(&mut out, o) {
                Ok(()) => {
                    proof {
                        assert(out@ =~= enc_frame(message@));
                    }
                    Ok(out)
                },
                Err(e) => Err(e),
            }
        },
    }
}

/// Read one byte at an offset, mirroring the specification reader.
pub(crate) fn decode_u8(s: &[u8], i: usize) -> (r: Result<(u8, usize), Error>)
    ensures
        r matches Ok((v, j)) ==> rd_u8(s@, i as int) == Some((v, j as int)) && i < j <= s@.len(),
        r is Err ==> rd_u8(s@, i as int) is None,
{
    if i < s.len() {
        Ok((s[i], i + 1))
    } else {
        Err(Error::Io("unexpected end of frame".to_owned()))
    }
}

/// Read a length-prefixed byte string at an offset, mirroring the
/// specification reader.
pub(crate) fn decode_bytes(s: &[u8], i: usize) -> (r: Result<(Vec<u8>, usize), Error>)
    ensures
        r matches Ok((v, j)) ==> rd_bytes(s@, i as int) == Some((v@, j as int)) && i < j
            <= s@.len(),
        r is Err ==> rd_bytes(s@, i as int) is None,
{
    let slen = s.len();
    if i > slen || slen - i < 4 {
        return Err(Error::Io("unexpected end of frame".to_owned()));
    }
    let len128 = read_be(s, i, 4);
    proof {
        lemma_dec_be_bound(s@.subrange(i as int, i + 4));
        assert(pow256(4) == 4294967296) by {
            reveal_with_fuel(pow256, 5);
        }
    }
    if len128 > MAX_BUFFER_SIZE as u128 {
        return Err(Error::MaxBufferSize(len128 as usize));
    }
    let len = len128 as usize;
    let j = i + 4;
    if slen - j < len {
        return Err(Error::Io("unexpected end of frame".to_owned()));
    }
    let out = vstd::slice::slice_to_vec(vstd::slice::slice_subrange(s, j, j + len));
    Ok((out, j + len))
}

/// Read a handshake message at an offset, mirroring the specification
/// reader.
fn decode_handshake(s: &[u8], i: usize) -> (r: Result<(HandshakeMessage, usize), Error>)
    ensures
        r matches Ok((m, j)) ==> rd_handshake(s@, i as int) == Some((m@, j as int)) && i < j
            <= s@.len(),
        r is Err ==> rd_handshake(s@, i as int) is None,
{
    let (tag, j) = match decode_u8(s, i) {
        Ok(out) => out,
        Err(e) => {
            return Err(e);
        },
    };
    if tag != HANDSHAKE_INITIATOR && tag != HANDSHAKE_RESPONDER {
        return Err(Error::EncodingKind(tag));
    }
    let slen = s.len();
    if j > slen || slen - j < 4 {
        return Err(Error::Io("unexpected end of frame".to_owned()));
    }
    let n128 = read_be(s, j, 4);
    proof {
        lemma_dec_be_bound(s@.subrange(j as int, j + 4));
        assert(pow256(4) == 4294967296) by {
            reveal_with_fuel(pow256, 5);
        }
    }
    if n128 > MAX_BUFFER_SIZE as u128 {
        return Err(Error::MaxBufferSize(n128 as usize));
    }
    let n = n128 as usize;
    let j2 = j + 4;
    let (buf, j3) = match decode_bytes(s, j2) {
        Ok(out) => out,
        Err(e) => {
            return Err(e);
        },
    };
    if tag == HANDSHAKE_INITIATOR {
        Ok((HandshakeMessage::Initiator(n, buf), j3))
    } else {
        Ok((HandshakeMessage::Responder(n, buf), j3))
    }
}

/// Read a transparent message at an offset, mirroring the
/// specification reader.
fn decode_transparent(s: &[u8], i: usize) -> (r: Result<(TransparentMessage, usize), Error>)
    ensures
        r matches Ok((m, j)) ==> rd_transparent(s@, i as int) == Some((m@, j as int)) && i < j
            <= s@.len(),
        r is Err ==> rd_transparent(s@, i as int) is None,
{
    let (tag, j) = match decode_u8(s, i) {
        Ok(out) => out,
        Err(e) => {
            return Err(e);
        },
    };
    if tag == HANDSHAKE_SERVER {
        match decode_handshake(s, j) {
            Ok((h, j2)) => Ok((TransparentMessage::ServerHandshake(h), j2)),
            Err(e) => Err(e),
        }
    } else if tag == HANDSHAKE_PEER {
        let (pk, j2) = match decode_bytes(s, j) {
            Ok(out) => out,
            Err(e) => {
                return Err(e);
            },
        };
        match decode_handshake(s, j2) {
            Ok((h, j3)) => Ok(
                (TransparentMessage::PeerHandshake { public_key: pk, message: h }, j3),
            ),
            Err(e) => Err(e),
        }
    } else {
        Err(Error::EncodingKind(tag))
    }
}

/// Read a sealed envelope at an offset, mirroring the specification
/// reader.
fn decode_envelope(s: &[u8], i: usize) -> (r: Result<(SealedEnvelope, usize), Error>)
    ensures
        r matches Ok((m, j)) ==> rd_envelope(s@, i as int) == Some((m@, j as int)) && i < j
            <= s@.len(),
        r is Err ==> rd_envelope(s@, i as int) is None,
{
    let (tag, j) = match decode_u8(s, i) {
        Ok(out) => out,
        Err(e) => {
            return Err(e);
        },
    };
    if tag != ENCODING_BLOB && tag != ENCODING_JSON {
        return Err(Error::EncodingKind(tag));
    }
    let slen = s.len();
    if j > slen || slen - j < 4 {
        return Err(Error::Io("unexpected end of frame".to_owned()));
    }
    let n128 = read_be(s, j, 4);
    proof {
        lemma_dec_be_bound(s@.subrange(j as int, j + 4));
        assert(pow256(4) == 4294967296) by {
            reveal_with_fuel(pow256, 5);
        }
    }
    if n128 > MAX_BUFFER_SIZE as u128 {
        return Err(Error::MaxBufferSize(n128 as usize));
    }
    let n = n128 as usize;
    let j2 = j + 4;
    let (payload, j3) = match decode_bytes(s, j2) {
        Ok(out) => out,
        Err(e) => {
            return Err(e);
        },
    };
    let (b, j4) = match decode_u8(s, j3) {
        Ok(out) => out,
        Err(e) => {
            return Err(e);
        },
    };
    if b != 0 && b != 1 {
        return Err(Error::EncodingKind(b));
    }
    let encoding = if tag == ENCODING_BLOB {
        Encoding::Blob
    } else {
        Encoding::Json
    };
    Ok((SealedEnvelope { encoding, length: n, payload, broadcast: b == 1 }, j4))
}

/// Read an opaque message at an offset, mirroring the specification
/// reader.
fn decode_opaque(s: &[u8], i: usize) -> (r: Result<(OpaqueMessage, usize), Error>)
    ensures
        r matches Ok((m, j)) ==> rd_opaque(s@, i as int) == Some((m@, j as int)) && i < j
            <= s@.len(),
        r is Err ==> rd_opaque(s@, i as int) is None,
{
    let (tag, j) = match decode_u8(s, i) {
        Ok(out) => out,
        Err(e) => {
            return Err(e);
        },
    };
    if tag == OPAQUE_SERVER {
        match decode_envelope(s, j) {
            Ok((env, j2)) => Ok((OpaqueMessage::ServerMessage(env), j2)),
            Err(e) => Err(e),
        }
    } else if tag == OPAQUE_PEER {
        let (pk, j2) = match decode_bytes(s, j) {
            Ok(out) => out,
            Err(e) => {
                return Err(e);
            },
        };
        let (flag, j3) = match decode_u8(s, j2) {
            Ok(out) => out,
            Err(e) => {
                return Err(e);
            },
        };
        let (sid, j4): (Option<SessionId>, usize) = if flag == 0 {
            (None, j3)
        } else if flag == 1 {
            let slen = s.len();
            if j3 > slen || slen - j3 < 16 {
                return Err(Error::Io("unexpected end of frame".to_owned()));
            }
            let id = read_be(s, j3, 16);
            (Some(SessionId(id)), j3 + 16)
        } else {
            return Err(Error::EncodingKind(flag));
        };
        match decode_envelope(s, j4) {
            Ok((env, j5)) => Ok(
                (
                    OpaqueMessage::PeerMessage {
                        public_key: pk,
                        session_id: sid,
                        envelope: env,
                    },
                    j5,
                ),
            ),
            Err(e) => Err(e),
        }
    } else {
        Err(Error::EncodingKind(tag))
    }
}

/// Decode a request frame. The identity bytes and the version are
/// validated; the kind byte selects the body; the body must consume
/// the whole buffer.
pub fn decode_request(buffer: &[u8]) -> (r: Result<RequestMessage, Error>)
    ensures
        r matches Ok(m) ==> dec_frame(buffer@) == Some(m@),
        r is Err ==> dec_frame(buffer@) is None,
        buffer@.len() < 7 ==> r matches Err(Error::BadEncodingIdentity),
        buffer@.len() >= 7 && dec_be(buffer@.subrange(0, 4)) != IDENTITY as nat ==> r matches Err(
            Error::BadEncodingIdentity,
        ),
        buffer@.len() >= 7 && dec_be(buffer@.subrange(0, 4)) == IDENTITY as nat && dec_be(
            buffer@.subrange(4, 6),
        ) != VERSION as nat ==> (r matches Err(Error::EncodingVersion(e, g)) && e == VERSION && (
        g as nat) == dec_be(buffer@.subrange(4, 6))),
        buffer@.len() >= 7 && dec_be(buffer@.subrange(0, 4)) == IDENTITY as nat && dec_be(
            buffer@.subrange(4, 6),
        ) == VERSION as nat && buffer@[6] != TRANSPARENT && buffer@[6] != OPAQUE ==> (r matches Err(
            Error::EncodingKind(k),
        ) && k == buffer@[6]),
{
    let slen = buffer.len();
    if slen < 7 {
        return Err(Error::BadEncodingIdentity);
    }
    let identity = read_be(buffer, 0, 4);
    if identity != IDENTITY as u128 {
        return Err(Error::BadEncodingIdentity);
    }
    let version = read_be(buffer, 4, 2);
    proof {
        lemma_dec_be_bound(buffer@.subrange(4, 6));
        assert(pow256(2) == 65536) by {
            reveal_with_fuel(pow256, 3);
        }
    }
    if version != VERSION as u128 {
        return Err(Error::EncodingVersion(VERSION, version as u16));
    }
    let tag = buffer[6];
    if tag == TRANSPARENT {
        match decode_transparent(buffer, 7) {
            Ok((t, j)) => {
                if j == slen {
                    Ok(RequestMessage::Transparent(t))
                } else {
                    Err(Error::Io("trailing bytes after frame".to_owned()))
                }
            },
            Err(e) => Err(e),
        }
    } else if tag == OPAQUE {
        match decode_opaque(buffer, 7) {
            Ok((o, j)) => {
                if j == slen {
                    Ok(RequestMessage::Opaque(o))
                } else {
                    Err(Error::Io("trailing bytes after frame".to_owned()))
                }
            },
            Err(e) => Err(e),
        }
    } else {
        Err(Error::EncodingKind(tag))
    }
}

/// Decode a response frame, exactly as a request frame is decoded.
pub fn decode_response(buffer: &[u8]) -> (r: Result<ResponseMessage, Error>)
    ensures
        r matches Ok(m) ==> dec_frame(buffer@) == Some(m@),
        r is Err ==> dec_frame(buffer@) is None,
        buffer@.len() < 7 ==> r matches Err(Error::BadEncodingIdentity),
        buffer@.len() >= 7 && dec_be(buffer@.subrange(0, 4)) != IDENTITY as nat ==> r matches Err(
            Error::BadEncodingIdentity,
        ),
        buffer@.len() >= 7 && dec_be(buffer@.subrange(0, 4)) == IDENTITY as nat && dec_be(
            buffer@.subrange(4, 6),
        ) != VERSION as nat ==> (r matches Err(Error::EncodingVersion(e, g)) && e == VERSION && (
        g as nat) == dec_be(buffer@.subrange(4, 6))),
        buffer@.len() >= 7 && dec_be(buffer@.subrange(0, 4)) == IDENTITY as nat && dec_be(
            buffer@.subrange(4, 6),
        ) == VERSION as nat && buffer@[6] != TRANSPARENT && buffer@[6] != OPAQUE ==> (r matches Err(
            Error::EncodingKind(k),
        ) && k == buffer@[6]),
{
    let slen = buffer.len();
    if slen < 7 {
        return Err(Error::BadEncodingIdentity);
    }
    let identity = read_be(buffer, 0, 4);
    if identity != IDENTITY as u128 {
        return Err(Error::BadEncodingIdentity);
    }
    let version = read_be(buffer, 4, 2);
    proof {
        lemma_dec_be_bound(buffer@.subrange(4, 6));
        assert(pow256(2) == 65536) by {
            reveal_with_fuel(pow256, 3);
        }
    }
    if version != VERSION as u128 {
        return Err(Error::EncodingVersion(VERSION, version as u16));
    }
    let tag = buffer[6];
    if tag == TRANSPARENT {
        match decode_transparent(buffer, 7) {
            Ok((t, j)) => {
                if j == slen {
                    Ok(ResponseMessage::Transparent(t))
                } else {
                    Err(Error::Io("trailing bytes after frame".to_owned()))
                }
            },
            Err(e) => Err(e),
        }
    } else if tag == OPAQUE {
        match decode_opaque(buffer, 7) {
            Ok((o, j)) => {
                if j == slen {
                    Ok(ResponseMessage::Opaque(o))
                } else {
                    Err(Error::Io("trailing bytes after frame".to_owned()))
                }
            },
            Err(e) => Err(e),
        }
    } else {
        Err(Error::EncodingKind(tag))
    }
}

/// A sub-segment of a matched segment matches the corresponding part.
pub proof fn lemma_seg(s: Seq<u8>, i: int, seg: Seq<u8>, a: int, b: int)
    requires
        0 <= i,
        i + seg.len() <= s.len(),
        s.subrange(i, i + seg.len()) == seg,
        0 <= a <= b <= seg.len(),
    ensures
        s.subrange(i + a, i + b) == seg.subrange(a, b),
{
    assert(s.subrange(i + a, i + b) =~= seg.subrange(a, b)) by {
        assert forall|k: int| 0 <= k < b - a implies s.subrange(i + a, i + b)[k] == seg.subrange(
            a,
            b,
        )[k] by {
            assert(s.subrange(i, i + seg.len())[a + k] == seg[a + k]);
        }
    }
}

/// Reading a fixed-width number where its rendering was written yields
/// the number.
pub proof fn lemma_rd_be_enc(s: Seq<u8>, i: int, v: nat, n: nat)
    requires
        0 <= i,
        v < pow256(n),
        i + n <= s.len(),
        s.subrange(i, i + n) == enc_be(v, n),
    ensures
        rd_be_n(s, i, n as int) == Some((v, i + n)),
{
    lemma_dec_enc_be(v, n);
}

/// Reading a length-prefixed byte string where one was written yields
/// the string.
pub proof fn lemma_rd_bytes_enc(s: Seq<u8>, i: int, b: Seq<u8>)
    requires
        0 <= i,
        b.len() <= MAX_BUFFER_SIZE,
        i + enc_bytes(b).len() <= s.len(),
        s.subrange(i, i + enc_bytes(b).len()) == enc_bytes(b),
    ensures
        rd_bytes(s, i) == Some((b, i + enc_bytes(b).len())),
{
    lemma_enc_be_len(b.len() as nat, 4);
    let eb = enc_bytes(b);
    assert(eb.len() == 4 + b.len());
    lemma_seg(s, i, eb, 0, 4);
    assert(eb.subrange(0, 4) =~= enc_be(b.len() as nat, 4));
    assert(pow256(4) == 4294967296) by {
        reveal_with_fuel(pow256, 5);
    }
    lemma_rd_be_enc(s, i, b.len() as nat, 4);
    lemma_seg(s, i, eb, 4, eb.len() as int);
    assert(eb.subrange(4, eb.len() as int) =~= b);
}

/// Reading a handshake message where one was written yields the
/// message.
proof fn lemma_rd_handshake_enc(s: Seq<u8>, i: int, h: HandshakeView)
    requires
        0 <= i,
        wf_handshake(h),
        i + enc_handshake(h).len() <= s.len(),
        s.subrange(i, i + enc_handshake(h).len()) == enc_handshake(h),
    ensures
        rd_handshake(s, i) == Some((h, i + enc_handshake(h).len())),
{
    let eh = enc_handshake(h);
    lemma_enc_be_len(h.length_field(), 4);
    lemma_enc_be_len(h.buffer().len() as nat, 4);
    assert(eh.len() == 1 + 4 + 4 + h.buffer().len());
    lemma_seg(s, i, eh, 0, 1);
    assert(s.subrange(i, i + 1) =~= seq![s[i]]);
    assert(s[i] == eh[0]);
    lemma_seg(s, i, eh, 1, 5);
    assert(eh.subrange(1, 5) =~= enc_be(h.length_field(), 4));
    assert(pow256(4) == 4294967296) by {
        reveal_with_fuel(pow256, 5);
    }
    lemma_rd_be_enc(s, i + 1, h.length_field(), 4);
    lemma_seg(s, i, eh, 5, eh.len() as int);
    assert(eh.subrange(5, eh.len() as int) =~= enc_bytes(h.buffer()));
    lemma_rd_bytes_enc(s, i + 5, h.buffer());
}

/// Reading a transparent message where one was written yields the
/// message.
proof fn lemma_rd_transparent_enc(s: Seq<u8>, i: int, t: TransparentView)
    requires
        0 <= i,
        wf_transparent(t),
        i + enc_transparent(t).len() <= s.len(),
        s.subrange(i, i + enc_transparent(t).len()) == enc_transparent(t),
    ensures
        rd_transparent(s, i) == Some((t, i + enc_transparent(t).len())),
{
    let et = enc_transparent(t);
    lemma_seg(s, i, et, 0, 1);
    assert(s.subrange(i, i + 1) =~= seq![s[i]]);
    assert(s[i] == et[0]);
    match t {
        TransparentView::Noop => {},
        TransparentView::ServerHandshake(h) => {
            lemma_seg(s, i, et, 1, et.len() as int);
            assert(et.subrange(1, et.len() as int) =~= enc_handshake(h));
            lemma_rd_handshake_enc(s, i + 1, h);
        },
        TransparentView::PeerHandshake(pk, h) => {
            lemma_enc_be_len(pk.len() as nat, 4);
            let ebk = enc_bytes(pk);
            assert(et.len() == 1 + ebk.len() + enc_handshake(h).len());
            lemma_seg(s, i, et, 1, 1 + ebk.len() as int);
            assert(et.subrange(1, 1 + ebk.len() as int) =~= ebk);
            lemma_rd_bytes_enc(s, i + 1, pk);
            lemma_seg(s, i, et, 1 + ebk.len() as int, et.len() as int);
            assert(et.subrange(1 + ebk.len() as int, et.len() as int) =~= enc_handshake(h));
            lemma_rd_handshake_enc(s, i + 1 + ebk.len() as int, h);
        },
    }
}

/// Reading an envelope where one was written yields the envelope.
proof fn lemma_rd_envelope_enc(s: Seq<u8>, i: int, e: EnvelopeView)
    requires
        0 <= i,
        wf_envelope(e),
        i + enc_envelope(e).len() <= s.len(),
        s.subrange(i, i + enc_envelope(e).len()) == enc_envelope(e),
    ensures
        rd_envelope(s, i) == Some((e, i + enc_envelope(e).len())),
{
    let ee = enc_envelope(e);
    lemma_enc_be_len(e.length as nat, 4);
    lemma_enc_be_len(e.payload.len() as nat, 4);
    assert(ee.len() == 1 + 4 + 4 + e.payload.len() + 1);
    lemma_seg(s, i, ee, 0, 1);
    assert(s.subrange(i, i + 1) =~= seq![s[i]]);
    assert(ee.subrange(0, 1) =~= seq![ee[0]]);
    assert(ee[0] == encoding_tag(e.encoding)) by {
        let t0 = seq![encoding_tag(e.encoding)];
        let part1 = t0 + enc_be(e.length as nat, 4);
        let part2 = part1 + enc_bytes(e.payload);
        assert(part1[0] == t0[0]);
        assert(part2[0] == part1[0]);
        assert(ee[0] == part2[0]);
    }
    assert(s[i] == encoding_tag(e.encoding));
    lemma_seg(s, i, ee, 1, 5);
    assert(ee.subrange(1, 5) =~= enc_be(e.length as nat, 4));
    assert(pow256(4) == 4294967296) by {
        reveal_with_fuel(pow256, 5);
    }
    lemma_rd_be_enc(s, i + 1, e.length as nat, 4);
    let pb = enc_bytes(e.payload);
    lemma_seg(s, i, ee, 5, 5 + pb.len() as int);
    assert(ee.subrange(5, 5 + pb.len() as int) =~= pb);
    lemma_rd_bytes_enc(s, i + 5, e.payload);
    lemma_seg(s, i, ee, ee.len() - 1, ee.len() as int);
    assert(s.subrange(i + ee.len() - 1, i + ee.len()) =~= seq![s[i + ee.len() - 1]]);
    assert(ee.subrange(ee.len() - 1, ee.len() as int) =~= seq![ee[ee.len() - 1]]);
    assert(s[i + ee.len() - 1] == (if e.broadcast { 1u8 } else { 0u8 }));
}

/// Reading an optional session identifier where one was written yields
/// the identifier.
proof fn lemma_rd_session_id_enc(s: Seq<u8>, i: int, sid: Option<u128>)
    requires
        0 <= i,
        i + enc_session_id(sid).len() <= s.len(),
        s.subrange(i, i + enc_session_id(sid).len()) == enc_session_id(sid),
    ensures
        rd_session_id(s, i) == Some((sid, i + enc_session_id(sid).len())),
{
    let es = enc_session_id(sid);
    lemma_seg(s, i, es, 0, 1);
    assert(s.subrange(i, i + 1) =~= seq![s[i]]);
    assert(s[i] == es[0]);
    match sid {
        None => {},
        Some(id) => {
            lemma_enc_be_len(id as nat, 16);
            assert(es.len() == 17);
            lemma_seg(s, i, es, 1, 17);
            assert(es.subrange(1, 17) =~= enc_be(id as nat, 16));
            assert(pow256(16) == 0x100000000000000000000000000000000) by {
                reveal_with_fuel(pow256, 17);
            }
            lemma_rd_be_enc(s, i + 1, id as nat, 16);
        },
    }
}

/// Reading an opaque message where one was written yields the message.
proof fn lemma_rd_opaque_enc(s: Seq<u8>, i: int, o: OpaqueView)
    requires
        0 <= i,
        wf_opaque(o),
        i + enc_opaque(o).len() <= s.len(),
        s.subrange(i, i + enc_opaque(o).len()) == enc_opaque(o),
    ensures
        rd_opaque(s, i) == Some((o, i + enc_opaque(o).len())),
{
    let eo = enc_opaque(o);
    lemma_seg(s, i, eo, 0, 1);
    assert(s.subrange(i, i + 1) =~= seq![s[i]]);
    assert(s[i] == eo[0]);
    match o {
        OpaqueView::Noop => {},
        OpaqueView::ServerMessage(env) => {
            lemma_seg(s, i, eo, 1, eo.len() as int);
            assert(eo.subrange(1, eo.len() as int) =~= enc_envelope(env));
            lemma_rd_envelope_enc(s, i + 1, env);
        },
        OpaqueView::PeerMessage(pk, sid, env) => {
            lemma_enc_be_len(pk.len() as nat, 4);
            let ebk = enc_bytes(pk);
            let esid = enc_session_id(sid);
            assert(eo.len() == 1 + ebk.len() + esid.len() + enc_envelope(env).len());
            lemma_seg(s, i, eo, 1, 1 + ebk.len() as int);
            assert(eo.subrange(1, 1 + ebk.len() as int) =~= ebk);
            lemma_rd_bytes_enc(s, i + 1, pk);
            lemma_seg(s, i, eo, 1 + ebk.len() as int, 1 + ebk.len() + esid.len() as int);
            assert(eo.subrange(1 + ebk.len() as int, 1 + ebk.len() + esid.len() as int)
                =~= esid);
            lemma_rd_session_id_enc(s, i + 1 + ebk.len() as int, sid);
            lemma_seg(s, i, eo, 1 + ebk.len() + esid.len() as int, eo.len() as int);
            assert(eo.subrange(1 + ebk.len() + esid.len() as int, eo.len() as int)
                =~= enc_envelope(env));
            lemma_rd_envelope_enc(s, i + 1 + ebk.len() + esid.len() as int, env);
        },
    }
}

/// Round trip of the wire codec: decoding an encoded well-formed frame
/// yields the frame.
pub proof fn lemma_frame_round_trip(f: FrameView)
    requires
        wf_frame(f),
    ensures
        dec_frame(enc_frame(f)) == Some(f),
{
    let s = enc_frame(f);
    lemma_enc_be_len(IDENTITY as nat, 4);
    lemma_enc_be_len(VERSION as nat, 2);
    assert(s.subrange(0, 4) =~= enc_be(IDENTITY as nat, 4));
    assert(s.subrange(4, 6) =~= enc_be(VERSION as nat, 2));
    assert(pow256(4) == 4294967296) by {
        reveal_with_fuel(pow256, 5);
    }
    assert(pow256(2) == 65536) by {
        reveal_with_fuel(pow256, 3);
    }
    lemma_dec_enc_be(IDENTITY as nat, 4);
    lemma_dec_enc_be(VERSION as nat, 2);
    match f {
        FrameView::Noop => {},
        FrameView::Transparent(t) => {
            let body = seq![TRANSPARENT] + enc_transparent(t);
            assert(s.len() == 6 + body.len());
            assert(s[6] == TRANSPARENT);
            assert(s.subrange(7, s.len() as int) =~= enc_transparent(t));
            lemma_rd_transparent_enc(s, 7, t);
        },
        FrameView::Opaque(o) => {
            let body = seq![OPAQUE] + enc_opaque(o);
            assert(s.len() == 6 + body.len());
            assert(s[6] == OPAQUE);
            assert(s.subrange(7, s.len() as int) =~= enc_opaque(o));
            lemma_rd_opaque_enc(s, 7, o);
        },
    }
}

} // verus!
