//! The server-channel payload codec.
//!
//! Server messages travel encrypted inside sealed envelopes on the
//! server channel. Their payload encoding is one kind byte followed by
//! a kind-specific body; lists of keys are a four-byte count followed
//! by length-prefixed byte strings. The reserved default message is
//! never serialized.
use vstd::prelude::*;

use crate::codec::{
    dec_be, decode_bytes, enc_be, enc_bytes, lemma_dec_be_bound, lemma_enc_be_len, pow256,
    rd_be_n, rd_bytes, read_be, write_be, write_bytes, MAX_BUFFER_SIZE,
};
use crate::error::Error;
use crate::message::{
    ServerMessage, ERROR, SESSION_ACTIVE, SESSION_ACTIVE_NOTIFY, SESSION_CLOSE,
    SESSION_CONNECTION, SESSION_CREATED, SESSION_FINISHED, SESSION_NEW, SESSION_READY,
    SESSION_READY_NOTIFY,
};
use crate::session::{SessionId, SessionRequest, SessionState};

verus! {

/// Mathematical view of a session state.
pub struct SessionStateView {
    /// Session identifier.
    pub session_id: u128,
    /// Public keys of all participants.
    pub all_participants: Seq<Seq<u8>>,
}

impl View for SessionState {
    type V = SessionStateView;

    open spec fn view(&self) -> SessionStateView {
        SessionStateView {
            session_id: self.session_id.0,
            all_participants: crate::util::keys_view(self.all_participants@),
        }
    }
}

/// Mathematical view of a server message. Text is modelled by its
/// UTF-8 bytes.
pub enum ServerMsgView {
    /// Reserved default value.
    Noop,
    /// An error reply: status code and text bytes.
    Error(u16, Seq<u8>),
    /// Request a new session with these participants.
    NewSession(Seq<Seq<u8>>),
    /// A member announces it is ready.
    SessionReadyNotify(u128),
    /// A member registers a peer connection.
    SessionConnection(u128, Seq<u8>),
    /// A member asks to be told when the session is active.
    SessionActiveNotify(u128),
    /// Reply to a new-session request.
    SessionCreated(SessionStateView),
    /// All members are ready.
    SessionReady(SessionStateView),
    /// All pairwise connections are established.
    SessionActive(SessionStateView),
    /// The owner closes the session.
    CloseSession(u128),
    /// The session was removed.
    SessionFinished(u128),
}

impl View for ServerMessage {
    type V = ServerMsgView;

    open spec fn view(&self) -> ServerMsgView {
        match self {
            ServerMessage::Noop => ServerMsgView::Noop,
            ServerMessage::Error(code, text) => ServerMsgView::Error(*code, vstd::utf8::encode_utf8(text@)),
            ServerMessage::NewSession(req) => ServerMsgView::NewSession(
                crate::util::keys_view(req.participant_keys@),
            ),
            ServerMessage::SessionReadyNotify(id) => ServerMsgView::SessionReadyNotify(id.0),
            ServerMessage::SessionConnection { session_id, peer_key } => (
            ServerMsgView::SessionConnection(session_id.0, peer_key@)),
            ServerMessage::SessionActiveNotify(id) => ServerMsgView::SessionActiveNotify(id.0),
            ServerMessage::SessionCreated(state) => ServerMsgView::SessionCreated(state@),
            ServerMessage::SessionReady(state) => ServerMsgView::SessionReady(state@),
            ServerMessage::SessionActive(state) => ServerMsgView::SessionActive(state@),
            ServerMessage::CloseSession(id) => ServerMsgView::CloseSession(id.0),
            ServerMessage::SessionFinished(id) => ServerMsgView::SessionFinished(id.0),
        }
    }
}

/// A key list fits on the wire: a bounded count of bounded keys.
pub open spec fn wf_list(l: Seq<Seq<u8>>) -> bool {
    &&& l.len() <= MAX_BUFFER_SIZE
    &&& (forall|j: int| 0 <= j < l.len() ==> (#[trigger] l[j]).len() <= MAX_BUFFER_SIZE)
}

/// A server message fits on the wire.
pub open spec fn wf_server(m: ServerMsgView) -> bool {
    match m {
        ServerMsgView::Noop => false,
        ServerMsgView::Error(_, text) => text.len() <= MAX_BUFFER_SIZE,
        ServerMsgView::NewSession(l) => wf_list(l),
        ServerMsgView::SessionReadyNotify(_) => true,
        ServerMsgView::SessionConnection(_, pk) => pk.len() <= MAX_BUFFER_SIZE,
        ServerMsgView::SessionActiveNotify(_) => true,
        ServerMsgView::SessionCreated(st) => wf_list(st.all_participants),
        ServerMsgView::SessionReady(st) => wf_list(st.all_participants),
        ServerMsgView::SessionActive(st) => wf_list(st.all_participants),
        ServerMsgView::CloseSession(_) => true,
        ServerMsgView::SessionFinished(_) => true,
    }
}

/// Wire rendering of the items of a key list, in order.
pub open spec fn enc_items(l: Seq<Seq<u8>>) -> Seq<u8>
    decreases l.len(),
{
    if l.len() == 0 {
        Seq::empty()
    } else {
        enc_bytes(l.first()) + enc_items(l.drop_first())
    }
}

/// Wire rendering of a key list: the count, then the items.
pub open spec fn enc_list(l: Seq<Seq<u8>>) -> Seq<u8> {
    enc_be(l.len() as nat, 4) + enc_items(l)
}

/// Wire rendering of a session state: identifier, then participants.
pub open spec fn enc_state(st: SessionStateView) -> Seq<u8> {
    enc_be(st.session_id as nat, 16) + enc_list(st.all_participants)
}

/// Wire rendering of a server message: the kind byte, then the body.
pub open spec fn enc_server(m: ServerMsgView) -> Seq<u8> {
    match m {
        ServerMsgView::Noop => Seq::empty(),
        ServerMsgView::Error(code, text) => seq![ERROR] + enc_be(code as nat, 2) + enc_bytes(text),
        ServerMsgView::NewSession(l) => seq![SESSION_NEW] + enc_list(l),
        ServerMsgView::SessionReadyNotify(id) => seq![SESSION_READY_NOTIFY] + enc_be(
            id as nat,
            16,
        ),
        ServerMsgView::SessionConnection(id, pk) => seq![SESSION_CONNECTION] + enc_be(
            id as nat,
            16,
        ) + enc_bytes(pk),
        ServerMsgView::SessionActiveNotify(id) => seq![SESSION_ACTIVE_NOTIFY] + enc_be(
            id as nat,
            16,
        ),
        ServerMsgView::SessionCreated(st) => seq![SESSION_CREATED] + enc_state(st),
        ServerMsgView::SessionReady(st) => seq![SESSION_READY] + enc_state(st),
        ServerMsgView::SessionActive(st) => seq![SESSION_ACTIVE] + enc_state(st),
        ServerMsgView::CloseSession(id) => seq![SESSION_CLOSE] + enc_be(id as nat, 16),
        ServerMsgView::SessionFinished(id) => seq![SESSION_FINISHED] + enc_be(id as nat, 16),
    }
}

/// Read a fixed count of length-prefixed byte strings at an offset.
pub open spec fn rd_items(s: Seq<u8>, i: int, count: int) -> Option<(Seq<Seq<u8>>, int)>
    decreases count,
{
    if count <= 0 {
        Some((Seq::empty(), i))
    } else {
        match rd_bytes(s, i) {
            None => None,
            Some((b, j)) => match rd_items(s, j, count - 1) {
                None => None,
                Some((rest, k)) => Some((seq![b] + rest, k)),
            },
        }
    }
}

/// Read a key list at an offset: the count, then the items.
pub open spec fn rd_list(s: Seq<u8>, i: int) -> Option<(Seq<Seq<u8>>, int)> {
    match rd_be_n(s, i, 4) {
        None => None,
        Some((count, j)) => if count <= MAX_BUFFER_SIZE {
            rd_items(s, j, count as int)
        } else {
            None
        },
    }
}

/// Read a session state at an offset.
pub open spec fn rd_state(s: Seq<u8>, i: int) -> Option<(SessionStateView, int)> {
    match rd_be_n(s, i, 16) {
        None => None,
        Some((id, j)) => match rd_list(s, j) {
            None => None,
            Some((l, k)) => Some((SessionStateView { session_id: id as u128, all_participants: l }, k)),
        },
    }
}

/// Read a whole server-message payload; the body must consume the
/// whole input.
pub open spec fn dec_server(s: Seq<u8>) -> Option<ServerMsgView> {
    if s.len() < 1 {
        None
    } else {
        let tag = s[0];
        if tag == ERROR {
            match rd_be_n(s, 1, 2) {
                None => None,
                Some((code, j)) => match rd_bytes(s, j) {
                    None => None,
                    Some((text, k)) => if k == s.len() {
                        Some(ServerMsgView::Error(code as u16, text))
                    } else {
                        None
                    },
                },
            }
        } else if tag == SESSION_NEW {
            match rd_list(s, 1) {
                None => None,
                Some((l, k)) => if k == s.len() {
                    Some(ServerMsgView::NewSession(l))
                } else {
                    None
                },
            }
        } else if tag == SESSION_READY_NOTIFY || tag == SESSION_ACTIVE_NOTIFY || tag
            == SESSION_CLOSE || tag == SESSION_FINISHED {
            match rd_be_n(s, 1, 16) {
                None => None,
                Some((id, k)) => if k == s.len() {
                    if tag == SESSION_READY_NOTIFY {
                        Some(ServerMsgView::SessionReadyNotify(id as u128))
                    } else if tag == SESSION_ACTIVE_NOTIFY {
                        Some(ServerMsgView::SessionActiveNotify(id as u128))
                    } else if tag == SESSION_CLOSE {
                        Some(ServerMsgView::CloseSession(id as u128))
                    } else {
                        Some(ServerMsgView::SessionFinished(id as u128))
                    }
                } else {
                    None
                },
            }
        } else if tag == SESSION_CONNECTION {
            match rd_be_n(s, 1, 16) {
                None => None,
                Some((id, j)) => match rd_bytes(s, j) {
                    None => None,
                    Some((pk, k)) => if k == s.len() {
                        Some(ServerMsgView::SessionConnection(id as u128, pk))
                    } else {
                        None
                    },
                },
            }
        } else if tag == SESSION_CREATED || tag == SESSION_READY || tag == SESSION_ACTIVE {
            match rd_state(s, 1) {
                None => None,
                Some((st, k)) => if k == s.len() {
                    if tag == SESSION_CREATED {
                        Some(ServerMsgView::SessionCreated(st))
                    } else if tag == SESSION_READY {
                        Some(ServerMsgView::SessionReady(st))
                    } else {
                        Some(ServerMsgView::SessionActive(st))
                    }
                } else {
                    None
                },
            }
        } else {
            None
        }
    }
}

/// Append the wire rendering of a key list.
fn encode_list_into(out: &mut Vec<u8>, l: &Vec<Vec<u8>>) -> (r: Result<(), Error>)
    ensures
        r is Ok <==> wf_list(crate::util::keys_view(l@)),
        r is Ok ==> final(out)@ == old(out)@ + enc_list(crate::util::keys_view(l@)),
{
    let ghost lv = crate::util::keys_view(l@);
    if l.len() > MAX_BUFFER_SIZE as usize {
        return Err(Error::MaxBufferSize(l.len()));
    }
    let mut i: usize = 0;
    while i < l.len()
        invariant
            i <= l@.len(),
            lv == crate::util::keys_view(l@),
            forall|j: int| 0 <= j < i ==> (#[trigger] lv[j]).len() <= MAX_BUFFER_SIZE,
        decreases l@.len() - i,
    {
        proof {
            assert(lv[i as int] == l@[i as int]@);
        }
        if l[i].len() > MAX_BUFFER_SIZE as usize {
            proof {
                assert(lv[i as int].len() > MAX_BUFFER_SIZE);
            }
            return Err(Error::MaxBufferSize(l[i].len()));
        }
        i += 1;
    }
    let ghost pre = out@;
    write_be(out, l.len() as u128, 4);
    let mut i: usize = 0;
    while i < l.len()
        invariant
            i <= l@.len(),
            lv == crate::util::keys_view(l@),
            forall|j: int| 0 <= j < lv.len() ==> (#[trigger] lv[j]).len() <= MAX_BUFFER_SIZE,
            out@ == pre + enc_be(lv.len() as nat, 4) + enc_items(lv.take(i as int)),
        decreases l@.len() - i,
    {
        proof {
            assert(lv[i as int] == l@[i as int]@);
        }
        write_bytes(out, l[i].as_slice());
        proof {
            lemma_enc_items_snoc(lv, i as int);
            assert(out@ =~= pre + enc_be(lv.len() as nat, 4) + enc_items(lv.take(i + 1)));
        }
        i += 1;
    }
    proof {
        assert(lv.take(lv.len() as int) =~= lv);
        assert(out@ =~= pre + enc_list(lv));
    }
    Ok(())
}

/// The items of one more list element extend the rendering by that
/// element's rendering.
proof fn lemma_enc_items_snoc(l: Seq<Seq<u8>>, k: int)
    requires
        0 <= k < l.len(),
    ensures
        enc_items(l.take(k + 1)) == enc_items(l.take(k)) + enc_bytes(l[k]),
    decreases k,
{
    if k == 0 {
        let t1 = l.take(1);
        assert(t1.len() == 1 && t1.first() == l[0]);
        assert(t1.drop_first() =~= Seq::<Seq<u8>>::empty());
        assert(enc_items(t1.drop_first()) =~= Seq::<u8>::empty());
        assert(l.take(0) =~= Seq::<Seq<u8>>::empty());
        assert(enc_items(l.take(0)) =~= Seq::<u8>::empty());
        assert(enc_items(t1) == enc_bytes(l[0]) + enc_items(t1.drop_first()));
        assert(enc_items(t1) =~= enc_items(l.take(0)) + enc_bytes(l[0]));
    } else {
        let df = l.drop_first();
        lemma_enc_items_snoc(df, k - 1);
        let tk1 = l.take(k + 1);
        let tk = l.take(k);
        assert(tk1.len() == k + 1 && tk1.first() == l[0]);
        assert(tk.len() == k && tk.first() == l[0]);
        assert(tk1.drop_first() =~= df.take(k));
        assert(tk.drop_first() =~= df.take(k - 1));
        assert(df[k - 1] == l[k]);
        assert(enc_items(tk1) == enc_bytes(l[0]) + enc_items(tk1.drop_first()));
        assert(enc_items(tk) == enc_bytes(l[0]) + enc_items(tk.drop_first()));
        assert(enc_items(df.take(k)) == enc_items(df.take(k - 1)) + enc_bytes(df[k - 1]));
        assert(enc_items(tk1) =~= enc_items(tk) + enc_bytes(l[k]));
    }
}

/// Reading a fixed count of length-prefixed byte strings where a list
/// was written yields the list items.
proof fn lemma_rd_items_enc(s: Seq<u8>, i: int, l: Seq<Seq<u8>>)
    requires
        0 <= i,
        forall|j: int| 0 <= j < l.len() ==> (#[trigger] l[j]).len() <= MAX_BUFFER_SIZE,
        i + enc_items(l).len() <= s.len(),
        s.subrange(i, i + enc_items(l).len()) == enc_items(l),
    ensures
        rd_items(s, i, l.len() as int) == Some((l, i + enc_items(l).len())),
    decreases l.len(),
{
    if l.len() == 0 {
        assert(l =~= Seq::<Seq<u8>>::empty());
    } else {
        let head = l.first();
        let eb = enc_bytes(head);
        lemma_enc_be_len(head.len() as nat, 4);
        assert(enc_items(l) == eb + enc_items(l.drop_first()));
        crate::codec::lemma_seg(s, i, enc_items(l), 0, eb.len() as int);
        assert(enc_items(l).subrange(0, eb.len() as int) =~= eb);
        crate::codec::lemma_rd_bytes_enc(s, i, head);
        crate::codec::lemma_seg(
            s,
            i,
            enc_items(l),
            eb.len() as int,
            enc_items(l).len() as int,
        );
        assert(enc_items(l).subrange(eb.len() as int, enc_items(l).len() as int) =~= enc_items(
            l.drop_first(),
        ));
        lemma_rd_items_enc(s, i + eb.len(), l.drop_first());
        assert(seq![head] + l.drop_first() =~= l);
    }
}

/// The continuation relation of reading list items: what remains to be
/// read, together with what was already read, determines the whole
/// reading.
pub open spec fn items_continuation(
    s: Seq<u8>,
    start: int,
    total: int,
    done: Seq<Seq<u8>>,
    cur: int,
    remaining: int,
) -> bool {
    match rd_items(s, cur, remaining) {
        Some((rest, end)) => rd_items(s, start, total) == Some::<(Seq<Seq<u8>>, int)>(
            (done + rest, end),
        ),
        None => rd_items(s, start, total) is None,
    }
}

/// Read a key list at an offset, mirroring the specification reader.
fn decode_list(s: &[u8], i: usize) -> (r: Result<(Vec<Vec<u8>>, usize), Error>)
    ensures
        r matches Ok((v, j)) ==> rd_list(s@, i as int) == Some(
            (crate::util::keys_view(v@), j as int),
        ) && i <= j <= s@.len(),
        r is Err ==> rd_list(s@, i as int) is None,
{
    let slen = s.len();
    if i > slen || slen - i < 4 {
        return Err(Error::Io("unexpected end of frame".to_owned()));
    }
    let count128 = read_be(s, i, 4);
    proof {
        lemma_dec_be_bound(s@.subrange(i as int, i + 4));
        assert(pow256(4) == 4294967296) by {
            reveal_with_fuel(pow256, 5);
        }
    }
    if count128 > MAX_BUFFER_SIZE as u128 {
        return Err(Error::MaxBufferSize(count128 as usize));
    }
    let count = count128 as usize;
    let start = i + 4;
    proof {
        assert(rd_be_n(s@, i as int, 4) == Some((count128 as nat, i + 4 as int)));
        assert(rd_list(s@, i as int) == rd_items(s@, start as int, count as int));
    }
    let mut out: Vec<Vec<u8>> = Vec::new();
    let mut cur = start;
    let mut k: usize = 0;
    proof {
        let done = crate::util::keys_view(out@);
        assert(done =~= Seq::<Seq<u8>>::empty());
        if let Some((rest, end)) = rd_items(s@, start as int, count as int) {
            assert(done + rest =~= rest);
        }
    }
    while k < count
        invariant
            k <= count,
            i + 4 == start <= cur <= s@.len(),
            rd_list(s@, i as int) == rd_items(s@, start as int, count as int),
            items_continuation(
                s@,
                start as int,
                count as int,
                crate::util::keys_view(out@),
                cur as int,
                (count - k) as int,
            ),
        decreases count - k,
    {
        let ghost done = crate::util::keys_view(out@);
        let (b, j2) = match decode_bytes(s, cur) {
            Ok(pair) => pair,
            Err(e) => {
                proof {
                    assert(rd_items(s@, cur as int, (count - k) as int) is None);
                }
                return Err(e);
            },
        };
        proof {
            assert(rd_bytes(s@, cur as int) == Some((b@, j2 as int)));
            let done2 = done.push(b@);
            if let Some((rest2, end)) = rd_items(s@, j2 as int, (count - k - 1) as int) {
                assert(rd_items(s@, cur as int, (count - k) as int) == Some::<
                    (Seq<Seq<u8>>, int),
                >((seq![b@] + rest2, end)));
                assert(done + (seq![b@] + rest2) =~= done2 + rest2);
            } else {
                assert(rd_items(s@, cur as int, (count - k) as int) is None);
            }
        }
        out.push(b);
        proof {
            assert(crate::util::keys_view(out@) =~= done.push(b@));
        }
        cur = j2;
        k += 1;
    }
    proof {
        assert(rd_items(s@, cur as int, 0) == Some::<(Seq<Seq<u8>>, int)>(
            (Seq::empty(), cur as int),
        ));
        let done = crate::util::keys_view(out@);
        assert(done + Seq::<Seq<u8>>::empty() =~= done);
    }
    Ok((out, cur))
}

/// Read a session state at an offset, mirroring the specification
/// reader.
fn decode_state(s: &[u8], i: usize) -> (r: Result<(SessionState, usize), Error>)
    ensures
        r matches Ok((st, j)) ==> rd_state(s@, i as int) == Some((st@, j as int)) && i <= j
            <= s@.len(),
        r is Err ==> rd_state(s@, i as int) is None,
{
    let slen = s.len();
    if i > slen || slen - i < 16 {
        return Err(Error::Io("unexpected end of frame".to_owned()));
    }
    let id = read_be(s, i, 16);
    let (participants, j) = match decode_list(s, i + 16) {
        Ok(pair) => pair,
        Err(e) => {
            return Err(e);
        },
    };
    Ok((SessionState { session_id: SessionId(id), all_participants: participants }, j))
}

/// Encode a server-channel payload: the kind byte, then the body. The
/// reserved default message and oversize lists are refused.
pub fn encode_server(message: &ServerMessage) -> (r: Result<Vec<u8>, Error>)
    ensures
        r is Ok <==> wf_server(message@),
        r matches Ok(v) ==> v@ == enc_server(message@),
{
    let mut out: Vec<u8> = Vec::new();
    match message {
        ServerMessage::Noop => Err(Error::EncodingKind(0)),
        ServerMessage::Error(code, text) => {
            let text_bytes = text.as_str().as_bytes();
            if text_bytes.len() > MAX_BUFFER_SIZE as usize {
                return Err(Error::MaxBufferSize(text_bytes.len()));
            }
            out.push(ERROR);
            write_be(&mut out, *code as u128, 2);
            write_bytes(&mut out, text_bytes);
            proof {
                assert(out@ =~= enc_server(message@));
            }
            Ok(out)
        },
        ServerMessage::NewSession(req) => {
            out.push(SESSION_NEW);
            match encode_list_into(&mut out, &req.participant_keys) {
                Ok(()) => {
                    proof {
                        assert(out@ =~= enc_server(message@));
                    }
                    Ok(out)
                },
                Err(e) => Err(e),
            }
        },
        ServerMessage::SessionReadyNotify(id) => {
            out.push(SESSION_READY_NOTIFY);
            write_be(&mut out, id.0, 16);
            proof {
                assert(out@ =~= enc_server(message@));
            }
            Ok(out)
        },
        ServerMessage::SessionConnection { session_id, peer_key } => {
            if peer_key.len() > MAX_BUFFER_SIZE as usize {
                return Err(Error::MaxBufferSize(peer_key.len()));
            }
            out.push(SESSION_CONNECTION);
            write_be(&mut out, session_id.0, 16);
            write_bytes(&mut out, peer_key.as_slice());
            proof {
                assert(out@ =~= enc_server(message@));
            }
            Ok(out)
        },
        ServerMessage::SessionActiveNotify(id) => {
            out.push(SESSION_ACTIVE_NOTIFY);
            write_be(&mut out, id.0, 16);
            proof {
                assert(out@ =~= enc_server(message@));
            }
            Ok(out)
        },
        ServerMessage::SessionCreated(state) => {
            out.push(SESSION_CREATED);
            write_be(&mut out, state.session_id.0, 16);
            match encode_list_into(&mut out, &state.all_participants) {
                Ok(()) => {
                    proof {
                        assert(out@ =~= enc_server(message@));
                    }
                    Ok(out)
                },
                Err(e) => Err(e),
            }
        },
        ServerMessage::SessionReady(state) => {
            out.push(SESSION_READY);
            write_be(&mut out, state.session_id.0, 16);
            match encode_list_into(&mut out, &state.all_participants) {
                Ok(()) => {
                    proof {
                        assert(out@ =~= enc_server(message@));
                    }
                    Ok(out)
                },
                Err(e) => Err(e),
            }
        },
        ServerMessage::SessionActive(state) => {
            out.push(SESSION_ACTIVE);
            write_be(&mut out, state.session_id.0, 16);
            match encode_list_into(&mut out, &state.all_participants) {
                Ok(()) => {
                    proof {
                        assert(out@ =~= enc_server(message@));
                    }
                    Ok(out)
                },
                Err(e) => Err(e),
            }
        },
        ServerMessage::CloseSession(id) => {
            out.push(SESSION_CLOSE);
            write_be(&mut out, id.0, 16);
            proof {
                assert(out@ =~= enc_server(message@));
            }
            Ok(out)
        },
        ServerMessage::SessionFinished(id) => {
            out.push(SESSION_FINISHED);
            write_be(&mut out, id.0, 16);
            proof {
                assert(out@ =~= enc_server(message@));
            }
            Ok(out)
        },
    }
}

/// Decode a server-channel payload. Text arrives as raw bytes and is
/// restored through UTF-8; the body must consume the whole buffer.
pub fn decode_server(buffer: &[u8]) -> (r: Result<ServerMessage, Error>)
    ensures
        r matches Ok(m) ==> dec_server(buffer@) == Some(m@),
        r is Err ==> dec_server(buffer@) is None || dec_server(buffer@) matches Some(
            ServerMsgView::Error(_, _),
        ),
{
    let slen = buffer.len();
    if slen < 1 {
        return Err(Error::EncodingKind(0));
    }
    let tag = buffer[0];
    if tag == ERROR {
        if slen - 1 < 2 {
            return Err(Error::Io("unexpected end of frame".to_owned()));
        }
        let code = read_be(buffer, 1, 2);
        proof {
            lemma_dec_be_bound(buffer@.subrange(1, 3));
            assert(pow256(2) == 65536) by {
                reveal_with_fuel(pow256, 3);
            }
        }
        let (text_bytes, j) = match decode_bytes(buffer, 3) {
            Ok(pair) => pair,
            Err(e) => {
                return Err(e);
            },
        };
        if j != slen {
            return Err(Error::Io("trailing bytes after frame".to_owned()));
        }
        let text = match string_from_utf8(text_bytes) {
            Ok(t) => t,
            Err(e) => {
                return Err(e);
            },
        };
        Ok(ServerMessage::Error(code as u16, text))
    } else if tag == SESSION_NEW {
        let (participants, j) = match decode_list(buffer, 1) {
            Ok(pair) => pair,
            Err(e) => {
                return Err(e);
            },
        };
        if j != slen {
            return Err(Error::Io("trailing bytes after frame".to_owned()));
        }
        Ok(ServerMessage::NewSession(SessionRequest { participant_keys: participants }))
    } else if tag == SESSION_READY_NOTIFY || tag == SESSION_ACTIVE_NOTIFY || tag == SESSION_CLOSE
        || tag == SESSION_FINISHED {
        if slen - 1 < 16 {
            return Err(Error::Io("unexpected end of frame".to_owned()));
        }
        if slen != 17 {
            return Err(Error::Io("trailing bytes after frame".to_owned()));
        }
        let id = SessionId(read_be(buffer, 1, 16));
        if tag == SESSION_READY_NOTIFY {
            Ok(ServerMessage::SessionReadyNotify(id))
        } else if tag == SESSION_ACTIVE_NOTIFY {
            Ok(ServerMessage::SessionActiveNotify(id))
        } else if tag == SESSION_CLOSE {
            Ok(ServerMessage::CloseSession(id))
        } else {
            Ok(ServerMessage::SessionFinished(id))
        }
    } else if tag == SESSION_CONNECTION {
        if slen - 1 < 16 {
            return Err(Error::Io("unexpected end of frame".to_owned()));
        }
        let id = SessionId(read_be(buffer, 1, 16));
        let (peer_key, j) = match decode_bytes(buffer, 17) {
            Ok(pair) => pair,
            Err(e) => {
                return Err(e);
            },
        };
        if j != slen {
            return Err(Error::Io("trailing bytes after frame".to_owned()));
        }
        Ok(ServerMessage::SessionConnection { session_id: id, peer_key })
    } else if tag == SESSION_CREATED || tag == SESSION_READY || tag == SESSION_ACTIVE {
        let (state, j) = match decode_state(buffer, 1) {
            Ok(pair) => pair,
            Err(e) => {
                return Err(e);
            },
        };
        if j != slen {
            return Err(Error::Io("trailing bytes after frame".to_owned()));
        }
        if tag == SESSION_CREATED {
            Ok(ServerMessage::SessionCreated(state))
        } else if tag == SESSION_READY {
            Ok(ServerMessage::SessionReady(state))
        } else {
            Ok(ServerMessage::SessionActive(state))
        }
    } else {
        Err(Error::EncodingKind(tag))
    }
}

/// Relies on String::from_utf8: a string carrying exactly the given
/// bytes, when they are valid UTF-8.
#[verifier::external_body]
fn string_from_utf8(bytes: Vec<u8>) -> (r: Result<String, Error>)
    ensures
        r matches Ok(t) ==> vstd::utf8::encode_utf8(t@) == bytes@,
{
    String::from_utf8(bytes).map_err(|e| Error::Io(e.to_string()))
}

/// Reading a key list where one was written yields the list.
proof fn lemma_rd_list_enc(s: Seq<u8>, i: int, l: Seq<Seq<u8>>)
    requires
        0 <= i,
        wf_list(l),
        i + enc_list(l).len() <= s.len(),
        s.subrange(i, i + enc_list(l).len()) == enc_list(l),
    ensures
        rd_list(s, i) == Some((l, i + enc_list(l).len())),
{
    let el = enc_list(l);
    lemma_enc_be_len(l.len() as nat, 4);
    crate::codec::lemma_seg(s, i, el, 0, 4);
    assert(el.subrange(0, 4) =~= enc_be(l.len() as nat, 4));
    assert(pow256(4) == 4294967296) by {
        reveal_with_fuel(pow256, 5);
    }
    crate::codec::lemma_rd_be_enc(s, i, l.len() as nat, 4);
    crate::codec::lemma_seg(s, i, el, 4, el.len() as int);
    assert(el.subrange(4, el.len() as int) =~= enc_items(l));
    lemma_rd_items_enc(s, i + 4, l);
}

/// Reading a session state where one was written yields the state.
proof fn lemma_rd_state_enc(s: Seq<u8>, i: int, st: SessionStateView)
    requires
        0 <= i,
        wf_list(st.all_participants),
        i + enc_state(st).len() <= s.len(),
        s.subrange(i, i + enc_state(st).len()) == enc_state(st),
    ensures
        rd_state(s, i) == Some((st, i + enc_state(st).len())),
{
    let es = enc_state(st);
    lemma_enc_be_len(st.session_id as nat, 16);
    crate::codec::lemma_seg(s, i, es, 0, 16);
    assert(es.subrange(0, 16) =~= enc_be(st.session_id as nat, 16));
    assert(pow256(16) == 0x100000000000000000000000000000000) by {
        reveal_with_fuel(pow256, 17);
    }
    crate::codec::lemma_rd_be_enc(s, i, st.session_id as nat, 16);
    crate::codec::lemma_seg(s, i, es, 16, es.len() as int);
    assert(es.subrange(16, es.len() as int) =~= enc_list(st.all_participants));
    lemma_rd_list_enc(s, i + 16, st.all_participants);
}

/// Round trip of the server-channel payload codec: decoding an encoded
/// well-formed server message yields the message.
pub proof fn lemma_server_round_trip(m: ServerMsgView)
    requires
        wf_server(m),
    ensures
        dec_server(enc_server(m)) == Some(m),
{
    let s = enc_server(m);
    assert(s.subrange(0, 1) =~= seq![s[0]]);
    match m {
        ServerMsgView::Noop => {},
        ServerMsgView::Error(code, text) => {
            lemma_enc_be_len(code as nat, 2);
            lemma_enc_be_len(text.len() as nat, 4);
            assert(s[0] == ERROR) by {
                let p1 = seq![ERROR] + enc_be(code as nat, 2);
                assert(p1[0] == ERROR);
                assert(s[0] == p1[0]);
            }
            assert(s.subrange(0, s.len() as int) =~= s);
            crate::codec::lemma_seg(s, 0, s, 1, 3);
            assert(s.subrange(1, 3) =~= enc_be(code as nat, 2));
            assert(pow256(2) == 65536) by {
                reveal_with_fuel(pow256, 3);
            }
            crate::codec::lemma_rd_be_enc(s, 1, code as nat, 2);
            crate::codec::lemma_seg(s, 0, s, 3, s.len() as int);
            assert(s.subrange(3, s.len() as int) =~= enc_bytes(text));
            crate::codec::lemma_rd_bytes_enc(s, 3, text);
        },
        ServerMsgView::NewSession(l) => {
            assert(s[0] == SESSION_NEW) by {
                let p1 = seq![SESSION_NEW] + enc_list(l);
                assert(p1[0] == SESSION_NEW);
                assert(s[0] == p1[0]);
            }
            assert(s.subrange(0, s.len() as int) =~= s);
            crate::codec::lemma_seg(s, 0, s, 1, s.len() as int);
            assert(s.subrange(1, s.len() as int) =~= enc_list(l));
            lemma_rd_list_enc(s, 1, l);
        },
        ServerMsgView::SessionReadyNotify(id) => {
            lemma_id_only_round_trip(s, SESSION_READY_NOTIFY, id);
        },
        ServerMsgView::SessionConnection(id, pk) => {
            lemma_enc_be_len(id as nat, 16);
            lemma_enc_be_len(pk.len() as nat, 4);
            assert(s[0] == SESSION_CONNECTION) by {
                let p1 = seq![SESSION_CONNECTION] + enc_be(id as nat, 16);
                assert(p1[0] == SESSION_CONNECTION);
                assert(s[0] == p1[0]);
            }
            assert(s.subrange(0, s.len() as int) =~= s);
            crate::codec::lemma_seg(s, 0, s, 1, 17);
            assert(s.subrange(1, 17) =~= enc_be(id as nat, 16));
            assert(pow256(16) == 0x100000000000000000000000000000000) by {
                reveal_with_fuel(pow256, 17);
            }
            crate::codec::lemma_rd_be_enc(s, 1, id as nat, 16);
            crate::codec::lemma_seg(s, 0, s, 17, s.len() as int);
            assert(s.subrange(17, s.len() as int) =~= enc_bytes(pk));
            crate::codec::lemma_rd_bytes_enc(s, 17, pk);
        },
        ServerMsgView::SessionActiveNotify(id) => {
            lemma_id_only_round_trip(s, SESSION_ACTIVE_NOTIFY, id);
        },
        ServerMsgView::SessionCreated(st) => {
            lemma_state_round_trip(s, SESSION_CREATED, st);
        },
        ServerMsgView::SessionReady(st) => {
            lemma_state_round_trip(s, SESSION_READY, st);
        },
        ServerMsgView::SessionActive(st) => {
            lemma_state_round_trip(s, SESSION_ACTIVE, st);
        },
        ServerMsgView::CloseSession(id) => {
            lemma_id_only_round_trip(s, SESSION_CLOSE, id);
        },
        ServerMsgView::SessionFinished(id) => {
            lemma_id_only_round_trip(s, SESSION_FINISHED, id);
        },
    }
}

/// Round trip of a payload holding the kind byte and one session
/// identifier.
proof fn lemma_id_only_round_trip(s: Seq<u8>, tag: u8, id: u128)
    requires
        s == seq![tag] + enc_be(id as nat, 16),
    ensures
        s.len() == 17,
        s[0] == tag,
        dec_be(s.subrange(1, 17)) == id as nat,
{
    lemma_enc_be_len(id as nat, 16);
    assert(s[0] == tag) by {
        assert((seq![tag] + enc_be(id as nat, 16))[0] == tag);
    }
    assert(s.subrange(1, 17) =~= enc_be(id as nat, 16));
    assert(pow256(16) == 0x100000000000000000000000000000000) by {
        reveal_with_fuel(pow256, 17);
    }
    crate::codec::lemma_dec_enc_be(id as nat, 16);
}

/// Round trip of a payload holding the kind byte and one session
/// state.
proof fn lemma_state_round_trip(s: Seq<u8>, tag: u8, st: SessionStateView)
    requires
        wf_list(st.all_participants),
        s == seq![tag] + enc_state(st),
    ensures
        s.len() == 1 + enc_state(st).len(),
        s[0] == tag,
        rd_state(s, 1) == Some((st, s.len() as int)),
{
    assert(s[0] == tag) by {
        assert((seq![tag] + enc_state(st))[0] == tag);
    }
    assert(s.subrange(0, s.len() as int) =~= s);
    crate::codec::lemma_seg(s, 0, s, 1, s.len() as int);
    assert(s.subrange(1, s.len() as int) =~= enc_state(st));
    lemma_rd_state_enc(s, 1, st);
}

} // verus!
