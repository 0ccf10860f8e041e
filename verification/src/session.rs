//! Sessions: the server-side rendezvous of an MPC committee.
//!
//! A session groups an owner with a set of participants. Members
//! establish pairwise encrypted channels; the session becomes active
//! once every pair is connected. The server reaps sessions that have
//! not been touched within a time-to-live window.
use vstd::prelude::*;

use crate::util::{bytes_eq, keys_view};

verus! {

/// Identifier for sessions: the 128 bits of a version-4 UUID.
#[derive(Clone, Copy, PartialEq, Eq, Structural, Debug, Hash)]
pub struct SessionId(pub u128);

/// Relies on uuid::Uuid::new_v4: a fresh random session identifier.
#[verifier::external_body]
pub fn new_session_id() -> (r: SessionId) {
    SessionId(uuid::Uuid::new_v4().as_u128())
}

/// Relies on std::time::SystemTime::now: the clock reading in
/// milliseconds since the Unix epoch.
#[verifier::external_body]
pub fn now_millis() -> (r: u64) {
    match std::time::SystemTime::now().duration_since(std::time::SystemTime::UNIX_EPOCH) {
        Ok(d) => d.as_millis() as u64,
        Err(_) => 0,
    }
}

/// Mathematical view of a session.
pub struct SessionView {
    /// Public key of the owner.
    pub owner: Seq<u8>,
    /// Public keys of the other participants.
    pub participants: Seq<Seq<u8>>,
    /// Pairwise connections established in this session.
    pub conns: Seq<(Seq<u8>, Seq<u8>)>,
    /// Milliseconds timestamp of the last access.
    pub last_access: u64,
}

impl SessionView {
    /// All member keys: the owner first, then the participants.
    pub open spec fn members(self) -> Seq<Seq<u8>> {
        seq![self.owner] + self.participants
    }

    /// Whether the connection list holds this exact ordered entry.
    pub open spec fn has_conn(self, c: (Seq<u8>, Seq<u8>)) -> bool {
        exists|i: int| 0 <= i < self.conns.len() && self.conns[i] == c
    }

    /// Whether a connection entry records the unordered pair `(p, q)`.
    pub open spec fn conn_matches(c: (Seq<u8>, Seq<u8>), p: Seq<u8>, q: Seq<u8>) -> bool {
        c == (p, q) || c == (q, p)
    }

    /// Whether the members `p` and `q` are connected, in either order.
    pub open spec fn pair_connected(self, p: Seq<u8>, q: Seq<u8>) -> bool {
        exists|i: int|
            0 <= i < self.conns.len() && #[trigger] SessionView::conn_matches(self.conns[i], p, q)
    }

    /// A session is active when every two distinct members are
    /// connected.
    pub open spec fn is_active(self) -> bool {
        forall|i: int, j: int|
            0 <= i < self.members().len() && 0 <= j < self.members().len() && self.members()[i]
                != self.members()[j] ==> self.pair_connected(
                #[trigger] self.members()[i],
                #[trigger] self.members()[j],
            )
    }

    /// No unordered pair of keys is recorded twice in the connection
    /// list, in either orientation.
    pub open spec fn no_duplicate_pairs(self) -> bool {
        forall|i: int, j: int, p: Seq<u8>, q: Seq<u8>|
            0 <= i < self.conns.len() && 0 <= j < self.conns.len() && i != j
                && #[trigger] SessionView::conn_matches(self.conns[i], p, q)
                ==> !#[trigger] SessionView::conn_matches(self.conns[j], p, q)
    }
}

/// Session is a namespace for a group of participants to communicate
/// for a series of rounds.
///
/// Use this for the keygen, signing or key refresh of an MPC protocol.
pub struct Session {
    owner_key: Vec<u8>,
    participant_keys: Vec<Vec<u8>>,
    connections: Vec<(Vec<u8>, Vec<u8>)>,
    last_access: u64,
}

impl View for Session {
    type V = SessionView;

    closed spec fn view(&self) -> SessionView {
        SessionView {
            owner: self.owner_key@,
            participants: self.participant_keys@.map_values(|k: Vec<u8>| k@),
            conns: self.connections@.map_values(|c: (Vec<u8>, Vec<u8>)| (c.0@, c.1@)),
            last_access: self.last_access,
        }
    }
}

impl Session {
    /// Each unordered pair of keys is recorded at most once in the
    /// connection list: connections are registered through
    /// `register_connection`, which refuses both reorderings.
    #[verifier::type_invariant]
    closed spec fn connections_unique(self) -> bool {
        self@.no_duplicate_pairs()
    }

    /// The number of members, the owner included.
    fn member_count(&self) -> (r: usize)
        requires
            self@.participants.len() < usize::MAX,
        ensures
            r == self@.members().len(),
    {
        1 + self.participant_keys.len()
    }

    /// The key of the member at a position: the owner at zero, then
    /// the participants.
    fn member_at(&self, i: usize) -> (r: &Vec<u8>)
        requires
            i < self@.members().len(),
        ensures
            r@ == self@.members()[i as int],
    {
        if i == 0 {
            &self.owner_key
        } else {
            &self.participant_keys[i - 1]
        }
    }

    /// Get all participants' public keys: the owner's first, then the
    /// other members'.
    pub fn public_keys(&self) -> (r: Vec<Vec<u8>>)
        requires
            self@.participants.len() < usize::MAX,
        ensures
            r@.map_values(|k: Vec<u8>| k@) == self@.members(),
    {
        let mut keys: Vec<Vec<u8>> = Vec::new();
        keys.push(self.owner_key.clone());
        let mut i: usize = 0;
        while i < self.participant_keys.len()
            invariant
                i <= self.participant_keys@.len(),
                keys@.len() == i + 1,
                keys@[0]@ == self.owner_key@,
                forall|j: int| 0 <= j < i ==> keys@[j + 1]@ == self.participant_keys@[j]@,
            decreases self.participant_keys@.len() - i,
        {
            keys.push(self.participant_keys[i].clone());
            i += 1;
        }
        proof {
            assert(keys@.map_values(|k: Vec<u8>| k@) =~= self@.members());
        }
        keys
    }

    /// Whether the connection list holds this exact ordered pair.
    fn contains_connection(&self, peer: &[u8], other: &[u8]) -> (r: bool)
        ensures
            r == self@.has_conn((peer@, other@)),
    {
        let mut i: usize = 0;
        while i < self.connections.len()
            invariant
                i <= self.connections@.len(),
                forall|j: int| 0 <= j < i ==> self@.conns[j] != (peer@, other@),
            decreases self.connections@.len() - i,
        {
            let c = &self.connections[i];
            if bytes_eq(c.0.as_slice(), peer) && bytes_eq(c.1.as_slice(), other) {
                proof {
                    assert(self@.conns[i as int] == (peer@, other@));
                }
                return true;
            }
            i += 1;
        }
        false
    }

    /// Register a connection between peers. Membership is
    /// order-insensitive: a pair already recorded in either
    /// orientation is not recorded twice, so each unordered pair has
    /// at most one entry.
    pub fn register_connection(&mut self, peer: Vec<u8>, other: Vec<u8>)
        ensures
            old(self)@.has_conn((peer@, other@)) || old(self)@.has_conn((other@, peer@)) ==> final(self)@ == old(self)@,
            !(old(self)@.has_conn((peer@, other@)) || old(self)@.has_conn((other@, peer@)))
                ==> final(self)@ == (SessionView {
                conns: old(self)@.conns.push((peer@, other@)),
                ..old(self)@
            }),
            final(self)@.no_duplicate_pairs(),
    {
        proof {
            use_type_invariant(&*self);
        }
        let forward = self.contains_connection(peer.as_slice(), other.as_slice());
        let reverse = self.contains_connection(other.as_slice(), peer.as_slice());
        if !forward && !reverse {
            let ghost pre = self@;
            let mut conns: Vec<(Vec<u8>, Vec<u8>)> = Vec::new();
            core::mem::swap(&mut conns, &mut self.connections);
            conns.push((peer, other));
            proof {
                let new_conns = conns@.map_values(|c: (Vec<u8>, Vec<u8>)| (c.0@, c.1@));
                assert(new_conns =~= pre.conns.push((peer@, other@)));
                assert forall|i: int, j: int, p: Seq<u8>, q: Seq<u8>|
                    0 <= i < new_conns.len() && 0 <= j < new_conns.len() && i != j
                        && #[trigger] SessionView::conn_matches(
                        new_conns[i],
                        p,
                        q,
                    ) implies !#[trigger] SessionView::conn_matches(new_conns[j], p, q) by {
                    if i == pre.conns.len() || j == pre.conns.len() {
                        let w = if i == pre.conns.len() {
                            j
                        } else {
                            i
                        };
                        if SessionView::conn_matches(pre.conns[w], p, q) {
                            assert(pre.conns[w] == (peer@, other@) || pre.conns[w] == (
                            other@,
                            peer@,
                            ) || !SessionView::conn_matches((peer@, other@), p, q));
                        }
                    }
                }
            }
            core::mem::swap(&mut conns, &mut self.connections);
            proof {
                assert(self@.conns =~= pre.conns.push((peer@, other@)));
            }
        }
    }

    /// Whether one member is connected, in either order, to every
    /// other member with a different key.
    fn connected_to_all(&self, peer: &[u8]) -> (r: bool)
        requires
            self@.participants.len() < usize::MAX,
        ensures
            r == (forall|j: int|
                0 <= j < self@.members().len() && self@.members()[j] != peer@
                    ==> self@.pair_connected(peer@, #[trigger] self@.members()[j])),
    {
        let n = self.member_count();
        let mut j: usize = 0;
        while j < n
            invariant
                j <= n,
                n == self@.members().len(),
                forall|j2: int|
                    0 <= j2 < j && self@.members()[j2] != peer@ ==> self@.pair_connected(
                        peer@,
                        #[trigger] self@.members()[j2],
                    ),
            decreases n - j,
        {
            let key = self.member_at(j);
            if !bytes_eq(key.as_slice(), peer) {
                let left = self.contains_connection(peer, key.as_slice());
                let right = self.contains_connection(key.as_slice(), peer);
                if !left && !right {
                    proof {
                        assert(!self@.pair_connected(peer@, self@.members()[j as int])) by {
                            assert forall|i: int|
                                0 <= i < self@.conns.len() implies !SessionView::conn_matches(
                                self@.conns[i],
                                peer@,
                                self@.members()[j as int],
                            ) by {
                                assert(self@.conns[i] != (peer@, self@.members()[j as int]));
                                assert(self@.conns[i] != (self@.members()[j as int], peer@));
                            }
                        }
                    }
                    return false;
                }
                proof {
                    assert(self@.pair_connected(peer@, self@.members()[j as int])) by {
                        if left {
                            let i = choose|i: int|
                                0 <= i < self@.conns.len() && self@.conns[i] == (
                                peer@,
                                self@.members()[j as int],
                                );
                            assert(SessionView::conn_matches(
                                self@.conns[i],
                                peer@,
                                self@.members()[j as int],
                            ));
                        } else {
                            let i = choose|i: int|
                                0 <= i < self@.conns.len() && self@.conns[i] == (
                                self@.members()[j as int],
                                peer@,
                                );
                            assert(SessionView::conn_matches(
                                self@.conns[i],
                                peer@,
                                self@.members()[j as int],
                            ));
                        }
                    }
                }
            }
            j += 1;
        }
        true
    }

    /// Determine if this session is active.
    ///
    /// A session is active when all participants have created their
    /// peer connections. Since connections are registered at most once
    /// per unordered pair, an active session holds exactly one
    /// connection entry for every pair of distinct members.
    pub fn is_active(&self) -> (r: bool)
        requires
            self@.participants.len() < usize::MAX,
        ensures
            r == self@.is_active(),
            r ==> (forall|p: Seq<u8>, q: Seq<u8>|
                self@.members().contains(p) && self@.members().contains(q) && p != q
                    ==> #[trigger] unique_pair_connection(self@, p, q)),
    {
        proof {
            use_type_invariant(&*self);
            if self@.is_active() {
                assert forall|p: Seq<u8>, q: Seq<u8>|
                    self@.members().contains(p) && self@.members().contains(q) && p != q
                        implies #[trigger] unique_pair_connection(self@, p, q) by {
                    lemma_active_pair_unique(self@, p, q);
                }
            }
        }
        let n = self.member_count();
        let mut i: usize = 0;
        while i < n
            invariant
                i <= n,
                n == self@.members().len(),
                forall|i2: int, j2: int|
                    0 <= i2 < i && 0 <= j2 < self@.members().len() && #[trigger] self@.members()[i2]
                        != #[trigger] self@.members()[j2] ==> self@.pair_connected(
                        self@.members()[i2],
                        self@.members()[j2],
                    ),
            decreases n - i,
        {
            let key = self.member_at(i);
            if !self.connected_to_all(key.as_slice()) {
                return false;
            }
            i += 1;
        }
        true
    }

    /// Whether a key belongs to this session's members: the owner or
    /// one of the participants.
    pub fn is_member(&self, key: &[u8]) -> (r: bool)
        ensures
            r == self@.members().contains(key@),
    {
        if bytes_eq(self.owner_key.as_slice(), key) {
            proof {
                assert(self@.members()[0] == key@);
            }
            return true;
        }
        let present = crate::util::contains_bytes(self.participant_keys.as_slice(), key);
        proof {
            let members = self@.members();
            if present {
                let w = choose|w: int|
                    0 <= w < self@.participants.len() && self@.participants[w] == key@;
                assert(members[w + 1] == key@);
            } else {
                if members.contains(key@) {
                    let w = choose|w: int| 0 <= w < members.len() && members[w] == key@;
                    if w > 0 {
                        assert(self@.participants[w - 1] == key@);
                    }
                }
            }
        }
        present
    }

    /// The milliseconds timestamp of the last access.
    pub fn last_access(&self) -> (r: u64)
        ensures
            r == self@.last_access,
    {
        self.last_access
    }
}

/// A session view has expired when its last access lies further back
/// than the time-to-live, in milliseconds.
pub open spec fn session_expired(s: SessionView, timeout_secs: u64, now: u64) -> bool {
    s.last_access + timeout_secs * 1000 < now
}

/// Manages a collection of sessions, keyed by session identifier.
pub struct SessionManager {
    sessions: Vec<(SessionId, Session)>,
}

impl View for SessionManager {
    type V = Seq<(SessionId, SessionView)>;

    closed spec fn view(&self) -> Seq<(SessionId, SessionView)> {
        self.sessions@.map_values(|e: (SessionId, Session)| (e.0, e.1@))
    }
}

impl Default for SessionManager {
    /// An empty session collection.
    fn default() -> (r: Self)
        ensures
            r@.len() == 0,
    {
        SessionManager { sessions: Vec::new() }
    }
}

impl SessionManager {
    /// Whether a session with this identifier is present.
    pub open spec fn has_session(&self, id: SessionId) -> bool {
        exists|i: int| 0 <= i < self@.len() && self@[i].0 == id
    }

    /// Identifiers are unique across the collection.
    pub open spec fn wf(&self) -> bool {
        forall|i: int, j: int| 0 <= i < j < self@.len() ==> self@[i].0 != self@[j].0
    }

    /// Position of the session with this identifier, if any.
    fn find_index(&self, id: &SessionId) -> (r: Option<usize>)
        ensures
            r matches Some(i) ==> i < self@.len() && self@[i as int].0 == *id && (forall|j: int|
                0 <= j < i ==> self@[j].0 != *id),
            r is None ==> !self.has_session(*id),
    {
        let mut i: usize = 0;
        while i < self.sessions.len()
            invariant
                i <= self@.len(),
                forall|j: int| 0 <= j < i ==> self@[j].0 != *id,
            decreases self@.len() - i,
        {
            if self.sessions[i].0 == *id {
                return Some(i);
            }
            i += 1;
        }
        None
    }

    /// Create a new session under a given identifier with a given
    /// clock reading. Duplicate participant keys are kept once; a
    /// session already stored under the identifier is replaced.
    pub fn new_session_at(
        &mut self,
        session_id: SessionId,
        owner_key: Vec<u8>,
        participant_keys: Vec<Vec<u8>>,
        now: u64,
    )
        ensures
            final(self).wf() <== old(self).wf(),
            final(self).has_session(session_id),
            exists|i: int|
                0 <= i < final(self)@.len() && (#[trigger] final(self)@[i]).0 == session_id && ({
                    let s = final(self)@[i].1;
                    &&& s.owner == owner_key@
                    &&& s.conns.len() == 0
                    &&& s.last_access == now
                    &&& (forall|j: int, k: int|
                        0 <= j < k < s.participants.len() ==> s.participants[j]
                            != s.participants[k])
                    &&& !s.participants.contains(owner_key@)
                    &&& (forall|j: int|
                        0 <= j < s.participants.len() ==> keys_view(
                            participant_keys@,
                        ).contains(#[trigger] s.participants[j]))
                    &&& (forall|j: int|
                        0 <= j < participant_keys@.len() ==> (#[trigger] keys_view(
                            participant_keys@,
                        )[j]) == owner_key@ || s.participants.contains(
                            keys_view(participant_keys@)[j],
                        ))
                    &&& s.no_duplicate_pairs()
                }),
            forall|j: int|
                0 <= j < old(self)@.len() && (#[trigger] old(self)@[j]).0 != session_id ==> final(self)@.contains(old(self)@[j]),
    {
        let ghost in_view = keys_view(participant_keys@);
        let mut deduped: Vec<Vec<u8>> = Vec::new();
        let mut i: usize = 0;
        while i < participant_keys.len()
            invariant
                i <= participant_keys@.len(),
                in_view == keys_view(participant_keys@),
                forall|j: int, k: int|
                    0 <= j < k < deduped@.len() ==> keys_view(deduped@)[j]
                        != keys_view(deduped@)[k],
                forall|j: int|
                    0 <= j < deduped@.len() ==> in_view.contains(
                        #[trigger] keys_view(deduped@)[j],
                    ) && keys_view(deduped@)[j] != owner_key@,
                forall|j: int|
                    0 <= j < i ==> (#[trigger] in_view[j]) == owner_key@ || keys_view(
                        deduped@,
                    ).contains(in_view[j]),
            decreases participant_keys@.len() - i,
        {
            let key = &participant_keys[i];
            proof {
                assert(in_view[i as int] == key@);
            }
            let ghost dv_pre = keys_view(deduped@);
            if crate::util::bytes_eq(key.as_slice(), owner_key.as_slice()) {
                i += 1;
                continue ;
            }
            let present = crate::util::contains_bytes(deduped.as_slice(), key.as_slice());
            if !present {
                deduped.push(key.clone());
                proof {
                    assert(keys_view(deduped@) =~= dv_pre.push(key@));
                }
            }
            proof {
                let dv = keys_view(deduped@);
                assert forall|j: int| 0 <= j < i + 1 implies (#[trigger] in_view[j]) == owner_key@
                    || dv.contains(in_view[j]) by {
                    if j == i as int {
                        if present {
                            let w = choose|w: int|
                                0 <= w < dv_pre.len() && dv_pre[w] == key@;
                            assert(dv[w] == key@);
                        } else {
                            assert(dv[dv.len() - 1] == key@);
                        }
                    } else if in_view[j] != owner_key@ {
                        let w = choose|w: int| 0 <= w < dv_pre.len() && dv_pre[w] == in_view[j];
                        assert(dv[w] == in_view[j]);
                    }
                }
            }
            i += 1;
        }
        let ghost dv = keys_view(deduped@);
        let ghost owner_view = owner_key@;
        let session = Session {
            owner_key,
            participant_keys: deduped,
            connections: Vec::new(),
            last_access: now,
        };
        let ghost sv = session@;
        proof {
            assert(sv.participants =~= dv);
            assert(sv.conns.len() == 0);
            assert(sv.owner == owner_view);
        }
        let ghost pre = self@;
        let existing = self.find_index(&session_id);
        match existing {
            Some(idx) => {
                let slot = &mut self.sessions[idx];
                *slot = (session_id, session);
                proof {
                    assert(self@ =~= pre.update(idx as int, (session_id, sv)));
                }
            },
            None => {
                self.sessions.push((session_id, session));
                proof {
                    assert(self@ =~= pre.push((session_id, sv)));
                }
            },
        }
        proof {
            let w: int = match existing {
                Some(idx) => idx as int,
                None => pre.len() as int,
            };
            assert(self@[w] == (session_id, sv));
            assert forall|j: int|
                0 <= j < pre.len() && (#[trigger] pre[j]).0 != session_id implies self@.contains(
                pre[j],
            ) by {
                assert(self@[j] == pre[j]);
            }
            if old(self).wf() {
                assert forall|i: int, j: int| 0 <= i < j < self@.len() implies self@[i].0
                    != self@[j].0 by {
                    if existing is Some {
                        assert(self@[i].0 == pre[i].0 && self@[j].0 == pre[j].0);
                    } else {
                        if j < pre.len() {
                            assert(self@[i].0 == pre[i].0 && self@[j].0 == pre[j].0);
                        } else {
                            assert(self@[i] == pre[i]);
                            assert(!old(self).has_session(session_id));
                        }
                    }
                }
            }
        }
    }

    /// Create a new session for an owner, under a fresh random
    /// identifier, stamped with the current clock reading. The new
    /// entry holds the owner, the deduplicated participants without
    /// the owner, and no connections.
    pub fn new_session(&mut self, owner_key: Vec<u8>, participant_keys: Vec<Vec<u8>>) -> (r:
        SessionId)
        ensures
            final(self).wf() <== old(self).wf(),
            final(self).has_session(r),
            exists|i: int|
                0 <= i < final(self)@.len() && (#[trigger] final(self)@[i]).0 == r && ({
                    let s = final(self)@[i].1;
                    &&& s.owner == owner_key@
                    &&& s.conns.len() == 0
                    &&& (forall|j: int, k: int|
                        0 <= j < k < s.participants.len() ==> s.participants[j]
                            != s.participants[k])
                    &&& !s.participants.contains(owner_key@)
                    &&& (forall|j: int|
                        0 <= j < s.participants.len() ==> keys_view(
                            participant_keys@,
                        ).contains(#[trigger] s.participants[j]))
                    &&& (forall|j: int|
                        0 <= j < participant_keys@.len() ==> (#[trigger] keys_view(
                            participant_keys@,
                        )[j]) == owner_key@ || s.participants.contains(
                            keys_view(participant_keys@)[j],
                        ))
                    &&& s.no_duplicate_pairs()
                }),
            forall|j: int|
                0 <= j < old(self)@.len() && (#[trigger] old(self)@[j]).0 != r ==> final(self)@.contains(old(self)@[j]),
    {
        let session_id = new_session_id();
        let now = now_millis();
        self.new_session_at(session_id, owner_key, participant_keys, now);
        session_id
    }

    /// Get a session.
    pub fn get_session(&self, id: &SessionId) -> (r: Option<&Session>)
        ensures
            r matches Some(s) ==> exists|i: int|
                0 <= i < self@.len() && self@[i] == (*id, s@),
            r is None ==> !self.has_session(*id),
    {
        match self.find_index(id) {
            Some(i) => {
                let entry = &self.sessions[i];
                proof {
                    assert(self@[i as int] == (*id, entry.1@));
                }
                Some(&entry.1)
            },
            None => None,
        }
    }

    /// Get a mutable session. The caller's changes through the
    /// returned borrow land in the entry that carries the identifier.
    pub fn get_session_mut(&mut self, id: &SessionId) -> (r: Option<&mut Session>)
        ensures
            r is None ==> !old(self).has_session(*id) && *final(self) == *old(self),
            r matches Some(s) ==> exists|i: int| #![trigger old(self)@[i]]
                0 <= i < old(self)@.len() && old(self)@[i].0 == *id && (*s)@ == old(self)@[i].1
                    && final(self)@ =~= old(self)@.update(i, (*id, (*final(s))@)),
    {
        match self.find_index(id) {
            Some(i) => {
                let entry = &mut self.sessions[i];
                Some(&mut entry.1)
            },
            None => None,
        }
    }

    /// Record a peer connection inside a session. Returns false when
    /// the session does not exist.
    pub fn register_connection(&mut self, id: &SessionId, peer: Vec<u8>, other: Vec<u8>) -> (r:
        bool)
        ensures
            !r ==> !old(self).has_session(*id) && final(self)@ == old(self)@,
            r ==> exists|i: int|
                0 <= i < old(self)@.len() && (#[trigger] old(self)@[i]).0 == *id && ({
                    let s = old(self)@[i].1;
                    let s2 = if s.has_conn((peer@, other@)) || s.has_conn((other@, peer@)) {
                        s
                    } else {
                        SessionView { conns: s.conns.push((peer@, other@)), ..s }
                    };
                    final(self)@ == old(self)@.update(i, (*id, s2))
                }),
    {
        match self.find_index(id) {
            Some(i) => {
                let entry = &mut self.sessions[i];
                entry.1.register_connection(peer, other);
                true
            },
            None => false,
        }
    }

    /// Remove a session, returning it.
    pub fn remove_session(&mut self, id: &SessionId) -> (r: Option<Session>)
        ensures
            r is None ==> !old(self).has_session(*id) && final(self)@ == old(self)@,
            r matches Some(s) ==> exists|i: int|
                0 <= i < old(self)@.len() && old(self)@[i] == (*id, s@) && final(self)@ == old(self)@.remove(i),
    {
        match self.find_index(id) {
            Some(i) => {
                let entry = self.sessions.remove(i);
                Some(entry.1)
            },
            None => None,
        }
    }

    /// Refresh the last access time of a session to a given clock
    /// reading, returning whether the session exists.
    pub fn touch_session_at(&mut self, id: &SessionId, now: u64) -> (r: bool)
        ensures
            !r ==> !old(self).has_session(*id) && final(self)@ == old(self)@,
            r ==> exists|i: int|
                0 <= i < old(self)@.len() && (#[trigger] old(self)@[i]).0 == *id && (forall|j: int|
                    0 <= j < i ==> old(self)@[j].0 != *id) && final(self)@ == old(self)@.update(
                    i,
                    (*id, (SessionView { last_access: now, ..old(self)@[i].1 })),
                ),
    {
        match self.find_index(id) {
            Some(i) => {
                let entry = &mut self.sessions[i];
                proof {
                    use_type_invariant(&entry.1);
                    let updated = Session { last_access: now, ..entry.1 };
                    assert(updated@.conns =~= entry.1@.conns);
                    assert(updated@.no_duplicate_pairs());
                }
                entry.1.last_access = now;
                true
            },
            None => false,
        }
    }

    /// Retrieve and update the last access time for a session with the
    /// current clock reading.
    pub fn touch_session(&mut self, id: &SessionId) -> (r: Option<&Session>)
        ensures
            r is None ==> !old(self).has_session(*id) && final(self)@ == old(self)@,
            r matches Some(s) ==> exists|i: int|
                0 <= i < old(self)@.len() && (#[trigger] old(self)@[i]).0 == *id && s@
                    == (SessionView { last_access: s@.last_access, ..old(self)@[i].1 }) && final(self)@ == old(self)@.update(i, (*id, s@)),
    {
        let now = now_millis();
        if !self.touch_session_at(id, now) {
            return None;
        }
        match self.find_index(id) {
            Some(i) => {
                let entry = &self.sessions[i];
                Some(&entry.1)
            },
            None => {
                proof {
                    let w = choose|w: int|
                        0 <= w < old(self)@.len() && (#[trigger] old(self)@[w]).0 == *id && (
                        forall|j: int| 0 <= j < w ==> old(self)@[j].0 != *id) && self@ == old(
                            self,
                        )@.update(w, (*id, (SessionView { last_access: now, ..old(self)@[w].1 })));
                    assert(self@[w].0 == *id);
                }
                None
            },
        }
    }

    /// The number of sessions held.
    pub fn session_count(&self) -> (r: usize)
        ensures
            r == self@.len(),
    {
        self.sessions.len()
    }

    /// The identifier of the session at a position.
    pub fn session_id_at(&self, i: usize) -> (r: SessionId)
        requires
            i < self@.len(),
        ensures
            r == self@[i as int].0,
    {
        self.sessions[i].0
    }

    /// The session at a position.
    pub fn session_at(&self, i: usize) -> (r: &Session)
        requires
            i < self@.len(),
        ensures
            r@ == self@[i as int].1,
    {
        &self.sessions[i].1
    }

    /// Whether some entry carries this identifier and has expired.
    pub open spec fn has_expired_entry(&self, id: SessionId, timeout_secs: u64, now: u64) -> bool {
        exists|i: int|
            0 <= i < self@.len() && (#[trigger] self@[i]).0 == id && session_expired(
                self@[i].1,
                timeout_secs,
                now,
            )
    }

    /// The list is exactly a snapshot of the expired sessions under
    /// one clock reading: every listed key names an expired entry, and
    /// every expired entry's key is listed.
    pub open spec fn spec_expired_snapshot(
        &self,
        timeout_secs: u64,
        now: u64,
        out: Seq<SessionId>,
    ) -> bool {
        &&& (forall|k: int| #![trigger out[k]]
            0 <= k < out.len() ==> self.has_expired_entry(out[k], timeout_secs, now))
        &&& (forall|i: int|
            0 <= i < self@.len() && session_expired(#[trigger] self@[i].1, timeout_secs, now)
                ==> out.contains(self@[i].0))
    }

    /// Get the keys of sessions whose last access, by a given clock
    /// reading, lies further back than the time-to-live in seconds.
    pub fn expired_keys_at(&self, timeout_secs: u64, now: u64) -> (r: Vec<SessionId>)
        ensures
            self.spec_expired_snapshot(timeout_secs, now, r@),
            forall|k: int| #![trigger r@[k]]
                0 <= k < r@.len() ==> self.has_expired_entry(r@[k], timeout_secs, now),
            forall|i: int|
                0 <= i < self@.len() && session_expired(#[trigger] self@[i].1, timeout_secs, now)
                    ==> r@.contains(self@[i].0),
    {
        let mut out: Vec<SessionId> = Vec::new();
        let mut i: usize = 0;
        while i < self.sessions.len()
            invariant
                i <= self@.len(),
                forall|k: int| #![trigger out@[k]]
                    0 <= k < out@.len() ==> self.has_expired_entry(out@[k], timeout_secs, now),
                forall|i2: int|
                    0 <= i2 < i && session_expired(#[trigger] self@[i2].1, timeout_secs, now)
                        ==> out@.contains(self@[i2].0),
            decreases self@.len() - i,
        {
            let ghost out_pre = out@;
            let entry = &self.sessions[i];
            let deadline: u128 = (entry.1.last_access as u128) + (timeout_secs as u128) * 1000;
            proof {
                assert(self@[i as int].0 == entry.0);
                assert(self@[i as int].1 == entry.1@);
                assert(entry.1@.last_access == entry.1.last_access);
            }
            if deadline < (now as u128) {
                out.push(entry.0);
                proof {
                    assert(session_expired(self@[i as int].1, timeout_secs, now));
                    assert forall|k: int| #![trigger out@[k]]
                        0 <= k < out@.len() implies self.has_expired_entry(
                        out@[k],
                        timeout_secs,
                        now,
                    ) by {
                        if k < out_pre.len() {
                            assert(out@[k] == out_pre[k]);
                        } else {
                            assert(out@[k] == self@[i as int].0);
                            assert((#[trigger] self@[i as int]).0 == out@[k] && session_expired(
                                self@[i as int].1,
                                timeout_secs,
                                now,
                            ));
                        }
                    }
                    assert forall|i2: int|
                        0 <= i2 < i + 1 && session_expired(
                            #[trigger] self@[i2].1,
                            timeout_secs,
                            now,
                        ) implies out@.contains(self@[i2].0) by {
                        if i2 == i as int {
                            assert(out@[out@.len() - 1] == self@[i2].0);
                        } else {
                            assert(out_pre.contains(self@[i2].0));
                            let k = choose|k: int|
                                0 <= k < out_pre.len() && out_pre[k] == self@[i2].0;
                            assert(out@[k] == self@[i2].0);
                        }
                    }
                }
            } else {
                proof {
                    assert(!session_expired(self@[i as int].1, timeout_secs, now));
                }
            }
            i += 1;
        }
        out
    }

    /// Get the keys of sessions that have expired, against the current
    /// clock reading.
    pub fn expired_keys(&self, timeout_secs: u64) -> (r: Vec<SessionId>)
        ensures
            exists|now: u64| #[trigger] self.spec_expired_snapshot(timeout_secs, now, r@),
            forall|k: int| #![trigger r@[k]] 0 <= k < r@.len() ==> self.has_session(r@[k]),
    {
        let now = now_millis();
        let r = self.expired_keys_at(timeout_secs, now);
        proof {
            assert(self.spec_expired_snapshot(timeout_secs, now, r@));
        }
        proof {
            assert forall|k: int| #![trigger r@[k]]
                0 <= k < r@.len() implies self.has_session(r@[k]) by {
                assert(self.has_expired_entry(r@[k], timeout_secs, now));
                let i = choose|i: int|
                    0 <= i < self@.len() && (#[trigger] self@[i]).0 == r@[k] && session_expired(
                        self@[i].1,
                        timeout_secs,
                        now,
                    );
                assert(0 <= i < self@.len() && self@[i].0 == r@[k]);
            }
        }
        r
    }
}

/// Request to create a new session.
///
/// Does not include the public key of the initiator: it is added
/// automatically as the session owner.
#[derive(Debug, Clone)]
pub struct SessionRequest {
    /// Public keys of the session participants.
    pub participant_keys: Vec<Vec<u8>>,
}

/// State of a session as seen by its members.
#[derive(Debug, Clone)]
pub struct SessionState {
    /// Session identifier.
    pub session_id: SessionId,
    /// Public keys of all participants.
    pub all_participants: Vec<Vec<u8>>,
}

impl SessionState {
    /// The participant keys as byte sequences.
    pub open spec fn participants_view(&self) -> Seq<Seq<u8>> {
        self.all_participants@.map_values(|k: Vec<u8>| k@)
    }

    /// Get the connections a peer should make: the participants
    /// strictly after the peer's own key in the list. Each peer
    /// initiates handshakes only toward later peers, so exactly one
    /// handshake happens per unordered pair. A peer not in the list,
    /// and the last peer, make no connections; a session with no
    /// participants yields no connections.
    pub fn connections(&self, own_key: &[u8]) -> (r: &[Vec<u8>])
        ensures
            ({
                let parts = self.participants_view();
                match parts.index_of_first(own_key@) {
                    Some(p) => r@.map_values(|k: Vec<u8>| k@) == parts.skip(p + 1),
                    None => r@.len() == 0,
                }
            }),
    {
        proof {
            self.participants_view().index_of_first_ensures(own_key@);
        }
        let n = self.all_participants.len();
        let mut i: usize = 0;
        while i < n
            invariant
                i <= n,
                n == self.participants_view().len(),
                forall|j: int| 0 <= j < i ==> self.participants_view()[j] != own_key@,
            decreases n - i,
        {
            if bytes_eq(self.all_participants[i].as_slice(), own_key) {
                let r = vstd::slice::slice_subrange(self.all_participants.as_slice(), i + 1, n);
                proof {
                    let parts = self.participants_view();
                    assert(parts[i as int] == own_key@);
                    assert(parts.contains(own_key@));
                    parts.index_of_first_ensures(own_key@);
                    let idx = parts.index_of_first(own_key@)->0;
                    assert(idx <= i as int);
                    assert(idx == i as int);
                    assert(r@.map_values(|k: Vec<u8>| k@) =~= parts.skip(i + 1));
                }
                return r;
            }
            i += 1;
        }
        let r = vstd::slice::slice_subrange(self.all_participants.as_slice(), n, n);
        proof {
            let parts = self.participants_view();
            if parts.contains(own_key@) {
                let wi = choose|wi: int| 0 <= wi < parts.len() && parts[wi] == own_key@;
                assert(parts[wi] != own_key@);
            }
            assert(parts.index_of_first(own_key@) is None);
            assert(r@.map_values(|k: Vec<u8>| k@) =~= Seq::<Seq<u8>>::empty());
        }
        r
    }

    /// The one-based party number of a participant: its position in
    /// the participant list, plus one.
    pub fn party_number(&self, public_key: &[u8]) -> (r: Option<u16>)
        requires
            self.participants_view().len() <= u16::MAX,
        ensures
            ({
                let parts = self.participants_view();
                match parts.index_of_first(public_key@) {
                    Some(p) => r == Some((p + 1) as u16),
                    None => r is None,
                }
            }),
    {
        proof {
            self.participants_view().index_of_first_ensures(public_key@);
        }
        let n = self.all_participants.len();
        let mut i: usize = 0;
        while i < n
            invariant
                i <= n,
                n == self.participants_view().len(),
                forall|j: int| 0 <= j < i ==> self.participants_view()[j] != public_key@,
            decreases n - i,
        {
            if bytes_eq(self.all_participants[i].as_slice(), public_key) {
                proof {
                    let parts = self.participants_view();
                    assert(parts[i as int] == public_key@);
                    assert(parts.contains(public_key@));
                    parts.index_of_first_ensures(public_key@);
                    let idx = parts.index_of_first(public_key@)->0;
                    assert(idx <= i as int);
                    assert(idx == i as int);
                }
                return Some((i + 1) as u16);
            }
            i += 1;
        }
        proof {
            let parts = self.participants_view();
            if parts.contains(public_key@) {
                let wi = choose|wi: int| 0 <= wi < parts.len() && parts[wi] == public_key@;
                assert(parts[wi] != public_key@);
            }
        }
        None
    }

    /// The public key of the party with a one-based party number.
    pub fn peer_key(&self, party_number: u16) -> (r: Option<&Vec<u8>>)
        ensures
            1 <= party_number <= self.participants_view().len() ==> (r matches Some(k) && k@
                == self.participants_view()[party_number - 1]),
            !(1 <= party_number <= self.participants_view().len()) ==> r is None,
    {
        if party_number >= 1 && (party_number as usize) <= self.all_participants.len() {
            Some(&self.all_participants[(party_number - 1) as usize])
        } else {
            None
        }
    }
}

/// Exactly one connection entry records the unordered pair `(p, q)`,
/// in one ordering or the other.
pub open spec fn unique_pair_connection(s: SessionView, p: Seq<u8>, q: Seq<u8>) -> bool {
    exists|i: int|
        (0 <= i < s.conns.len() && #[trigger] SessionView::conn_matches(s.conns[i], p, q)) && (
        forall|j: int|
            0 <= j < s.conns.len() && #[trigger] SessionView::conn_matches(s.conns[j], p, q) ==> j
                == i)
}

/// When a session is active and no unordered pair is recorded twice,
/// each pair of distinct members has exactly one connection entry,
/// in one ordering or the other.
pub proof fn lemma_active_pair_unique(s: SessionView, p: Seq<u8>, q: Seq<u8>)
    requires
        s.is_active(),
        s.no_duplicate_pairs(),
        s.members().contains(p),
        s.members().contains(q),
        p != q,
    ensures
        unique_pair_connection(s, p, q),
{
    let pi = choose|pi: int| 0 <= pi < s.members().len() && s.members()[pi] == p;
    let qi = choose|qi: int| 0 <= qi < s.members().len() && s.members()[qi] == q;
    assert(s.pair_connected(p, q));
    let i = choose|i: int|
        0 <= i < s.conns.len() && #[trigger] SessionView::conn_matches(s.conns[i], p, q);
    assert forall|j: int|
        0 <= j < s.conns.len() && #[trigger] SessionView::conn_matches(s.conns[j], p, q) implies j
        == i by {
        if j != i {
            assert(!SessionView::conn_matches(s.conns[j], p, q));
        }
    }
}

} // verus!
