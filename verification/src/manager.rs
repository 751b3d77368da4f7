//! The session multiplexer's bookkeeping: all live sessions, their
//! identifiers, and the admission pairing.
//!
//! The manager owns every session for its lifetime. Admission is taken when
//! a connection is accepted and returned exactly once when the session
//! closes, on every path: closing removes the session, so a second close of
//! the same identifier finds nothing and releases nothing. The
//! well-formedness invariant ties the admission counter to the number of
//! live sessions, which bounds how many sessions can be handshaking or
//! active at once however the peers behave.

use vstd::prelude::*;

use crate::admission::AdmissionController;
use crate::session::{
    has_cap, spec_bind_actions, spec_has_cap, BindAction, DeviceRecord, FrameDisposition,
    FrameEvent, ProtocolRequest, Session, SessionPhase, CAP_ALL, CAP_KEYBOARD,
};
use crate::translate::{spec_translate, translate, HostSnapshot, TranslateOutcome};

verus! {

/// Index of the session carrying `id`, if one is live. Identifiers are
/// unique under the manager's invariant, so this is the only such index.
pub open spec fn spec_index_of(sessions: Seq<Session>, id: u64) -> Option<int>
    decreases sessions.len(),
{
    if sessions.len() == 0 {
        None
    } else if sessions[0].id == id {
        Some(0)
    } else {
        match spec_index_of(sessions.skip(1), id) {
            None => None,
            Some(i) => Some(i + 1),
        }
    }
}

/// What `spec_index_of` yields: the first index carrying `id`, or nothing
/// when no session does.
pub proof fn lemma_index_of_characterization(sessions: Seq<Session>, id: u64)
    ensures
        match spec_index_of(sessions, id) {
            Some(i) => {
                &&& 0 <= i < sessions.len()
                &&& sessions[i].id == id
                &&& forall|j: int| 0 <= j < i ==> sessions[j].id != id
            },
            None => forall|j: int| 0 <= j < sessions.len() ==> sessions[j].id != id,
        },
    decreases sessions.len(),
{
    if sessions.len() > 0 && sessions[0].id != id {
        let tail = sessions.skip(1);
        lemma_index_of_characterization(tail, id);
        assert(forall|j: int| 0 <= j < tail.len() ==> tail[j] == sessions[j + 1]);
        match spec_index_of(tail, id) {
            Some(i) => {
                assert(tail[i] == sessions[i + 1]);
                assert forall|j: int| 0 <= j < i + 1 implies sessions[j].id != id by {
                    if j > 0 {
                        assert(tail[j - 1] == sessions[j]);
                    }
                }
            },
            None => {
                assert forall|j: int| 0 <= j < sessions.len() implies sessions[j].id != id by {
                    if j > 0 {
                        assert(tail[j - 1] == sessions[j]);
                    }
                }
            },
        }
    }
}

/// Law: admitting a session and then closing it returns the session list
/// to its prior value. Accepting appends a session with an unused
/// identifier; closing removes the session at the index its identifier is
/// found at, which for the session just appended is the end of the list.
pub proof fn lemma_accept_close_round_trip(sessions: Seq<Session>, s: Session)
    requires
        spec_index_of(sessions, s.id) is None,
    ensures
        spec_index_of(sessions.push(s), s.id) == Some(sessions.len() as int),
        sessions.push(s).remove(sessions.len() as int) == sessions,
{
    lemma_index_of_characterization(sessions, s.id);
    lemma_index_of_characterization(sessions.push(s), s.id);
    let extended = sessions.push(s);
    match spec_index_of(extended, s.id) {
        Some(k) => {
            if k < sessions.len() {
                assert(extended[k] == sessions[k]);
                assert(false);
            }
        },
        None => {
            assert(extended[sessions.len() as int] == s);
            assert(false);
        },
    }
    assert(sessions.push(s).remove(sessions.len() as int) =~= sessions);
}

/// A fresh session as `accept` creates it: connecting, with no devices yet.
pub open spec fn spec_fresh_session(s: Session, id: u64) -> bool {
    &&& s.id == id
    &&& s.phase is Connecting
    &&& s.devices@ == Seq::<DeviceRecord>::empty()
}

/// `post` agrees with `pre` everywhere but at index `i`.
pub open spec fn spec_updated_at(pre: Seq<Session>, post: Seq<Session>, i: int) -> bool {
    &&& post.len() == pre.len()
    &&& forall|j: int| 0 <= j < pre.len() && j != i ==> post[j] == pre[j]
}

/// `b` is `a` with only its phase changed.
pub open spec fn spec_same_except_phase(a: Session, b: Session, phase: SessionPhase) -> bool {
    &&& b.id == a.id
    &&& b.devices@ == a.devices@
    &&& b.phase == phase
}

/// How many sessions are past admission but not closed: the sessions a peer
/// can still drive.
pub open spec fn spec_count_in_progress(sessions: Seq<Session>) -> nat
    decreases sessions.len(),
{
    if sessions.len() == 0 {
        0
    } else {
        (if sessions.last().phase is Handshaking || sessions.last().phase is Active {
            1nat
        } else {
            0nat
        }) + spec_count_in_progress(sessions.drop_last())
    }
}

proof fn lemma_count_in_progress_le_len(sessions: Seq<Session>)
    ensures
        spec_count_in_progress(sessions) <= sessions.len(),
    decreases sessions.len(),
{
    if sessions.len() > 0 {
        lemma_count_in_progress_le_len(sessions.drop_last());
    }
}

/// Owns all live sessions and pairs each with one admission.
pub struct SessionManager {
    admission: AdmissionController,
    sessions: Vec<Session>,
    next_id: u64,
}

impl SessionManager {
    /// All live sessions, in acceptance order.
    pub closed spec fn sessions(&self) -> Seq<Session> {
        self.sessions@
    }

    /// The admission counter's current value.
    pub closed spec fn live_count(&self) -> nat {
        self.admission.active()
    }

    /// The admission cap.
    pub closed spec fn cap(&self) -> nat {
        self.admission.cap()
    }

    /// The identifier the next accepted session will get.
    pub closed spec fn next_session_id(&self) -> u64 {
        self.next_id
    }

    pub closed spec fn wf(&self) -> bool {
        &&& self.admission.wf()
        &&& self.admission.active() == self.sessions@.len()
        &&& forall|i: int, j: int|
            0 <= i < j < self.sessions@.len() ==> self.sessions@[i].id != self.sessions@[j].id
        &&& forall|i: int|
            0 <= i < self.sessions@.len() ==> (#[trigger] self.sessions@[i]).id < self.next_id
        &&& forall|i: int|
            0 <= i < self.sessions@.len() ==> !((#[trigger] self.sessions@[i]).phase is Closed)
        &&& forall|i: int| 0 <= i < self.sessions@.len() ==> (#[trigger] self.sessions@[i]).wf()
    }

    /// The invariant in the open: as many live sessions as admissions, and
    /// never more than the cap.
    pub proof fn lemma_wf_bounds(&self)
        requires
            self.wf(),
        ensures
            self.sessions().len() == self.live_count(),
            self.live_count() <= self.cap(),
    {
        self.admission.lemma_wf_bound();
    }

    /// Law: however the peers behave, the number of sessions concurrently
    /// handshaking or active never exceeds the cap.
    pub proof fn lemma_in_progress_bounded(&self)
        requires
            self.wf(),
        ensures
            spec_count_in_progress(self.sessions()) <= self.cap(),
    {
        lemma_count_in_progress_le_len(self.sessions@);
        self.lemma_wf_bounds();
    }

    /// Under the invariant the next identifier is never already in use, so
    /// the round-trip law applies to every session this manager accepts.
    pub proof fn lemma_next_id_fresh(&self)
        requires
            self.wf(),
        ensures
            spec_index_of(self.sessions(), self.next_session_id()) is None,
    {
        lemma_index_of_characterization(self.sessions@, self.next_id);
        if let Some(k) = spec_index_of(self.sessions@, self.next_id) {
            assert(self.sessions@[k].id < self.next_id);
            assert(false);
        }
    }

    pub fn new(cap: usize) -> (r: Self)
        ensures
            r.wf(),
            r.sessions() == Seq::<Session>::empty(),
            r.live_count() == 0,
            r.cap() == cap,
    {
        let r = SessionManager {
            admission: AdmissionController::new(cap),
            sessions: Vec::new(),
            next_id: 0,
        };
        proof {
            assert(r.sessions@ =~= Seq::<Session>::empty());
        }
        r
    }

    /// Find the live session carrying `id`.
    fn find_session(&self, id: u64) -> (r: Option<usize>)
        ensures
            match r {
                Some(i) => i < self.sessions().len() && spec_index_of(self.sessions(), id) == Some(
                    i as int,
                ),
                None => spec_index_of(self.sessions(), id) is None,
            },
    {
        proof {
            lemma_index_of_characterization(self.sessions@, id);
        }
        let mut i: usize = 0;
        while i < self.sessions.len()
            invariant
                i <= self.sessions@.len(),
                forall|j: int| 0 <= j < i ==> self.sessions@[j].id != id,
                match spec_index_of(self.sessions@, id) {
                    Some(k) => {
                        &&& 0 <= k < self.sessions@.len()
                        &&& self.sessions@[k].id == id
                        &&& forall|j: int| 0 <= j < k ==> self.sessions@[j].id != id
                    },
                    None => forall|j: int|
                        0 <= j < self.sessions@.len() ==> self.sessions@[j].id != id,
                },
            decreases self.sessions@.len() - i,
        {
            if self.sessions[i].id == id {
                return Some(i);
            }
            i = i + 1;
        }
        None
    }

    /// Whether a session with this identifier is live.
    pub fn has_session(&self, id: u64) -> (r: bool)
        ensures
            r == (spec_index_of(self.sessions(), id) is Some),
    {
        self.find_session(id).is_some()
    }

    /// The phase of the session carrying `id`, if it is live.
    pub fn phase_of(&self, id: u64) -> (r: Option<SessionPhase>)
        ensures
            match spec_index_of(self.sessions(), id) {
                Some(i) => r == Some(self.sessions()[i].phase),
                None => r is None,
            },
    {
        match self.find_session(id) {
            Some(i) => Some(self.sessions[i].phase),
            None => None,
        }
    }

    /// Number of live sessions, for observability reporting.
    pub fn session_count(&self) -> (n: usize)
        requires
            self.wf(),
        ensures
            n == self.sessions().len(),
            n == self.live_count(),
    {
        self.sessions.len()
    }

    /// The cap, for observability reporting.
    pub fn capacity(&self) -> (n: usize)
        ensures
            n == self.cap(),
    {
        self.admission.capacity()
    }

    /// Admit a new connection. On success the new session starts in
    /// `Connecting` with a fresh identifier; past the cap the connection is
    /// refused and no session (and so no handshake) is ever made for it.
    pub fn accept(&mut self) -> (r: Option<u64>)
        requires
            old(self).wf(),
        ensures
            final(self).wf(),
            final(self).cap() == old(self).cap(),
            if old(self).sessions().len() < old(self).cap() && old(self).next_session_id()
                < u64::MAX {
                &&& r == Some(old(self).next_session_id())
                &&& final(self).sessions().len() == old(self).sessions().len() + 1
                &&& final(self).sessions().drop_last() == old(self).sessions()
                &&& spec_fresh_session(final(self).sessions().last(), old(self).next_session_id())
                &&& final(self).live_count() == old(self).live_count() + 1
                &&& final(self).next_session_id() == old(self).next_session_id() + 1
            } else {
                r is None && *final(self) == *old(self)
            },
    {
        proof {
            self.lemma_wf_bounds();
        }
        if self.next_id == u64::MAX {
            return None;
        }
        if self.sessions.len() >= self.admission.capacity() {
            return None;
        }
        let admitted = self.admission.try_admit();
        assert(admitted);
        let id = self.next_id;
        self.next_id = id + 1;
        let fresh = Session { id, phase: SessionPhase::Connecting, devices: Vec::new() };
        self.sessions.push(fresh);
        proof {
            assert(self.sessions@.drop_last() =~= old(self).sessions@);
            assert(self.sessions@.last().devices@ =~= Seq::<DeviceRecord>::empty());
        }
        Some(id)
    }

    /// Close the session carrying `id`: remove it and return its admission.
    /// Serves the disconnect request, end-of-stream and handshake failure
    /// alike; a second close of the same identifier finds nothing and
    /// changes nothing, so the admission is released exactly once.
    pub fn close(&mut self, id: u64) -> (closed: bool)
        requires
            old(self).wf(),
        ensures
            final(self).wf(),
            final(self).cap() == old(self).cap(),
            final(self).next_session_id() == old(self).next_session_id(),
            match spec_index_of(old(self).sessions(), id) {
                Some(i) => {
                    &&& closed
                    &&& final(self).sessions() == old(self).sessions().remove(i)
                    &&& final(self).live_count() == old(self).live_count() - 1
                },
                None => !closed && *final(self) == *old(self),
            },
    {
        match self.find_session(id) {
            None => false,
            Some(i) => {
                self.sessions.remove(i);
                self.admission.release();
                true
            },
        }
    }

    /// On the socket's first readiness, a connecting session enters the
    /// handshake. Any other state of affairs changes nothing.
    pub fn begin_handshake(&mut self, id: u64) -> (started: bool)
        requires
            old(self).wf(),
        ensures
            final(self).wf(),
            final(self).cap() == old(self).cap(),
            final(self).next_session_id() == old(self).next_session_id(),
            final(self).live_count() == old(self).live_count(),
            match spec_index_of(old(self).sessions(), id) {
                Some(i) => if old(self).sessions()[i].phase is Connecting {
                    &&& started
                    &&& spec_updated_at(old(self).sessions(), final(self).sessions(), i)
                    &&& spec_same_except_phase(
                        old(self).sessions()[i],
                        final(self).sessions()[i],
                        SessionPhase::Handshaking,
                    )
                } else {
                    !started && *final(self) == *old(self)
                },
                None => !started && *final(self) == *old(self),
            },
    {
        match self.find_session(id) {
            None => false,
            Some(i) => {
                match self.sessions[i].phase {
                    SessionPhase::Connecting => {
                        let mut s = self.sessions.remove(i);
                        s.phase = SessionPhase::Handshaking;
                        self.sessions.insert(i, s);
                        true
                    },
                    _ => false,
                }
            },
        }
    }

    /// On handshake completion the session becomes active and owes the peer
    /// one seat announcement carrying every capability the host supports.
    /// The returned mask is the capability set to announce; announcing is
    /// best-effort on the wire, so no reply is waited for.
    pub fn complete_handshake(&mut self, id: u64) -> (r: Option<u32>)
        requires
            old(self).wf(),
        ensures
            final(self).wf(),
            final(self).cap() == old(self).cap(),
            final(self).next_session_id() == old(self).next_session_id(),
            final(self).live_count() == old(self).live_count(),
            match spec_index_of(old(self).sessions(), id) {
                Some(i) => if old(self).sessions()[i].phase is Handshaking {
                    &&& r == Some(CAP_ALL)
                    &&& spec_updated_at(old(self).sessions(), final(self).sessions(), i)
                    &&& spec_same_except_phase(
                        old(self).sessions()[i],
                        final(self).sessions()[i],
                        SessionPhase::Active,
                    )
                } else {
                    r is None && *final(self) == *old(self)
                },
                None => r is None && *final(self) == *old(self),
            },
    {
        match self.find_session(id) {
            None => None,
            Some(i) => {
                match self.sessions[i].phase {
                    SessionPhase::Handshaking => {
                        let mut s = self.sessions.remove(i);
                        s.phase = SessionPhase::Active;
                        self.sessions.insert(i, s);
                        Some(CAP_ALL)
                    },
                    _ => None,
                }
            },
        }
    }

    /// Record a device bound on an active session and return the wire work
    /// it owes, in order: the keymap transfer first where one was asked for
    /// and provided, the resume announcement last. The returned index names
    /// the new device.
    pub fn bind_device(&mut self, id: u64, caps: u32, keymap_size: Option<u32>) -> (r: Option<
        (usize, Vec<BindAction>),
    >)
        requires
            old(self).wf(),
        ensures
            final(self).wf(),
            final(self).cap() == old(self).cap(),
            final(self).next_session_id() == old(self).next_session_id(),
            final(self).live_count() == old(self).live_count(),
            match spec_index_of(old(self).sessions(), id) {
                Some(i) => if old(self).sessions()[i].phase is Active {
                    &&& r matches Some((d, plan))
                    &&& d == old(self).sessions()[i].devices@.len()
                    &&& plan@ == spec_bind_actions(caps, keymap_size)
                    &&& spec_updated_at(old(self).sessions(), final(self).sessions(), i)
                    &&& final(self).sessions()[i].id == old(self).sessions()[i].id
                    &&& final(self).sessions()[i].phase is Active
                    &&& final(self).sessions()[i].devices@ == old(
                        self,
                    ).sessions()[i].devices@.push(
                        (DeviceRecord {
                            caps,
                            keymap_attached: keymap_size is Some && spec_has_cap(
                                caps,
                                CAP_KEYBOARD,
                            ),
                        }),
                    )
                } else {
                    r is None && *final(self) == *old(self)
                },
                None => r is None && *final(self) == *old(self),
            },
    {
        match self.find_session(id) {
            None => None,
            Some(i) => {
                match self.sessions[i].phase {
                    SessionPhase::Active => {
                        let mut plan: Vec<BindAction> = Vec::new();
                        match keymap_size {
                            Some(size) => {
                                if has_cap(caps, CAP_KEYBOARD) {
                                    plan.push(BindAction::AttachKeymap { size });
                                }
                            },
                            None => {},
                        }
                        plan.push(BindAction::ResumeDevice);
                        proof {
                            assert(plan@ =~= spec_bind_actions(caps, keymap_size));
                        }
                        let attached = keymap_size.is_some() && has_cap(caps, CAP_KEYBOARD);
                        let rec = DeviceRecord { caps, keymap_attached: attached };
                        let mut s = self.sessions.remove(i);
                        let d = s.devices.len();
                        s.devices.push(rec);
                        self.sessions.insert(i, s);
                        Some((d, plan))
                    },
                    _ => None,
                }
            },
        }
    }

    /// Drive an active session's request loop by one frame. A malformed
    /// frame is skipped during the request loop but fatal during the
    /// handshake; a disconnect request closes the session; input requests
    /// go through the translator and state is never changed by them.
    pub fn handle_frame(&mut self, id: u64, frame: FrameEvent, snap: &HostSnapshot) -> (r:
        FrameDisposition)
        requires
            old(self).wf(),
            snap.wf(),
        ensures
            final(self).wf(),
            final(self).cap() == old(self).cap(),
            final(self).next_session_id() == old(self).next_session_id(),
            match spec_index_of(old(self).sessions(), id) {
                None => r == FrameDisposition::NoSession && *final(self) == *old(self),
                Some(i) => {
                    let phase = old(self).sessions()[i].phase;
                    match frame {
                        FrameEvent::Malformed => if phase is Active {
                            r == FrameDisposition::SkippedMalformed && *final(self) == *old(self)
                        } else {
                            &&& r == FrameDisposition::SessionClosed
                            &&& final(self).sessions() == old(self).sessions().remove(i)
                            &&& final(self).live_count() == old(self).live_count() - 1
                        },
                        FrameEvent::Request(preq) => if phase is Active {
                            match preq {
                                ProtocolRequest::Input(ireq) => {
                                    &&& *final(self) == *old(self)
                                    &&& r == (match spec_translate(
                                        ireq,
                                        snap.pointer,
                                        snap.outputs@,
                                        snap.active_output,
                                    ) {
                                        TranslateOutcome::Inject(inj) => FrameDisposition::Inject(
                                            inj,
                                        ),
                                        TranslateOutcome::Dropped(why) => FrameDisposition::Rejected(
                                            why,
                                        ),
                                    })
                                },
                                ProtocolRequest::Bind { caps } => {
                                    &&& *final(self) == *old(self)
                                    &&& r == (FrameDisposition::BindRequested {
                                        caps,
                                        needs_keymap: spec_has_cap(caps, CAP_KEYBOARD),
                                    })
                                },
                                ProtocolRequest::Disconnect => {
                                    &&& r == FrameDisposition::SessionClosed
                                    &&& final(self).sessions() == old(self).sessions().remove(i)
                                    &&& final(self).live_count() == old(self).live_count() - 1
                                },
                                _ => *final(self) == *old(self) && r
                                    == FrameDisposition::Bookkeeping,
                            }
                        } else {
                            r == FrameDisposition::NotReady && *final(self) == *old(self)
                        },
                    }
                },
            },
    {
        match self.find_session(id) {
            None => FrameDisposition::NoSession,
            Some(i) => {
                let is_active = match self.sessions[i].phase {
                    SessionPhase::Active => true,
                    _ => false,
                };
                match frame {
                    FrameEvent::Malformed => {
                        if is_active {
                            FrameDisposition::SkippedMalformed
                        } else {
                            let _closed = self.close(id);
                            FrameDisposition::SessionClosed
                        }
                    },
                    FrameEvent::Request(preq) => {
                        if !is_active {
                            FrameDisposition::NotReady
                        } else {
                            match preq {
                                ProtocolRequest::Input(ireq) => {
                                    match translate(&ireq, snap) {
                                        TranslateOutcome::Inject(inj) => FrameDisposition::Inject(
                                            inj,
                                        ),
                                        TranslateOutcome::Dropped(why) => FrameDisposition::Rejected(
                                            why,
                                        ),
                                    }
                                },
                                ProtocolRequest::Bind { caps } => {
                                    FrameDisposition::BindRequested {
                                        caps,
                                        needs_keymap: has_cap(caps, CAP_KEYBOARD),
                                    }
                                },
                                ProtocolRequest::Disconnect => {
                                    let _closed = self.close(id);
                                    FrameDisposition::SessionClosed
                                },
                                _ => FrameDisposition::Bookkeeping,
                            }
                        }
                    },
                }
            },
        }
    }
}

} // verus!
