//! The session registry: the directory of live pseudo-terminal sessions keyed
//! by identifier, with the spawn / write / read operations of the session
//! manager. Every operation keeps the registry well formed (no two sessions
//! share an identifier) and touches no session other than the one it names.

use vstd::prelude::*;
use crate::errors::{KernelError, KernelErrorKind, not_found_text, transport_text};
use crate::outside::{decode_lossy, generate_session_id, lossy_of};

verus! {

/// One managed session: a pseudo-terminal-backed child process under its
/// identifier, the text its reader pipeline has accumulated so far, and
/// whether that pipeline is still running. The writable side of the PTY
/// master is an OS handle; the host shell acquires it exactly once at spawn
/// time and keeps it beside this record for the session's whole lifetime.
pub struct PtyHandle {
    pub(crate) id: String,
    pub(crate) output_buffer: String,
    pub(crate) alive: bool,
}

/// The session registry: every session under management.
pub struct KernelState {
    pub(crate) sessions: Vec<PtyHandle>,
}

impl KernelState {
    /// How many sessions the registry holds.
    pub closed spec fn count(&self) -> nat {
        self.sessions@.len()
    }

    /// Well-formed: no two sessions share an identifier.
    pub closed spec fn wf(&self) -> bool {
        forall|i: int, j: int|
            0 <= i < j < self.sessions@.len() ==> self.sessions@[i].id@ != self.sessions@[j].id@
    }

    /// Whether a session with this identifier is registered.
    pub closed spec fn contains_id(&self, id: Seq<char>) -> bool {
        exists|i: int| 0 <= i < self.sessions@.len() && self.sessions@[i].id@ == id
    }

    /// The position of the session with this identifier.
    pub(crate) closed spec fn index_of(&self, id: Seq<char>) -> int {
        choose|i: int| 0 <= i < self.sessions@.len() && self.sessions@[i].id@ == id
    }

    /// The accumulated output of the session with this identifier.
    pub closed spec fn output_of(&self, id: Seq<char>) -> Seq<char> {
        self.sessions@[self.index_of(id)].output_buffer@
    }

    /// Whether the reader pipeline of this session is still running.
    pub closed spec fn alive_of(&self, id: Seq<char>) -> bool {
        self.sessions@[self.index_of(id)].alive
    }

    /// An empty registry: no sessions at all.
    pub fn new() -> (s: KernelState)
        ensures
            s.wf(),
            s.count() == 0,
            forall|id: Seq<char>| !s.contains_id(id),
    {
        KernelState { sessions: Vec::new() }
    }

    /// A registry that holds some identifier holds at least one session.
    proof fn lemma_contains_nonempty(&self, id: Seq<char>)
        requires
            self.contains_id(id),
        ensures
            self.count() > 0,
    {
        let i = choose|i: int| 0 <= i < self.sessions@.len() && self.sessions@[i].id@ == id;
    }

    /// In a well-formed registry the position of an identifier is unique.
    proof fn lemma_index_unique(&self, i: int, id: Seq<char>)
        requires
            self.wf(),
            0 <= i < self.sessions@.len(),
            self.sessions@[i].id@ == id,
        ensures
            self.contains_id(id),
            self.index_of(id) == i,
            self.output_of(id) == self.sessions@[i].output_buffer@,
            self.alive_of(id) == self.sessions@[i].alive,
    {
        assert(self.contains_id(id)) by {
            assert(0 <= i < self.sessions@.len() && self.sessions@[i].id@ == id);
        }
        let j = self.index_of(id);
        assert(0 <= j < self.sessions@.len() && self.sessions@[j].id@ == id);
        if i < j {
            assert(self.sessions@[i].id@ != self.sessions@[j].id@);
        } else if j < i {
            assert(self.sessions@[j].id@ != self.sessions@[i].id@);
        }
    }

    /// Finds the position of a session, scanning the registry.
    pub(crate) fn find_session(&self, id: &String) -> (r: Option<usize>)
        requires
            self.wf(),
        ensures
            match r {
                Some(k) => k < self.sessions@.len() && self.sessions@[k as int].id@ == id@
                    && self.contains_id(id@) && self.index_of(id@) == k as int,
                None => !self.contains_id(id@),
            },
    {
        let mut k: usize = 0;
        while k < self.sessions.len()
            invariant
                self.wf(),
                k <= self.sessions@.len(),
                forall|i: int| 0 <= i < k as int ==> self.sessions@[i].id@ != id@,
            decreases self.sessions@.len() - k as int,
        {
            if self.sessions[k].id == *id {
                proof {
                    self.lemma_index_unique(k as int, id@);
                }
                return Some(k);
            }
            k = k + 1;
        }
        proof {
            if self.contains_id(id@) {
                let i = choose|i: int|
                    0 <= i < self.sessions@.len() && self.sessions@[i].id@ == id@;
                assert(self.sessions@[i].id@ != id@);
            }
        }
        None
    }

    /// How many sessions the registry holds.
    pub fn session_count(&self) -> (n: usize)
        ensures
            n == self.count(),
    {
        self.sessions.len()
    }

    /// Whether the reader pipeline of a registered session is still running.
    pub fn session_alive(&self, id: &String) -> (r: Result<bool, KernelError>)
        requires
            self.wf(),
        ensures
            match r {
                Ok(b) => self.contains_id(id@) && b == self.alive_of(id@),
                Err(e) => !self.contains_id(id@) && e.kind == KernelErrorKind::SessionNotFound
                    && e.message@ == not_found_text(id@),
            },
    {
        match self.find_session(id) {
            Some(k) => Ok(self.sessions[k].alive),
            None => Err(KernelError::session_not_found(id)),
        }
    }

    /// Inserts a brand-new session under `id`: empty output, pipeline running.
    /// Succeeds exactly when the identifier is not yet registered; a collision
    /// is rejected as a transport-category failure and changes nothing.
    pub fn register_session(&mut self, id: String) -> (r: Result<(), KernelError>)
        requires
            old(self).wf(),
        ensures
            final(self).wf(),
            match r {
                Ok(()) => registered(*old(self), *final(self), id@),
                Err(e) => *final(self) == *old(self) && old(self).contains_id(id@)
                    && e.kind == KernelErrorKind::Transport && e.message@ == transport_text(
                    "session identifier collision"@,
                ),
            },
    {
        let ghost pre = *self;
        match self.find_session(&id) {
            Some(_) => {
                let cause = "session identifier collision".to_owned();
                Err(KernelError::transport_failure(&cause))
            },
            None => {
                let handle = PtyHandle { id, output_buffer: String::new(), alive: true };
                let ghost h = handle;
                self.sessions.push(handle);
                proof {
                    assert(self.sessions@ == pre.sessions@.push(h));
                    lemma_push_frame(pre, *self, h.id@);
                    self.lemma_index_unique(pre.sessions@.len() as int, h.id@);
                }
                Ok(())
            },
        }
    }

    /// Appends a freshly read chunk, lossily decoded, to the session's output.
    /// No other session's state moves.
    pub fn append_output(&mut self, id: &String, chunk: &[u8]) -> (r: Result<(), KernelError>)
        requires
            old(self).wf(),
        ensures
            final(self).wf(),
            match r {
                Ok(()) => appended(*old(self), *final(self), id@, chunk@),
                Err(e) => *final(self) == *old(self) && !old(self).contains_id(id@)
                    && e.kind == KernelErrorKind::SessionNotFound
                    && e.message@ == not_found_text(id@),
            },
    {
        let ghost pre = *self;
        match self.find_session(id) {
            None => Err(KernelError::session_not_found(id)),
            Some(k) => {
                let text = decode_lossy(chunk);
                self.sessions[k].output_buffer.append(text.as_str());
                proof {
                    lemma_update_frame(pre, *self, k as int, id@);
                }
                Ok(())
            },
        }
    }

    /// Records that the session's reader pipeline has terminated. The
    /// accumulated output stays readable; no other session's state moves.
    pub(crate) fn close_session(&mut self, id: &String) -> (r: Result<(), KernelError>)
        requires
            old(self).wf(),
        ensures
            final(self).wf(),
            match r {
                Ok(()) => closure_marked(*old(self), *final(self), id@),
                Err(e) => *final(self) == *old(self) && !old(self).contains_id(id@)
                    && e.kind == KernelErrorKind::SessionNotFound
                    && e.message@ == not_found_text(id@),
            },
    {
        let ghost pre = *self;
        match self.find_session(id) {
            None => Err(KernelError::session_not_found(id)),
            Some(k) => {
                self.sessions[k].alive = false;
                proof {
                    lemma_update_frame(pre, *self, k as int, id@);
                }
                Ok(())
            },
        }
    }
}

/// Every session other than `id` is exactly as it was in `pre`.
pub open spec fn others_unchanged(pre: KernelState, post: KernelState, id: Seq<char>) -> bool {
    forall|other: Seq<char>|
        #![trigger pre.contains_id(other)]
        #![trigger post.contains_id(other)]
        other != id ==> (post.contains_id(other) == pre.contains_id(other) && (pre.contains_id(
            other,
        ) ==> post.output_of(other) == pre.output_of(other) && post.alive_of(other)
            == pre.alive_of(other)))
}

/// `post` is `pre` with a fresh session `id` added: empty output, pipeline
/// running, every other session untouched.
pub open spec fn registered(pre: KernelState, post: KernelState, id: Seq<char>) -> bool {
    &&& !pre.contains_id(id)
    &&& post.contains_id(id)
    &&& post.output_of(id) == Seq::<char>::empty()
    &&& post.alive_of(id)
    &&& post.count() == pre.count() + 1
    &&& others_unchanged(pre, post, id)
}

/// `post` is `pre` with the lossy decoding of `chunk` appended to the output
/// of session `id`, and nothing else moved.
pub open spec fn appended(pre: KernelState, post: KernelState, id: Seq<char>, chunk: Seq<u8>) -> bool {
    &&& pre.contains_id(id)
    &&& post.contains_id(id)
    &&& post.output_of(id) == pre.output_of(id) + lossy_of(chunk)
    &&& post.alive_of(id) == pre.alive_of(id)
    &&& post.count() == pre.count()
    &&& others_unchanged(pre, post, id)
}

/// `post` is `pre` with the pipeline of session `id` marked terminated, its
/// output kept, and nothing else moved.
pub open spec fn closure_marked(pre: KernelState, post: KernelState, id: Seq<char>) -> bool {
    &&& pre.contains_id(id)
    &&& post.contains_id(id)
    &&& post.output_of(id) == pre.output_of(id)
    &&& !post.alive_of(id)
    &&& post.count() == pre.count()
    &&& others_unchanged(pre, post, id)
}

/// Appending one element that carries a fresh identifier keeps the registry
/// well formed and leaves every existing session untouched.
proof fn lemma_push_frame(pre: KernelState, post: KernelState, id: Seq<char>)
    requires
        pre.wf(),
        !pre.contains_id(id),
        post.sessions@.len() == pre.sessions@.len() + 1,
        forall|i: int| 0 <= i < pre.sessions@.len() ==> post.sessions@[i] == pre.sessions@[i],
        post.sessions@[pre.sessions@.len() as int].id@ == id,
    ensures
        post.wf(),
        post.contains_id(id),
        post.index_of(id) == pre.sessions@.len() as int,
        others_unchanged(pre, post, id),
{
    let n = pre.sessions@.len() as int;
    assert forall|i: int| 0 <= i < n implies post.sessions@[i].id@ != id by {
        if post.sessions@[i].id@ == id {
            assert(pre.sessions@[i].id@ == id);
            assert(pre.contains_id(id));
        }
    }
    assert forall|i: int, j: int|
        0 <= i < j < post.sessions@.len() implies post.sessions@[i].id@
        != post.sessions@[j].id@ by {
        if j < n {
            assert(pre.sessions@[i].id@ != pre.sessions@[j].id@);
        } else {
            assert(post.sessions@[j].id@ == id);
        }
    }
    assert(post.wf());
    post.lemma_index_unique(n, id);
    assert forall|other: Seq<char>| other != id implies (post.contains_id(other)
        == pre.contains_id(other) && (pre.contains_id(other) ==> post.output_of(other)
        == pre.output_of(other) && post.alive_of(other) == pre.alive_of(other))) by {
        if pre.contains_id(other) {
            let i = choose|i: int| 0 <= i < pre.sessions@.len() && pre.sessions@[i].id@ == other;
            pre.lemma_index_unique(i, other);
            post.lemma_index_unique(i, other);
        } else if post.contains_id(other) {
            let k = choose|k: int| 0 <= k < post.sessions@.len() && post.sessions@[k].id@ == other;
            if k < n {
                assert(pre.sessions@[k].id@ == other);
                assert(pre.contains_id(other));
            } else {
                assert(post.sessions@[k].id@ == id);
            }
        }
    }
}

/// Replacing the record at one position, identifier kept, keeps the registry
/// well formed and leaves every other session untouched.
proof fn lemma_update_frame(pre: KernelState, post: KernelState, k: int, id: Seq<char>)
    requires
        pre.wf(),
        0 <= k < pre.sessions@.len(),
        pre.sessions@[k].id@ == id,
        post.sessions@.len() == pre.sessions@.len(),
        forall|i: int|
            0 <= i < pre.sessions@.len() && i != k ==> post.sessions@[i] == pre.sessions@[i],
        post.sessions@[k].id@ == id,
    ensures
        post.wf(),
        pre.contains_id(id),
        pre.index_of(id) == k,
        post.contains_id(id),
        post.index_of(id) == k,
        post.count() == pre.count(),
        others_unchanged(pre, post, id),
{
    assert forall|i: int| 0 <= i < post.sessions@.len() implies post.sessions@[i].id@
        == pre.sessions@[i].id@ by {}
    assert(post.wf());
    pre.lemma_index_unique(k, id);
    post.lemma_index_unique(k, id);
    assert forall|other: Seq<char>| other != id implies (post.contains_id(other)
        == pre.contains_id(other) && (pre.contains_id(other) ==> post.output_of(other)
        == pre.output_of(other) && post.alive_of(other) == pre.alive_of(other))) by {
        if pre.contains_id(other) {
            let i = choose|i: int| 0 <= i < pre.sessions@.len() && pre.sessions@[i].id@ == other;
            pre.lemma_index_unique(i, other);
            assert(i != k);
            post.lemma_index_unique(i, other);
        } else if post.contains_id(other) {
            let j = choose|j: int| 0 <= j < post.sessions@.len() && post.sessions@[j].id@ == other;
            assert(pre.sessions@[j].id@ == other);
            assert(pre.contains_id(other));
        }
    }
}

/// The outcome of asking the pseudo-terminal transport for a new session: the
/// PTY pair was allocated, the child started and both master-side handles
/// taken — or it failed, with the underlying cause text.
pub enum TransportOutcome {
    Ready,
    Failed(String),
}

/// Spawn: after the transport has prepared a new PTY-backed child, generates a
/// fresh identifier and registers the session (empty output, pipeline
/// running). A transport failure — and the practically impossible identifier
/// collision — is surfaced as a transport-category error and registers
/// nothing: no partial state is retained. On an empty registry no collision is
/// possible, so a ready transport there is owed a successful registration.
pub fn lito_spawn(state: &mut KernelState, transport: TransportOutcome) -> (r: Result<
    String,
    KernelError,
>)
    requires
        old(state).wf(),
    ensures
        final(state).wf(),
        match r {
            Ok(id) => transport is Ready && id@.len() == 36 && registered(
                *old(state),
                *final(state),
                id@,
            ),
            Err(e) => *final(state) == *old(state) && e.kind == KernelErrorKind::Transport,
        },
        transport matches TransportOutcome::Failed(cause) ==> (r matches Err(e) && e.message@
            == transport_text(cause@)),
        transport is Ready && old(state).count() == 0 ==> r is Ok,
        transport is Ready ==> (r matches Err(e) ==> old(state).count() > 0 && e.message@
            == transport_text("session identifier collision"@)),
{
    match transport {
        TransportOutcome::Failed(cause) => Err(KernelError::transport_failure(&cause)),
        TransportOutcome::Ready => {
            let id = generate_session_id();
            match state.register_session(id.clone()) {
                Ok(()) => Ok(id),
                Err(e) => {
                    proof {
                        state.lemma_contains_nonempty(id@);
                    }
                    Err(e)
                },
            }
        },
    }
}

/// Write: confirms the named session is registered, so the host shell may
/// deliver the payload through the session's stored writer handle; an unknown
/// identifier is rejected and nothing is touched. Succeeds exactly when the
/// session is registered — a session is never unregistered by reads, appends
/// or pipeline closure, so repeated writes stay authorized.
pub fn lito_write_pty(state: &KernelState, id: &String) -> (r: Result<(), KernelError>)
    requires
        state.wf(),
    ensures
        r is Ok <==> state.contains_id(id@),
        r matches Err(e) ==> e.kind == KernelErrorKind::SessionNotFound && e.message@
            == not_found_text(id@),
{
    match state.find_session(id) {
        Some(_) => Ok(()),
        None => Err(KernelError::session_not_found(id)),
    }
}

/// Read: returns a snapshot copy of the session's accumulated output — the
/// whole cumulative content, not a delta. Never blocks on pipeline progress
/// and never mutates the registry; an unknown identifier is rejected.
pub fn lito_read_pty(state: &KernelState, id: &String) -> (r: Result<String, KernelError>)
    requires
        state.wf(),
    ensures
        match r {
            Ok(text) => state.contains_id(id@) && text@ == state.output_of(id@),
            Err(e) => !state.contains_id(id@) && e.kind == KernelErrorKind::SessionNotFound
                && e.message@ == not_found_text(id@),
        },
{
    match state.find_session(id) {
        Some(k) => Ok(state.sessions[k].output_buffer.clone()),
        None => Err(KernelError::session_not_found(id)),
    }
}

/// Monotonic growth: the output a read returns before a pipeline append is a
/// prefix of the output it returns after it — accumulated output is never
/// truncated or reordered.
pub proof fn lemma_output_monotonic(pre: KernelState, post: KernelState, id: Seq<char>, chunk: Seq<u8>)
    requires
        appended(pre, post, id, chunk),
    ensures
        pre.output_of(id).is_prefix_of(post.output_of(id)),
{
    assert(pre.output_of(id) =~= post.output_of(id).subrange(0, pre.output_of(id).len() as int));
}

/// Session isolation: appending output for one session leaves every other
/// session's registration, output, and liveness exactly as they were.
pub proof fn lemma_append_isolated(
    pre: KernelState,
    post: KernelState,
    id: Seq<char>,
    chunk: Seq<u8>,
    other: Seq<char>,
)
    requires
        appended(pre, post, id, chunk),
        other != id,
    ensures
        post.contains_id(other) == pre.contains_id(other),
        pre.contains_id(other) ==> post.output_of(other) == pre.output_of(other)
            && post.alive_of(other) == pre.alive_of(other),
{
    assert(post.contains_id(other) == pre.contains_id(other));
}

/// One transition of the session manager: a registration, an output append,
/// or a pipeline closure, for some target session.
pub open spec fn manager_step(
    pre: KernelState,
    post: KernelState,
    target: Seq<char>,
    chunk: Seq<u8>,
) -> bool {
    ||| registered(pre, post, target)
    ||| appended(pre, post, target, chunk)
    ||| closure_marked(pre, post, target)
}

/// Sessions persist: no registration, output append, or pipeline closure ever
/// evicts a session, so an identifier the registry holds stays valid — in
/// particular a second write to a session is authorized exactly like the
/// first.
pub proof fn lemma_sessions_persist(
    pre: KernelState,
    post: KernelState,
    target: Seq<char>,
    chunk: Seq<u8>,
    id: Seq<char>,
)
    requires
        pre.contains_id(id),
        manager_step(pre, post, target, chunk),
    ensures
        post.contains_id(id),
{
    if id == target {
        assert(post.contains_id(id));
    } else {
        assert(post.contains_id(id) == pre.contains_id(id));
    }
}

/// A prefix of a prefix is a prefix.
proof fn lemma_prefix_transitive(a: Seq<char>, b: Seq<char>, c: Seq<char>)
    requires
        a.is_prefix_of(b),
        b.is_prefix_of(c),
    ensures
        a.is_prefix_of(c),
{
    assert forall|t: int| 0 <= t < a.len() implies a[t] == c.subrange(0, a.len() as int)[t] by {
        assert(a[t] == b.subrange(0, a.len() as int)[t]);
        assert(b[t] == c.subrange(0, b.len() as int)[t]);
    }
    assert(a =~= c.subrange(0, a.len() as int));
}

/// Monotonic growth through one manager transition, whatever its target: a
/// registered session stays registered and its output is only ever extended.
pub proof fn lemma_step_monotonic(
    pre: KernelState,
    post: KernelState,
    target: Seq<char>,
    chunk: Seq<u8>,
    id: Seq<char>,
)
    requires
        pre.contains_id(id),
        manager_step(pre, post, target, chunk),
    ensures
        post.contains_id(id),
        pre.output_of(id).is_prefix_of(post.output_of(id)),
{
    lemma_sessions_persist(pre, post, target, chunk, id);
    if id == target && registered(pre, post, target) {
        assert(false);
    }
    if id == target && appended(pre, post, target, chunk) {
        assert(pre.output_of(id) =~= post.output_of(id).subrange(
            0,
            pre.output_of(id).len() as int,
        ));
    } else {
        assert(post.output_of(id) == pre.output_of(id));
        assert(pre.output_of(id) =~= post.output_of(id).subrange(
            0,
            pre.output_of(id).len() as int,
        ));
    }
}

/// Monotonic growth over a whole run: across any sequence of manager
/// transitions — registrations, appends, closures, with any targets — a
/// session registered at one point stays registered, and its output snapshot
/// at any earlier point is a prefix of its snapshot at any later point.
pub proof fn lemma_run_monotonic(
    states: Seq<KernelState>,
    targets: Seq<Seq<char>>,
    chunks: Seq<Seq<u8>>,
    id: Seq<char>,
    i: int,
    j: int,
)
    requires
        states.len() == targets.len() + 1,
        chunks.len() == targets.len(),
        forall|k: int|
            0 <= k < targets.len() ==> manager_step(states[k], states[k + 1], targets[k], chunks[k]),
        0 <= i <= j < states.len(),
        states[i].contains_id(id),
    ensures
        states[j].contains_id(id),
        states[i].output_of(id).is_prefix_of(states[j].output_of(id)),
    decreases j - i,
{
    if i == j {
        assert(states[i].output_of(id) =~= states[j].output_of(id).subrange(
            0,
            states[i].output_of(id).len() as int,
        ));
    } else {
        assert(manager_step(states[i], states[i + 1], targets[i], chunks[i]));
        lemma_step_monotonic(states[i], states[i + 1], targets[i], chunks[i], id);
        lemma_run_monotonic(states, targets, chunks, id, i + 1, j);
        lemma_prefix_transitive(
            states[i].output_of(id),
            states[i + 1].output_of(id),
            states[j].output_of(id),
        );
    }
}

/// Distinct identifiers over a whole run: however many sessions are spawned,
/// the identifiers of the successful registrations are pairwise distinct — an
/// identifier is never handed out twice.
pub proof fn lemma_spawn_run_distinct(states: Seq<KernelState>, ids: Seq<Seq<char>>, i: int, j: int)
    requires
        states.len() == ids.len() + 1,
        forall|k: int| 0 <= k < ids.len() ==> registered(states[k], states[k + 1], ids[k]),
        0 <= i < j < ids.len(),
    ensures
        ids[i] != ids[j],
{
    let chunks = Seq::<Seq<u8>>::new(ids.len(), |k: int| Seq::<u8>::empty());
    assert forall|k: int|
        0 <= k < ids.len() implies manager_step(states[k], states[k + 1], ids[k], chunks[k]) by {
        assert(registered(states[k], states[k + 1], ids[k]));
    }
    assert(registered(states[i], states[i + 1], ids[i]));
    lemma_run_monotonic(states, ids, chunks, ids[i], i + 1, j);
    assert(registered(states[j], states[j + 1], ids[j]));
}

/// Distinct identifiers: a successful spawn registers an identifier the
/// registry did not yet hold, so it differs from every session already
/// registered, and those sessions all survive the spawn.
pub proof fn lemma_spawn_id_fresh(
    pre: KernelState,
    post: KernelState,
    id: Seq<char>,
    other: Seq<char>,
)
    requires
        registered(pre, post, id),
        pre.contains_id(other),
    ensures
        id != other,
        post.contains_id(other),
{
    assert(post.contains_id(other) == pre.contains_id(other));
}

} // verus!
