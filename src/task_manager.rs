use vstd::prelude::*;

verus! {

/// How long, in milliseconds, the manager waits without any message before
/// it considers shutting down.
pub const IDLE_TIMEOUT_MS: u64 = 60000;

/// A message to the task manager.  Keys are task keys; sessions are the
/// identifiers that the host gave its background polling units.
#[derive(Clone, Debug)]
pub enum TaskMessage {
    /// Cancel and forget the session of a key, if there is one.
    Abort(String),
    /// Register a session under a key.  A key that already has a session
    /// keeps it, and the new session is cancelled, so that at most one
    /// session per key stays alive.
    Add(String, u64),
    /// Ask whether a session is registered under a key.
    Check(String),
    /// A session reports that it finished on its own.  It retires the key
    /// only while that session is the one registered there, so a late report
    /// of a replaced session leaves its successor in place.
    PollingDone(String, u64),
    /// Forward an event (topic, payload) to the subscribers.
    SendEvent(String, String),
    /// Count as activity without any other effect.
    ResetInactivityTimer,
    /// Stop the manager.
    Quit,
}

/// What the host has to carry out after the manager handled a message.
#[derive(Clone, Debug)]
pub enum TaskAction {
    /// Nothing to do.
    Nothing,
    /// Cancel the session with this identifier.
    Cancel(u64),
    /// Answer the sender of a `Check`.
    Reply(bool),
    /// Publish an event (topic, payload).
    Publish(String, String),
    /// Leave the control loop.
    Stop,
}

/// The abstract state of the manager: the session registry and the time of
/// the last activity.
pub struct ManagerView {
    pub sessions: Map<Seq<char>, u64>,
    pub last_activity: u64,
}

/// The state after activity at `now`, with a registry.
pub open spec fn touched(sessions: Map<Seq<char>, u64>, now: u64) -> ManagerView {
    ManagerView { sessions, last_activity: now }
}

/// The reaction of the manager to one message received at `now`.
pub open spec fn step(v: ManagerView, msg: TaskMessage, now: u64) -> (ManagerView, TaskAction) {
    match msg {
        TaskMessage::Abort(k) => if v.sessions.contains_key(k@) {
            (touched(v.sessions.remove(k@), now), TaskAction::Cancel(v.sessions[k@]))
        } else {
            (touched(v.sessions, now), TaskAction::Nothing)
        },
        TaskMessage::Add(k, id) => if v.sessions.contains_key(k@) {
            (touched(v.sessions, now), TaskAction::Cancel(id))
        } else {
            (touched(v.sessions.insert(k@, id), now), TaskAction::Nothing)
        },
        TaskMessage::Check(k) => (touched(v.sessions, now), TaskAction::Reply(v.sessions.contains_key(k@))),
        TaskMessage::PollingDone(k, id) => if v.sessions.contains_key(k@) && v.sessions[k@] == id {
            (touched(v.sessions.remove(k@), now), TaskAction::Nothing)
        } else {
            (touched(v.sessions, now), TaskAction::Nothing)
        },
        TaskMessage::SendEvent(topic, payload) => (touched(v.sessions, now), TaskAction::Publish(topic, payload)),
        TaskMessage::ResetInactivityTimer => (touched(v.sessions, now), TaskAction::Nothing),
        TaskMessage::Quit => (v, TaskAction::Stop),
    }
}

/// The moment at which the idle deadline of a state falls.
pub open spec fn idle_deadline(v: ManagerView) -> int {
    v.last_activity + IDLE_TIMEOUT_MS
}

/// Whether the idle deadline firing at `now` stops the manager: the window
/// has passed and no session is registered.
pub open spec fn idle_stops(v: ManagerView, now: u64) -> bool {
    now >= idle_deadline(v) && v.sessions.is_empty()
}

/// The state after the idle deadline fired at `now`: a registry with
/// sessions vetoes the shutdown and restarts the window.
pub open spec fn idle_next(v: ManagerView, now: u64) -> ManagerView {
    if now >= idle_deadline(v) && !v.sessions.is_empty() {
        touched(v.sessions, now)
    } else {
        v
    }
}

/// The sessions by task key, each key at most once.
struct Registry {
    entries: Vec<(String, u64)>,
    sessions: Ghost<Map<Seq<char>, u64>>,
}

impl Registry {
    closed spec fn view(&self) -> Map<Seq<char>, u64> {
        self.sessions@
    }

    /// The entries hold each key once and are exactly the registry.
    closed spec fn wf(&self) -> bool {
        &&& forall|i: int, j: int|
            0 <= i < j < self.entries@.len() ==> #[trigger] self.entries@[i].0@ != #[trigger] self.entries@[j].0@
        &&& forall|i: int|
            0 <= i < self.entries@.len() ==> {
                &&& self.sessions@.contains_key(#[trigger] self.entries@[i].0@)
                &&& self.sessions@[self.entries@[i].0@] == self.entries@[i].1
            }
        &&& forall|k: Seq<char>|
            #[trigger] self.sessions@.contains_key(k) ==> exists|i: int|
                0 <= i < self.entries@.len() && #[trigger] self.entries@[i].0@ == k
    }

    fn new() -> (r: Self)
        ensures
            r.wf(),
            r.view() == Map::<Seq<char>, u64>::empty(),
    {
        Registry { entries: Vec::new(), sessions: Ghost(Map::empty()) }
    }

    /// The number of registered sessions.
    fn len(&self) -> (r: usize)
        requires
            self.wf(),
        ensures
            r as nat == self.view().len(),
    {
        proof {
            self.lemma_len();
        }
        self.entries.len()
    }

    proof fn lemma_len(&self)
        requires
            self.wf(),
        ensures
            self.sessions@.len() == self.entries@.len(),
            self.sessions@.dom().finite(),
    {
        let keys = Seq::new(self.entries@.len(), |i: int| self.entries@[i].0@);
        assert(keys.no_duplicates()) by {
            assert forall|i: int, j: int| 0 <= i < keys.len() && 0 <= j < keys.len() && i != j implies keys[i] != keys[j] by {
                if i < j {
                    assert(self.entries@[i].0@ != self.entries@[j].0@);
                } else {
                    assert(self.entries@[j].0@ != self.entries@[i].0@);
                }
            }
        }
        assert(keys.to_set() =~= self.sessions@.dom()) by {
            assert forall|k: Seq<char>| keys.to_set().contains(k) <==> self.sessions@.dom().contains(k) by {
                if self.sessions@.contains_key(k) {
                    let i = choose|i: int| 0 <= i < self.entries@.len() && #[trigger] self.entries@[i].0@ == k;
                    assert(keys[i] == k);
                }
                if keys.to_set().contains(k) {
                    let i = choose|i: int| 0 <= i < keys.len() && keys[i] == k;
                    assert(self.entries@[i].0@ == k);
                }
            }
        }
        keys.unique_seq_to_set();
    }

    /// The position of a key among the entries.
    fn find(&self, key: &String) -> (r: Option<usize>)
        requires
            self.wf(),
        ensures
            r is None <==> !self.view().contains_key(key@),
            r matches Some(i) ==> i < self.entries@.len() && self.entries@[i as int].0@ == key@,
    {
        let mut i: usize = 0;
        while i < self.entries.len()
            invariant
                self.wf(),
                i <= self.entries@.len(),
                forall|j: int| 0 <= j < i ==> #[trigger] self.entries@[j].0@ != key@,
            decreases self.entries@.len() - i,
        {
            if self.entries[i].0 == *key {
                proof {
                    assert(self.sessions@.contains_key(self.entries@[i as int].0@));
                }
                return Some(i);
            }
            i = i + 1;
        }
        None
    }

    /// Forgets the entry at `i` and hands back its session.
    fn remove_at(&mut self, i: usize) -> (id: u64)
        requires
            old(self).wf(),
            i < old(self).entries@.len(),
        ensures
            final(self).wf(),
            old(self).view().contains_key(old(self).entries@[i as int].0@),
            id == old(self).view()[old(self).entries@[i as int].0@],
            final(self).view() == old(self).view().remove(old(self).entries@[i as int].0@),
    {
        let ghost old_entries = self.entries@;
        let ghost key = self.entries@[i as int].0@;
        let entry = self.entries.remove(i);
        self.sessions = Ghost(self.sessions@.remove(key));
        proof {
            let n = self.entries@;
            assert forall|a: int, b: int| 0 <= a < b < n.len() implies #[trigger] n[a].0@ != #[trigger] n[b].0@ by {
                let oa = if a < i { a } else { a + 1 };
                let ob = if b < i { b } else { b + 1 };
                assert(n[a] == old_entries[oa]);
                assert(n[b] == old_entries[ob]);
                assert(old_entries[oa].0@ != old_entries[ob].0@);
            }
            assert forall|a: int| 0 <= a < n.len() implies {
                &&& self.sessions@.contains_key(#[trigger] n[a].0@)
                &&& self.sessions@[n[a].0@] == n[a].1
            } by {
                let oa = if a < i { a } else { a + 1 };
                assert(n[a] == old_entries[oa]);
                if oa < i {
                    assert(old_entries[oa].0@ != old_entries[i as int].0@);
                } else {
                    assert(old_entries[i as int].0@ != old_entries[oa].0@);
                }
            }
            assert forall|k: Seq<char>| #[trigger] self.sessions@.contains_key(k) implies exists|a: int|
                0 <= a < n.len() && #[trigger] n[a].0@ == k by {
                let m = choose|m: int| 0 <= m < old_entries.len() && #[trigger] old_entries[m].0@ == k;
                assert(m != i);
                if m < i {
                    assert(n[m] == old_entries[m]);
                } else {
                    assert(n[m - 1] == old_entries[m]);
                }
            }
        }
        entry.1
    }

    /// Registers a session under a key that has none.
    fn push(&mut self, key: String, id: u64)
        requires
            old(self).wf(),
            !old(self).view().contains_key(key@),
        ensures
            final(self).wf(),
            final(self).view() == old(self).view().insert(key@, id),
    {
        let ghost old_entries = self.entries@;
        let ghost k = key@;
        self.entries.push((key, id));
        self.sessions = Ghost(self.sessions@.insert(k, id));
        proof {
            let n = self.entries@;
            assert(n[n.len() - 1].0@ == k);
            assert forall|a: int, b: int| 0 <= a < b < n.len() implies #[trigger] n[a].0@ != #[trigger] n[b].0@ by {
                assert(n[a] == old_entries[a]);
                if b < old_entries.len() {
                    assert(n[b] == old_entries[b]);
                } else {
                    assert(old(self).sessions@.contains_key(old_entries[a].0@));
                }
            }
            assert forall|a: int| 0 <= a < n.len() implies {
                &&& self.sessions@.contains_key(#[trigger] n[a].0@)
                &&& self.sessions@[n[a].0@] == n[a].1
            } by {
                if a < old_entries.len() {
                    assert(n[a] == old_entries[a]);
                    assert(old(self).sessions@.contains_key(old_entries[a].0@));
                }
            }
            assert forall|kk: Seq<char>| #[trigger] self.sessions@.contains_key(kk) implies exists|a: int|
                0 <= a < n.len() && #[trigger] n[a].0@ == kk by {
                if kk == k {
                    assert(n[n.len() - 1].0@ == kk);
                } else {
                    let m = choose|m: int| 0 <= m < old_entries.len() && #[trigger] old_entries[m].0@ == kk;
                    assert(n[m] == old_entries[m]);
                }
            }
        }
    }

    /// Whether a session is registered under a key.
    fn contains(&self, key: &String) -> (r: bool)
        requires
            self.wf(),
        ensures
            r == self.view().contains_key(key@),
    {
        self.find(key).is_some()
    }

}

/// The single owner of the session registry.  Every change to it is the
/// reaction to one message, in the order in which they arrive.
pub struct TaskManager {
    registry: Registry,
    last_activity: u64,
}

impl TaskManager {
    pub closed spec fn view(&self) -> ManagerView {
        ManagerView { sessions: self.registry.view(), last_activity: self.last_activity }
    }

    pub closed spec fn wf(&self) -> bool {
        self.registry.wf()
    }

    /// A manager with an empty registry whose last activity is `now`.
    pub fn new(now: u64) -> (r: Self)
        ensures
            r.wf(),
            r.view().sessions == Map::<Seq<char>, u64>::empty(),
            r.view().last_activity == now,
    {
        TaskManager { registry: Registry::new(), last_activity: now }
    }

    /// The number of registered sessions.
    pub fn len(&self) -> (r: usize)
        requires
            self.wf(),
        ensures
            r as nat == self.view().sessions.len(),
    {
        self.registry.len()
    }

    /// Whether a session is registered under a key.
    pub fn contains(&self, key: &String) -> (r: bool)
        requires
            self.wf(),
        ensures
            r == self.view().sessions.contains_key(key@),
    {
        self.registry.contains(key)
    }

    /// The moment at which the manager considers an idle shutdown, saturated
    /// at the largest time that can be represented.
    pub fn deadline(&self) -> (r: u64)
        ensures
            r as int == if idle_deadline(self.view()) <= u64::MAX as int {
                idle_deadline(self.view())
            } else {
                u64::MAX as int
            },
    {
        self.last_activity.saturating_add(IDLE_TIMEOUT_MS)
    }

    /// Handles one message received at `now` and says what the host must do.
    pub fn handle(&mut self, msg: TaskMessage, now: u64) -> (r: TaskAction)
        requires
            old(self).wf(),
        ensures
            final(self).wf(),
            (final(self).view(), r) == step(old(self).view(), msg, now),
    {
        match msg {
            TaskMessage::Abort(key) => {
                self.last_activity = now;
                match self.registry.find(&key) {
                    Some(i) => TaskAction::Cancel(self.registry.remove_at(i)),
                    None => TaskAction::Nothing,
                }
            },
            TaskMessage::Add(key, id) => {
                self.last_activity = now;
                if self.contains(&key) {
                    TaskAction::Cancel(id)
                } else {
                    self.registry.push(key, id);
                    TaskAction::Nothing
                }
            },
            TaskMessage::Check(key) => {
                self.last_activity = now;
                TaskAction::Reply(self.contains(&key))
            },
            TaskMessage::PollingDone(key, id) => {
                self.last_activity = now;
                match self.registry.find(&key) {
                    Some(i) => {
                        if self.registry.entries[i].1 == id {
                            self.registry.remove_at(i);
                        }
                    },
                    None => {},
                }
                TaskAction::Nothing
            },
            TaskMessage::SendEvent(topic, payload) => {
                self.last_activity = now;
                TaskAction::Publish(topic, payload)
            },
            TaskMessage::ResetInactivityTimer => {
                self.last_activity = now;
                TaskAction::Nothing
            },
            TaskMessage::Quit => TaskAction::Stop,
        }
    }

    /// Called when the idle deadline fires at `now`.  With an empty registry
    /// the manager stops (returns `true`); with running sessions it keeps
    /// going and the deadline starts over.  A deadline that fires early
    /// changes nothing.
    pub fn on_idle_deadline(&mut self, now: u64) -> (stop: bool)
        requires
            old(self).wf(),
        ensures
            final(self).wf(),
            stop == idle_stops(old(self).view(), now),
            final(self).view() == idle_next(old(self).view(), now),
    {
        if (now as u128) < (self.last_activity as u128) + (IDLE_TIMEOUT_MS as u128) {
            false
        } else if self.len() == 0 {
            proof {
                self.registry.lemma_len();
                assert(self.registry.sessions@.dom() =~= Set::<Seq<char>>::empty());
            }
            true
        } else {
            proof {
                self.registry.lemma_len();
                if self.registry.sessions@.is_empty() {
                    assert(self.registry.sessions@.dom() =~= Set::<Seq<char>>::empty());
                }
            }
            self.last_activity = now;
            false
        }
    }
}

/// The registry traffic of one login for `key`: ask whether a session
/// runs, cancel it if so, then register the new session `id`.  Returns the
/// state after it and the actions in order.
pub open spec fn login_traffic(v: ManagerView, key: String, id: u64, now: u64) -> (ManagerView, Seq<TaskAction>) {
    let (v1, a1) = step(v, TaskMessage::Check(key), now);
    if v.sessions.contains_key(key@) {
        let (v2, a2) = step(v1, TaskMessage::Abort(key), now);
        let (v3, a3) = step(v2, TaskMessage::Add(key, id), now);
        (v3, seq![a1, a2, a3])
    } else {
        let (v3, a3) = step(v1, TaskMessage::Add(key, id), now);
        (v3, seq![a1, a3])
    }
}

/// Two logins for one key, one after the other, leave exactly one session
/// registered for it, the later one; the earlier one is cancelled, and so is
/// any session that ran for the key before.  Other keys keep their sessions.
pub proof fn lemma_logins_in_turn_keep_one_session(v: ManagerView, key: String, first: u64, second: u64, now: u64)
    ensures
        ({
            let (v1, acts1) = login_traffic(v, key, first, now);
            let (v2, acts2) = login_traffic(v1, key, second, now);
            &&& v2.sessions == v.sessions.insert(key@, second)
            &&& acts2.contains(TaskAction::Cancel(first))
            &&& v.sessions.contains_key(key@) ==> acts1.contains(TaskAction::Cancel(v.sessions[key@]))
        }),
{
    let (v1, acts1) = login_traffic(v, key, first, now);
    let (v2, acts2) = login_traffic(v1, key, second, now);
    assert(v1.sessions =~= v.sessions.insert(key@, first));
    assert(acts2[1] == TaskAction::Cancel(first));
    assert(v2.sessions =~= v.sessions.insert(key@, second));
    if v.sessions.contains_key(key@) {
        assert(acts1[1] == TaskAction::Cancel(v.sessions[key@]));
    }
}

/// Two logins for one key whose checks both come before either registers:
/// the first registration wins and the second session is cancelled on
/// arrival, so exactly one session stays registered for the key.
pub proof fn lemma_overlapping_logins_keep_one_session(v: ManagerView, key: String, first: u64, second: u64, now: u64)
    ensures
        ({
            let (v1, _) = step(v, TaskMessage::Check(key), now);
            let (v2, _) = step(v1, TaskMessage::Check(key), now);
            let (v3, _) = step(v2, TaskMessage::Abort(key), now);
            let (v4, _) = step(v3, TaskMessage::Abort(key), now);
            let (v5, _) = step(v4, TaskMessage::Add(key, first), now);
            let (v6, refused) = step(v5, TaskMessage::Add(key, second), now);
            &&& v6.sessions == v.sessions.insert(key@, first)
            &&& refused == TaskAction::Cancel(second)
        }),
{
    let (v1, _) = step(v, TaskMessage::Check(key), now);
    let (v2, _) = step(v1, TaskMessage::Check(key), now);
    let (v3, _) = step(v2, TaskMessage::Abort(key), now);
    let (v4, _) = step(v3, TaskMessage::Abort(key), now);
    assert(!v4.sessions.contains_key(key@));
    let (v5, _) = step(v4, TaskMessage::Add(key, first), now);
    assert(v5.sessions =~= v.sessions.insert(key@, first));
}

/// `Check` answers true for a key exactly between the registration of a
/// session and its retirement, whether by `PollingDone` or by `Abort`.
pub proof fn lemma_check_between_add_and_retire(v: ManagerView, key: String, id: u64, now: u64)
    requires
        !v.sessions.contains_key(key@),
    ensures
        step(v, TaskMessage::Check(key), now).1 == TaskAction::Reply(false),
        ({
            let (added, _) = step(v, TaskMessage::Add(key, id), now);
            let (done, _) = step(added, TaskMessage::PollingDone(key, id), now);
            let (aborted, cancel) = step(added, TaskMessage::Abort(key), now);
            &&& step(added, TaskMessage::Check(key), now).1 == TaskAction::Reply(true)
            &&& step(done, TaskMessage::Check(key), now).1 == TaskAction::Reply(false)
            &&& step(aborted, TaskMessage::Check(key), now).1 == TaskAction::Reply(false)
            &&& cancel == TaskAction::Cancel(id)
        }),
{
}

/// Once the inactivity window has passed, an empty registry stops the
/// manager, while a registry with sessions keeps it running and restarts
/// the window from `now`.
pub proof fn lemma_idle_shutdown(v: ManagerView, now: u64)
    requires
        now >= idle_deadline(v),
    ensures
        v.sessions.is_empty() ==> idle_stops(v, now),
        !v.sessions.is_empty() ==> !idle_stops(v, now) && idle_next(v, now) == touched(v.sessions, now),
        idle_deadline(idle_next(v, now)) > now || idle_stops(v, now),
{
}

/// The session identifiers that a registry holds.
pub open spec fn registered(sessions: Map<Seq<char>, u64>, id: u64) -> bool {
    exists|k: Seq<char>| #[trigger] sessions.contains_key(k) && sessions[k] == id
}

/// Whatever the order of the messages, no session runs unregistered: a
/// session that was registered, or that a message hands in, is registered
/// after the message unless the manager tells the host to cancel it or the
/// session itself reported that it finished.  With at most one session per
/// key in the registry, at most one session per key stays alive.
pub proof fn lemma_no_session_runs_unregistered(v: ManagerView, msg: TaskMessage, now: u64, id: u64)
    requires
        registered(v.sessions, id) || (msg matches TaskMessage::Add(_, added) && added == id),
    ensures
        ({
            let (next, action) = step(v, msg, now);
            ||| registered(next.sessions, id)
            ||| action == TaskAction::Cancel(id)
            ||| msg matches TaskMessage::PollingDone(_, done) && done == id
        }),
{
    let (next, action) = step(v, msg, now);
    if registered(v.sessions, id) {
        let k = choose|k: Seq<char>| #[trigger] v.sessions.contains_key(k) && v.sessions[k] == id;
        match msg {
            TaskMessage::Abort(key) => {
                if key@ != k {
                    assert(next.sessions.contains_key(k) && next.sessions[k] == id);
                }
            },
            TaskMessage::Add(..) => {
                assert(next.sessions.contains_key(k) && next.sessions[k] == id);
            },
            TaskMessage::PollingDone(key, done) => {
                if key@ != k {
                    assert(next.sessions.contains_key(k) && next.sessions[k] == id);
                } else if done != id {
                    assert(next.sessions.contains_key(k) && next.sessions[k] == id);
                }
            },
            _ => {
                assert(next.sessions.contains_key(k) && next.sessions[k] == id);
            },
        }
    } else {
        if let TaskMessage::Add(key, added) = msg {
            if !v.sessions.contains_key(key@) {
                assert(next.sessions.contains_key(key@) && next.sessions[key@] == id);
            }
        }
    }
}

/// The state after a history of messages, all received at `now`.
pub open spec fn run(v: ManagerView, msgs: Seq<TaskMessage>, now: u64) -> ManagerView
    decreases msgs.len(),
{
    if msgs.len() == 0 {
        v
    } else {
        step(run(v, msgs.drop_last(), now), msgs.last(), now).0
    }
}

/// Whether a message ends the session `id` of key `k`: an abort of the key,
/// or the session reporting that it finished.
pub open spec fn closes(m: TaskMessage, k: Seq<char>, id: u64) -> bool {
    match m {
        TaskMessage::Abort(key) => key@ == k,
        TaskMessage::PollingDone(key, done) => key@ == k && done == id,
        _ => false,
    }
}

/// The `i`-th message registers session `id` under `k`: it adds it while
/// no session ran for the key.
pub open spec fn accepted_at(v: ManagerView, msgs: Seq<TaskMessage>, i: int, k: Seq<char>, id: u64, now: u64) -> bool {
    &&& msgs[i] matches TaskMessage::Add(key, added) && key@ == k && added == id
    &&& !run(v, msgs.take(i), now).sessions.contains_key(k)
}

/// Some message of the history registered session `id` under `k`, and no
/// later message ended it.
pub open spec fn open_in(v: ManagerView, msgs: Seq<TaskMessage>, k: Seq<char>, id: u64, now: u64) -> bool {
    exists|i: int|
        0 <= i < msgs.len() && #[trigger] accepted_at(v, msgs, i, k, id, now) && forall|j: int|
            i < j < msgs.len() ==> !closes(#[trigger] msgs[j], k, id)
}

/// The registry holds session `id` for `k`.
pub open spec fn holds(v: ManagerView, k: Seq<char>, id: u64) -> bool {
    v.sessions.contains_key(k) && v.sessions[k] == id
}

/// Over any history of messages that starts from an empty registry, a key
/// has the session `id` exactly when a message registered it and no later
/// message aborted the key or retired that session; so `Check` answers true
/// exactly between the registration and its end.
pub proof fn lemma_registry_history(v: ManagerView, msgs: Seq<TaskMessage>, k: Seq<char>, id: u64, now: u64)
    requires
        v.sessions == Map::<Seq<char>, u64>::empty(),
    ensures
        holds(run(v, msgs, now), k, id) <==> open_in(v, msgs, k, id, now),
    decreases msgs.len(),
{
    if msgs.len() == 0 {
        assert(!holds(run(v, msgs, now), k, id));
    } else {
        let n = msgs.len() - 1;
        let prefix = msgs.drop_last();
        let m = msgs[n];
        lemma_registry_history(v, prefix, k, id, now);
        let prev = run(v, prefix, now);
        let next = run(v, msgs, now);
        assert(next == step(prev, m, now).0);
        assert(msgs.take(n) =~= prefix);
        assert forall|i: int| 0 <= i < n implies (#[trigger] accepted_at(v, prefix, i, k, id, now) <==> accepted_at(
            v,
            msgs,
            i,
            k,
            id,
            now,
        )) by {
            assert(prefix.take(i) =~= msgs.take(i));
            assert(prefix[i] == msgs[i]);
        }
        if holds(next, k, id) {
            if holds(prev, k, id) {
                let i = choose|i: int|
                    0 <= i < prefix.len() && #[trigger] accepted_at(v, prefix, i, k, id, now) && forall|j: int|
                        i < j < prefix.len() ==> !closes(#[trigger] prefix[j], k, id);
                assert(!closes(m, k, id));
                assert(accepted_at(v, msgs, i, k, id, now));
                assert forall|j: int| i < j < msgs.len() implies !closes(#[trigger] msgs[j], k, id) by {
                    if j < n {
                        assert(msgs[j] == prefix[j]);
                    }
                }
            } else {
                assert(accepted_at(v, msgs, n, k, id, now));
            }
        } else if open_in(v, msgs, k, id, now) {
            let i = choose|i: int|
                0 <= i < msgs.len() && #[trigger] accepted_at(v, msgs, i, k, id, now) && forall|j: int|
                    i < j < msgs.len() ==> !closes(#[trigger] msgs[j], k, id);
            if i < n {
                assert forall|j: int| i < j < prefix.len() implies !closes(#[trigger] prefix[j], k, id) by {
                    assert(prefix[j] == msgs[j]);
                    assert(!closes(msgs[j], k, id));
                }
                assert(accepted_at(v, prefix, i, k, id, now));
                assert(open_in(v, prefix, k, id, now));
                assert(!closes(msgs[n], k, id));
            }
        }
    }
}

/// Whether a message ends whatever session runs for `k`.
pub open spec fn ends_key(m: TaskMessage, k: Seq<char>) -> bool {
    match m {
        TaskMessage::Abort(key) => key@ == k,
        TaskMessage::PollingDone(key, _) => key@ == k,
        _ => false,
    }
}

/// Some message of the history added a session for `k`, and no later
/// message aborted the key or reported a session of it finished.
pub open spec fn added_and_not_ended(msgs: Seq<TaskMessage>, k: Seq<char>) -> bool {
    exists|i: int|
        0 <= i < msgs.len() && (#[trigger] msgs[i] matches TaskMessage::Add(key, _) && key@ == k) && forall|j: int|
            i < j < msgs.len() ==> !ends_key(#[trigger] msgs[j], k)
}

/// Every finish report in the history comes from the session registered
/// for its key at that moment, as a cancelled session never reports.
pub open spec fn reports_from_registered(v: ManagerView, msgs: Seq<TaskMessage>, now: u64) -> bool {
    forall|j: int|
        0 <= j < msgs.len() ==> (#[trigger] msgs[j] matches TaskMessage::PollingDone(key, done) ==> holds(
            run(v, msgs.take(j), now),
            key@,
            done,
        ))
}

/// Over any history that starts from an empty registry and in which only
/// registered sessions report that they finished, `Check(k)` answers true
/// exactly when some `Add` for `k` came and no `Abort(k)` or finish report
/// for `k` came after it; the `Check` leaves the registry as it was.
pub proof fn lemma_check_history(v: ManagerView, msgs: Seq<TaskMessage>, key: String, now: u64)
    requires
        v.sessions == Map::<Seq<char>, u64>::empty(),
        reports_from_registered(v, msgs, now),
    ensures
        run(v, msgs, now).sessions.contains_key(key@) <==> added_and_not_ended(msgs, key@),
        step(run(v, msgs, now), TaskMessage::Check(key), now).1 == TaskAction::Reply(
            added_and_not_ended(msgs, key@),
        ),
        step(run(v, msgs, now), TaskMessage::Check(key), now).0.sessions == run(v, msgs, now).sessions,
    decreases msgs.len(),
{
    let k = key@;
    if msgs.len() > 0 {
        let n = msgs.len() - 1;
        let prefix = msgs.drop_last();
        let m = msgs[n];
        assert(reports_from_registered(v, prefix, now)) by {
            assert forall|j: int| 0 <= j < prefix.len() implies (#[trigger] prefix[j] matches TaskMessage::PollingDone(
                kk,
                done,
            ) ==> holds(run(v, prefix.take(j), now), kk@, done)) by {
                assert(prefix[j] == msgs[j]);
                assert(prefix.take(j) =~= msgs.take(j));
            }
        }
        lemma_check_history(v, prefix, key, now);
        let prev = run(v, prefix, now);
        let next = run(v, msgs, now);
        assert(next == step(prev, m, now).0);
        assert(msgs.take(n) =~= prefix);
        if let TaskMessage::PollingDone(kk, done) = m {
            assert(holds(prev, kk@, done));
        }
        if next.sessions.contains_key(k) {
            assert(!ends_key(m, k));
            if prev.sessions.contains_key(k) {
                let i = choose|i: int|
                    0 <= i < prefix.len() && (#[trigger] prefix[i] matches TaskMessage::Add(kk, _) && kk@ == k)
                        && forall|j: int| i < j < prefix.len() ==> !ends_key(#[trigger] prefix[j], k);
                assert(msgs[i] == prefix[i]);
                assert forall|j: int| i < j < msgs.len() implies !ends_key(#[trigger] msgs[j], k) by {
                    if j < n {
                        assert(msgs[j] == prefix[j]);
                    }
                }
            } else {
                assert(msgs[n] matches TaskMessage::Add(kk, _) && kk@ == k);
            }
        } else if added_and_not_ended(msgs, k) {
            let i = choose|i: int|
                0 <= i < msgs.len() && (#[trigger] msgs[i] matches TaskMessage::Add(kk, _) && kk@ == k) && forall|j: int|
                    i < j < msgs.len() ==> !ends_key(#[trigger] msgs[j], k);
            if i < n {
                assert(prefix[i] == msgs[i]);
                assert forall|j: int| i < j < prefix.len() implies !ends_key(#[trigger] prefix[j], k) by {
                    assert(prefix[j] == msgs[j]);
                    assert(!ends_key(msgs[j], k));
                }
                assert(added_and_not_ended(prefix, k));
                assert(!ends_key(msgs[n], k));
            }
        }
    }
}

} // verus!
