//! The backends the desktop keeps, one per profile, and the decisions
//! taken while starting, watching and stopping them.

use vstd::prelude::*;
use crate::text::str_eq;

verus! {

/// A backend kept for a profile: the handle of its process, the port it
/// announced and the session token it was started with.
pub struct GatewayProcess<C> {
    pub child: C,
    pub port: u16,
    pub profile_key: String,
    pub session_token: String,
}

/// What the table remembers of a kept backend: its port and session token.
pub open spec fn record_of<C>(p: GatewayProcess<C>) -> (u16, Seq<char>) {
    (p.port, p.session_token@)
}

/// The kept backends, at most one per profile key.
pub struct GatewayTable<C> {
    procs: Vec<GatewayProcess<C>>,
}

pub open spec fn keys_of<C>(s: Seq<GatewayProcess<C>>) -> Seq<Seq<char>> {
    s.map_values(|p: GatewayProcess<C>| p.profile_key@)
}

pub open spec fn distinct_keys(keys: Seq<Seq<char>>) -> bool {
    forall|i: int, j: int| 0 <= i < j < keys.len() ==> keys[i] != keys[j]
}

/// The index of the last backend kept under `k`, or -1.
pub open spec fn key_index<C>(s: Seq<GatewayProcess<C>>, k: Seq<char>) -> int
    decreases s.len(),
{
    if s.len() == 0 {
        -1
    } else if s.last().profile_key@ == k {
        s.len() - 1
    } else {
        key_index(s.drop_last(), k)
    }
}

/// The table as a map from profile key to what it remembers of the
/// backend.
pub open spec fn table_map<C>(s: Seq<GatewayProcess<C>>) -> Map<Seq<char>, (u16, Seq<char>)> {
    Map::new(|k: Seq<char>| key_index(s, k) >= 0, |k: Seq<char>| record_of(s[key_index(s, k)]))
}

proof fn lemma_key_index<C>(s: Seq<GatewayProcess<C>>, k: Seq<char>)
    ensures
        -1 <= key_index(s, k) < s.len(),
        key_index(s, k) >= 0 ==> s[key_index(s, k)].profile_key@ == k,
        key_index(s, k) < 0 ==> forall|i: int| 0 <= i < s.len() ==> s[i].profile_key@ != k,
        forall|i: int| key_index(s, k) < i < s.len() ==> s[i].profile_key@ != k,
    decreases s.len(),
{
    if s.len() > 0 {
        lemma_key_index(s.drop_last(), k);
        assert forall|i: int| 0 <= i < s.len() - 1 implies s.drop_last()[i] == s[i] by {}
    }
}

proof fn lemma_table_at<C>(s: Seq<GatewayProcess<C>>, i: int)
    requires
        distinct_keys(keys_of(s)),
        0 <= i < s.len(),
    ensures
        table_map(s).contains_key(s[i].profile_key@),
        table_map(s)[s[i].profile_key@] == record_of(s[i]),
{
    let k = s[i].profile_key@;
    lemma_key_index(s, k);
    let w = key_index(s, k);
    assert(keys_of(s)[i] == k);
    if w < 0 {
        assert(s[i].profile_key@ != k);
    }
    assert(keys_of(s)[w] == k);
    if w < i {
        assert(keys_of(s)[w] != keys_of(s)[i]);
    } else if w > i {
        assert(keys_of(s)[i] != keys_of(s)[w]);
    }
}

proof fn lemma_key_at<C>(s: Seq<GatewayProcess<C>>, i: int)
    requires
        distinct_keys(keys_of(s)),
        0 <= i < s.len(),
    ensures
        key_index(s, s[i].profile_key@) == i,
{
    lemma_table_at(s, i);
    let k = s[i].profile_key@;
    lemma_key_index(s, k);
    let w = key_index(s, k);
    assert(keys_of(s)[i] == k);
    assert(keys_of(s)[w] == k);
    if w < i {
        assert(keys_of(s)[w] != keys_of(s)[i]);
    } else if w > i {
        assert(keys_of(s)[i] != keys_of(s)[w]);
    }
}

proof fn lemma_table_absent<C>(s: Seq<GatewayProcess<C>>, k: Seq<char>)
    requires
        forall|i: int| 0 <= i < s.len() ==> s[i].profile_key@ != k,
    ensures
        !table_map(s).contains_key(k),
{
    lemma_key_index(s, k);
}

impl<C> View for GatewayTable<C> {
    type V = Map<Seq<char>, (u16, Seq<char>)>;

    closed spec fn view(&self) -> Map<Seq<char>, (u16, Seq<char>)> {
        table_map(self.procs@)
    }
}

impl<C> GatewayTable<C> {
    /// The backend kept under the profile key, process handle included
    /// (meaningful when the key is in the table).
    pub closed spec fn stored(&self, k: Seq<char>) -> GatewayProcess<C> {
        self.procs@[key_index(self.procs@, k)]
    }

    /// No profile key occurs twice.
    pub closed spec fn wf(&self) -> bool {
        distinct_keys(keys_of(self.procs@))
    }

    /// A table that keeps no backend.
    pub fn new() -> (r: Self)
        ensures
            r.wf(),
            r@ == Map::<Seq<char>, (u16, Seq<char>)>::empty(),
    {
        let r = GatewayTable { procs: Vec::new() };
        assert(r@ =~= Map::<Seq<char>, (u16, Seq<char>)>::empty());
        r
    }

    fn find(&self, key: &str) -> (r: Option<usize>)
        requires
            self.wf(),
        ensures
            match r {
                Some(i) => i < self.procs@.len() && self.procs@[i as int].profile_key@ == key@,
                None => forall|i: int| 0 <= i < self.procs@.len() ==> self.procs@[i].profile_key@ != key@,
            },
    {
        let mut i: usize = 0;
        while i < self.procs.len()
            invariant
                i <= self.procs@.len(),
                forall|j: int| 0 <= j < i ==> self.procs@[j].profile_key@ != key@,
            decreases self.procs@.len() - i,
        {
            if str_eq(self.procs[i].profile_key.as_str(), key) {
                return Some(i);
            }
            i = i + 1;
        }
        None
    }

    /// Whether a backend is kept for the profile key.
    pub fn contains(&self, key: &str) -> (r: bool)
        requires
            self.wf(),
        ensures
            r == self@.contains_key(key@),
    {
        match self.find(key) {
            Some(i) => {
                proof {
                    lemma_table_at(self.procs@, i as int);
                }
                true
            },
            None => {
                proof {
                    lemma_table_absent(self.procs@, key@);
                }
                false
            },
        }
    }

    /// The port of the backend kept for the profile key.
    pub fn port(&self, key: &str) -> (r: Option<u16>)
        requires
            self.wf(),
        ensures
            r == (if self@.contains_key(key@) {
                Some(self@[key@].0)
            } else {
                None
            }),
    {
        match self.find(key) {
            Some(i) => {
                proof {
                    lemma_table_at(self.procs@, i as int);
                }
                Some(self.procs[i].port)
            },
            None => {
                proof {
                    lemma_table_absent(self.procs@, key@);
                }
                None
            },
        }
    }

    /// The session token of the backend kept for the profile key.
    pub fn session_token(&self, key: &str) -> (r: Option<String>)
        requires
            self.wf(),
        ensures
            match r {
                Some(t) => self@.contains_key(key@) && t@ == self@[key@].1,
                None => !self@.contains_key(key@),
            },
    {
        match self.find(key) {
            Some(i) => {
                proof {
                    lemma_table_at(self.procs@, i as int);
                }
                Some(self.procs[i].session_token.as_str().to_owned())
            },
            None => {
                proof {
                    lemma_table_absent(self.procs@, key@);
                }
                None
            },
        }
    }

    /// Keeps a backend under its profile key, in place of one kept there
    /// before.
    pub fn insert(&mut self, p: GatewayProcess<C>)
        requires
            old(self).wf(),
        ensures
            final(self).wf(),
            final(self)@ == old(self)@.insert(p.profile_key@, record_of(p)),
            final(self).stored(p.profile_key@) == p,
            forall|k: Seq<char>|
                k != p.profile_key@ && old(self)@.contains_key(k) ==> #[trigger] final(self).stored(k) == old(self).stored(k),
    {
        let ghost k = p.profile_key@;
        let ghost rec = record_of(p);
        let ghost s0 = self.procs@;
        match self.find(p.profile_key.as_str()) {
            Some(i) => {
                self.procs.set(i, p);
                let ghost s1 = self.procs@;
                assert(keys_of(s1) =~= keys_of(s0).update(i as int, k));
                assert(keys_of(s0)[i as int] == k);
                assert(keys_of(s1) =~= keys_of(s0));
                assert forall|k2: Seq<char>| #![trigger table_map(s1).dom().contains(k2)] #![trigger table_map(s0).insert(k, rec).dom().contains(k2)] table_map(s1).contains_key(k2) == table_map(s0).insert(k, rec).contains_key(k2)
                    && (table_map(s1).contains_key(k2) ==> table_map(s1)[k2] == table_map(s0).insert(k, rec)[k2]) by {
                    if k2 == k {
                        lemma_table_at(s1, i as int);
                    } else if table_map(s0).contains_key(k2) {
                        let j = key_index(s0, k2);
                        lemma_key_index(s0, k2);
                        assert(j != i);
                        lemma_table_at(s0, j);
                        assert(s1[j] == s0[j]);
                        lemma_table_at(s1, j);
                    } else {
                        lemma_key_index(s0, k2);
                        assert forall|j: int| 0 <= j < s1.len() implies s1[j].profile_key@ != k2 by {
                            if j != i {
                                assert(s1[j] == s0[j]);
                            }
                        }
                        lemma_table_absent(s1, k2);
                    }
                }
                assert(table_map(s1) =~= table_map(s0).insert(k, rec));
                proof {
                    lemma_key_at(s1, i as int);
                    assert forall|k2: Seq<char>| k2 != k && table_map(s0).contains_key(k2) implies s1[key_index(s1, k2)] == s0[key_index(s0, k2)] by {
                        let j = key_index(s0, k2);
                        lemma_key_index(s0, k2);
                        assert(j != i);
                        assert(s1[j] == s0[j]);
                        lemma_key_at(s1, j);
                    }
                }
            },
            None => {
                self.procs.push(p);
                let ghost s1 = self.procs@;
                let ghost n = s0.len() as int;
                assert(keys_of(s1) =~= keys_of(s0).push(k));
                assert forall|k2: Seq<char>| #![trigger table_map(s1).dom().contains(k2)] #![trigger table_map(s0).insert(k, rec).dom().contains(k2)] table_map(s1).contains_key(k2) == table_map(s0).insert(k, rec).contains_key(k2)
                    && (table_map(s1).contains_key(k2) ==> table_map(s1)[k2] == table_map(s0).insert(k, rec)[k2]) by {
                    if k2 == k {
                        lemma_table_at(s1, n);
                    } else if table_map(s0).contains_key(k2) {
                        let j = key_index(s0, k2);
                        lemma_key_index(s0, k2);
                        lemma_table_at(s0, j);
                        assert(s1[j] == s0[j]);
                        lemma_table_at(s1, j);
                    } else {
                        lemma_key_index(s0, k2);
                        assert forall|j: int| 0 <= j < s1.len() implies s1[j].profile_key@ != k2 by {
                            if j < n {
                                assert(s1[j] == s0[j]);
                            }
                        }
                        lemma_table_absent(s1, k2);
                    }
                }
                assert(table_map(s1) =~= table_map(s0).insert(k, rec));
                proof {
                    lemma_key_at(s1, n);
                    assert forall|k2: Seq<char>| k2 != k && table_map(s0).contains_key(k2) implies s1[key_index(s1, k2)] == s0[key_index(s0, k2)] by {
                        let j = key_index(s0, k2);
                        lemma_key_index(s0, k2);
                        assert(s1[j] == s0[j]);
                        lemma_key_at(s1, j);
                    }
                }
            },
        }
    }

    /// Stops keeping the backend of the profile key and hands it back.
    pub fn remove(&mut self, key: &str) -> (r: Option<GatewayProcess<C>>)
        requires
            old(self).wf(),
        ensures
            final(self).wf(),
            final(self)@ == old(self)@.remove(key@),
            match r {
                Some(p) => old(self)@.contains_key(key@) && p.profile_key@ == key@ && record_of(p) == old(self)@[key@]
                    && p == old(self).stored(key@),
                None => !old(self)@.contains_key(key@),
            },
            forall|k: Seq<char>| final(self)@.contains_key(k) ==> #[trigger] final(self).stored(k) == old(self).stored(k),
    {
        let ghost s0 = self.procs@;
        match self.find(key) {
            Some(i) => {
                proof {
                    lemma_table_at(s0, i as int);
                }
                let p = self.procs.remove(i);
                let ghost s1 = self.procs@;
                assert(s1 =~= s0.remove(i as int));
                assert(keys_of(s1) =~= keys_of(s0).remove(i as int));
                assert forall|k2: Seq<char>| #![trigger table_map(s1).dom().contains(k2)] #![trigger table_map(s0).remove(key@).dom().contains(k2)] table_map(s1).contains_key(k2) == table_map(s0).remove(key@).contains_key(k2)
                    && (table_map(s1).contains_key(k2) ==> table_map(s1)[k2] == table_map(s0).remove(key@)[k2]) by {
                    if k2 == key@ {
                        assert forall|j: int| 0 <= j < s1.len() implies s1[j].profile_key@ != k2 by {
                            if j < i {
                                assert(keys_of(s0)[j] != keys_of(s0)[i as int]);
                            } else {
                                assert(s1[j] == s0[j + 1]);
                                assert(keys_of(s0)[i as int] != keys_of(s0)[j + 1]);
                            }
                        }
                        lemma_table_absent(s1, k2);
                    } else if table_map(s0).contains_key(k2) {
                        let j = key_index(s0, k2);
                        lemma_key_index(s0, k2);
                        assert(j != i);
                        lemma_table_at(s0, j);
                        if j < i {
                            assert(s1[j] == s0[j]);
                            lemma_table_at(s1, j);
                        } else {
                            assert(s1[j - 1] == s0[j]);
                            lemma_table_at(s1, j - 1);
                        }
                    } else {
                        lemma_key_index(s0, k2);
                        assert forall|j: int| 0 <= j < s1.len() implies s1[j].profile_key@ != k2 by {
                            if j < i {
                                assert(s1[j] == s0[j]);
                            } else {
                                assert(s1[j] == s0[j + 1]);
                            }
                        }
                        lemma_table_absent(s1, k2);
                    }
                }
                assert(table_map(s1) =~= table_map(s0).remove(key@));
                proof {
                    lemma_key_at(s0, i as int);
                    assert forall|k2: Seq<char>| table_map(s1).contains_key(k2) implies s1[key_index(s1, k2)] == s0[key_index(s0, k2)] by {
                        assert(table_map(s0).remove(key@).contains_key(k2));
                        let j = key_index(s0, k2);
                        lemma_key_index(s0, k2);
                        assert(j != i);
                        if j < i {
                            assert(s1[j] == s0[j]);
                            lemma_key_at(s1, j);
                        } else {
                            assert(s1[j - 1] == s0[j]);
                            lemma_key_at(s1, j - 1);
                        }
                    }
                }
                Some(p)
            },
            None => {
                proof {
                    lemma_table_absent(s0, key@);
                }
                assert(self@ =~= old(self)@.remove(key@));
                None
            },
        }
    }
}

/// What a look at a child process found (`try_wait`): still running, gone,
/// or unknown because the look failed.
#[derive(Debug, Clone, Copy, PartialEq, Eq, Structural)]
pub enum ChildState {
    Running,
    Exited,
    Unknown,
}

/// The deadline for a starting backend to announce its port, in
/// milliseconds.
pub const PORT_DEADLINE_MS: u64 = 30000;

/// The time a stopping backend gets to exit before it is killed, in
/// milliseconds.
pub const STOP_GRACE_MS: u64 = 3000;

/// One look at a starting backend: the port it announced, `0` when it
/// exited first or the deadline passed, or `None` to look again later.
pub open spec fn port_wait_step(exited: bool, announced: Option<u16>, elapsed_ms: u64, deadline_ms: u64) -> Option<u16> {
    if exited {
        Some(0)
    } else if announced is Some {
        announced
    } else if elapsed_ms >= deadline_ms {
        Some(0)
    } else {
        None
    }
}

/// One look at a starting backend (see `port_wait_step`).
pub fn await_port_step(exited: bool, announced: Option<u16>, elapsed_ms: u64, deadline_ms: u64) -> (r: Option<u16>)
    ensures
        r == port_wait_step(exited, announced, elapsed_ms, deadline_ms),
{
    if exited {
        Some(0)
    } else if announced.is_some() {
        announced
    } else if elapsed_ms >= deadline_ms {
        Some(0)
    } else {
        None
    }
}

/// Whether a started backend counts as ready: it announced a port and
/// answered the handshake.
pub fn backend_ready(port: u16, handshake_ok: bool) -> (r: bool)
    ensures
        r == (port != 0 && handshake_ok),
{
    port != 0 && handshake_ok
}

/// What stopping a backend does after a look at it.
#[derive(Debug, Clone, Copy, PartialEq, Eq, Structural)]
pub enum StopStep {
    /// The process is gone (or cannot be looked at): stop waiting.
    Done,
    /// The grace period is over: kill it and wait for it.
    ForceKill,
    /// Look again shortly.
    Wait,
}

/// One look at a stopping backend: done when it exited or the look
/// failed; killed once the grace period is over; else wait.
pub fn stop_step(state: ChildState, elapsed_ms: u64) -> (r: StopStep)
    ensures
        r == (match state {
            ChildState::Exited => StopStep::Done,
            ChildState::Unknown => StopStep::Done,
            ChildState::Running => if elapsed_ms >= STOP_GRACE_MS {
                StopStep::ForceKill
            } else {
                StopStep::Wait
            },
        }),
{
    match state {
        ChildState::Exited => StopStep::Done,
        ChildState::Unknown => StopStep::Done,
        ChildState::Running => if elapsed_ms >= STOP_GRACE_MS {
            StopStep::ForceKill
        } else {
            StopStep::Wait
        },
    }
}

/// Whether a kept backend counts as running after a look at it, and
/// whether it stays kept: a running one is running and kept, an exited
/// one is neither, and one that could not be looked at is not running
/// but stays kept.
pub fn running_verdict(state: ChildState) -> (r: (bool, bool))
    ensures
        r == (state == ChildState::Running, state != ChildState::Exited),
{
    match state {
        ChildState::Running => (true, true),
        ChildState::Exited => (false, false),
        ChildState::Unknown => (false, true),
    }
}

/// A backend kept for a profile answers for that profile, with the port
/// and token it was kept with, until it is removed; keeping or removing
/// one leaves every other profile's backend as it was.
pub proof fn lemma_keep_then_read<C>(t: Map<Seq<char>, (u16, Seq<char>)>, p: GatewayProcess<C>, other: Seq<char>)
    requires
        other != p.profile_key@,
    ensures
        t.insert(p.profile_key@, record_of(p)).contains_key(p.profile_key@),
        t.insert(p.profile_key@, record_of(p))[p.profile_key@] == (p.port, p.session_token@),
        !t.insert(p.profile_key@, record_of(p)).remove(p.profile_key@).contains_key(p.profile_key@),
        t.insert(p.profile_key@, record_of(p)).contains_key(other) == t.contains_key(other),
        t.insert(p.profile_key@, record_of(p)).remove(p.profile_key@).contains_key(other) == t.contains_key(other),
        t.contains_key(other) ==> t.insert(p.profile_key@, record_of(p)).remove(p.profile_key@)[other] == t[other],
{
}

} // verus!
