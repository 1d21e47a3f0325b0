use vstd::prelude::*;
use vstd::string::StringExecFns;

use crate::errors::SimulatorError;

verus! {

// The session registry: one live capture pipeline per simulator identity.
// Creation is two-phase, as it must be under concurrency — look up, build a
// session outside the lock, then commit. When two callers raced past the
// lookup, the commit retains exactly one session and hands the other back to
// its builder, who must tear its process down rather than leak it.

/// One live stream session: the identity it serves, the transport handle it
/// exposes, and the backing process to kill on teardown.
#[derive(Debug)]
pub struct StreamSession {
    pub identity: String,
    pub stream_url: String,
    pub process_id: u64,
}

/// The registry of live sessions, keyed by simulator identity.
pub struct SessionRegistry {
    entries: Vec<StreamSession>,
}

impl SessionRegistry {
    /// The sessions currently retained, in insertion order.
    pub closed spec fn sessions(&self) -> Seq<StreamSession> {
        self.entries@
    }

    /// No two retained sessions serve the same identity.
    pub open spec fn wf(&self) -> bool {
        forall|i: int, j: int|
            0 <= i < j < self.sessions().len() ==> self.sessions()[i].identity@
                != self.sessions()[j].identity@
    }

    pub open spec fn has_identity(&self, id: Seq<char>) -> bool {
        exists|k: int| 0 <= k < self.sessions().len() && #[trigger] self.sessions()[k].identity@ == id
    }

    /// An empty registry.
    pub fn new() -> (r: SessionRegistry)
        ensures
            r.wf(),
            r.sessions().len() == 0,
    {
        SessionRegistry { entries: Vec::new() }
    }

    /// Phase one of `get_or_create`: under the lock, the cached transport
    /// handle for this identity, if a session is live.
    pub fn lookup(&self, identity: &String) -> (r: Option<String>)
        ensures
            (r is Some) == self.has_identity(identity@),
            r matches Some(url) ==> exists|k: int|
                0 <= k < self.sessions().len() && #[trigger] self.sessions()[k].identity@
                    == identity@ && url@ == self.sessions()[k].stream_url@,
    {
        let n = self.entries.len();
        let mut i: usize = 0;
        while i < n
            invariant
                i <= n,
                n == self.sessions().len(),
                forall|k: int| 0 <= k < i ==> #[trigger] self.sessions()[k].identity@ != identity@,
            decreases n - i,
        {
            if self.entries[i].identity.eq(identity) {
                return Some(self.entries[i].stream_url.clone());
            }
            i = i + 1;
        }
        None
    }

    /// Phase two: commits a freshly built session. If some racer already
    /// retained a session for this identity, the registry is unchanged and
    /// the newcomer is handed back — its caller must kill its process, not
    /// leak it. Otherwise the session is retained.
    pub fn insert_session(&mut self, session: StreamSession) -> (loser: Option<StreamSession>)
        requires
            old(self).wf(),
        ensures
            final(self).wf(),
            old(self).has_identity(session.identity@) ==> {
                &&& final(self).sessions() == old(self).sessions()
                &&& loser matches Some(s) && s == session
            },
            !old(self).has_identity(session.identity@) ==> {
                &&& final(self).sessions() == old(self).sessions().push(session)
                &&& loser is None
            },
    {
        let n = self.entries.len();
        let mut i: usize = 0;
        while i < n
            invariant
                i <= n,
                n == self.sessions().len(),
                old(self).wf(),
                self.sessions() == old(self).sessions(),
                forall|k: int|
                    0 <= k < i ==> #[trigger] self.sessions()[k].identity@ != session.identity@,
            decreases n - i,
        {
            if self.entries[i].identity.eq(&session.identity) {
                return Some(session);
            }
            i = i + 1;
        }
        self.entries.push(session);
        None
    }

    /// `get_or_create`, with the construction done by the caller: returns the
    /// transport handle to use, and the orphaned session to tear down when
    /// this caller lost the creation race.
    pub fn get_or_create(&mut self, session: StreamSession) -> (r: (String, Option<StreamSession>))
        requires
            old(self).wf(),
        ensures
            final(self).wf(),
            old(self).has_identity(session.identity@) ==> {
                &&& final(self).sessions() == old(self).sessions()
                &&& r.1 matches Some(s) && s == session
                &&& exists|k: int|
                    0 <= k < old(self).sessions().len()
                        && #[trigger] old(self).sessions()[k].identity@ == session.identity@
                        && r.0@ == old(self).sessions()[k].stream_url@
            },
            !old(self).has_identity(session.identity@) ==> {
                &&& final(self).sessions() == old(self).sessions().push(session)
                &&& r.1 is None
                &&& r.0@ == session.stream_url@
            },
    {
        match self.lookup(&session.identity) {
            Some(url) => {
                let loser = self.insert_session(session);
                match loser {
                    Some(s) => (url, Some(s)),
                    None => {
                        proof {
                            assert(false);
                        }
                        (url, None)
                    },
                }
            },
            None => {
                let url = session.stream_url.clone();
                let loser = self.insert_session(session);
                proof {
                    assert(loser is None);
                }
                (url, None)
            },
        }
    }

    /// Tears an identity's session out of the registry; the caller kills the
    /// returned session's process. Every other identity is untouched.
    pub fn remove(&mut self, identity: &String) -> (r: Option<StreamSession>)
        requires
            old(self).wf(),
        ensures
            final(self).wf(),
            (r is Some) == old(self).has_identity(identity@),
            r matches Some(s) ==> {
                &&& s.identity@ == identity@
                &&& !final(self).has_identity(identity@)
                &&& final(self).sessions().len() == old(self).sessions().len() - 1
            },
            r is None ==> final(self).sessions() == old(self).sessions(),
            forall|id: Seq<char>|
                id != identity@ ==> final(self).has_identity(id) == old(self).has_identity(id),
    {
        let n = self.entries.len();
        let mut i: usize = 0;
        while i < n
            invariant
                i <= n,
                n == self.sessions().len(),
                old(self).wf(),
                self.sessions() == old(self).sessions(),
                forall|k: int| 0 <= k < i ==> #[trigger] self.sessions()[k].identity@ != identity@,
            decreases n - i,
        {
            if self.entries[i].identity.eq(identity) {
                let s = self.entries.remove(i);
                proof {
                    let olds = old(self).sessions();
                    assert(self.sessions() =~= olds.subrange(0, i as int) + olds.subrange(
                        i as int + 1,
                        olds.len() as int,
                    ));
                    assert forall|k: int|
                        0 <= k < self.sessions().len() implies #[trigger] self.sessions()[k].identity@
                        != identity@ by {
                        if k < i {
                            assert(self.sessions()[k] == olds[k]);
                        } else {
                            assert(self.sessions()[k] == olds[k + 1]);
                        }
                    }
                    assert forall|id: Seq<char>|
                        id != identity@ implies final(self).has_identity(id) == old(
                        self,
                    ).has_identity(id) by {
                        if old(self).has_identity(id) {
                            let k = choose|k: int|
                                0 <= k < olds.len() && #[trigger] olds[k].identity@ == id;
                            if k < i {
                                assert(self.sessions()[k].identity@ == id);
                            } else {
                                assert(k != i);
                                assert(self.sessions()[k - 1].identity@ == id);
                            }
                        }
                        if self.has_identity(id) {
                            let k = choose|k: int|
                                0 <= k < self.sessions().len()
                                    && #[trigger] self.sessions()[k].identity@ == id;
                            if k < i {
                                assert(olds[k].identity@ == id);
                            } else {
                                assert(olds[k + 1].identity@ == id);
                            }
                        }
                    }
                }
                return Some(s);
            }
            i = i + 1;
        }
        None
    }
}

/// One identity, at most one retained session: in a well-formed registry any
/// two entries serving the same identity are the same entry, so `"X"` is
/// backed by exactly one live process however many callers raced on it.
pub proof fn lemma_one_session_per_identity(r: &SessionRegistry, id: Seq<char>, k1: int, k2: int)
    requires
        r.wf(),
        0 <= k1 < r.sessions().len(),
        0 <= k2 < r.sessions().len(),
        r.sessions()[k1].identity@ == id,
        r.sessions()[k2].identity@ == id,
    ensures
        k1 == k2,
{
}

/// The session bookkeeping of the streaming layer: at most one current
/// session and the id of the backing server process, if one was spawned.
pub struct SessionManager {
    current_session: Option<SessionInfo>,
    server_process: Option<u64>,
}

/// A touch event kind, as the input side channel names them.
#[derive(Debug, Clone, Copy, PartialEq, Eq, Structural)]
pub enum TouchType {
    /// Touch down.
    Down,
    /// Touch move.
    Move,
    /// Touch up.
    Up,
}

/// A hardware button of the simulated device.
#[derive(Debug, Clone, Copy, PartialEq, Eq, Structural)]
pub enum Button {
    /// Home button.
    Home,
    /// Lock or sleep button.
    Lock,
    /// Volume up.
    VolumeUp,
    /// Volume down.
    VolumeDown,
}

/// Information about a simulator session.
#[derive(Debug, Clone)]
pub struct SessionInfo {
    /// Simulator identity.
    pub udid: String,
    /// Project path.
    pub project_path: String,
    /// Stream URL.
    pub stream_url: Option<String>,
    /// Screen width.
    pub width: u32,
    /// Screen height.
    pub height: u32,
}

impl SessionManager {
    pub closed spec fn spec_current(&self) -> Option<SessionInfo> {
        self.current_session
    }

    pub closed spec fn spec_process(&self) -> Option<u64> {
        self.server_process
    }

    /// A manager with no session.
    pub fn new() -> (r: SessionManager)
        ensures
            r.spec_current() is None,
            r.spec_process() is None,
    {
        SessionManager { current_session: None, server_process: None }
    }

    /// Starts a session for a simulator: any previous session is stopped
    /// first, and the new session's transport handle is returned.
    pub fn start_session(
        &mut self,
        udid: String,
        project_path: String,
        width: u32,
        height: u32,
    ) -> (r: Result<String, SimulatorError>)
        ensures
            final(self).spec_process() is None,
            r matches Ok(url) ==> {
                &&& url@ == "http://localhost:8080/stream.mjpeg"@
                &&& final(self).spec_current() matches Some(s) && (s.udid@ == udid@
                    && s.project_path@ == project_path@ && s.width == width && s.height == height
                    && (s.stream_url matches Some(u) && u@ == url@))
            },
            r is Ok,
    {
        let stopped = self.stop_session();
        proof {
            assert(stopped is Ok);
        }
        let stream_url = String::from_str("http://localhost:8080/stream.mjpeg");
        self.current_session = Some(
            SessionInfo {
                udid,
                project_path,
                stream_url: Some(stream_url.clone()),
                width,
                height,
            },
        );
        Ok(stream_url)
    }

    /// Stops the current session, forgetting both the session and the process
    /// handle. Killing the process itself is the registry owner's duty, via
    /// the id this manager reported when the process was attached.
    pub fn stop_session(&mut self) -> (r: Result<(), SimulatorError>)
        ensures
            r is Ok,
            final(self).spec_current() is None,
            final(self).spec_process() is None,
    {
        self.server_process = None;
        self.current_session = None;
        Ok(())
    }

    /// The current session, if one is live.
    pub fn current_session(&self) -> (r: Option<&SessionInfo>)
        ensures
            (r is Some) == (self.spec_current() is Some),
            r matches Some(s) ==> *s == self.spec_current()->0,
    {
        self.current_session.as_ref()
    }

    /// The stream URL of the current session.
    pub fn stream_url(&self) -> (r: Option<String>)
        ensures
            match self.spec_current() {
                Some(s) => {
                    match s.stream_url {
                        Some(u) => r matches Some(url) && url@ == u@,
                        None => r is None,
                    }
                },
                None => r is None,
            },
    {
        match &self.current_session {
            Some(s) => {
                match &s.stream_url {
                    Some(u) => Some(u.clone()),
                    None => None,
                }
            },
            None => None,
        }
    }
}

} // verus!
