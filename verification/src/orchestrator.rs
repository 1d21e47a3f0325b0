use vstd::prelude::*;

verus! {

// Four capture backends are tried in a fixed order of preference:
//
//   0  native surface   (raw framebuffer process)
//   1  external tool    (MJPEG-speaking stream server process)
//   2  window capture   (polls the on-screen window)
//   3  screenshot poll  (last resort, CLI screenshots)
//
// The orchestrator commits to the first backend that produces a frame or a
// ready signal. A terminal failure of an active process-based backend (0, 1)
// moves on to the next candidate; the polling backends (2, 3) are the floor
// and are never abandoned. The machine never returns to an earlier backend.

/// Which capture strategy currently feeds the stream.
#[derive(Clone, Copy, PartialEq, Eq, Structural, Debug)]
pub enum CaptureMode {
    Unstarted,
    NativeSurface,
    ExternalStreamTool,
    WindowCapture,
    ScreenshotPoll,
}

impl CaptureMode {
    /// The label shown beside the stream.
    pub fn label(&self) -> (s: &'static str)
        ensures
            match self {
                CaptureMode::Unstarted => s@ == "starting"@,
                CaptureMode::NativeSurface => s@ == "native-surface"@,
                CaptureMode::ExternalStreamTool => s@ == "stream-tool"@,
                CaptureMode::WindowCapture => s@ == "window-capture"@,
                CaptureMode::ScreenshotPoll => s@ == "screenshot-poll"@,
            },
    {
        match self {
            CaptureMode::Unstarted => "starting",
            CaptureMode::NativeSurface => "native-surface",
            CaptureMode::ExternalStreamTool => "stream-tool",
            CaptureMode::WindowCapture => "window-capture",
            CaptureMode::ScreenshotPoll => "screenshot-poll",
        }
    }
}

/// How many backends stand in the chain.
pub open spec fn backend_count() -> int {
    4
}

/// The mode that backend index `i` reports once active.
pub open spec fn mode_of_backend(i: int) -> CaptureMode {
    if i == 0 {
        CaptureMode::NativeSurface
    } else if i == 1 {
        CaptureMode::ExternalStreamTool
    } else if i == 2 {
        CaptureMode::WindowCapture
    } else if i == 3 {
        CaptureMode::ScreenshotPoll
    } else {
        CaptureMode::Unstarted
    }
}

/// Backends 0 and 1 run an external process whose exit is terminal; the
/// polling backends run forever.
pub open spec fn process_based(i: int) -> bool {
    i <= 1
}

/// The fallback chain's state: probing a candidate, committed to one, or out
/// of candidates altogether.
#[derive(Clone, Copy, PartialEq, Eq, Structural, Debug)]
pub enum OrchestratorState {
    Trying { backend: usize },
    Active { backend: usize },
    Exhausted,
}

pub open spec fn state_wf(s: OrchestratorState) -> bool {
    match s {
        OrchestratorState::Trying { backend } => backend < backend_count(),
        OrchestratorState::Active { backend } => backend < backend_count(),
        OrchestratorState::Exhausted => true,
    }
}

/// Where a state stands in the chain; `Exhausted` is past every backend.
pub open spec fn rank(s: OrchestratorState) -> int {
    match s {
        OrchestratorState::Trying { backend } => backend as int,
        OrchestratorState::Active { backend } => backend as int,
        OrchestratorState::Exhausted => backend_count(),
    }
}

/// What a backend reports, tagged with its index: its first frame or ready
/// signal, or its terminal failure.
#[derive(Clone, Copy, PartialEq, Eq, Structural, Debug)]
pub enum BackendEvent {
    Ready { backend: usize },
    Failed { backend: usize },
}

/// The transition rule. Events from any backend but the current one are
/// stale and ignored, so a late report from an abandoned backend cannot move
/// the machine.
pub open spec fn spec_step(s: OrchestratorState, e: BackendEvent) -> OrchestratorState {
    match s {
        OrchestratorState::Trying { backend } => {
            match e {
                BackendEvent::Ready { backend: j } => {
                    if j == backend {
                        OrchestratorState::Active { backend }
                    } else {
                        s
                    }
                },
                BackendEvent::Failed { backend: j } => {
                    if j == backend {
                        if backend + 1 < backend_count() {
                            OrchestratorState::Trying { backend: (backend + 1) as usize }
                        } else {
                            OrchestratorState::Exhausted
                        }
                    } else {
                        s
                    }
                },
            }
        },
        OrchestratorState::Active { backend } => {
            match e {
                BackendEvent::Failed { backend: j } => {
                    if j == backend && process_based(backend as int) {
                        OrchestratorState::Trying { backend: (backend + 1) as usize }
                    } else {
                        s
                    }
                },
                BackendEvent::Ready { .. } => s,
            }
        },
        OrchestratorState::Exhausted => s,
    }
}

/// The chain only moves forward: no event lowers the backend index, so a
/// backend left behind is never attempted again.
pub proof fn lemma_step_monotonic(s: OrchestratorState, e: BackendEvent)
    requires
        state_wf(s),
    ensures
        state_wf(spec_step(s, e)),
        rank(spec_step(s, e)) >= rank(s),
{
}

/// Once the machine commits to backend `i`, the only move left is the
/// terminal failure of that same backend, and it leads strictly past `i`:
/// earlier backends, in particular, are never re-attempted.
pub proof fn lemma_active_commits(s: OrchestratorState, e: BackendEvent, i: usize)
    requires
        state_wf(s),
        s == (OrchestratorState::Active { backend: i }),
    ensures
        spec_step(s, e) == s || (process_based(i as int) && e == (BackendEvent::Failed {
            backend: i,
        }) && spec_step(s, e) == (OrchestratorState::Trying { backend: (i + 1) as usize })),
{
}

/// The fallback chain with its observable capture mode. The mode is set when
/// a backend becomes active and never returns to `Unstarted`.
pub struct Orchestrator {
    pub state: OrchestratorState,
    pub mode: CaptureMode,
}

impl Orchestrator {
    pub open spec fn wf(&self) -> bool {
        state_wf(self.state)
    }

    /// A fresh chain, about to probe the most preferred backend.
    pub fn new() -> (r: Orchestrator)
        ensures
            r.wf(),
            r.state == (OrchestratorState::Trying { backend: 0usize }),
            r.mode == CaptureMode::Unstarted,
    {
        Orchestrator { state: OrchestratorState::Trying { backend: 0 }, mode: CaptureMode::Unstarted }
    }

    /// Feeds one backend report. The state follows `spec_step`; the visible
    /// mode records the active backend and never falls back to `Unstarted`.
    pub fn on_event(&mut self, e: BackendEvent)
        requires
            old(self).wf(),
        ensures
            final(self).wf(),
            final(self).state == spec_step(old(self).state, e),
            final(self).mode == (match spec_step(old(self).state, e) {
                OrchestratorState::Active { backend } => mode_of_backend(backend as int),
                _ => old(self).mode,
            }),
            old(self).mode != CaptureMode::Unstarted ==> final(self).mode != CaptureMode::Unstarted,
    {
        let next = match self.state {
            OrchestratorState::Trying { backend } => {
                match e {
                    BackendEvent::Ready { backend: j } => {
                        if j == backend {
                            OrchestratorState::Active { backend }
                        } else {
                            self.state
                        }
                    },
                    BackendEvent::Failed { backend: j } => {
                        if j == backend {
                            if backend + 1 < 4 {
                                OrchestratorState::Trying { backend: backend + 1 }
                            } else {
                                OrchestratorState::Exhausted
                            }
                        } else {
                            self.state
                        }
                    },
                }
            },
            OrchestratorState::Active { backend } => {
                match e {
                    BackendEvent::Failed { backend: j } => {
                        if j == backend && backend <= 1 {
                            OrchestratorState::Trying { backend: backend + 1 }
                        } else {
                            self.state
                        }
                    },
                    BackendEvent::Ready { .. } => self.state,
                }
            },
            OrchestratorState::Exhausted => self.state,
        };
        self.state = next;
        match next {
            OrchestratorState::Active { backend } => {
                self.mode = if backend == 0 {
                    CaptureMode::NativeSurface
                } else if backend == 1 {
                    CaptureMode::ExternalStreamTool
                } else if backend == 2 {
                    CaptureMode::WindowCapture
                } else {
                    CaptureMode::ScreenshotPoll
                };
            },
            _ => {},
        }
    }

    /// Whether the stream request as a whole has failed: every backend,
    /// including the polling floor, is gone.
    pub fn is_exhausted(&self) -> (r: bool)
        ensures
            r == (self.state is Exhausted),
    {
        match self.state {
            OrchestratorState::Exhausted => true,
            _ => false,
        }
    }
}

/// The requested frame rate, clamped server-side: the client's wish, else the
/// deployment's fallback, else 60; never above 60.
pub open spec fn spec_clamped_fps(requested: Option<u32>, fallback: Option<u32>) -> u32 {
    let base = if requested is Some {
        requested->0
    } else if fallback is Some {
        fallback->0
    } else {
        60
    };
    if base > 60 {
        60
    } else {
        base
    }
}

pub fn clamp_fps(requested: Option<u32>, fallback: Option<u32>) -> (fps: u32)
    ensures
        fps == spec_clamped_fps(requested, fallback),
        fps <= 60,
{
    let base = match requested {
        Some(f) => f,
        None => match fallback {
            Some(f) => f,
            None => 60,
        },
    };
    if base > 60 {
        60
    } else {
        base
    }
}

/// The requested JPEG quality in thousandths, clamped to [100, 1000]
/// (the fraction range 0.1 ..= 1.0); 700 when the client named none.
pub open spec fn spec_clamped_quality_permille(requested: Option<u32>) -> u32 {
    let base = if requested is Some {
        requested->0
    } else {
        700
    };
    if base < 100 {
        100
    } else if base > 1000 {
        1000
    } else {
        base
    }
}

pub fn clamp_quality_permille(requested: Option<u32>) -> (q: u32)
    ensures
        q == spec_clamped_quality_permille(requested),
        100 <= q <= 1000,
{
    let base = match requested {
        Some(f) => f,
        None => 700,
    };
    if base < 100 {
        100
    } else if base > 1000 {
        1000
    } else {
        base
    }
}

/// Whether the stream-tool connection loop may try again: at most ten
/// connection attempts are made before the backend gives up.
pub fn may_retry_connect(attempt: u32) -> (r: bool)
    ensures
        r == (attempt < 10),
{
    attempt < 10
}

} // verus!
