//! Playback run identity and phases.

use vstd::prelude::*;

verus! {

/// Identifies one admitted playback run: its id and the controller generation
/// it was admitted under.
#[derive(Debug, Clone, Copy, PartialEq, Eq, Hash, Structural)]
pub struct RunToken {
    pub id: u64,
    pub generation: u64,
}

} // verus!

verus! {

/// The playback controller's phase.
#[derive(Debug, Clone, Copy, PartialEq, Eq, Structural)]
pub enum RuntimePhase {
    Idle,
    Starting,
    Running,
    Stopping,
    Cleaning,
    FaultLocked,
    ShuttingDown,
}

/// The name under which a phase is reported to the user interface.
pub open spec fn phase_name(phase: RuntimePhase) -> Seq<char> {
    match phase {
        RuntimePhase::Idle => "idle"@,
        RuntimePhase::Starting => "starting"@,
        RuntimePhase::Running => "running"@,
        RuntimePhase::Stopping => "stopping"@,
        RuntimePhase::Cleaning => "cleaning"@,
        RuntimePhase::FaultLocked => "fault_locked"@,
        RuntimePhase::ShuttingDown => "shutting_down"@,
    }
}

/// The user-interface name of a phase.
pub fn runtime_phase_name(phase: RuntimePhase) -> (r: &'static str)
    ensures
        r@ == phase_name(phase),
{
    match phase {
        RuntimePhase::Idle => "idle",
        RuntimePhase::Starting => "starting",
        RuntimePhase::Running => "running",
        RuntimePhase::Stopping => "stopping",
        RuntimePhase::Cleaning => "cleaning",
        RuntimePhase::FaultLocked => "fault_locked",
        RuntimePhase::ShuttingDown => "shutting_down",
    }
}

/// Why a playback start was refused.
#[derive(Debug, Clone, Copy, PartialEq, Eq, Structural)]
pub enum StartError {
    Busy,
    Exhausted,
    FaultLocked,
    ShuttingDown,
}

/// A start admitted by the controller and not yet activated.
#[derive(Debug)]
pub struct StartLease {
    token: RunToken,
}

impl StartLease {
    pub closed spec fn spec_token(&self) -> RunToken {
        self.token
    }

    /// The run this lease admits.
    pub fn token(&self) -> (r: RunToken)
        ensures
            r == self.spec_token(),
    {
        self.token
    }

    /// Hands the admitted run over to playback.
    pub fn commit(self) {
    }
}

/// Admits one playback run at a time and decides whether that run may still
/// inject input. A stop request advances the generation, which revokes every
/// token issued before it.
#[derive(Debug)]
pub struct RuntimeController {
    phase: RuntimePhase,
    generation: u64,
    next_id: u64,
    current: Option<RunToken>,
}

impl RuntimeController {
    pub closed spec fn spec_phase(&self) -> RuntimePhase {
        self.phase
    }

    pub closed spec fn spec_generation(&self) -> u64 {
        self.generation
    }

    /// The run that currently holds the controller, if any.
    pub closed spec fn spec_current(&self) -> Option<RunToken> {
        self.current
    }

    /// Whether another run identity can still be issued.
    pub closed spec fn spec_ids_left(&self) -> bool {
        self.next_id < u64::MAX
    }

    /// The controller's internal consistency: a run is held exactly in the
    /// phases between admission and the end of cleanup, and its token carries
    /// a non-zero id.
    pub closed spec fn wf(&self) -> bool {
        &&& (self.current is Some <==> (self.phase == RuntimePhase::Starting || self.phase
            == RuntimePhase::Running || self.phase == RuntimePhase::Stopping || self.phase
            == RuntimePhase::Cleaning))
        &&& (self.current matches Some(t) ==> t.id != 0 && t.id < self.next_id)
        &&& self.next_id >= 1
    }

    /// Whether the run `token` may inject input now: it is the running run and
    /// no stop has been requested since it was admitted.
    pub open spec fn spec_input_allowed(&self, token: RunToken) -> bool {
        self.spec_phase() == RuntimePhase::Running && self.spec_current() == Some(token)
            && token.generation == self.spec_generation()
    }

    /// An idle controller at generation 0.
    pub fn new() -> (r: Self)
        ensures
            r.wf(),
            r.spec_phase() == RuntimePhase::Idle,
            r.spec_generation() == 0,
            r.spec_current() is None,
            r.spec_ids_left(),
    {
        RuntimeController { phase: RuntimePhase::Idle, generation: 0, next_id: 1, current: None }
    }

    pub fn phase(&self) -> (r: RuntimePhase)
        ensures
            r == self.spec_phase(),
    {
        self.phase
    }

    pub fn generation(&self) -> (r: u64)
        ensures
            r == self.spec_generation(),
    {
        self.generation
    }

    /// Admits a new run when idle. The optional generation must match the
    /// controller's, so that a start requested before a stop is refused.
    pub fn begin_start(&mut self, expected_generation: Option<u64>) -> (r: Result<StartLease, StartError>)
        requires
            old(self).wf(),
        ensures
            final(self).wf(),
            final(self).spec_generation() == old(self).spec_generation(),
            (old(self).spec_phase() == RuntimePhase::Idle && (expected_generation matches Some(g)
                ==> g == old(self).spec_generation()) && old(self).spec_ids_left()) <==> r is Ok,
            r matches Ok(lease) ==> {
                &&& final(self).spec_phase() == RuntimePhase::Starting
                &&& final(self).spec_current() == Some(lease.spec_token())
                &&& lease.spec_token().generation == old(self).spec_generation()
                &&& lease.spec_token().id != 0
            },
            r is Err ==> final(self).spec_phase() == old(self).spec_phase() && final(self).spec_current()
                == old(self).spec_current(),
    {
        if self.phase != RuntimePhase::Idle {
            return Err(
                match self.phase {
                    RuntimePhase::FaultLocked => StartError::FaultLocked,
                    RuntimePhase::ShuttingDown => StartError::ShuttingDown,
                    _ => StartError::Busy,
                },
            );
        }
        if let Some(g) = expected_generation {
            if g != self.generation {
                return Err(StartError::Busy);
            }
        }
        if self.next_id == u64::MAX {
            return Err(StartError::Exhausted);
        }
        let token = RunToken { id: self.next_id, generation: self.generation };
        self.next_id = self.next_id + 1;
        self.phase = RuntimePhase::Starting;
        self.current = Some(token);
        Ok(StartLease { token })
    }

    /// Moves the admitted run to Running, unless a stop intervened.
    pub fn activate(&mut self, token: RunToken) -> (r: bool)
        requires
            old(self).wf(),
        ensures
            final(self).wf(),
            final(self).spec_generation() == old(self).spec_generation(),
            final(self).spec_current() == old(self).spec_current(),
            r == (old(self).spec_phase() == RuntimePhase::Starting && old(self).spec_current()
                == Some(token) && token.generation == old(self).spec_generation()),
            r ==> final(self).spec_phase() == RuntimePhase::Running,
            !r ==> final(self).spec_phase() == old(self).spec_phase(),
    {
        if self.phase == RuntimePhase::Starting && self.current == Some(token) && token.generation
            == self.generation {
            self.phase = RuntimePhase::Running;
            true
        } else {
            false
        }
    }

    /// Whether the run may inject input now.
    pub fn input_allowed(&self, token: RunToken) -> (r: bool)
        ensures
            r == self.spec_input_allowed(token),
    {
        self.phase == RuntimePhase::Running && self.current == Some(token) && token.generation
            == self.generation
    }

    /// Whether the run has lost its permission to inject input.
    pub fn token_revoked(&self, token: RunToken) -> (r: bool)
        ensures
            r == !self.spec_input_allowed(token),
    {
        !self.input_allowed(token)
    }

    /// Requests a stop: advances the generation (revoking every issued token)
    /// and moves a starting or running run to Stopping. Returns the new
    /// generation; at the last generation the controller locks instead.
    pub fn request_stop(&mut self) -> (r: u64)
        requires
            old(self).wf(),
        ensures
            final(self).wf(),
            r == final(self).spec_generation(),
            old(self).spec_generation() < u64::MAX ==> r == old(self).spec_generation() + 1,
            old(self).spec_generation() == u64::MAX ==> final(self).spec_phase()
                == RuntimePhase::FaultLocked || final(self).spec_current() is Some,
            forall|t: RunToken| !#[trigger] final(self).spec_input_allowed(t),
            final(self).spec_current() == old(self).spec_current() || final(self).spec_current() is None,
    {
        if self.generation == u64::MAX {
            if self.current.is_none() {
                self.phase = RuntimePhase::FaultLocked;
            } else {
                self.phase = RuntimePhase::Stopping;
            }
            return self.generation;
        }
        self.generation = self.generation + 1;
        if self.phase == RuntimePhase::Starting || self.phase == RuntimePhase::Running {
            self.phase = RuntimePhase::Stopping;
        }
        self.generation
    }

    /// Moves the current run into cleanup once it is stopping or running.
    pub fn begin_cleaning(&mut self, token: RunToken) -> (r: bool)
        requires
            old(self).wf(),
        ensures
            final(self).wf(),
            final(self).spec_generation() == old(self).spec_generation(),
            final(self).spec_current() == old(self).spec_current(),
            r == (old(self).spec_current() == Some(token) && (old(self).spec_phase()
                == RuntimePhase::Running || old(self).spec_phase() == RuntimePhase::Stopping)),
            r ==> final(self).spec_phase() == RuntimePhase::Cleaning,
            !r ==> final(self).spec_phase() == old(self).spec_phase(),
    {
        if self.current == Some(token) && (self.phase == RuntimePhase::Running || self.phase
            == RuntimePhase::Stopping) {
            self.phase = RuntimePhase::Cleaning;
            true
        } else {
            false
        }
    }

    /// Ends the current run's cleanup: idle again when its input was released
    /// safely, locked against new starts otherwise.
    pub fn finish(&mut self, token: RunToken, input_released: bool) -> (r: bool)
        requires
            old(self).wf(),
        ensures
            final(self).wf(),
            final(self).spec_generation() == old(self).spec_generation(),
            r == (old(self).spec_current() == Some(token) && old(self).spec_phase()
                == RuntimePhase::Cleaning),
            r ==> final(self).spec_current() is None && final(self).spec_phase() == (if input_released {
                RuntimePhase::Idle
            } else {
                RuntimePhase::FaultLocked
            }),
            !r ==> final(self).spec_phase() == old(self).spec_phase() && final(self).spec_current()
                == old(self).spec_current(),
    {
        if self.current == Some(token) && self.phase == RuntimePhase::Cleaning {
            self.current = None;
            self.phase = if input_released {
                RuntimePhase::Idle
            } else {
                RuntimePhase::FaultLocked
            };
            true
        } else {
            false
        }
    }
}

} // verus!
