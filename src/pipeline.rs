use vstd::prelude::*;

verus! {

/// Whether a capture thread is alive, and which generation it is. Each
/// thread gets a run flag of its own generation; flags are never shared
/// between generations.
#[derive(Debug, Clone, Copy, PartialEq, Eq, Structural)]
pub enum PipelineState {
    Stopped,
    Running { generation: u64 },
}

/// What asks the controller to act.
#[derive(Debug, Clone, Copy, PartialEq, Eq, Structural)]
pub enum ControlEvent {
    /// Bring capture up if it is down.
    Start,
    /// Device, mode or channel layout changed: tear down and start afresh.
    Restart,
    /// Bring capture down.
    Shutdown,
}

/// The steps the caller carries out, in this order: first lower the run flag
/// of generation `stop` and join its thread, then create a fresh flag and
/// spawn a thread of generation `spawn`.
#[derive(Debug, Clone, Copy, PartialEq, Eq, Structural)]
pub struct ControlPlan {
    pub stop: Option<u64>,
    pub spawn: Option<u64>,
}

#[derive(Debug, Clone, Copy, PartialEq, Eq, Structural)]
pub enum ControlError {
    /// Every generation number has been handed out.
    GenerationsExhausted,
}

/// Whether `event` in `state` calls for a new capture thread.
pub open spec fn wants_spawn(state: PipelineState, event: ControlEvent) -> bool {
    match event {
        ControlEvent::Start => state == PipelineState::Stopped,
        ControlEvent::Restart => true,
        ControlEvent::Shutdown => false,
    }
}

/// The running generation that `event` tears down, if any.
pub open spec fn stop_for(state: PipelineState, event: ControlEvent) -> Option<u64> {
    match state {
        PipelineState::Running { generation } => match event {
            ControlEvent::Start => None,
            _ => Some(generation),
        },
        PipelineState::Stopped => None,
    }
}

/// The plan for `event` in `state` when `next` is the next free generation.
pub open spec fn plan_for(state: PipelineState, next: u64, event: ControlEvent) -> ControlPlan {
    ControlPlan {
        stop: stop_for(state, event),
        spawn: if wants_spawn(state, event) {
            Some(next)
        } else {
            None
        },
    }
}

/// The state once `plan` has been carried out from `state`.
pub open spec fn state_after(state: PipelineState, plan: ControlPlan) -> PipelineState {
    match plan.spawn {
        Some(g) => PipelineState::Running { generation: g },
        None => if plan.stop.is_some() {
            PipelineState::Stopped
        } else {
            state
        },
    }
}

/// Lifecycle of the capture thread: at most one thread at a time, each with
/// a run flag of a generation never used before.
pub struct PipelineController {
    state: PipelineState,
    next_generation: u64,
}

impl PipelineController {
    pub closed spec fn state_spec(&self) -> PipelineState {
        self.state
    }

    /// The generation the next spawned thread gets.
    pub closed spec fn next_generation_spec(&self) -> u64 {
        self.next_generation
    }

    /// A running generation is always older than the next free one.
    pub open spec fn wf(&self) -> bool {
        match self.state_spec() {
            PipelineState::Running { generation } => generation < self.next_generation_spec(),
            PipelineState::Stopped => true,
        }
    }

    pub fn new() -> (r: Self)
        ensures
            r.wf(),
            r.state_spec() == PipelineState::Stopped,
            r.next_generation_spec() == 0,
    {
        PipelineController { state: PipelineState::Stopped, next_generation: 0 }
    }

    pub fn state(&self) -> (r: PipelineState)
        ensures
            r == self.state_spec(),
    {
        self.state
    }

    /// Decides the steps for `event` and moves to the state they lead to.
    /// Fails, changing nothing, only when a thread is wanted and no fresh
    /// generation is left.
    pub fn handle(&mut self, event: ControlEvent) -> (r: Result<ControlPlan, ControlError>)
        requires
            old(self).wf(),
        ensures
            final(self).wf(),
            r.is_err() <==> (wants_spawn(old(self).state_spec(), event)
                && old(self).next_generation_spec() == u64::MAX),
            r.is_err() ==> r == Err::<ControlPlan, ControlError>(ControlError::GenerationsExhausted)
                && final(self).state_spec() == old(self).state_spec()
                && final(self).next_generation_spec() == old(self).next_generation_spec(),
            r.is_ok() ==> {
                let plan = r.unwrap();
                &&& plan == plan_for(old(self).state_spec(), old(self).next_generation_spec(), event)
                &&& final(self).state_spec() == state_after(old(self).state_spec(), plan)
                &&& final(self).next_generation_spec() == if plan.spawn.is_some() {
                    (old(self).next_generation_spec() + 1) as u64
                } else {
                    old(self).next_generation_spec()
                }
            },
    {
        let spawn_wanted = match event {
            ControlEvent::Start => match self.state {
                PipelineState::Stopped => true,
                PipelineState::Running { .. } => false,
            },
            ControlEvent::Restart => true,
            ControlEvent::Shutdown => false,
        };
        if spawn_wanted && self.next_generation == u64::MAX {
            return Err(ControlError::GenerationsExhausted);
        }
        let stop = match self.state {
            PipelineState::Running { generation } => match event {
                ControlEvent::Start => None,
                _ => Some(generation),
            },
            PipelineState::Stopped => None,
        };
        let spawn = if spawn_wanted {
            let g = self.next_generation;
            self.next_generation = g + 1;
            self.state = PipelineState::Running { generation: g };
            Some(g)
        } else {
            if stop.is_some() {
                self.state = PipelineState::Stopped;
            }
            None
        };
        Ok(ControlPlan { stop, spawn })
    }
}

/// No two capture threads overlap: a plan that spawns while a thread runs
/// also stops that thread, and the new thread's generation is fresh, newer
/// than the one it replaces.
pub proof fn restart_never_overlaps(state: PipelineState, next: u64, event: ControlEvent)
    requires
        match state {
            PipelineState::Running { generation } => generation < next,
            PipelineState::Stopped => true,
        },
    ensures
        ({
            let plan = plan_for(state, next, event);
            state is Running && plan.spawn.is_some() ==> plan.stop == Some(
                state->generation,
            ) && state->generation < plan.spawn.unwrap()
        }),
{
}

/// Run flags are never reused: of two threads spawned by successive events,
/// the later one has the newer generation.
pub proof fn generations_never_reused(
    state: PipelineState,
    next: u64,
    first: ControlEvent,
    second: ControlEvent,
)
    requires
        next < u64::MAX,
    ensures
        ({
            let p1 = plan_for(state, next, first);
            let next1 = if p1.spawn.is_some() {
                (next + 1) as u64
            } else {
                next
            };
            let p2 = plan_for(state_after(state, p1), next1, second);
            p1.spawn.is_some() && p2.spawn.is_some() ==> p1.spawn.unwrap() < p2.spawn.unwrap()
        }),
{
}

} // verus!
