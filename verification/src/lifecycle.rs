//! From power-up to the frame loop: which step comes next, and what a
//! failure does. Every failure is final; nothing is tried again.

use vstd::prelude::*;

verus! {

/// The three programs that share this logic.
#[derive(Clone, Copy, Debug, PartialEq, Eq, Structural)]
pub enum Demo {
    /// Shows two fixed lines and a running count.
    Counter,
    /// Shows the logo bouncing between two rows.
    Bounce,
    /// As [`Demo::Bounce`], with the indicator LED lit before the first frame.
    BounceWithLed,
}

/// What stopped the program.
#[derive(Clone, Copy, Debug, PartialEq, Eq, Structural)]
pub enum Fault {
    /// The clocks or a peripheral could not be configured.
    Clocks,
    /// The display did not initialise.
    DisplayInit,
    /// The logo bitmap could not be decoded.
    BitmapDecode,
    /// A frame could not be drawn or flushed.
    Frame,
}

/// Where the program stands.
#[derive(Clone, Copy, Debug, PartialEq, Eq, Structural)]
pub enum Phase {
    /// About to configure clocks and peripherals.
    Clocks,
    /// About to initialise the display.
    Display,
    /// About to decode the logo bitmap.
    Bitmap,
    /// In the frame loop: about to draw and flush a frame.
    Running,
    /// Stopped for good.
    Halted(Fault),
}

impl Demo {
    /// Whether the program draws the logo, and so has a bitmap to decode.
    pub open spec fn spec_draws_logo(&self) -> bool {
        !(self is Counter)
    }

    /// Whether the program draws the logo, and so has a bitmap to decode.
    #[verifier::when_used_as_spec(spec_draws_logo)]
    pub fn draws_logo(&self) -> (r: bool)
        ensures
            r == self.spec_draws_logo(),
    {
        match self {
            Demo::Counter => false,
            Demo::Bounce => true,
            Demo::BounceWithLed => true,
        }
    }

    /// Whether the program lights the indicator LED, once, before its first
    /// frame.
    pub open spec fn spec_lights_led(&self) -> bool {
        self is BounceWithLed
    }

    /// Whether the program lights the indicator LED, once, before its first
    /// frame.
    #[verifier::when_used_as_spec(spec_lights_led)]
    pub fn lights_led(&self) -> (r: bool)
        ensures
            r == self.spec_lights_led(),
    {
        match self {
            Demo::BounceWithLed => true,
            _ => false,
        }
    }
}

impl Phase {
    /// The first phase after power-up.
    pub fn start() -> (r: Phase)
        ensures
            r == Phase::Clocks,
    {
        Phase::Clocks
    }

    /// The fault that a failure in this phase is; `None` once halted.
    pub open spec fn fault(self) -> Option<Fault> {
        match self {
            Phase::Clocks => Some(Fault::Clocks),
            Phase::Display => Some(Fault::DisplayInit),
            Phase::Bitmap => Some(Fault::BitmapDecode),
            Phase::Running => Some(Fault::Frame),
            Phase::Halted(_) => None,
        }
    }

    /// The phase that follows when this one went well.
    pub open spec fn successor(self, demo: Demo) -> Phase {
        match self {
            Phase::Clocks => Phase::Display,
            Phase::Display => if demo.draws_logo() {
                Phase::Bitmap
            } else {
                Phase::Running
            },
            Phase::Bitmap => Phase::Running,
            Phase::Running => Phase::Running,
            Phase::Halted(fault) => Phase::Halted(fault),
        }
    }

    /// The phase after the work of this one was done, with `ok` telling
    /// whether it went well.
    pub open spec fn after(self, demo: Demo, ok: bool) -> Phase {
        match self.fault() {
            Some(fault) if !ok => Phase::Halted(fault),
            _ => self.successor(demo),
        }
    }

    /// The phase after a run of steps, `outcomes` telling of each in turn
    /// whether it went well.
    pub open spec fn after_all(self, demo: Demo, outcomes: Seq<bool>) -> Phase
        decreases outcomes.len(),
    {
        if outcomes.len() == 0 {
            self
        } else {
            self.after_all(demo, outcomes.drop_last()).after(demo, outcomes.last())
        }
    }

    /// Whether a frame may be drawn: only in the frame loop.
    pub open spec fn spec_is_running(&self) -> bool {
        self is Running
    }

    /// Whether a frame may be drawn: only in the frame loop.
    #[verifier::when_used_as_spec(spec_is_running)]
    pub fn is_running(&self) -> (r: bool)
        ensures
            r == self.spec_is_running(),
    {
        match self {
            Phase::Running => true,
            _ => false,
        }
    }

    /// Takes in the outcome of this phase's work and gives the next phase:
    /// on failure the halt with this phase's fault, on success the phase
    /// that follows. A halt stays a halt.
    pub fn advance(self, demo: Demo, ok: bool) -> (r: Phase)
        ensures
            r == self.after(demo, ok),
    {
        match self {
            Phase::Halted(fault) => Phase::Halted(fault),
            Phase::Clocks => if ok {
                Phase::Display
            } else {
                Phase::Halted(Fault::Clocks)
            },
            Phase::Display => if !ok {
                Phase::Halted(Fault::DisplayInit)
            } else if demo.draws_logo() {
                Phase::Bitmap
            } else {
                Phase::Running
            },
            Phase::Bitmap => if ok {
                Phase::Running
            } else {
                Phase::Halted(Fault::BitmapDecode)
            },
            Phase::Running => if ok {
                Phase::Running
            } else {
                Phase::Halted(Fault::Frame)
            },
        }
    }
}

/// A halt is final: whatever is reported afterwards, the phase stays the
/// same halt and no frame may be drawn.
pub proof fn lemma_halt_is_final(fault: Fault, demo: Demo, outcomes: Seq<bool>)
    ensures
        Phase::Halted(fault).after_all(demo, outcomes) == Phase::Halted(fault),
        !Phase::Halted(fault).after_all(demo, outcomes).is_running(),
    decreases outcomes.len(),
{
    if outcomes.len() > 0 {
        lemma_halt_is_final(fault, demo, outcomes.drop_last());
    }
}

/// A failure before or in the frame loop halts the program with the fault
/// of the phase it came in, and no frame is drawn from then on.
pub proof fn lemma_failure_stops_the_loop(phase: Phase, demo: Demo, later: Seq<bool>)
    requires
        !(phase is Halted),
    ensures
        phase.fault() is Some,
        phase.after(demo, false) == Phase::Halted(phase.fault().unwrap()),
        !phase.after(demo, false).after_all(demo, later).is_running(),
{
    lemma_halt_is_final(phase.fault().unwrap(), demo, later);
}

/// The frame loop is reached from power-up only when every step before it
/// went well.
pub proof fn lemma_running_needs_every_step(demo: Demo, outcomes: Seq<bool>)
    requires
        Phase::Clocks.after_all(demo, outcomes).is_running(),
    ensures
        forall|i: int| 0 <= i < outcomes.len() ==> outcomes[i],
    decreases outcomes.len(),
{
    lemma_no_halt_needs_every_step(Phase::Clocks, demo, outcomes);
}

/// A run of steps that ends outside a halt began outside a halt and had
/// every step go well.
pub proof fn lemma_no_halt_needs_every_step(phase: Phase, demo: Demo, outcomes: Seq<bool>)
    requires
        !(phase.after_all(demo, outcomes) is Halted),
    ensures
        !(phase is Halted),
        forall|i: int| 0 <= i < outcomes.len() ==> outcomes[i],
    decreases outcomes.len(),
{
    if outcomes.len() > 0 {
        let earlier = outcomes.drop_last();
        lemma_no_halt_needs_every_step(phase, demo, earlier);
        assert(outcomes.last());
        assert forall|i: int| 0 <= i < outcomes.len() implies outcomes[i] by {
            if i < earlier.len() {
                assert(outcomes[i] == earlier[i]);
            }
        }
    }
}

} // verus!
