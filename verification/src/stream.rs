//! The frame schedule: which piece of work comes next in a run of a fixed
//! number of ticks, and how many frames have gone out.

use vstd::prelude::*;

verus! {

/// Where a run stands within its current tick.
#[derive(Clone, Copy, Debug, PartialEq, Eq, Structural)]
pub enum Phase {
    /// Nothing has been asked for yet.
    Idle,
    /// The simulation is advancing by one step.
    Simulating,
    /// Agents that left the canvas are being wrapped to the opposite edge.
    CorrectingBounds,
    /// The agents are being drawn onto the canvas.
    Drawing,
    /// The finished frame is being written to the sink and flushed.
    Transmitting,
    /// The canvas is being cleared for the next tick.
    Resetting,
    /// The run is over: all ticks ran, or the sink failed.
    Terminal,
}

/// What the driver reports back after carrying out an action.
#[derive(Clone, Copy, Debug, PartialEq, Eq, Structural)]
pub enum Event {
    /// The work asked for is done. In the idle phase there is none: the
    /// event starts the run.
    Done,
    /// A write or flush on the sink failed.
    SinkFailed,
}

/// The work that the driver is to carry out next.
#[derive(Clone, Copy, Debug, PartialEq, Eq, Structural)]
pub enum Action {
    /// Advance the simulation by one step.
    Simulate,
    /// Wrap every agent that left the canvas.
    CorrectBounds,
    /// Draw every agent.
    Draw,
    /// Write the whole frame to the sink, then flush.
    Transmit,
    /// Clear the canvas to black.
    Reset,
    /// Stop: the run is over.
    Stop,
}

/// The state of a run as a mathematical value.
pub struct Schedule {
    pub phase: Phase,
    /// The number of ticks that the run is to make.
    pub ticks: nat,
    /// The number of ticks that are complete, reset included.
    pub completed: nat,
    /// The number of frames that went out whole.
    pub frames: nat,
    /// Whether the sink failed.
    pub failed: bool,
}

impl Schedule {
    /// The state before the run starts.
    pub open spec fn initial(ticks: nat) -> Schedule {
        Schedule { phase: Phase::Idle, ticks, completed: 0, frames: 0, failed: false }
    }

    /// The states that a run can be in: a frame goes out once per tick,
    /// after the tick's drawing and before its reset, and a run that ends
    /// without failure has completed all its ticks.
    pub open spec fn wf(self) -> bool {
        match self.phase {
            Phase::Idle => self.completed == 0 && self.frames == 0 && !self.failed,
            Phase::Simulating | Phase::CorrectingBounds | Phase::Drawing | Phase::Transmitting => {
                self.frames == self.completed && self.completed < self.ticks && !self.failed
            },
            Phase::Resetting => {
                self.frames == self.completed + 1 && self.completed < self.ticks && !self.failed
            },
            Phase::Terminal => {
                &&& self.completed <= self.frames <= self.completed + 1
                &&& self.frames <= self.ticks
                &&& self.failed || self.completed == self.ticks
            },
        }
    }

    /// The state that follows this one when `event` comes in.
    pub open spec fn next(self, event: Event) -> Schedule {
        if self.phase == Phase::Terminal {
            self
        } else if event == Event::SinkFailed {
            Schedule { phase: Phase::Terminal, failed: true, ..self }
        } else {
            match self.phase {
                Phase::Idle => {
                    if self.ticks == 0 {
                        Schedule { phase: Phase::Terminal, ..self }
                    } else {
                        Schedule { phase: Phase::Simulating, ..self }
                    }
                },
                Phase::Simulating => Schedule { phase: Phase::CorrectingBounds, ..self },
                Phase::CorrectingBounds => Schedule { phase: Phase::Drawing, ..self },
                Phase::Drawing => Schedule { phase: Phase::Transmitting, ..self },
                Phase::Transmitting => Schedule {
                    phase: Phase::Resetting,
                    frames: self.frames + 1,
                    ..self
                },
                Phase::Resetting => {
                    if self.completed + 1 == self.ticks {
                        Schedule { phase: Phase::Terminal, completed: self.completed + 1, ..self }
                    } else {
                        Schedule { phase: Phase::Simulating, completed: self.completed + 1, ..self }
                    }
                },
                Phase::Terminal => self,
            }
        }
    }

    /// The work that belongs to the state's phase.
    pub open spec fn action(self) -> Action {
        match self.phase {
            Phase::Idle => Action::Stop,
            Phase::Simulating => Action::Simulate,
            Phase::CorrectingBounds => Action::CorrectBounds,
            Phase::Drawing => Action::Draw,
            Phase::Transmitting => Action::Transmit,
            Phase::Resetting => Action::Reset,
            Phase::Terminal => Action::Stop,
        }
    }

    /// The state after `count` pieces of work in a row were reported done.
    pub open spec fn after_done(self, count: nat) -> Schedule
        decreases count,
    {
        if count == 0 {
            self
        } else {
            self.after_done((count - 1) as nat).next(Event::Done)
        }
    }
}

/// Every step keeps the state among those a run can be in, and never
/// changes the number of ticks asked for.
pub proof fn lemma_next_wf(s: Schedule, event: Event)
    requires
        s.wf(),
    ensures
        s.next(event).wf(),
        s.next(event).ticks == s.ticks,
{
}

/// The state of an unbroken run of `ticks` ticks after `count` pieces of
/// work, for `count` up to the run's end at `1 + 5 * ticks`: one report
/// starts the run, and each tick takes five.
pub open spec fn unbroken(ticks: nat, count: nat) -> Schedule {
    if count == 0 {
        Schedule::initial(ticks)
    } else {
        let tick = ((count - 1) / 5) as nat;
        let within = (count - 1) % 5;
        Schedule {
            phase: if tick == ticks {
                Phase::Terminal
            } else if within == 0 {
                Phase::Simulating
            } else if within == 1 {
                Phase::CorrectingBounds
            } else if within == 2 {
                Phase::Drawing
            } else if within == 3 {
                Phase::Transmitting
            } else {
                Phase::Resetting
            },
            ticks,
            completed: tick,
            frames: if within == 4 {
                tick + 1
            } else {
                tick
            },
            failed: false,
        }
    }
}

/// While nothing fails, the run goes through the phases of each tick in
/// order: after `count` reports it is in the state that `unbroken` gives.
pub proof fn lemma_unbroken_run(ticks: nat, count: nat)
    requires
        count <= 1 + 5 * ticks,
    ensures
        Schedule::initial(ticks).after_done(count) == unbroken(ticks, count),
    decreases count,
{
    if count > 0 {
        lemma_unbroken_run(ticks, (count - 1) as nat);
    }
}

/// A run of `ticks` ticks in which nothing fails sends exactly `ticks`
/// frames and is then over, after `1 + 5 * ticks` reports and not before.
pub proof fn lemma_run_sends_every_frame(ticks: nat)
    ensures
        Schedule::initial(ticks).after_done(1 + 5 * ticks).phase == Phase::Terminal,
        Schedule::initial(ticks).after_done(1 + 5 * ticks).frames == ticks,
        Schedule::initial(ticks).after_done(1 + 5 * ticks).completed == ticks,
        !Schedule::initial(ticks).after_done(1 + 5 * ticks).failed,
        forall|count: nat|
            count < 1 + 5 * ticks ==> (#[trigger] Schedule::initial(ticks).after_done(count)).phase
                != Phase::Terminal,
{
    lemma_unbroken_run(ticks, 1 + 5 * ticks);
    assert forall|count: nat| count < 1 + 5 * ticks implies (#[trigger] Schedule::initial(
        ticks,
    ).after_done(count)).phase != Phase::Terminal by {
        lemma_unbroken_run(ticks, count);
    }
}

/// Once a run is over it stays over, and its counts no longer change.
pub proof fn lemma_terminal_is_final(s: Schedule, event: Event)
    requires
        s.phase == Phase::Terminal,
    ensures
        s.next(event) == s,
{
}

/// A frame goes out only in the step that leaves the transmitting phase, so
/// only after the tick's drawing is complete; no other step changes the
/// count of frames.
pub proof fn lemma_frames_count_transmissions(s: Schedule, event: Event)
    ensures
        s.next(event).frames == if s.phase == Phase::Transmitting && event == Event::Done {
            s.frames + 1
        } else {
            s.frames
        },
{
}

/// The phases follow one another in one order only: a frame is transmitted
/// only after drawing was reported done, drawing starts only after bounds
/// correction, bounds correction only after the simulation step, and the
/// canvas is reset only after the frame went out whole.
pub proof fn lemma_phase_order(s: Schedule, event: Event)
    requires
        s.next(event) != s,
    ensures
        s.next(event).phase == Phase::Transmitting ==> s.phase == Phase::Drawing && event
            == Event::Done,
        s.next(event).phase == Phase::Drawing ==> s.phase == Phase::CorrectingBounds && event
            == Event::Done,
        s.next(event).phase == Phase::CorrectingBounds ==> s.phase == Phase::Simulating && event
            == Event::Done,
        s.next(event).phase == Phase::Resetting ==> s.phase == Phase::Transmitting && event
            == Event::Done,
        s.next(event).phase == Phase::Simulating ==> (s.phase == Phase::Idle || s.phase
            == Phase::Resetting) && event == Event::Done,
        s.next(event).phase != Phase::Idle,
{
}

/// The schedule of a run: it hands out the work of each tick in order and
/// counts the frames that went out.
pub struct FrameStreamer {
    phase: Phase,
    ticks: u64,
    completed: u64,
    frames: u64,
    failed: bool,
}

impl View for FrameStreamer {
    type V = Schedule;

    closed spec fn view(&self) -> Schedule {
        Schedule {
            phase: self.phase,
            ticks: self.ticks as nat,
            completed: self.completed as nat,
            frames: self.frames as nat,
            failed: self.failed,
        }
    }
}

impl FrameStreamer {
    /// A streamer is always in a state that a run can be in.
    #[verifier::type_invariant]
    pub open spec fn well_formed(&self) -> bool {
        self@.wf()
    }

    /// A run of `ticks` ticks that has not started.
    pub fn new(ticks: u64) -> (streamer: FrameStreamer)
        ensures
            streamer@ == Schedule::initial(ticks as nat),
    {
        FrameStreamer { phase: Phase::Idle, ticks, completed: 0, frames: 0, failed: false }
    }

    /// Takes the report on the work handed out last and returns the work
    /// that comes next. In the idle phase `Done` starts the run. A sink
    /// failure ends the run at once, in whatever phase it is reported; once
    /// the run is over, every call answers `Stop` and changes nothing.
    pub fn step(&mut self, event: Event) -> (action: Action)
        ensures
            final(self)@ == old(self)@.next(event),
            action == final(self)@.action(),
    {
        proof {
            use_type_invariant(&*self);
        }
        let ticks: u64 = self.ticks;
        let completed: u64 = self.completed;
        let frames: u64 = self.frames;
        let failed: bool = self.failed;
        match self.phase {
            Phase::Terminal => Action::Stop,
            phase => {
                match event {
                    Event::SinkFailed => {
                        *self = FrameStreamer {
                            phase: Phase::Terminal,
                            ticks,
                            completed,
                            frames,
                            failed: true,
                        };
                        Action::Stop
                    },
                    Event::Done => {
                        match phase {
                            Phase::Idle => {
                                if ticks == 0 {
                                    *self = FrameStreamer {
                                        phase: Phase::Terminal,
                                        ticks,
                                        completed,
                                        frames,
                                        failed,
                                    };
                                    Action::Stop
                                } else {
                                    *self = FrameStreamer {
                                        phase: Phase::Simulating,
                                        ticks,
                                        completed,
                                        frames,
                                        failed,
                                    };
                                    Action::Simulate
                                }
                            },
                            Phase::Simulating => {
                                *self = FrameStreamer {
                                    phase: Phase::CorrectingBounds,
                                    ticks,
                                    completed,
                                    frames,
                                    failed,
                                };
                                Action::CorrectBounds
                            },
                            Phase::CorrectingBounds => {
                                *self = FrameStreamer {
                                    phase: Phase::Drawing,
                                    ticks,
                                    completed,
                                    frames,
                                    failed,
                                };
                                Action::Draw
                            },
                            Phase::Drawing => {
                                *self = FrameStreamer {
                                    phase: Phase::Transmitting,
                                    ticks,
                                    completed,
                                    frames,
                                    failed,
                                };
                                Action::Transmit
                            },
                            Phase::Transmitting => {
                                *self = FrameStreamer {
                                    phase: Phase::Resetting,
                                    ticks,
                                    completed,
                                    frames: frames + 1,
                                    failed,
                                };
                                Action::Reset
                            },
                            Phase::Resetting => {
                                if completed + 1 == ticks {
                                    *self = FrameStreamer {
                                        phase: Phase::Terminal,
                                        ticks,
                                        completed: completed + 1,
                                        frames,
                                        failed,
                                    };
                                    Action::Stop
                                } else {
                                    *self = FrameStreamer {
                                        phase: Phase::Simulating,
                                        ticks,
                                        completed: completed + 1,
                                        frames,
                                        failed,
                                    };
                                    Action::Simulate
                                }
                            },
                            Phase::Terminal => Action::Stop,
                        }
                    },
                }
            },
        }
    }

    /// The phase that the run is in.
    pub fn phase(&self) -> (phase: Phase)
        ensures
            phase == self@.phase,
    {
        self.phase
    }

    /// The number of frames that went out whole.
    pub fn frames_sent(&self) -> (frames: u64)
        ensures
            frames == self@.frames,
    {
        self.frames
    }

    /// The number of ticks that are complete.
    pub fn ticks_completed(&self) -> (completed: u64)
        ensures
            completed == self@.completed,
    {
        self.completed
    }

    /// Whether the run ended because the sink failed.
    pub fn has_failed(&self) -> (failed: bool)
        ensures
            failed == self@.failed,
    {
        self.failed
    }
}

} // verus!
