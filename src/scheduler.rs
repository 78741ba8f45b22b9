use crate::frame::{intensity_of, with_pixel, FrameBuffer, FrameView};
use vstd::prelude::*;

verus! {

/// Whether the render loop is still going.
#[derive(PartialEq, Eq, Structural, Clone, Copy, Debug)]
pub enum RunState {
    Running,
    Stopped,
}

/// An event reported by the windowing system; only a quit request matters.
#[derive(PartialEq, Eq, Structural, Clone, Copy, Debug)]
pub enum InputEvent {
    Quit,
    Other,
}

/// What the render loop sees in one turn.
#[derive(PartialEq, Eq, Structural, Clone, Copy, Debug)]
pub enum LoopEvent {
    /// A worker's escape count `n` for pixel `(x, y)`.
    Result { x: u32, y: u32, n: u32 },
    /// The redraw timer fired; `quit_requested` tells whether the windowing
    /// system reported a quit request since the last tick.
    Tick { quit_requested: bool },
    /// Nothing was ready, or the result channel is closed.
    Idle,
}

/// What the render loop asks of the display after a turn.
#[derive(PartialEq, Eq, Structural, Clone, Copy, Debug)]
pub enum LoopAction {
    /// No display operation.
    Nothing,
    /// Copy the framebuffer to the display surface and present it.
    Refresh,
    /// Leave the loop.
    Exit,
}

/// Whether a quit request is among the polled events.
pub open spec fn has_quit(events: Seq<InputEvent>) -> bool {
    exists|i: int| 0 <= i < events.len() && events[i] == InputEvent::Quit
}

/// Scans the events polled on a timer tick for a quit request.
pub fn quit_requested(events: &Vec<InputEvent>) -> (r: bool)
    ensures
        r == has_quit(events@),
{
    let mut i: usize = 0;
    while i < events.len()
        invariant
            i <= events.len(),
            forall|j: int| 0 <= j < i ==> events@[j] != InputEvent::Quit,
        decreases events.len() - i,
    {
        if events[i] == InputEvent::Quit {
            return true;
        }
        i = i + 1;
    }
    false
}

/// What the render loop holds between turns.
pub struct SchedulerView {
    pub state: RunState,
    pub frame: FrameView,
    pub max_iterations: nat,
}

/// The framebuffer is well formed and the iteration cap is positive.
pub open spec fn view_wf(s: SchedulerView) -> bool {
    &&& s.frame.width <= u32::MAX
    &&& s.frame.height <= u32::MAX
    &&& s.frame.width * s.frame.height * 3 <= usize::MAX
    &&& s.frame.bytes.len() == s.frame.width * s.frame.height * 3
    &&& 0 < s.max_iterations <= u32::MAX
}

/// A result event names a pixel of the image and a count within the cap;
/// other events always fit.
pub open spec fn event_fits(s: SchedulerView, e: LoopEvent) -> bool {
    match e {
        LoopEvent::Result { x, y, n } => x < s.frame.width && y < s.frame.height && n
            <= s.max_iterations,
        _ => true,
    }
}

/// One turn of the render loop: the state after `e` and the display action.
pub open spec fn next(s: SchedulerView, e: LoopEvent) -> (SchedulerView, LoopAction) {
    if s.state == RunState::Stopped {
        (s, LoopAction::Nothing)
    } else {
        match e {
            LoopEvent::Result { x, y, n } => (
                SchedulerView {
                    frame: FrameView {
                        bytes: with_pixel(
                            s.frame.bytes,
                            s.frame.width,
                            x as nat,
                            y as nat,
                            intensity_of(n as nat, s.max_iterations) as u8,
                        ),
                        ..s.frame
                    },
                    ..s
                },
                LoopAction::Nothing,
            ),
            LoopEvent::Tick { quit_requested } => if quit_requested {
                (SchedulerView { state: RunState::Stopped, ..s }, LoopAction::Exit)
            } else {
                (s, LoopAction::Refresh)
            },
            LoopEvent::Idle => (s, LoopAction::Nothing),
        }
    }
}

/// The state after a run of events, and the action of each turn.
pub open spec fn run(s: SchedulerView, events: Seq<LoopEvent>) -> (SchedulerView, Seq<
    LoopAction,
>)
    decreases events.len(),
{
    if events.len() == 0 {
        (s, Seq::empty())
    } else {
        let (s1, a) = next(s, events[0]);
        let (s2, rest) = run(s1, events.drop_first());
        (s2, seq![a] + rest)
    }
}

/// An event that brings neither a result nor a quit request.
pub open spec fn is_quiet(e: LoopEvent) -> bool {
    e == LoopEvent::Tick { quit_requested: false } || e == LoopEvent::Idle
}

/// The action a running loop takes on a quiet event.
pub open spec fn quiet_action(e: LoopEvent) -> LoopAction {
    if e is Tick {
        LoopAction::Refresh
    } else {
        LoopAction::Nothing
    }
}

/// Idle stability: from a running loop, events that bring no result and no
/// quit request leave the loop's state and framebuffer as they were, and each
/// timer tick among them asks for a refresh.
pub proof fn lemma_idle_stability(s: SchedulerView, events: Seq<LoopEvent>)
    requires
        s.state == RunState::Running,
        forall|i: int| 0 <= i < events.len() ==> is_quiet(#[trigger] events[i]),
    ensures
        run(s, events).0 == s,
        run(s, events).1.len() == events.len(),
        forall|i: int|
            0 <= i < events.len() ==> run(s, events).1[i] == quiet_action(#[trigger] events[i]),
    decreases events.len(),
{
    if events.len() > 0 {
        let rest = events.drop_first();
        assert forall|i: int| 0 <= i < rest.len() implies is_quiet(#[trigger] rest[i]) by {
            assert(rest[i] == events[i + 1]);
        }
        lemma_idle_stability(s, rest);
        let acts = run(s, events).1;
        assert forall|i: int| 0 <= i < events.len() implies acts[i] == quiet_action(
            #[trigger] events[i],
        ) by {
            if i > 0 {
                assert(rest[i - 1] == events[i]);
            }
        }
    }
}

/// A stopped loop ignores every event: nothing changes and no display
/// operation is asked for.
pub proof fn lemma_stopped_is_inert(s: SchedulerView, events: Seq<LoopEvent>)
    requires
        s.state == RunState::Stopped,
    ensures
        run(s, events) == (s, Seq::new(events.len(), |i: int| LoopAction::Nothing)),
    decreases events.len(),
{
    if events.len() > 0 {
        lemma_stopped_is_inert(s, events.drop_first());
        assert(run(s, events).1 =~= Seq::new(events.len(), |i: int| LoopAction::Nothing));
    }
}

/// Cancellation: a timer tick that carries a quit request stops a running
/// loop in that same turn, with no redraw; whatever comes after it changes
/// neither the framebuffer nor the state and asks for no display operation.
pub proof fn lemma_quit_stops(s: SchedulerView, later: Seq<LoopEvent>)
    requires
        s.state == RunState::Running,
    ensures
        run(s, seq![LoopEvent::Tick { quit_requested: true }] + later).0 == (SchedulerView {
            state: RunState::Stopped,
            ..s
        }),
        run(s, seq![LoopEvent::Tick { quit_requested: true }] + later).1 == seq![LoopAction::Exit]
            + Seq::new(later.len(), |i: int| LoopAction::Nothing),
{
    let events = seq![LoopEvent::Tick { quit_requested: true }] + later;
    assert(events.drop_first() =~= later);
    lemma_stopped_is_inert(SchedulerView { state: RunState::Stopped, ..s }, later);
}

/// The render loop: it owns the framebuffer, writes each arriving escape count
/// into it, asks for a redraw on each timer tick and stops on a quit request.
pub struct Scheduler {
    state: RunState,
    frame: FrameBuffer,
    max_iterations: u32,
}

impl View for Scheduler {
    type V = SchedulerView;

    closed spec fn view(&self) -> SchedulerView {
        SchedulerView {
            state: self.state,
            frame: self.frame@,
            max_iterations: self.max_iterations as nat,
        }
    }
}

impl Scheduler {
    pub open spec fn wf(&self) -> bool {
        view_wf(self@)
    }

    /// A running loop over a black `width` by `height` image.
    pub fn new(width: u32, height: u32, max_iterations: u32) -> (r: Scheduler)
        requires
            width as nat * height as nat * 3 <= usize::MAX,
            0 < max_iterations,
        ensures
            r.wf(),
            r@.state == RunState::Running,
            r@.max_iterations == max_iterations,
            r@.frame.width == width,
            r@.frame.height == height,
            r@.frame.bytes == Seq::new(width as nat * height as nat * 3, |i: int| 0u8),
    {
        Scheduler { state: RunState::Running, frame: FrameBuffer::new(width, height), max_iterations }
    }

    pub fn state(&self) -> (r: RunState)
        ensures
            r == self@.state,
    {
        self.state
    }

    /// The framebuffer as the loop holds it.
    pub fn frame(&self) -> (r: &FrameBuffer)
        ensures
            r@ == self@.frame,
    {
        &self.frame
    }

    /// Whether `e` may be handed to `step`; a result outside the image or
    /// above the cap is a fault of whoever produced it.
    pub fn fits(&self, e: &LoopEvent) -> (r: bool)
        requires
            self.wf(),
        ensures
            r == event_fits(self@, *e),
    {
        match *e {
            LoopEvent::Result { x, y, n } => x < self.frame.width() && y < self.frame.height() && n
                <= self.max_iterations,
            _ => true,
        }
    }

    /// Handles one event and returns the display action it calls for.
    pub fn step(&mut self, e: LoopEvent) -> (r: LoopAction)
        requires
            old(self).wf(),
            event_fits(old(self)@, e),
        ensures
            final(self).wf(),
            (final(self)@, r) == next(old(self)@, e),
    {
        if self.state == RunState::Stopped {
            return LoopAction::Nothing;
        }
        match e {
            LoopEvent::Result { x, y, n } => {
                self.frame.apply_result(x, y, n, self.max_iterations);
                LoopAction::Nothing
            },
            LoopEvent::Tick { quit_requested } => {
                if quit_requested {
                    self.state = RunState::Stopped;
                    LoopAction::Exit
                } else {
                    LoopAction::Refresh
                }
            },
            LoopEvent::Idle => LoopAction::Nothing,
        }
    }
}

} // verus!
