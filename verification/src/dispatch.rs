//! Delivery of events to the application handler: the focus commit that
//! follows every delivery, the draw cycle, the frame tick, and the bounded
//! flush of the signals and triggers that handlers leave behind.

use crate::area::Area;
use crate::cx::{Cx, CxState};
use crate::events::{
    Event, EventView, KeyEvent, KeyFocusEvent, NextFrame, NextFrameEvent, SentSignal, SentTrigger,
    Signal, SignalEvent, StatusId, TriggerId, TriggersEvent,
};
use vstd::prelude::*;

verus! {

/// The number of batches after which a flush is taken to feed itself: the
/// batch that follows the hundredth is still delivered, and then the flush
/// stops.
pub const FLUSH_LIMIT: usize = 100;

/// The application: the one receiver of every event.
///
/// An implementation says, with `react`, what it does for each state of
/// itself and of the context and for each event; `handle_event` has to do
/// exactly that. The handler may change the context in any way and may ask
/// for further deliveries by sending signals and triggers.
pub trait EventHandler: Sized {
    /// The handler and the context after the handler has been given `event`
    /// in context `cx`.
    spec fn react(self, cx: CxState, event: EventView) -> (Self, CxState);

    fn handle_event(&mut self, cx: &mut Cx, event: &Event)
        ensures
            (*final(self), final(cx)@) == old(self).react(old(cx)@, event@),
    ;
}

/// A scope that a draw cycle left open.
#[derive(Clone, Copy, Debug, PartialEq, Eq, Structural)]
pub enum DrawError {
    /// A view was begun and not ended.
    ViewStack,
    /// A pass was begun and not ended.
    PassStack,
    /// A window was begun and not ended.
    WindowStack,
    /// A layout scope was begun and not ended.
    TurtleStack,
}

impl DrawError {
    /// What the error says to the programmer.
    pub fn message(&self) -> (text: &'static str)
        ensures
            text@ == match *self {
                DrawError::ViewStack => "View stack disaligned, forgot an end_view(cx)"@,
                DrawError::PassStack => "Pass stack disaligned, forgot an end_pass(cx)"@,
                DrawError::WindowStack => "Window stack disaligned, forgot an end_window(cx)"@,
                DrawError::TurtleStack => "Turtle stack disaligned, forgot an end_turtle()"@,
            },
    {
        match self {
            DrawError::ViewStack => "View stack disaligned, forgot an end_view(cx)",
            DrawError::PassStack => "Pass stack disaligned, forgot an end_pass(cx)",
            DrawError::WindowStack => "Window stack disaligned, forgot an end_window(cx)",
            DrawError::TurtleStack => "Turtle stack disaligned, forgot an end_turtle()",
        }
    }
}

/// How many batches a flush delivered.
#[derive(Clone, Copy, Debug, PartialEq, Eq, Structural)]
pub struct FlushReport {
    pub signal_rounds: usize,
    pub trigger_rounds: usize,
}

impl FlushReport {
    /// Whether the signals fed themselves until the flush was cut off.
    pub fn signal_feedback(&self) -> (r: bool)
        ensures
            r == (self.signal_rounds > FLUSH_LIMIT),
    {
        self.signal_rounds > FLUSH_LIMIT
    }

    /// Whether the triggers fed themselves until the flush was cut off.
    pub fn trigger_feedback(&self) -> (r: bool)
        ensures
            r == (self.trigger_rounds > FLUSH_LIMIT),
    {
        self.trigger_rounds > FLUSH_LIMIT
    }
}

/// Why a stimulus was not carried through.
#[derive(Clone, Copy, Debug, PartialEq, Eq, Structural)]
pub enum DispatchError {
    /// The draw cycle left a scope open; nothing was flushed.
    Draw(DrawError),
    /// Focus changes are made by the context itself and cannot be handed in.
    Synthesized,
}

impl CxState {
    /// The state in which a handler is entered: the event counter has
    /// advanced by one, wrapping around at its limit.
    pub open spec fn event_begun(self) -> CxState {
        CxState {
            event_id: if self.event_id == u64::MAX {
                0
            } else {
                (self.event_id + 1) as u64
            },
            ..self
        }
    }

    /// Whether a focus request is waiting to be applied.
    pub open spec fn focus_pending(self) -> bool {
        self.next_key_focus != self.key_focus
    }

    /// The state after the requested focus has been applied.
    pub open spec fn focus_committed(self) -> CxState {
        CxState { prev_key_focus: self.key_focus, key_focus: self.next_key_focus, ..self }
    }

    /// The notification that goes with `focus_committed`: it carries the
    /// focus before and after.
    pub open spec fn focus_change(self) -> EventView {
        EventView::KeyFocus(KeyFocusEvent { prev: self.key_focus, focus: self.next_key_focus })
    }

    /// The handler and the state after `event` has been delivered: the
    /// handler is given the event; if it leaves a focus request behind, the
    /// request is applied and the handler is given the focus change, once.
    pub open spec fn delivered<H: EventHandler>(self, handler: H, event: EventView) -> (H, CxState) {
        let (handler1, state1) = handler.react(self.event_begun(), event);
        if state1.focus_pending() {
            handler1.react(state1.focus_committed(), state1.focus_change())
        } else {
            (handler1, state1)
        }
    }

    /// The state in which the draw event is delivered: the redraw generation
    /// has advanced, the requests made so far have become the requests of
    /// this cycle, and the lists for the next cycle are empty.
    pub open spec fn draw_begun(self) -> CxState {
        CxState {
            in_redraw_cycle: true,
            redraw_id: (self.redraw_id + 1) as u64,
            counter: 0,
            _redraw_child_areas: self.redraw_child_areas,
            _redraw_parent_areas: self.redraw_parent_areas,
            align_list: Seq::empty(),
            redraw_child_areas: Seq::empty(),
            redraw_parent_areas: Seq::empty(),
            ..self
        }
    }

    /// The handler and the state after a draw cycle.
    pub open spec fn drawn<H: EventHandler>(self, handler: H) -> (H, CxState) {
        let (handler1, state1) = self.draw_begun().delivered(handler, EventView::Draw);
        (handler1, CxState { in_redraw_cycle: false, ..state1 })
    }

    /// The scope that is still open, if one is: views are looked at first,
    /// then passes, windows and layout scopes.
    pub open spec fn open_scope(self) -> Option<DrawError> {
        if self.view_stack.len() > 0 {
            Some(DrawError::ViewStack)
        } else if self.pass_stack.len() > 0 {
            Some(DrawError::PassStack)
        } else if self.window_stack.len() > 0 {
            Some(DrawError::WindowStack)
        } else if self.turtles.len() > 0 {
            Some(DrawError::TurtleStack)
        } else {
            None
        }
    }

    /// The state in which the frame tick is delivered: the requests made so
    /// far are the ones this tick answers, and none is pending.
    pub open spec fn next_frame_begun(self) -> CxState {
        CxState { _next_frames: self.next_frames, next_frames: Set::empty(), ..self }
    }

    /// The handler and the state after a key-up has been delivered for each
    /// of the first `n` of `keys`, in order.
    pub open spec fn keys_released<H: EventHandler>(
        self,
        handler: H,
        keys: Seq<KeyEvent>,
        n: nat,
    ) -> (H, CxState)
        decreases n,
    {
        if n == 0 {
            (handler, self)
        } else {
            let (handler1, state1) = self.keys_released(handler, keys, (n - 1) as nat);
            state1.delivered(handler1, EventView::KeyUp(keys[n - 1]))
        }
    }

    /// The handler, the state and the number of batches delivered after the
    /// pending signals have been flushed, `rounds` batches having been
    /// delivered before: while signals are pending they are taken out as one
    /// batch and delivered; after more than `FLUSH_LIMIT` batches the flush
    /// stops, whatever is pending.
    pub open spec fn signals_flushed<H: EventHandler>(self, handler: H, rounds: nat) -> (
        H,
        CxState,
        nat,
    )
        decreases FLUSH_LIMIT + 1 - rounds,
    {
        if self.signals.len() == 0 || rounds > FLUSH_LIMIT {
            (handler, self, rounds)
        } else {
            let (handler1, state1) = (CxState { signals: Seq::empty(), ..self }).delivered(
                handler,
                EventView::Signal(self.signals),
            );
            state1.signals_flushed(handler1, rounds + 1)
        }
    }

    /// As `signals_flushed`, for the pending triggers.
    pub open spec fn triggers_flushed<H: EventHandler>(self, handler: H, rounds: nat) -> (
        H,
        CxState,
        nat,
    )
        decreases FLUSH_LIMIT + 1 - rounds,
    {
        if self.triggers.len() == 0 || rounds > FLUSH_LIMIT {
            (handler, self, rounds)
        } else {
            let (handler1, state1) = (CxState { triggers: Seq::empty(), ..self }).delivered(
                handler,
                EventView::Triggers(self.triggers),
            );
            state1.triggers_flushed(handler1, rounds + 1)
        }
    }

    /// The handler and the state after the first phase of the dispatch of
    /// `stimulus`: a draw cycle for a draw request, a frame tick for a tick,
    /// nothing for a focus change, and a plain delivery for everything else.
    pub open spec fn stimulated<H: EventHandler>(self, handler: H, stimulus: EventView) -> (H, CxState) {
        match stimulus {
            EventView::Draw => self.drawn(handler),
            EventView::NextFrame(tick) => self.next_frame_begun().delivered(
                handler,
                EventView::NextFrame(NextFrameEvent { time: tick.time, frame: self.repaint_id }),
            ),
            EventView::KeyFocus(_) => (handler, self),
            _ => self.delivered(handler, stimulus),
        }
    }

    /// Why the dispatch of `stimulus` ends after its first phase, if it
    /// does; `after` is the state that the first phase left.
    pub open spec fn dispatch_error(after: CxState, stimulus: EventView) -> Option<DispatchError> {
        match stimulus {
            EventView::Draw => match after.open_scope() {
                Some(e) => Some(DispatchError::Draw(e)),
                None => None,
            },
            EventView::KeyFocus(_) => Some(DispatchError::Synthesized),
            _ => None,
        }
    }

    /// The handler and the state after the dispatch of `stimulus`: the
    /// first phase, and then, unless that failed, the flush of the signals
    /// and triggers.
    pub open spec fn dispatched<H: EventHandler>(self, handler: H, stimulus: EventView) -> (H, CxState) {
        let (handler1, state1) = self.stimulated(handler, stimulus);
        if Self::dispatch_error(state1, stimulus) is Some {
            (handler1, state1)
        } else {
            (state1.flushed(handler1).0, state1.flushed(handler1).1)
        }
    }

    /// The handler, the state and the report after the signals and then the
    /// triggers have been flushed.
    pub open spec fn flushed<H: EventHandler>(self, handler: H) -> (H, CxState, FlushReport) {
        let (handler1, state1, signal_rounds) = self.signals_flushed(handler, 0);
        let (handler2, state2, trigger_rounds) = state1.triggers_flushed(handler1, 0);
        (
            handler2,
            state2,
            FlushReport { signal_rounds: signal_rounds as usize, trigger_rounds: trigger_rounds as usize },
        )
    }
}

/// A flush never delivers more than `FLUSH_LIMIT + 1` batches of a kind.
pub proof fn lemma_flush_is_bounded<H: EventHandler>(state: CxState, handler: H, rounds: nat)
    requires
        rounds <= FLUSH_LIMIT + 1,
    ensures
        rounds <= state.signals_flushed(handler, rounds).2 <= FLUSH_LIMIT + 1,
        rounds <= state.triggers_flushed(handler, rounds).2 <= FLUSH_LIMIT + 1,
        state.signals_flushed(handler, rounds).2 <= FLUSH_LIMIT ==> state.signals_flushed(
            handler,
            rounds,
        ).1.signals.len() == 0,
        state.triggers_flushed(handler, rounds).2 <= FLUSH_LIMIT ==> state.triggers_flushed(
            handler,
            rounds,
        ).1.triggers.len() == 0,
    decreases FLUSH_LIMIT + 1 - rounds,
{
    if !(state.signals.len() == 0 || rounds > FLUSH_LIMIT) {
        let (handler1, state1) = (CxState { signals: Seq::empty(), ..state }).delivered(
            handler,
            EventView::Signal(state.signals),
        );
        lemma_flush_is_bounded(state1, handler1, rounds + 1);
    }
    if !(state.triggers.len() == 0 || rounds > FLUSH_LIMIT) {
        let (handler1, state1) = (CxState { triggers: Seq::empty(), ..state }).delivered(
            handler,
            EventView::Triggers(state.triggers),
        );
        lemma_flush_is_bounded(state1, handler1, rounds + 1);
    }
}

/// Whether the delivery of a batch of signals to a handler of type `H`
/// always leaves a signal pending.
pub open spec fn signals_feed_back<H: EventHandler>() -> bool {
    forall|state: CxState, handler: H, batch: Seq<SentSignal>|
        (#[trigger] state.delivered(handler, EventView::Signal(batch))).1.signals.len() > 0
}

/// With a handler that answers every batch of signals with a new signal the
/// flush does not go on for ever: it stops after `FLUSH_LIMIT + 1` batches
/// and reports the feedback.
pub proof fn lemma_signal_feedback_is_cut_off<H: EventHandler>(
    state: CxState,
    handler: H,
    rounds: nat,
)
    requires
        signals_feed_back::<H>(),
        state.signals.len() > 0,
        rounds <= FLUSH_LIMIT,
    ensures
        state.signals_flushed(handler, rounds).2 == FLUSH_LIMIT + 1,
        state.signals_flushed(handler, rounds).1.signals.len() > 0,
    decreases FLUSH_LIMIT + 1 - rounds,
{
    let emptied = CxState { signals: Seq::empty(), ..state };
    let (handler1, state1) = emptied.delivered(handler, EventView::Signal(state.signals));
    assert(emptied.delivered(handler, EventView::Signal(state.signals)).1.signals.len() > 0);
    assert(state.signals_flushed(handler, rounds) == state1.signals_flushed(handler1, rounds + 1));
    if rounds < FLUSH_LIMIT {
        lemma_signal_feedback_is_cut_off(state1, handler1, rounds + 1);
    } else {
        assert(state1.signals_flushed(handler1, rounds + 1) == (handler1, state1, rounds + 1));
    }
}

/// A focus request that an event leaves behind is applied right after the
/// event: the handler is given one focus change that carries the focus
/// before and after, in a state in which the new focus is in place.
pub proof fn lemma_focus_change_follows<H: EventHandler>(state: CxState, handler: H, event: EventView)
    ensures
        ({
            let (handler1, state1) = handler.react(state.event_begun(), event);
            let notified = CxState {
                prev_key_focus: state1.key_focus,
                key_focus: state1.next_key_focus,
                ..state1
            };
            let change = EventView::KeyFocus(
                KeyFocusEvent { prev: state1.key_focus, focus: state1.next_key_focus },
            );
            &&& state1.next_key_focus != state1.key_focus ==> state.delivered(handler, event)
                == handler1.react(notified, change)
            &&& state1.next_key_focus == state1.key_focus ==> state.delivered(handler, event) == (
                handler1,
                state1,
            )
        }),
{
}

impl Cx {
    /// Delivers `event` to the handler. If the handler leaves a focus
    /// request behind, the focus moves and the handler is told so, once.
    pub fn call_event_handler<H: EventHandler>(&mut self, handler: &mut H, event: &Event)
        ensures
            (*final(handler), final(self)@) == old(self)@.delivered(*old(handler), event@),
    {
        self.event_id = if self.event_id == u64::MAX {
            0
        } else {
            self.event_id + 1
        };
        handler.handle_event(self, event);
        if self.next_key_focus != self.key_focus {
            self.prev_key_focus = self.key_focus;
            self.key_focus = self.next_key_focus;
            let change = Event::KeyFocus(
                KeyFocusEvent { prev: self.prev_key_focus, focus: self.key_focus },
            );
            handler.handle_event(self, &change);
        }
    }

    /// Runs one draw cycle: the requests made so far become the requests of
    /// this cycle, the handler draws, and every scope that was begun has to
    /// be ended again; the error names the first kind of scope that is not.
    pub fn call_draw_event<H: EventHandler>(&mut self, handler: &mut H) -> (r: Result<(), DrawError>)
        requires
            old(self)@.redraw_id < u64::MAX,
        ensures
            (*final(handler), final(self)@) == old(self)@.drawn(*old(handler)),
            r == match final(self)@.open_scope() {
                Some(e) => Err::<(), DrawError>(e),
                None => Ok::<(), DrawError>(()),
            },
    {
        self.in_redraw_cycle = true;
        self.redraw_id += 1;
        self.counter = 0;
        std::mem::swap(&mut self._redraw_child_areas, &mut self.redraw_child_areas);
        std::mem::swap(&mut self._redraw_parent_areas, &mut self.redraw_parent_areas);
        self.align_list.truncate(0);
        self.redraw_child_areas.truncate(0);
        self.redraw_parent_areas.truncate(0);
        assert(self@ == old(self)@.draw_begun()) by {
            assert(self@.align_list =~= Seq::<Area>::empty());
            assert(self@.redraw_child_areas =~= Seq::<Area>::empty());
            assert(self@.redraw_parent_areas =~= Seq::<Area>::empty());
        }
        self.call_event_handler(handler, &Event::Draw);
        self.in_redraw_cycle = false;
        if self.view_stack.len() > 0 {
            return Err(DrawError::ViewStack);
        }
        if self.pass_stack.len() > 0 {
            return Err(DrawError::PassStack);
        }
        if self.window_stack.len() > 0 {
            return Err(DrawError::WindowStack);
        }
        if self.turtles.len() > 0 {
            return Err(DrawError::TurtleStack);
        }
        Ok(())
    }

    /// Delivers the tick of a frame at `time` (microseconds) to the handler:
    /// the frame requests made so far are the ones the tick answers.
    pub fn call_next_frame_event<H: EventHandler>(&mut self, handler: &mut H, time: i64)
        ensures
            (*final(handler), final(self)@) == old(self)@.next_frame_begun().delivered(
                *old(handler),
                EventView::NextFrame(NextFrameEvent { time, frame: old(self)@.repaint_id }),
            ),
    {
        std::mem::swap(&mut self._next_frames, &mut self.next_frames);
        self.next_frames.clear();
        let event = Event::NextFrame(NextFrameEvent { time, frame: self.repaint_id });
        self.call_event_handler(handler, &event);
    }

    /// Takes every key that is down out of the set and tells the handler,
    /// key by key, that it went up.
    pub fn call_all_keys_up<H: EventHandler>(&mut self, handler: &mut H)
        ensures
            (*final(handler), final(self)@) == (CxState {
                keys_down: Seq::empty(),
                ..old(self)@
            }).keys_released(*old(handler), old(self)@.keys_down, old(self)@.keys_down.len()),
    {
        let mut keys_down: Vec<KeyEvent> = Vec::new();
        std::mem::swap(&mut keys_down, &mut self.keys_down);
        let ghost start = CxState { keys_down: Seq::empty(), ..old(self)@ };
        assert(self@ == start) by {
            assert(self@.keys_down =~= Seq::<KeyEvent>::empty());
        }
        let mut i: usize = 0;
        while i < keys_down.len()
            invariant
                i <= keys_down.len(),
                keys_down@ == old(self)@.keys_down,
                (*handler, self@) == start.keys_released(*old(handler), keys_down@, i as nat),
            decreases keys_down.len() - i,
        {
            let event = Event::KeyUp(keys_down[i]);
            self.call_event_handler(handler, &event);
            i += 1;
        }
    }

    /// Delivers the pending signals, and then the pending triggers, batch by
    /// batch until none is pending, but no more than `FLUSH_LIMIT + 1`
    /// batches of each; the report says how many batches there were.
    pub fn call_signals_and_triggers<H: EventHandler>(&mut self, handler: &mut H) -> (report:
        FlushReport)
        ensures
            (*final(handler), final(self)@, report) == old(self)@.flushed(*old(handler)),
            report.signal_rounds <= FLUSH_LIMIT + 1,
            report.trigger_rounds <= FLUSH_LIMIT + 1,
    {
        let ghost state0 = self@;
        let ghost handler0 = *handler;
        let mut counter: usize = 0;
        while self.signals.len() != 0
            invariant_except_break
                counter <= FLUSH_LIMIT,
                self@.signals_flushed(*handler, counter as nat) == state0.signals_flushed(handler0, 0),
            ensures
                counter <= FLUSH_LIMIT + 1,
                (*handler, self@, counter as nat) == state0.signals_flushed(handler0, 0),
            decreases FLUSH_LIMIT + 1 - counter,
        {
            let ghost state_before = self@;
            let ghost handler_before = *handler;
            counter += 1;
            let mut signals: Vec<SentSignal> = Vec::new();
            std::mem::swap(&mut self.signals, &mut signals);
            assert(self@ == (CxState { signals: Seq::empty(), ..state_before })) by {
                assert(self@.signals =~= Seq::<SentSignal>::empty());
            }
            let event = Event::Signal(SignalEvent { signals });
            self.call_event_handler(handler, &event);
            assert(state_before.signals_flushed(handler_before, (counter - 1) as nat)
                == self@.signals_flushed(*handler, counter as nat));
            if counter > FLUSH_LIMIT {
                assert(self@.signals_flushed(*handler, counter as nat) == (
                    *handler,
                    self@,
                    counter as nat,
                ));
                break ;
            }
        }
        let ghost state1 = self@;
        let ghost handler1 = *handler;
        let signal_rounds = counter;
        let mut counter: usize = 0;
        while self.triggers.len() != 0
            invariant_except_break
                counter <= FLUSH_LIMIT,
                self@.triggers_flushed(*handler, counter as nat) == state1.triggers_flushed(
                    handler1,
                    0,
                ),
            ensures
                counter <= FLUSH_LIMIT + 1,
                (*handler, self@, counter as nat) == state1.triggers_flushed(handler1, 0),
            decreases FLUSH_LIMIT + 1 - counter,
        {
            let ghost state_before = self@;
            let ghost handler_before = *handler;
            counter += 1;
            let mut triggers: Vec<SentTrigger> = Vec::new();
            std::mem::swap(&mut self.triggers, &mut triggers);
            assert(self@ == (CxState { triggers: Seq::empty(), ..state_before })) by {
                assert(self@.triggers =~= Seq::<SentTrigger>::empty());
            }
            let event = Event::Triggers(TriggersEvent { triggers });
            self.call_event_handler(handler, &event);
            assert(state_before.triggers_flushed(handler_before, (counter - 1) as nat)
                == self@.triggers_flushed(*handler, counter as nat));
            if counter > FLUSH_LIMIT {
                assert(self@.triggers_flushed(*handler, counter as nat) == (
                    *handler,
                    self@,
                    counter as nat,
                ));
                break ;
            }
        }
        FlushReport { signal_rounds, trigger_rounds: counter }
    }

    /// Carries one stimulus from outside through the context: a draw
    /// request runs a draw cycle, a frame tick answers the frame requests,
    /// every other stimulus is delivered as it is; then the signals and
    /// triggers that the handler left behind are flushed. A focus change
    /// cannot be handed in, and a draw cycle that leaves a scope open ends
    /// the dispatch before the flush.
    pub fn dispatch<H: EventHandler>(&mut self, handler: &mut H, stimulus: &Event) -> (r: Result<
        FlushReport,
        DispatchError,
    >)
        requires
            stimulus@ is Draw ==> old(self)@.redraw_id < u64::MAX,
        ensures
            (*final(handler), final(self)@) == old(self)@.dispatched(*old(handler), stimulus@),
            r == ({
                let (handler1, state1) = old(self)@.stimulated(*old(handler), stimulus@);
                match CxState::dispatch_error(state1, stimulus@) {
                    Some(e) => Err::<FlushReport, DispatchError>(e),
                    None => Ok::<FlushReport, DispatchError>(state1.flushed(handler1).2),
                }
            }),
    {
        match stimulus {
            Event::Draw => {
                if let Err(e) = self.call_draw_event(handler) {
                    return Err(DispatchError::Draw(e));
                }
            },
            Event::NextFrame(tick) => {
                self.call_next_frame_event(handler, tick.time);
            },
            Event::KeyFocus(_) => {
                return Err(DispatchError::Synthesized);
            },
            _ => {
                self.call_event_handler(handler, stimulus);
            },
        }
        Ok(self.call_signals_and_triggers(handler))
    }

    /// Asks to be called on the next frame.
    pub fn new_next_frame(&mut self) -> (res: NextFrame)
        requires
            old(self)@.next_frame_id < u64::MAX,
        ensures
            res == NextFrame(old(self)@.next_frame_id),
            final(self)@ == (CxState {
                next_frame_id: (old(self)@.next_frame_id + 1) as u64,
                next_frames: old(self)@.next_frames.insert(old(self)@.next_frame_id),
                ..old(self)@
            }),
    {
        broadcast use vstd::std_specs::hash::group_hash_axioms;

        let res = NextFrame(self.next_frame_id);
        self.next_frame_id += 1;
        self.next_frames.insert(res.0);
        res
    }

    /// Makes a signal that no earlier call has returned.
    pub fn new_signal(&mut self) -> (signal: Signal)
        requires
            old(self)@.signal_id < usize::MAX,
        ensures
            signal == (Signal { signal_id: (old(self)@.signal_id + 1) as usize }),
            final(self)@ == (CxState { signal_id: signal.signal_id, ..old(self)@ }),
    {
        self.signal_id += 1;
        Signal { signal_id: self.signal_id }
    }

    /// Adds `status` to the statuses pending for `signal`; they are
    /// delivered after the current event. The signal with key 0 is never
    /// sent.
    pub fn send_signal(&mut self, signal: Signal, status: StatusId)
        ensures
            final(self)@ == (CxState {
                signals: if signal.signal_id == 0 {
                    old(self)@.signals
                } else {
                    crate::events::signal_added(old(self)@.signals, SentSignal { signal, status })
                },
                ..old(self)@
            }),
    {
        if signal.signal_id == 0 {
            return ;
        }
        crate::events::add_signal(&mut self.signals, SentSignal { signal, status });
    }

    /// Adds `trigger_id` to the trigger kinds pending for `area`; they are
    /// delivered after the current event and the pending signals.
    pub fn send_trigger(&mut self, area: Area, trigger_id: TriggerId)
        ensures
            final(self)@ == (CxState {
                triggers: crate::events::trigger_added(
                    old(self)@.triggers,
                    SentTrigger { area, trigger_id },
                ),
                ..old(self)@
            }),
    {
        crate::events::add_trigger(&mut self.triggers, SentTrigger { area, trigger_id });
    }

    /// The status of a request that was sent.
    pub fn status_http_send_ok() -> (status: StatusId)
        ensures
            status == StatusId(1),
    {
        StatusId(1)
    }

    /// The status of a request that could not be sent.
    pub fn status_http_send_fail() -> (status: StatusId)
        ensures
            status == StatusId(2),
    {
        StatusId(2)
    }
}

} // verus!
