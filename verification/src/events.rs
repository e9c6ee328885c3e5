//! The stimuli that reach the application handler, and the keys under which
//! deferred notifications are collected.

use crate::area::Area;
use crate::math::Vec2;
use vstd::prelude::*;

verus! {

/// The key of a signal. Key 0 is reserved: a signal with it is never sent.
#[derive(Clone, Copy, Debug, PartialEq, Eq, Structural)]
pub struct Signal {
    pub signal_id: usize,
}

/// A status tag carried by a signal.
#[derive(Clone, Copy, Debug, PartialEq, Eq, Structural)]
pub struct StatusId(pub u64);

/// A kind tag carried by a trigger.
#[derive(Clone, Copy, Debug, PartialEq, Eq, Structural)]
pub struct TriggerId(pub u64);

/// A request to be called on the next frame.
#[derive(Clone, Copy, Debug, PartialEq, Eq, Structural)]
pub struct NextFrame(pub u64);

/// One status pending for one signal.
#[derive(Clone, Copy, Debug, PartialEq, Eq, Structural)]
pub struct SentSignal {
    pub signal: Signal,
    pub status: StatusId,
}

/// One trigger kind pending for one area.
#[derive(Clone, Copy, Debug, PartialEq, Eq, Structural)]
pub struct SentTrigger {
    pub area: Area,
    pub trigger_id: TriggerId,
}

/// The statuses pending for `signal` in a batch.
pub open spec fn statuses_of(batch: Seq<SentSignal>, signal: Signal) -> Set<StatusId> {
    Set::new(|status: StatusId| batch.contains(SentSignal { signal, status }))
}

/// The trigger kinds pending for `area` in a batch.
pub open spec fn triggers_of(batch: Seq<SentTrigger>, area: Area) -> Set<TriggerId> {
    Set::new(|trigger_id: TriggerId| batch.contains(SentTrigger { area, trigger_id }))
}

/// A batch after `sent` has been added to it, unless it was pending already.
pub open spec fn signal_added(batch: Seq<SentSignal>, sent: SentSignal) -> Seq<SentSignal> {
    if batch.contains(sent) {
        batch
    } else {
        batch.push(sent)
    }
}

/// A batch after `sent` has been added to it, unless it was pending already.
pub open spec fn trigger_added(batch: Seq<SentTrigger>, sent: SentTrigger) -> Seq<SentTrigger> {
    if batch.contains(sent) {
        batch
    } else {
        batch.push(sent)
    }
}

/// Adds `sent` to the batch unless it is pending already.
pub fn add_signal(batch: &mut Vec<SentSignal>, sent: SentSignal)
    ensures
        final(batch)@ == signal_added(old(batch)@, sent),
{
    let mut i: usize = 0;
    while i < batch.len()
        invariant
            i <= batch.len(),
            forall|k: int| 0 <= k < i ==> batch@[k] != sent,
        decreases batch.len() - i,
    {
        if batch[i] == sent {
            return ;
        }
        i += 1;
    }
    batch.push(sent);
}

/// Adds `sent` to the batch unless it is pending already.
pub fn add_trigger(batch: &mut Vec<SentTrigger>, sent: SentTrigger)
    ensures
        final(batch)@ == trigger_added(old(batch)@, sent),
{
    let mut i: usize = 0;
    while i < batch.len()
        invariant
            i <= batch.len(),
            forall|k: int| 0 <= k < i ==> batch@[k] != sent,
        decreases batch.len() - i,
    {
        if batch[i] == sent {
            return ;
        }
        i += 1;
    }
    batch.push(sent);
}

/// Sending a status adds it to the statuses pending for its signal and
/// leaves the statuses of every other signal as they were.
pub proof fn lemma_signal_added_statuses(batch: Seq<SentSignal>, sent: SentSignal, other: Signal)
    ensures
        statuses_of(signal_added(batch, sent), sent.signal) == statuses_of(batch, sent.signal).insert(
            sent.status,
        ),
        other != sent.signal ==> statuses_of(signal_added(batch, sent), other) == statuses_of(
            batch,
            other,
        ),
        batch.no_duplicates() ==> signal_added(batch, sent).no_duplicates(),
{
    let after = signal_added(batch, sent);
    assert forall|x: SentSignal| after.contains(x) <==> (batch.contains(x) || x == sent) by {
        if batch.contains(x) {
            let k = choose|k: int| 0 <= k < batch.len() && batch[k] == x;
            assert(after[k] == x);
        }
        if !batch.contains(sent) {
            assert(after[batch.len() as int] == sent);
        }
    }
    assert(statuses_of(after, sent.signal) =~= statuses_of(batch, sent.signal).insert(sent.status));
    if other != sent.signal {
        assert(statuses_of(after, other) =~= statuses_of(batch, other));
    }
}

/// Sending a trigger adds its kind to the kinds pending for its area and
/// leaves the kinds of every other area as they were.
pub proof fn lemma_trigger_added_kinds(batch: Seq<SentTrigger>, sent: SentTrigger, other: Area)
    ensures
        triggers_of(trigger_added(batch, sent), sent.area) == triggers_of(batch, sent.area).insert(
            sent.trigger_id,
        ),
        other != sent.area ==> triggers_of(trigger_added(batch, sent), other) == triggers_of(
            batch,
            other,
        ),
        batch.no_duplicates() ==> trigger_added(batch, sent).no_duplicates(),
{
    let after = trigger_added(batch, sent);
    assert forall|x: SentTrigger| after.contains(x) <==> (batch.contains(x) || x == sent) by {
        if batch.contains(x) {
            let k = choose|k: int| 0 <= k < batch.len() && batch[k] == x;
            assert(after[k] == x);
        }
        if !batch.contains(sent) {
            assert(after[batch.len() as int] == sent);
        }
    }
    assert(triggers_of(after, sent.area) =~= triggers_of(batch, sent.area).insert(sent.trigger_id));
    if other != sent.area {
        assert(triggers_of(after, other) =~= triggers_of(batch, other));
    }
}

/// The keys of a keyboard.
#[derive(Clone, Copy, Debug, PartialEq, Eq, Structural)]
pub enum KeyCode {
    Escape,
    Backtick,
    Key0,
    Key1,
    Key2,
    Key3,
    Key4,
    Key5,
    Key6,
    Key7,
    Key8,
    Key9,
    Minus,
    Equals,
    Backspace,
    Tab,
    KeyQ,
    KeyW,
    KeyE,
    KeyR,
    KeyT,
    KeyY,
    KeyU,
    KeyI,
    KeyO,
    KeyP,
    LBracket,
    RBracket,
    Return,
    KeyA,
    KeyS,
    KeyD,
    KeyF,
    KeyG,
    KeyH,
    KeyJ,
    KeyK,
    KeyL,
    Semicolon,
    Quote,
    Backslash,
    KeyZ,
    KeyX,
    KeyC,
    KeyV,
    KeyB,
    KeyN,
    KeyM,
    Comma,
    Period,
    Slash,
    Control,
    Alt,
    Shift,
    Logo,
    Space,
    Capslock,
    F1,
    F2,
    F3,
    F4,
    F5,
    F6,
    F7,
    F8,
    F9,
    F10,
    F11,
    F12,
    PrintScreen,
    Scrolllock,
    Pause,
    Insert,
    Delete,
    Home,
    End,
    PageUp,
    PageDown,
    Numpad0,
    Numpad1,
    Numpad2,
    Numpad3,
    Numpad4,
    Numpad5,
    Numpad6,
    Numpad7,
    Numpad8,
    Numpad9,
    NumpadEquals,
    NumpadSubtract,
    NumpadAdd,
    NumpadDecimal,
    NumpadMultiply,
    NumpadDivide,
    Numlock,
    NumpadEnter,
    ArrowUp,
    ArrowDown,
    ArrowLeft,
    ArrowRight,
    Unknown,
}

impl Default for KeyCode {
    fn default() -> (key_code: KeyCode)
        ensures
            key_code == KeyCode::Unknown,
    {
        KeyCode::Unknown
    }
}

/// The modifier keys held while an event happened.
#[derive(Clone, Copy, Debug, PartialEq, Eq, Structural)]
pub struct KeyModifiers {
    pub shift: bool,
    pub control: bool,
    pub alt: bool,
    pub logo: bool,
}

/// A key going down or up; `time` is in microseconds.
#[derive(Clone, Copy, Debug, PartialEq, Eq, Structural)]
pub struct KeyEvent {
    pub key_code: KeyCode,
    pub is_repeat: bool,
    pub modifiers: KeyModifiers,
    pub time: i64,
}

/// The keyboard focus moved from `prev` to `focus`.
#[derive(Clone, Copy, Debug, PartialEq, Eq, Structural)]
pub struct KeyFocusEvent {
    pub prev: Area,
    pub focus: Area,
}

/// A pointer went down.
#[derive(Clone, Copy, Debug, PartialEq, Eq, Structural)]
pub struct FingerDownEvent {
    pub window_id: usize,
    pub abs: Vec2,
    pub rel: Vec2,
    pub digit: usize,
    pub tap_count: u32,
    pub handled: bool,
    pub modifiers: KeyModifiers,
    pub time: i64,
}

/// A pointer moved.
#[derive(Clone, Copy, Debug, PartialEq, Eq, Structural)]
pub struct FingerMoveEvent {
    pub window_id: usize,
    pub abs: Vec2,
    pub abs_start: Vec2,
    pub rel: Vec2,
    pub rel_start: Vec2,
    pub digit: usize,
    pub is_over: bool,
    pub modifiers: KeyModifiers,
    pub time: i64,
}

/// A pointer went up.
#[derive(Clone, Copy, Debug, PartialEq, Eq, Structural)]
pub struct FingerUpEvent {
    pub window_id: usize,
    pub abs: Vec2,
    pub abs_start: Vec2,
    pub rel: Vec2,
    pub rel_start: Vec2,
    pub digit: usize,
    pub is_over: bool,
    pub modifiers: KeyModifiers,
    pub time: i64,
}

/// A timer fired.
#[derive(Clone, Copy, Debug, PartialEq, Eq, Structural)]
pub struct TimerEvent {
    pub timer_id: u64,
}

/// The tick of a frame; `time` is in microseconds.
#[derive(Clone, Copy, Debug, PartialEq, Eq, Structural)]
pub struct NextFrameEvent {
    pub time: i64,
    pub frame: u64,
}

/// The signals that were pending when the batch was taken.
#[derive(Clone, Debug)]
pub struct SignalEvent {
    pub signals: Vec<SentSignal>,
}

/// The triggers that were pending when the batch was taken.
#[derive(Clone, Debug)]
pub struct TriggersEvent {
    pub triggers: Vec<SentTrigger>,
}

/// A stimulus delivered to the application handler.
#[derive(Clone, Debug)]
pub enum Event {
    Construct,
    Draw,
    FingerDown(FingerDownEvent),
    FingerMove(FingerMoveEvent),
    FingerUp(FingerUpEvent),
    KeyDown(KeyEvent),
    KeyUp(KeyEvent),
    Timer(TimerEvent),
    KeyFocus(KeyFocusEvent),
    Signal(SignalEvent),
    Triggers(TriggersEvent),
    NextFrame(NextFrameEvent),
}

/// A stimulus as a mathematical value: batches are sequences.
pub enum EventView {
    Construct,
    Draw,
    FingerDown(FingerDownEvent),
    FingerMove(FingerMoveEvent),
    FingerUp(FingerUpEvent),
    KeyDown(KeyEvent),
    KeyUp(KeyEvent),
    Timer(TimerEvent),
    KeyFocus(KeyFocusEvent),
    Signal(Seq<SentSignal>),
    Triggers(Seq<SentTrigger>),
    NextFrame(NextFrameEvent),
}

impl View for Event {
    type V = EventView;

    open spec fn view(&self) -> EventView {
        match *self {
            Event::Construct => EventView::Construct,
            Event::Draw => EventView::Draw,
            Event::FingerDown(e) => EventView::FingerDown(e),
            Event::FingerMove(e) => EventView::FingerMove(e),
            Event::FingerUp(e) => EventView::FingerUp(e),
            Event::KeyDown(e) => EventView::KeyDown(e),
            Event::KeyUp(e) => EventView::KeyUp(e),
            Event::Timer(e) => EventView::Timer(e),
            Event::KeyFocus(e) => EventView::KeyFocus(e),
            Event::Signal(e) => EventView::Signal(e.signals@),
            Event::Triggers(e) => EventView::Triggers(e.triggers@),
            Event::NextFrame(e) => EventView::NextFrame(e),
        }
    }
}

} // verus!
