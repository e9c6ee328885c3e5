use makepad_core::area::{Area, ViewArea};
use makepad_core::cx::{Cx, CxState, Turtle};
use makepad_core::dispatch::{DispatchError, DrawError, EventHandler, FlushReport, FLUSH_LIMIT};
use makepad_core::events::{
    Event, EventView, FingerDownEvent, KeyCode, KeyEvent, KeyFocusEvent, KeyModifiers, NextFrame,
    SentSignal, SentTrigger, Signal, StatusId, TimerEvent, TriggerId,
};
use makepad_core::math::Vec2;

fn view_area(view_id: usize) -> Area {
    Area::View(ViewArea { view_id, redraw_id: 0 })
}

fn modifiers() -> KeyModifiers {
    KeyModifiers { shift: false, control: false, alt: false, logo: false }
}

fn finger_down() -> Event {
    Event::FingerDown(FingerDownEvent {
        window_id: 0,
        abs: Vec2 { x: 1, y: 2 },
        rel: Vec2 { x: 1, y: 2 },
        digit: 0,
        tap_count: 1,
        handled: false,
        modifiers: modifiers(),
        time: 0,
    })
}

fn key(key_code: KeyCode) -> KeyEvent {
    KeyEvent { key_code, is_repeat: false, modifiers: modifiers(), time: 0 }
}

/// What a handler saw: the kind of each event, with the focus and the event
/// id the context had when the event came in.
#[derive(Debug, PartialEq, Clone)]
enum Seen {
    Draw { redraw_id: u64, in_redraw_cycle: bool, child: Vec<Area>, next_child: Vec<Area> },
    FingerDown { key_focus: Area, event_id: u64 },
    KeyFocus { prev: Area, focus: Area, key_focus: Area, prev_key_focus: Area },
    KeyUp(KeyCode),
    Timer,
    Signal(Vec<SentSignal>, usize),
    Triggers(Vec<SentTrigger>, usize),
    NextFrame { time: i64, frame: u64, answered: Vec<u64>, pending: usize },
    Other,
}

struct App {
    seen: Vec<Seen>,
    focus_on_finger_down: Option<Area>,
    resend_signal: bool,
    resend_trigger_rounds: usize,
    open_view_in_draw: bool,
}

impl App {
    fn new() -> App {
        App {
            seen: Vec::new(),
            focus_on_finger_down: None,
            resend_signal: false,
            resend_trigger_rounds: 0,
            open_view_in_draw: false,
        }
    }
}

impl EventHandler for App {
    fn react(self, cx: CxState, _event: EventView) -> (Self, CxState) {
        (self, cx)
    }

    fn handle_event(&mut self, cx: &mut Cx, event: &Event) {
        let seen = match event {
            Event::Draw => {
                if self.open_view_in_draw {
                    cx.view_stack.push(1);
                }
                cx.redraw_child_area(view_area(8));
                Seen::Draw {
                    redraw_id: cx.redraw_id,
                    in_redraw_cycle: cx.in_redraw_cycle,
                    child: cx._redraw_child_areas.clone(),
                    next_child: cx.redraw_child_areas.clone(),
                }
            }
            Event::FingerDown(_) => {
                if let Some(area) = self.focus_on_finger_down {
                    cx.set_key_focus(area);
                }
                Seen::FingerDown { key_focus: cx.key_focus, event_id: cx.event_id }
            }
            Event::KeyFocus(KeyFocusEvent { prev, focus }) => Seen::KeyFocus {
                prev: *prev,
                focus: *focus,
                key_focus: cx.key_focus,
                prev_key_focus: cx.prev_key_focus,
            },
            Event::KeyUp(k) => Seen::KeyUp(k.key_code),
            Event::Timer(_) => Seen::Timer,
            Event::Signal(batch) => {
                let pending = cx.signals.len();
                if self.resend_signal {
                    cx.send_signal(Signal { signal_id: 7 }, StatusId(1));
                }
                Seen::Signal(batch.signals.clone(), pending)
            }
            Event::Triggers(batch) => {
                let pending = cx.triggers.len();
                if self.resend_trigger_rounds > 0 {
                    self.resend_trigger_rounds -= 1;
                    cx.send_trigger(Area::All, TriggerId(4));
                }
                Seen::Triggers(batch.triggers.clone(), pending)
            }
            Event::NextFrame(e) => {
                let mut answered: Vec<u64> = cx._next_frames.iter().copied().collect();
                answered.sort();
                Seen::NextFrame {
                    time: e.time,
                    frame: e.frame,
                    answered,
                    pending: cx.next_frames.len(),
                }
            }
            _ => Seen::Other,
        };
        self.seen.push(seen);
    }
}

#[test]
fn an_event_is_delivered_once() {
    let mut cx = Cx::default();
    let mut app = App::new();
    cx.call_event_handler(&mut app, &Event::Timer(TimerEvent { timer_id: 3 }));
    assert_eq!(app.seen, vec![Seen::Timer]);
    assert_eq!(cx.event_id, 2);
    cx.call_event_handler(&mut app, &Event::Construct);
    assert_eq!(app.seen, vec![Seen::Timer, Seen::Other]);
    assert_eq!(cx.event_id, 3);
}

#[test]
fn the_event_counter_wraps_around() {
    let mut cx = Cx::default();
    let mut app = App::new();
    cx.event_id = u64::MAX;
    cx.call_event_handler(&mut app, &finger_down());
    assert_eq!(app.seen, vec![Seen::FingerDown { key_focus: Area::Empty, event_id: 0 }]);
}

#[test]
fn focus_change_follows_the_event_that_asked_for_it() {
    let mut cx = Cx::default();
    let mut app = App::new();
    cx.key_focus = view_area(1);
    cx.next_key_focus = view_area(1);
    app.focus_on_finger_down = Some(view_area(2));
    cx.call_event_handler(&mut app, &finger_down());
    assert_eq!(
        app.seen,
        vec![
            Seen::FingerDown { key_focus: view_area(1), event_id: 2 },
            Seen::KeyFocus {
                prev: view_area(1),
                focus: view_area(2),
                key_focus: view_area(2),
                prev_key_focus: view_area(1),
            },
        ]
    );
    assert!(cx.has_key_focus(view_area(2)));
    assert_eq!(cx.prev_key_focus, view_area(1));
    assert_eq!(cx.event_id, 2);
    // the focus stays, and no second notification comes
    cx.call_event_handler(&mut app, &finger_down());
    assert_eq!(app.seen.len(), 3);
    assert_eq!(app.seen[2], Seen::FingerDown { key_focus: view_area(2), event_id: 3 });
    assert!(cx.has_key_focus(view_area(2)));
}

#[test]
fn no_focus_change_without_a_request() {
    let mut cx = Cx::default();
    let mut app = App::new();
    cx.call_event_handler(&mut app, &finger_down());
    assert_eq!(app.seen, vec![Seen::FingerDown { key_focus: Area::Empty, event_id: 2 }]);
}

#[test]
fn a_request_made_between_events_is_applied_after_the_next_one() {
    let mut cx = Cx::default();
    let mut app = App::new();
    cx.set_key_focus(view_area(4));
    cx.call_event_handler(&mut app, &Event::Timer(TimerEvent { timer_id: 1 }));
    assert_eq!(app.seen.len(), 2);
    assert_eq!(
        app.seen[1],
        Seen::KeyFocus {
            prev: Area::Empty,
            focus: view_area(4),
            key_focus: view_area(4),
            prev_key_focus: Area::Empty,
        }
    );
}

#[test]
fn draw_cycle_swaps_the_request_lists() {
    let mut cx = Cx::default();
    let mut app = App::new();
    cx.redraw_child_area(view_area(1));
    cx.redraw_parent_area(view_area(2));
    cx._redraw_child_areas = vec![view_area(5)];
    cx.align_list = vec![Area::All];
    cx.counter = 12;
    let r = cx.call_draw_event(&mut app);
    assert_eq!(r, Ok(()));
    assert_eq!(
        app.seen,
        vec![Seen::Draw {
            redraw_id: 2,
            in_redraw_cycle: true,
            child: vec![view_area(1)],
            next_child: vec![view_area(8)],
        }]
    );
    assert_eq!(cx.redraw_id, 2);
    assert!(!cx.in_redraw_cycle);
    assert_eq!(cx.counter, 0);
    assert_eq!(cx._redraw_child_areas, vec![view_area(1)]);
    assert_eq!(cx._redraw_parent_areas, vec![view_area(2)]);
    assert_eq!(cx.redraw_child_areas, vec![view_area(8)]);
    assert!(cx.redraw_parent_areas.is_empty());
    assert!(cx.align_list.is_empty());
    assert!(cx.view_will_redraw(1));
}

#[test]
fn a_scope_left_open_is_an_error() {
    let mut cx = Cx::default();
    let mut app = App::new();
    app.open_view_in_draw = true;
    assert_eq!(cx.call_draw_event(&mut app), Err(DrawError::ViewStack));
    assert!(!cx.in_redraw_cycle);
    assert_eq!(
        DrawError::ViewStack.message(),
        "View stack disaligned, forgot an end_view(cx)"
    );

    let mut app = App::new();
    let mut cx = Cx::default();
    cx.turtles.push(Turtle { guard_area: Area::Empty });
    assert_eq!(cx.call_draw_event(&mut app), Err(DrawError::TurtleStack));
    cx.window_stack.push(0);
    assert_eq!(cx.call_draw_event(&mut app), Err(DrawError::WindowStack));
    cx.pass_stack.push(0);
    assert_eq!(cx.call_draw_event(&mut app), Err(DrawError::PassStack));
    cx.view_stack.push(0);
    assert_eq!(cx.call_draw_event(&mut app), Err(DrawError::ViewStack));
    assert_eq!(DrawError::PassStack.message(), "Pass stack disaligned, forgot an end_pass(cx)");
    assert_eq!(
        DrawError::WindowStack.message(),
        "Window stack disaligned, forgot an end_window(cx)"
    );
    assert_eq!(
        DrawError::TurtleStack.message(),
        "Turtle stack disaligned, forgot an end_turtle()"
    );
}

#[test]
fn frame_requests_are_answered_by_the_next_tick() {
    let mut cx = Cx::default();
    let mut app = App::new();
    cx.repaint_id = 6;
    assert_eq!(cx.new_next_frame(), NextFrame(1));
    assert_eq!(cx.new_next_frame(), NextFrame(2));
    assert_eq!(cx.next_frame_id, 3);
    assert!(cx.next_frames.contains(&1) && cx.next_frames.contains(&2));
    cx.call_next_frame_event(&mut app, 16_000);
    assert_eq!(
        app.seen,
        vec![Seen::NextFrame { time: 16_000, frame: 6, answered: vec![1, 2], pending: 0 }]
    );
    assert!(cx.next_frames.is_empty());
    assert_eq!(cx._next_frames.len(), 2);
    cx.call_next_frame_event(&mut app, 32_000);
    assert_eq!(
        app.seen[1],
        Seen::NextFrame { time: 32_000, frame: 6, answered: vec![], pending: 0 }
    );
}

#[test]
fn all_keys_go_up_in_order() {
    let mut cx = Cx::default();
    let mut app = App::new();
    cx.process_key_down(key(KeyCode::Shift));
    cx.process_key_down(key(KeyCode::KeyQ));
    cx.process_key_down(key(KeyCode::Shift));
    cx.call_all_keys_up(&mut app);
    assert_eq!(app.seen, vec![Seen::KeyUp(KeyCode::Shift), Seen::KeyUp(KeyCode::KeyQ)]);
    assert!(cx.keys_down.is_empty());
    cx.call_all_keys_up(&mut app);
    assert_eq!(app.seen.len(), 2);
}

#[test]
fn signals_are_collected_by_key() {
    let mut cx = Cx::default();
    let a = cx.new_signal();
    let b = cx.new_signal();
    assert_eq!(a, Signal { signal_id: 2 });
    assert_eq!(b, Signal { signal_id: 3 });
    cx.send_signal(a, StatusId(1));
    cx.send_signal(b, StatusId(1));
    cx.send_signal(a, StatusId(2));
    cx.send_signal(a, StatusId(1));
    cx.send_signal(Signal { signal_id: 0 }, StatusId(1));
    assert_eq!(
        cx.signals,
        vec![
            SentSignal { signal: a, status: StatusId(1) },
            SentSignal { signal: b, status: StatusId(1) },
            SentSignal { signal: a, status: StatusId(2) },
        ]
    );
    cx.send_trigger(view_area(1), TriggerId(1));
    cx.send_trigger(view_area(1), TriggerId(1));
    cx.send_trigger(Area::Empty, TriggerId(1));
    assert_eq!(
        cx.triggers,
        vec![
            SentTrigger { area: view_area(1), trigger_id: TriggerId(1) },
            SentTrigger { area: Area::Empty, trigger_id: TriggerId(1) },
        ]
    );
    assert!(Cx::status_http_send_ok() != Cx::status_http_send_fail());
}

#[test]
fn signals_are_not_delivered_inline_and_come_as_one_batch() {
    let mut cx = Cx::default();
    let mut app = App::new();
    let s = cx.new_signal();
    cx.send_signal(s, StatusId(1));
    cx.send_signal(s, StatusId(2));
    cx.send_trigger(Area::All, TriggerId(9));
    assert!(app.seen.is_empty());
    let report = cx.call_signals_and_triggers(&mut app);
    assert_eq!(report.signal_rounds, 1);
    assert_eq!(report.trigger_rounds, 1);
    assert!(!report.signal_feedback());
    assert!(!report.trigger_feedback());
    assert_eq!(
        app.seen,
        vec![
            Seen::Signal(
                vec![
                    SentSignal { signal: s, status: StatusId(1) },
                    SentSignal { signal: s, status: StatusId(2) },
                ],
                0
            ),
            Seen::Triggers(vec![SentTrigger { area: Area::All, trigger_id: TriggerId(9) }], 0),
        ]
    );
    assert!(cx.signals.is_empty());
    assert!(cx.triggers.is_empty());
}

#[test]
fn nothing_pending_nothing_delivered() {
    let mut cx = Cx::default();
    let mut app = App::new();
    let report = cx.call_signals_and_triggers(&mut app);
    assert_eq!(report.signal_rounds, 0);
    assert_eq!(report.trigger_rounds, 0);
    assert!(app.seen.is_empty());
}

#[test]
fn signal_feedback_is_cut_off() {
    let mut cx = Cx::default();
    let mut app = App::new();
    app.resend_signal = true;
    cx.send_signal(Signal { signal_id: 7 }, StatusId(1));
    let report = cx.call_signals_and_triggers(&mut app);
    assert_eq!(FLUSH_LIMIT, 100);
    assert_eq!(report.signal_rounds, 101);
    assert!(report.signal_feedback());
    assert!(!report.trigger_feedback());
    assert_eq!(app.seen.len(), 101);
    // what was delivered stays delivered, what is pending stays pending
    assert_eq!(cx.signals.len(), 1);
}

#[test]
fn triggers_that_stop_feeding_back_are_flushed_to_the_end() {
    let mut cx = Cx::default();
    let mut app = App::new();
    app.resend_trigger_rounds = 5;
    cx.send_trigger(Area::All, TriggerId(4));
    let report = cx.call_signals_and_triggers(&mut app);
    assert_eq!(report.signal_rounds, 0);
    assert_eq!(report.trigger_rounds, 6);
    assert!(!report.trigger_feedback());
    assert!(cx.triggers.is_empty());

    app.resend_trigger_rounds = 100;
    cx.send_trigger(Area::All, TriggerId(4));
    let report = cx.call_signals_and_triggers(&mut app);
    assert_eq!(report.trigger_rounds, 101);
    assert!(report.trigger_feedback());
    assert!(cx.triggers.is_empty());
}

#[test]
fn dispatch_delivers_and_then_flushes() {
    let mut cx = Cx::default();
    let mut app = App::new();
    app.focus_on_finger_down = Some(view_area(3));
    cx.send_signal(Signal { signal_id: 5 }, StatusId(2));
    let report = cx.dispatch(&mut app, &finger_down());
    assert_eq!(report, Ok(FlushReport { signal_rounds: 1, trigger_rounds: 0 }));
    assert_eq!(app.seen.len(), 3);
    assert_eq!(app.seen[0], Seen::FingerDown { key_focus: Area::Empty, event_id: 2 });
    assert_eq!(
        app.seen[1],
        Seen::KeyFocus {
            prev: Area::Empty,
            focus: view_area(3),
            key_focus: view_area(3),
            prev_key_focus: Area::Empty,
        }
    );
    assert_eq!(
        app.seen[2],
        Seen::Signal(vec![SentSignal { signal: Signal { signal_id: 5 }, status: StatusId(2) }], 0)
    );
}

#[test]
fn dispatch_of_a_draw_request_and_of_a_tick() {
    let mut cx = Cx::default();
    let mut app = App::new();
    cx.repaint_id = 4;
    cx.new_next_frame();
    let tick = Event::NextFrame(makepad_core::events::NextFrameEvent { time: 5, frame: 99 });
    assert_eq!(cx.dispatch(&mut app, &tick), Ok(FlushReport { signal_rounds: 0, trigger_rounds: 0 }));
    assert_eq!(app.seen, vec![Seen::NextFrame { time: 5, frame: 4, answered: vec![1], pending: 0 }]);
    assert!(cx.dispatch(&mut app, &Event::Draw).is_ok());
    assert_eq!(cx.redraw_id, 2);
    app.resend_signal = true;
    cx.send_signal(Signal { signal_id: 7 }, StatusId(1));
    let report = cx.dispatch(&mut app, &Event::Draw).unwrap();
    assert!(report.signal_feedback());
}

#[test]
fn dispatch_refuses_what_only_the_context_makes() {
    let mut cx = Cx::default();
    let mut app = App::new();
    cx.send_signal(Signal { signal_id: 5 }, StatusId(2));
    let focus = Event::KeyFocus(KeyFocusEvent { prev: Area::Empty, focus: Area::All });
    assert_eq!(cx.dispatch(&mut app, &focus), Err(DispatchError::Synthesized));
    assert!(app.seen.is_empty());
    assert_eq!(cx.signals.len(), 1);
    assert_eq!(cx.event_id, 1);
}

#[test]
fn dispatch_ends_at_a_scope_left_open() {
    let mut cx = Cx::default();
    let mut app = App::new();
    app.open_view_in_draw = true;
    cx.send_signal(Signal { signal_id: 5 }, StatusId(2));
    assert_eq!(cx.dispatch(&mut app, &Event::Draw), Err(DispatchError::Draw(DrawError::ViewStack)));
    assert_eq!(app.seen.len(), 1);
    assert_eq!(cx.signals.len(), 1);
}
