//! The context: the one value that holds the pass graph, the view tree, the
//! pointer and focus state and the pending notifications.

use crate::area::Area;
use crate::events::{KeyCode, KeyEvent, SentSignal, SentTrigger};
use crate::math::Vec2;
use crate::pass::CxPass;
use crate::view::{CxDrawShader, CxView};
use crate::window::CxWindow;
use std::collections::HashSet;
use vstd::prelude::*;

verus! {

/// The number of pointers that are tracked at the same time.
pub const NUM_FINGERS: usize = 10;

/// The platform the context runs on.
#[derive(Clone, Debug)]
pub enum PlatformType {
    Unknown,
    Windows,
    OSX,
    Linux { custom_window_chrome: bool },
    Web { protocol: String, hostname: String, port: u16, pathname: String, search: String, hash: String },
}

impl PlatformType {
    /// Whether the platform is a desktop: every platform but the web.
    pub fn is_desktop(&self) -> (r: bool)
        ensures
            r == !(*self is Web),
    {
        match self {
            PlatformType::Unknown => true,
            PlatformType::Windows => true,
            PlatformType::OSX => true,
            PlatformType::Linux { .. } => true,
            PlatformType::Web { .. } => false,
        }
    }
}

/// The key binding of a command.
#[derive(Clone, Copy, Debug, PartialEq, Eq, Structural)]
pub struct CxCommandSetting {
    pub shift: bool,
    pub key_code: KeyCode,
    pub enabled: bool,
}

impl Default for CxCommandSetting {
    fn default() -> (setting: CxCommandSetting)
        ensures
            setting == (CxCommandSetting { shift: false, key_code: KeyCode::Unknown, enabled: false }),
    {
        CxCommandSetting { shift: false, key_code: KeyCode::Unknown, enabled: false }
    }
}

/// The last tap of a pointer: where and when it fell, and how many taps
/// have followed one another closely up to it.
#[derive(Clone, Copy, Debug, PartialEq, Eq, Structural)]
pub struct TapCount {
    pub pos: Vec2,
    /// In microseconds.
    pub time: i64,
    pub count: u32,
}

/// The state kept for one pointer.
#[derive(Clone, Copy, Debug, PartialEq, Eq, Structural)]
pub struct CxPerFinger {
    /// The area that receives every event of the pointer, wherever it is.
    pub captured: Area,
    pub tap_count: TapCount,
    pub down_abs_start: Vec2,
    pub down_rel_start: Vec2,
    pub over_last: Area,
    pub _over_last: Area,
}

impl CxPerFinger {
    /// The state of a pointer that has not been seen yet.
    pub open spec fn initial() -> CxPerFinger {
        CxPerFinger {
            captured: Area::Empty,
            tap_count: TapCount { pos: Vec2 { x: 0, y: 0 }, time: 0, count: 0 },
            down_abs_start: Vec2 { x: 0, y: 0 },
            down_rel_start: Vec2 { x: 0, y: 0 },
            over_last: Area::Empty,
            _over_last: Area::Empty,
        }
    }
}

impl Default for CxPerFinger {
    fn default() -> (finger: CxPerFinger)
        ensures
            finger == CxPerFinger::initial(),
    {
        CxPerFinger {
            captured: Area::Empty,
            tap_count: TapCount { pos: Vec2 { x: 0, y: 0 }, time: 0, count: 0 },
            down_abs_start: Vec2 { x: 0, y: 0 },
            down_rel_start: Vec2 { x: 0, y: 0 },
            over_last: Area::Empty,
            _over_last: Area::Empty,
        }
    }
}

/// One open layout scope.
#[derive(Clone, Copy, Debug, PartialEq, Eq, Structural)]
pub struct Turtle {
    pub guard_area: Area,
}

/// The context.
pub struct Cx {
    pub running: bool,
    /// The number of instances drawn in the current cycle.
    pub counter: usize,
    pub platform_type: PlatformType,
    pub windows: Vec<CxWindow>,
    pub windows_free: Vec<usize>,
    pub passes: Vec<CxPass>,
    pub passes_free: Vec<usize>,
    pub views: Vec<CxView>,
    pub views_free: Vec<usize>,
    pub draw_shaders: Vec<CxDrawShader>,
    pub in_redraw_cycle: bool,
    /// Scale factors are in thousandths.
    pub default_dpi_factor: u32,
    pub current_dpi_factor: u32,
    pub window_stack: Vec<usize>,
    pub pass_stack: Vec<usize>,
    pub view_stack: Vec<usize>,
    pub turtles: Vec<Turtle>,
    pub align_list: Vec<Area>,
    /// Regions whose contents redraw in the next cycle.
    pub redraw_child_areas: Vec<Area>,
    /// Regions whose containers redraw in the next cycle.
    pub redraw_parent_areas: Vec<Area>,
    /// The child requests of the cycle being drawn.
    pub _redraw_child_areas: Vec<Area>,
    /// The parent requests of the cycle being drawn.
    pub _redraw_parent_areas: Vec<Area>,
    pub redraw_id: u64,
    pub repaint_id: u64,
    pub event_id: u64,
    pub timer_id: u64,
    pub next_frame_id: u64,
    pub signal_id: usize,
    pub prev_key_focus: Area,
    /// The focus that was asked for; it is applied after the current event.
    pub next_key_focus: Area,
    pub key_focus: Area,
    pub keys_down: Vec<KeyEvent>,
    pub debug_area: Area,
    pub fingers: Vec<CxPerFinger>,
    pub drag_area: Area,
    pub new_drag_area: Area,
    /// The frame requests made since the last tick.
    pub next_frames: HashSet<u64>,
    /// The frame requests the current tick answers.
    pub _next_frames: HashSet<u64>,
    pub triggers: Vec<SentTrigger>,
    pub signals: Vec<SentSignal>,
}

/// The context as a mathematical value: every list is a sequence and every
/// set of ids a set.
pub struct CxState {
    pub running: bool,
    pub counter: usize,
    pub platform_type: PlatformType,
    pub windows: Seq<CxWindow>,
    pub windows_free: Seq<usize>,
    pub passes: Seq<CxPass>,
    pub passes_free: Seq<usize>,
    pub views: Seq<CxView>,
    pub views_free: Seq<usize>,
    pub draw_shaders: Seq<CxDrawShader>,
    pub in_redraw_cycle: bool,
    pub default_dpi_factor: u32,
    pub current_dpi_factor: u32,
    pub window_stack: Seq<usize>,
    pub pass_stack: Seq<usize>,
    pub view_stack: Seq<usize>,
    pub turtles: Seq<Turtle>,
    pub align_list: Seq<Area>,
    pub redraw_child_areas: Seq<Area>,
    pub redraw_parent_areas: Seq<Area>,
    pub _redraw_child_areas: Seq<Area>,
    pub _redraw_parent_areas: Seq<Area>,
    pub redraw_id: u64,
    pub repaint_id: u64,
    pub event_id: u64,
    pub timer_id: u64,
    pub next_frame_id: u64,
    pub signal_id: usize,
    pub prev_key_focus: Area,
    pub next_key_focus: Area,
    pub key_focus: Area,
    pub keys_down: Seq<KeyEvent>,
    pub debug_area: Area,
    pub fingers: Seq<CxPerFinger>,
    pub drag_area: Area,
    pub new_drag_area: Area,
    pub next_frames: Set<u64>,
    pub _next_frames: Set<u64>,
    pub triggers: Seq<SentTrigger>,
    pub signals: Seq<SentSignal>,
}

impl View for Cx {
    type V = CxState;

    open spec fn view(&self) -> CxState {
        CxState {
            running: self.running,
            counter: self.counter,
            platform_type: self.platform_type,
            windows: self.windows@,
            windows_free: self.windows_free@,
            passes: self.passes@,
            passes_free: self.passes_free@,
            views: self.views@,
            views_free: self.views_free@,
            draw_shaders: self.draw_shaders@,
            in_redraw_cycle: self.in_redraw_cycle,
            default_dpi_factor: self.default_dpi_factor,
            current_dpi_factor: self.current_dpi_factor,
            window_stack: self.window_stack@,
            pass_stack: self.pass_stack@,
            view_stack: self.view_stack@,
            turtles: self.turtles@,
            align_list: self.align_list@,
            redraw_child_areas: self.redraw_child_areas@,
            redraw_parent_areas: self.redraw_parent_areas@,
            _redraw_child_areas: self._redraw_child_areas@,
            _redraw_parent_areas: self._redraw_parent_areas@,
            redraw_id: self.redraw_id,
            repaint_id: self.repaint_id,
            event_id: self.event_id,
            timer_id: self.timer_id,
            next_frame_id: self.next_frame_id,
            signal_id: self.signal_id,
            prev_key_focus: self.prev_key_focus,
            next_key_focus: self.next_key_focus,
            key_focus: self.key_focus,
            keys_down: self.keys_down@,
            debug_area: self.debug_area,
            fingers: self.fingers@,
            drag_area: self.drag_area,
            new_drag_area: self.new_drag_area,
            next_frames: self.next_frames@,
            _next_frames: self._next_frames@,
            triggers: self.triggers@,
            signals: self.signals@,
        }
    }
}

impl CxState {
    /// The state of a context that has just been made: one empty root view,
    /// no window and no pass, every counter at 1, nothing focused, captured
    /// or pending.
    pub open spec fn is_initial(self) -> bool {
        &&& self.running
        &&& self.counter == 0
        &&& self.platform_type is Unknown
        &&& self.windows.len() == 0
        &&& self.windows_free.len() == 0
        &&& self.passes.len() == 0
        &&& self.passes_free.len() == 0
        &&& self.views.len() == 1
        &&& self.views[0].pass_id == 0
        &&& self.views[0].nesting_view_id == 0
        &&& self.views[0].redraw_id == 0
        &&& self.views[0].unsnapped_scroll == (Vec2 { x: 0, y: 0 })
        &&& self.views[0].draw_items@.len() == 0
        &&& self.views[0].draw_items_len == 0
        &&& self.views_free.len() == 0
        &&& self.draw_shaders.len() == 0
        &&& !self.in_redraw_cycle
        &&& self.default_dpi_factor == crate::math::DPI_FACTOR_ONE
        &&& self.current_dpi_factor == crate::math::DPI_FACTOR_ONE
        &&& self.window_stack.len() == 0
        &&& self.pass_stack.len() == 0
        &&& self.view_stack.len() == 0
        &&& self.turtles.len() == 0
        &&& self.align_list.len() == 0
        &&& self.redraw_child_areas.len() == 0
        &&& self.redraw_parent_areas.len() == 0
        &&& self._redraw_child_areas.len() == 0
        &&& self._redraw_parent_areas.len() == 0
        &&& self.redraw_id == 1
        &&& self.repaint_id == 1
        &&& self.event_id == 1
        &&& self.timer_id == 1
        &&& self.next_frame_id == 1
        &&& self.signal_id == 1
        &&& self.prev_key_focus == Area::Empty
        &&& self.next_key_focus == Area::Empty
        &&& self.key_focus == Area::Empty
        &&& self.keys_down.len() == 0
        &&& self.debug_area == Area::Empty
        &&& self.fingers == Seq::new(NUM_FINGERS as nat, |i: int| CxPerFinger::initial())
        &&& self.drag_area == Area::Empty
        &&& self.new_drag_area == Area::Empty
        &&& self.next_frames == Set::<u64>::empty()
        &&& self._next_frames == Set::<u64>::empty()
        &&& self.triggers.len() == 0
        &&& self.signals.len() == 0
    }
}

impl Default for Cx {
    fn default() -> (cx: Cx)
        ensures
            cx@.is_initial(),
    {
        let mut fingers: Vec<CxPerFinger> = Vec::new();
        while fingers.len() < NUM_FINGERS
            invariant
                fingers.len() <= NUM_FINGERS,
                forall|i: int| 0 <= i < fingers.len() ==> fingers@[i] == CxPerFinger::initial(),
            decreases NUM_FINGERS - fingers.len(),
        {
            fingers.push(CxPerFinger::default());
        }
        assert(fingers@ =~= Seq::new(NUM_FINGERS as nat, |i: int| CxPerFinger::initial()));
        let mut views: Vec<CxView> = Vec::new();
        views.push(CxView::new());
        Cx {
            running: true,
            counter: 0,
            platform_type: PlatformType::Unknown,
            windows: Vec::new(),
            windows_free: Vec::new(),
            passes: Vec::new(),
            passes_free: Vec::new(),
            views,
            views_free: Vec::new(),
            draw_shaders: Vec::new(),
            in_redraw_cycle: false,
            default_dpi_factor: crate::math::DPI_FACTOR_ONE,
            current_dpi_factor: crate::math::DPI_FACTOR_ONE,
            window_stack: Vec::new(),
            pass_stack: Vec::new(),
            view_stack: Vec::new(),
            turtles: Vec::new(),
            align_list: Vec::new(),
            redraw_child_areas: Vec::new(),
            redraw_parent_areas: Vec::new(),
            _redraw_child_areas: Vec::new(),
            _redraw_parent_areas: Vec::new(),
            redraw_id: 1,
            repaint_id: 1,
            event_id: 1,
            timer_id: 1,
            next_frame_id: 1,
            signal_id: 1,
            prev_key_focus: Area::Empty,
            next_key_focus: Area::Empty,
            key_focus: Area::Empty,
            keys_down: Vec::new(),
            debug_area: Area::Empty,
            fingers,
            drag_area: Area::Empty,
            new_drag_area: Area::Empty,
            next_frames: HashSet::new(),
            _next_frames: HashSet::new(),
            triggers: Vec::new(),
            signals: Vec::new(),
        }
    }
}

} // verus!
