//! The decisions of the view that shows a running build: its clock, and
//! the size that it last told the build.

use vstd::prelude::*;

verus! {

/// What the host tells the build. Times are in microseconds.
#[derive(Clone, Copy, Debug, PartialEq, Eq, Structural)]
pub enum HostToStdin {
    Tick { frame: u64, time: i64 },
    /// The size of the view in pixels has changed.
    WindowSize { width: usize, height: usize },
}

/// What the build tells the host.
#[derive(Clone, Copy, Debug, PartialEq, Eq, Structural)]
pub enum StdinToHost {
    ReadyToStart,
    DrawComplete,
}

/// The view of a running build.
#[derive(Clone, Copy, Debug, PartialEq, Eq, Structural)]
pub struct RunView {
    /// The time between two frames, in microseconds.
    pub frame_delta: i64,
    /// The size in pixels that the build was told last.
    pub last_width: usize,
    pub last_height: usize,
    /// The time of the build, in microseconds.
    pub time: i64,
    pub frame: u64,
}

impl RunView {
    /// A view that has shown nothing yet, with 16 milliseconds between two
    /// frames.
    pub fn new() -> (run_view: RunView)
        ensures
            run_view == (RunView {
                frame_delta: 16_000,
                last_width: 0,
                last_height: 0,
                time: 0,
                frame: 0,
            }),
    {
        RunView { frame_delta: 16_000, last_width: 0, last_height: 0, time: 0, frame: 0 }
    }

    /// The interval timer fired: the clock of the build advances by one
    /// frame, and the build is told so.
    pub fn handle_event(&mut self) -> (tick: HostToStdin)
        requires
            old(self).frame < u64::MAX,
            i64::MIN <= old(self).time + old(self).frame_delta <= i64::MAX,
        ensures
            *final(self) == (RunView {
                time: (old(self).time + old(self).frame_delta) as i64,
                frame: (old(self).frame + 1) as u64,
                ..*old(self)
            }),
            tick == (HostToStdin::Tick { frame: final(self).frame, time: final(self).time }),
    {
        self.time += self.frame_delta;
        self.frame += 1;
        HostToStdin::Tick { frame: self.frame, time: self.time }
    }

    /// Takes a message of the build and returns whether the view has to
    /// redraw. A build that is ready to start is told the size again with
    /// the next draw.
    pub fn handle_stdin_to_host(&mut self, msg: StdinToHost) -> (redraw: bool)
        ensures
            redraw,
            *final(self) == match msg {
                StdinToHost::ReadyToStart => RunView { last_width: 0, last_height: 0, ..*old(self) },
                StdinToHost::DrawComplete => *old(self),
            },
    {
        match msg {
            StdinToHost::ReadyToStart => {
                self.last_width = 0;
                self.last_height = 0;
            },
            StdinToHost::DrawComplete => {},
        }
        true
    }

    /// The view is drawn at `width` by `height` pixels: the build is told
    /// the size when it differs from the size it was told last.
    pub fn draw(&mut self, width: usize, height: usize) -> (message: Option<HostToStdin>)
        ensures
            *final(self) == (RunView { last_width: width, last_height: height, ..*old(self) }),
            message == if width != old(self).last_width || height != old(self).last_height {
                Some(HostToStdin::WindowSize { width, height })
            } else {
                None
            },
    {
        if width != self.last_width || height != self.last_height {
            self.last_width = width;
            self.last_height = height;
            Some(HostToStdin::WindowSize { width, height })
        } else {
            None
        }
    }
}

} // verus!
