//! Windows, as far as invalidation and scale resolution read them.

use crate::math::Vec2;
use vstd::prelude::*;

verus! {

/// Where a window stands in its life cycle.
#[derive(Clone, Debug)]
pub enum CxWindowState {
    /// Requested, not yet created by the platform.
    Create { inner_size: Vec2, position: Option<Vec2>, title: String },
    Created,
    /// Asked to close.
    Close,
    Closed,
}

/// The geometry the platform reported for a window.
#[derive(Clone, Copy, Debug, PartialEq, Eq, Structural)]
pub struct WindowGeom {
    /// The scale factor, in thousandths.
    pub dpi_factor: u32,
    pub xr_is_presenting: bool,
    pub is_fullscreen: bool,
    pub position: Vec2,
    pub inner_size: Vec2,
    pub outer_size: Vec2,
}

/// One window.
#[derive(Clone, Debug)]
pub struct CxWindow {
    pub window_state: CxWindowState,
    pub window_geom: WindowGeom,
    pub main_pass_id: Option<usize>,
}

impl CxWindow {
    /// Whether the window is wanted or on screen, so that a request to
    /// redraw everything reaches it.
    pub open spec fn is_live(self) -> bool {
        self.window_state is Create || self.window_state is Created
    }

    /// The scale factor to use for content of this window: the default while
    /// the window is being created, its own once it is created, and 1.0 once
    /// it is closing or closed.
    pub open spec fn scale(self, default_dpi_factor: u32) -> u32 {
        match self.window_state {
            CxWindowState::Create { .. } => default_dpi_factor,
            CxWindowState::Created => self.window_geom.dpi_factor,
            _ => crate::math::DPI_FACTOR_ONE,
        }
    }
}

} // verus!
