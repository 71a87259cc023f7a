//! The slice of camera state the core pipeline decides on: the current
//! aperture in grid units, the last user gesture, and whether the
//! camera moved since the previous frame. The floating-point projection
//! matrices stay with the rendering layer.

use vstd::prelude::*;

use crate::geometry::GRID_WIDTH;

verus! {

/// The most recent camera gesture; it selects the transition strategy.
#[derive(Clone, Copy, PartialEq, Eq, Structural, Debug)]
pub enum UserAction {
    Starting,
    Moving,
    Zooming,
    Unzooming,
}

/// Camera state as the core sees it. The aperture is the angular width
/// of the view, measured in grid units (the whole sky is GRID_WIDTH).
#[derive(Clone, Copy, PartialEq, Eq, Structural, Debug)]
pub struct CameraViewPort {
    pub aperture: i64,
    pub last_user_action: UserAction,
    pub moved: bool,
    pub viewport_width: u32,
}

impl CameraViewPort {
    pub open spec fn wf(self) -> bool {
        0 <= self.aperture <= GRID_WIDTH && self.viewport_width > 0
    }

    pub fn new(aperture: i64, viewport_width: u32) -> (c: CameraViewPort)
        requires
            0 <= aperture <= GRID_WIDTH,
            viewport_width > 0,
        ensures
            c.wf(),
            c.aperture == aperture,
            c.viewport_width == viewport_width,
            c.last_user_action == UserAction::Starting,
            !c.moved,
    {
        CameraViewPort {
            aperture,
            last_user_action: UserAction::Starting,
            moved: false,
            viewport_width,
        }
    }

    pub fn get_aperture(&self) -> (a: i64)
        ensures
            a == self.aperture,
    {
        self.aperture
    }

    pub fn get_last_user_action(&self) -> (a: UserAction)
        ensures
            a == self.last_user_action,
    {
        self.last_user_action
    }

    pub fn has_camera_moved(&self) -> (b: bool)
        ensures
            b == self.moved,
    {
        self.moved
    }

    pub fn set_aperture(&mut self, aperture: i64, action: UserAction)
        requires
            0 <= aperture <= GRID_WIDTH,
        ensures
            final(self).wf() == (old(self).viewport_width > 0),
            final(self).aperture == aperture,
            final(self).last_user_action == action,
            final(self).moved,
            final(self).viewport_width == old(self).viewport_width,
    {
        self.aperture = aperture;
        self.last_user_action = action;
        self.moved = true;
    }

    pub fn set_moved(&mut self, moved: bool)
        ensures
            *final(self) == (CameraViewPort { moved, ..*old(self) }),
    {
        self.moved = moved;
    }
}

} // verus!
