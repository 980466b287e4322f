//! Mouse input state and the per-frame update rules.
//!
//! The windowing layer delivers motion and wheel events; the rules here say
//! exactly how they fold into the per-frame mouse state.  The relative
//! fields accumulate within one frame and are cleared at its start.

use vstd::prelude::*;

verus! {

/// Mouse state for the current frame: absolute position plus the motion and
/// wheel deltas accumulated since the frame began.
#[derive(Clone, Copy, PartialEq, Eq, Structural, Debug)]
pub struct MouseData {
    pub x: i32,
    pub y: i32,
    pub xrel: i32,
    pub yrel: i32,
    pub wheel_xrel: i32,
    pub wheel_yrel: i32,
}

/// A mouse event as the windowing layer reports it: a motion with absolute
/// position and deltas, a wheel step, or anything else (ignored here).
#[derive(Clone, Copy, PartialEq, Eq, Structural, Debug)]
pub enum MouseEvent {
    Motion { x: i32, y: i32, xrel: i32, yrel: i32 },
    Wheel { x: i32, y: i32 },
    Other,
}

/// Starts a frame: clears the accumulated deltas, keeps the position.
pub fn pre_update_mouse(mouse_data: &mut MouseData)
    ensures
        final(mouse_data).xrel == 0,
        final(mouse_data).yrel == 0,
        final(mouse_data).wheel_xrel == 0,
        final(mouse_data).wheel_yrel == 0,
        final(mouse_data).x == old(mouse_data).x,
        final(mouse_data).y == old(mouse_data).y,
{
    mouse_data.xrel = 0;
    mouse_data.yrel = 0;
    mouse_data.wheel_xrel = 0;
    mouse_data.wheel_yrel = 0;
}

/// Folds one event into the frame's mouse state: a motion overwrites the
/// position and accumulates its deltas, a wheel step accumulates its deltas,
/// anything else changes nothing.
pub fn update_mouse(mouse_data: &mut MouseData, event: &MouseEvent)
    requires
        (*event matches MouseEvent::Motion { xrel, yrel, .. } ==> {
            &&& i32::MIN <= old(mouse_data).xrel + xrel <= i32::MAX
            &&& i32::MIN <= old(mouse_data).yrel + yrel <= i32::MAX
        }),
        (*event matches MouseEvent::Wheel { x, y } ==> {
            &&& i32::MIN <= old(mouse_data).wheel_xrel + x <= i32::MAX
            &&& i32::MIN <= old(mouse_data).wheel_yrel + y <= i32::MAX
        }),
    ensures
        (*event matches MouseEvent::Motion { x, y, xrel, yrel } ==> *final(mouse_data)
            == MouseData {
            x,
            y,
            xrel: (old(mouse_data).xrel + xrel) as i32,
            yrel: (old(mouse_data).yrel + yrel) as i32,
            ..*old(mouse_data)
        }),
        (*event matches MouseEvent::Wheel { x, y } ==> *final(mouse_data) == MouseData {
            wheel_xrel: (old(mouse_data).wheel_xrel + x) as i32,
            wheel_yrel: (old(mouse_data).wheel_yrel + y) as i32,
            ..*old(mouse_data)
        }),
        *event is Other ==> *final(mouse_data) == *old(mouse_data),
{
    match event {
        MouseEvent::Motion { x, y, xrel, yrel } => {
            mouse_data.x = *x;
            mouse_data.y = *y;
            mouse_data.xrel = mouse_data.xrel + *xrel;
            mouse_data.yrel = mouse_data.yrel + *yrel;
        },
        MouseEvent::Wheel { x, y } => {
            mouse_data.wheel_xrel = mouse_data.wheel_xrel + *x;
            mouse_data.wheel_yrel = mouse_data.wheel_yrel + *y;
        },
        MouseEvent::Other => {},
    }
}

} // verus!
