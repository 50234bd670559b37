use vstd::prelude::*;

verus! {

/// Process identifier of the application that owns a window.
#[allow(non_camel_case_types)]
pub type pid_t = i32;

/// Identifies one window: the owning process and the window's index in it.
#[derive(Clone, Copy, Debug, PartialEq, Eq, Structural, Hash)]
pub struct WindowId {
    pub pid: pid_t,
    pub idx: u32,
}

impl WindowId {
    pub fn new(pid: pid_t, idx: u32) -> (w: WindowId)
        ensures
            w.pid == pid,
            w.idx == idx,
    {
        WindowId { pid, idx }
    }
}

/// A direction of navigation within a layout.
#[derive(Clone, Copy, Debug, PartialEq, Eq, Structural)]
pub enum Direction {
    Left,
    Right,
    Up,
    Down,
}

impl Direction {
    /// Left and Up step towards the front of the stack.
    pub open spec fn is_backward(self) -> bool {
        self is Left || self is Up
    }

    /// The direction that undoes a step in this one.
    pub open spec fn opposite(self) -> Direction {
        match self {
            Direction::Left => Direction::Right,
            Direction::Right => Direction::Left,
            Direction::Up => Direction::Down,
            Direction::Down => Direction::Up,
        }
    }
}

} // verus!
