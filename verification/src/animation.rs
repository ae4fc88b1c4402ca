use vstd::prelude::*;

verus! {

/// Progress of one animated value.
#[derive(Clone, Copy, Debug, PartialEq, Eq, Structural)]
pub enum AnimState {
    Idle,
    Running,
    Finished,
}

/// What a window animation does.
#[derive(Clone, Copy, Debug, PartialEq, Eq, Structural)]
pub enum AnimKind {
    Open,
    Close,
    Move,
    Resize,
}

/// How an animation's progress is shaped over time.
#[derive(Clone, Copy, Debug, PartialEq, Eq, Structural)]
pub enum Easing {
    Linear,
    EaseIn,
    EaseOut,
    EaseInOut,
    Bounce,
}

/// A window animation that has been decided on: its kind, its length and,
/// for a move, the start and end of the window's top-left corner.
/// The animated values themselves are computed from this plan frame by frame.
#[derive(Clone, Copy, Debug, PartialEq, Eq, Structural)]
pub enum WindowAnimPlan {
    Open { duration_ms: u64 },
    Close { duration_ms: u64 },
    Move { from_x: i32, to_x: i32, from_y: i32, to_y: i32, duration_ms: u64 },
}

impl WindowAnimPlan {
    pub open spec fn kind_spec(self) -> AnimKind {
        match self {
            WindowAnimPlan::Open { .. } => AnimKind::Open,
            WindowAnimPlan::Close { .. } => AnimKind::Close,
            WindowAnimPlan::Move { .. } => AnimKind::Move,
        }
    }

    /// The kind of animation this plan describes.
    pub fn kind(&self) -> (k: AnimKind)
        ensures
            k == self.kind_spec(),
    {
        match self {
            WindowAnimPlan::Open { .. } => AnimKind::Open,
            WindowAnimPlan::Close { .. } => AnimKind::Close,
            WindowAnimPlan::Move { .. } => AnimKind::Move,
        }
    }
}

} // verus!
