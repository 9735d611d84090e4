//! Interactive pointer operations: moving or resizing a window, or panning the canvas.
use vstd::prelude::*;

use crate::canvas::{Point, Vec2};
use crate::window::model::WindowId;
use crate::window::move_resize::ResizeEdges;

verus! {

/// What an interactive operation does with the pointer's motion.
#[derive(Debug, Clone, Copy, PartialEq, Eq, Structural)]
pub enum ActiveInteractiveKind {
    Move,
    Resize,
    PanCanvas,
}

/// An interactive operation in progress, driven by pointer motion.
#[derive(Clone, Copy)]
pub struct ActiveInteractiveOp {
    kind: ActiveInteractiveKind,
    window_id: WindowId,
    last_pointer: Point,
    total_delta: Vec2,
    resize_edges: Option<ResizeEdges>,
    initiating_button: Option<u32>,
    start_pointer: Ghost<Point>,
}

impl ActiveInteractiveOp {
    /// The pointer position at which the operation began.
    pub closed spec fn start_view(&self) -> Point {
        self.start_pointer@
    }

    /// The pointer position seen last.
    pub closed spec fn last_view(&self) -> Point {
        self.last_pointer
    }

    pub closed spec fn kind_view(&self) -> ActiveInteractiveKind {
        self.kind
    }

    pub closed spec fn window_view(&self) -> WindowId {
        self.window_id
    }

    pub closed spec fn edges_view(&self) -> Option<ResizeEdges> {
        self.resize_edges
    }

    pub closed spec fn button_view(&self) -> Option<u32> {
        self.initiating_button
    }

    /// The accumulated motion is the distance from the starting pointer to the latest.
    #[verifier::type_invariant]
    closed spec fn consistent(&self) -> bool {
        &&& self.start_pointer@.ok()
        &&& self.last_pointer.ok()
        &&& self.total_delta.x == self.last_pointer.x - self.start_pointer@.x
        &&& self.total_delta.y == self.last_pointer.y - self.start_pointer@.y
    }

    /// An operation that starts with the pointer at `pointer` and no motion yet.
    pub fn new(
        kind: ActiveInteractiveKind,
        window_id: WindowId,
        pointer: Point,
        resize_edges: Option<ResizeEdges>,
        initiating_button: Option<u32>,
    ) -> (op: ActiveInteractiveOp)
        requires
            pointer.ok(),
        ensures
            op.start_view() == pointer,
            op.last_view() == pointer,
            op.kind_view() == kind,
            op.window_view() == window_id,
            op.edges_view() == resize_edges,
            op.button_view() == initiating_button,
    {
        ActiveInteractiveOp {
            kind,
            window_id,
            last_pointer: pointer,
            total_delta: Vec2 { x: 0, y: 0 },
            resize_edges,
            initiating_button,
            start_pointer: Ghost(pointer),
        }
    }

    /// Records the pointer at `pointer` and returns the motion since the last position.
    pub fn advance(&mut self, pointer: Point) -> (delta: Vec2)
        requires
            pointer.ok(),
        ensures
            delta.x == pointer.x - old(self).last_view().x,
            delta.y == pointer.y - old(self).last_view().y,
            final(self).last_view() == pointer,
            final(self).start_view() == old(self).start_view(),
            final(self).kind_view() == old(self).kind_view(),
            final(self).window_view() == old(self).window_view(),
            final(self).edges_view() == old(self).edges_view(),
            final(self).button_view() == old(self).button_view(),
    {
        proof {
            use_type_invariant(&*self);
        }
        let delta = pointer.minus(self.last_pointer);
        let total = Vec2 { x: self.total_delta.x + delta.x, y: self.total_delta.y + delta.y };
        *self = ActiveInteractiveOp {
            kind: self.kind,
            window_id: self.window_id,
            last_pointer: pointer,
            total_delta: total,
            resize_edges: self.resize_edges,
            initiating_button: self.initiating_button,
            start_pointer: self.start_pointer,
        };
        delta
    }

    /// The motion accumulated since the operation began: the distance from the starting
    /// pointer to the latest one.
    pub fn total_delta(&self) -> (d: Vec2)
        ensures
            d.x == self.last_view().x - self.start_view().x,
            d.y == self.last_view().y - self.start_view().y,
    {
        proof {
            use_type_invariant(self);
        }
        self.total_delta
    }

    /// The edges that a resize drags.
    pub fn resize_edges(&self) -> (r: Option<ResizeEdges>)
        ensures
            r == self.edges_view(),
    {
        self.resize_edges
    }

    /// The kind of operation.
    pub fn kind(&self) -> (r: ActiveInteractiveKind)
        ensures
            r == self.kind_view(),
    {
        self.kind
    }

    /// The window the operation acts on.
    pub fn window_id(&self) -> (r: WindowId)
        ensures
            r == self.window_view(),
    {
        self.window_id
    }

    /// Whether releasing `button` ends the operation: only the initiating button does,
    /// and any button does when none initiated it.
    pub fn should_end_on_button(&self, button: u32) -> (r: bool)
        ensures
            r == match self.button_view() {
                Some(initiating) => initiating == button,
                None => true,
            },
    {
        match self.initiating_button {
            Some(initiating) => initiating == button,
            None => true,
        }
    }
}

} // verus!

verus! {

/// What a pointer motion during an interactive operation asks for.
#[derive(Debug, Clone, Copy, PartialEq, Eq, Structural)]
pub enum InteractiveStep {
    /// The session is locked: the motion is dropped and the operation stays as it was.
    Locked,
    /// The pointer did not move.
    Still,
    /// Move the window by `delta` (the move hook decides how).
    Move { id: WindowId, delta: Vec2 },
    /// Resize the window's `edges` by `delta` (the resize hook decides how).
    Resize { id: WindowId, delta: Vec2, edges: ResizeEdges },
    /// Pan the canvas by the pointer's motion `delta`.
    Pan { delta: Vec2 },
}

/// What releasing a button during an interactive operation asks for.
#[derive(Debug, Clone, Copy, PartialEq, Eq, Structural)]
pub enum InteractiveEnd {
    /// The operation goes on: the button did not start it.
    Continue,
    /// The move ends after `total` motion.
    MoveEnded { id: WindowId, total: Vec2 },
    /// The resize of `edges` ends after `total` motion.
    ResizeEnded { id: WindowId, total: Vec2, edges: ResizeEdges },
    /// The canvas pan ends.
    PanEnded,
}

/// The edges a resize drags: those it was started with, or all four.
pub open spec fn edges_or_all(edges: Option<ResizeEdges>) -> ResizeEdges {
    match edges {
        Some(e) => e,
        None => ResizeEdges { left: true, right: true, top: true, bottom: true },
    }
}

impl ActiveInteractiveOp {
    /// Follows the pointer to `pointer` and says what the motion since the last position
    /// asks for; while the session is locked the motion is dropped and nothing changes.
    pub fn step(&mut self, pointer: Point, session_locked: bool) -> (r: InteractiveStep)
        requires
            pointer.ok(),
        ensures
            session_locked ==> r is Locked && *final(self) == *old(self),
            !session_locked ==> final(self).last_view() == pointer,
            final(self).start_view() == old(self).start_view(),
            final(self).kind_view() == old(self).kind_view(),
            final(self).window_view() == old(self).window_view(),
            final(self).edges_view() == old(self).edges_view(),
            final(self).button_view() == old(self).button_view(),
            !session_locked ==> ({
                let delta = Vec2 { x: (pointer.x - old(self).last_view().x) as i64, y: (pointer.y - old(self).last_view().y) as i64 };
                if delta.x == 0 && delta.y == 0 {
                    r is Still
                } else {
                    match old(self).kind_view() {
                        ActiveInteractiveKind::Move => r == InteractiveStep::Move { id: old(self).window_view(), delta },
                        ActiveInteractiveKind::Resize => r == InteractiveStep::Resize { id: old(self).window_view(), delta, edges: edges_or_all(old(self).edges_view()) },
                        ActiveInteractiveKind::PanCanvas => r == InteractiveStep::Pan { delta },
                    }
                }
            }),
    {
        if session_locked {
            return InteractiveStep::Locked;
        }
        let delta = self.advance(pointer);
        if delta.x == 0 && delta.y == 0 {
            return InteractiveStep::Still;
        }
        match self.kind {
            ActiveInteractiveKind::Move => InteractiveStep::Move { id: self.window_id, delta },
            ActiveInteractiveKind::Resize => InteractiveStep::Resize {
                id: self.window_id,
                delta,
                edges: match self.resize_edges {
                    Some(e) => e,
                    None => ResizeEdges::all(),
                },
            },
            ActiveInteractiveKind::PanCanvas => InteractiveStep::Pan { delta },
        }
    }

    /// Whether the operation goes on once its motion has been handed on, given whether its
    /// window is still mapped: a move or resize whose window is gone is cancelled; a
    /// canvas pan has no window.
    pub fn outlives_motion(&self, window_mapped: bool) -> (r: bool)
        ensures
            r == (self.kind_view() is PanCanvas || window_mapped),
    {
        match self.kind {
            ActiveInteractiveKind::PanCanvas => true,
            _ => window_mapped,
        }
    }

    /// What releasing `button` asks for: the operation ends only on the button that
    /// started it (any button where none did).
    pub fn end_on_release(&self, button: u32) -> (r: InteractiveEnd)
        ensures
            !(match self.button_view() { Some(b) => b == button, None => true }) ==> r is Continue,
            (match self.button_view() { Some(b) => b == button, None => true }) ==> match self.kind_view() {
                ActiveInteractiveKind::Move => r == InteractiveEnd::MoveEnded {
                    id: self.window_view(),
                    total: Vec2 { x: (self.last_view().x - self.start_view().x) as i64, y: (self.last_view().y - self.start_view().y) as i64 },
                },
                ActiveInteractiveKind::Resize => r == InteractiveEnd::ResizeEnded {
                    id: self.window_view(),
                    total: Vec2 { x: (self.last_view().x - self.start_view().x) as i64, y: (self.last_view().y - self.start_view().y) as i64 },
                    edges: edges_or_all(self.edges_view()),
                },
                ActiveInteractiveKind::PanCanvas => r is PanEnded,
            },
    {
        if !self.should_end_on_button(button) {
            return InteractiveEnd::Continue;
        }
        match self.kind {
            ActiveInteractiveKind::Move => InteractiveEnd::MoveEnded { id: self.window_id, total: self.total_delta() },
            ActiveInteractiveKind::Resize => InteractiveEnd::ResizeEnded {
                id: self.window_id,
                total: self.total_delta(),
                edges: match self.resize_edges {
                    Some(e) => e,
                    None => ResizeEdges::all(),
                },
            },
            ActiveInteractiveKind::PanCanvas => InteractiveEnd::PanEnded,
        }
    }
}

} // verus!
