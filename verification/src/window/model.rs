//! The window model: identity, client properties, bounds and state flags.
use vstd::prelude::*;

use crate::canvas::{Rect, Size};
use std::time::SystemTime;

verus! {

#[verifier::external_type_specification]
#[verifier::external_body]
pub struct ExSystemTime(std::time::SystemTime);

/// The wall-clock time now.
///
/// Trusted: `SystemTime::now`. Its result depends on the clock, so nothing is
/// promised of it.
#[verifier::external_body]
fn wall_clock_now() -> SystemTime {
    SystemTime::now()
}

/// The identity of a window within a session.
#[derive(Debug, Clone, Copy, PartialEq, Eq, Hash, PartialOrd, Ord, Structural)]
pub struct WindowId(pub u64);

/// Properties sourced from the client or backend.
///
/// - `app_id`, `title`: guaranteed on XDG toplevels.
/// - `pid`: optional/backend-dependent; `None` in headless and when unavailable in the live
///   compositor.
#[derive(Debug, PartialEq, Eq)]
pub struct WindowProperties {
    pub app_id: Option<String>,
    pub title: Option<String>,
    /// Process ID of the client that owns this window.
    pub pid: Option<u32>,
}

/// A copy of an optional string.
pub fn copy_opt_string(o: &Option<String>) -> (r: Option<String>)
    ensures
        r == *o,
{
    match o {
        Some(s) => Some(s.clone()),
        None => None,
    }
}

impl Clone for WindowProperties {
    fn clone(&self) -> (r: Self)
        ensures
            r == *self,
    {
        WindowProperties {
            app_id: copy_opt_string(&self.app_id),
            title: copy_opt_string(&self.title),
            pid: self.pid,
        }
    }
}

impl WindowProperties {
    /// Properties with nothing known.
    pub fn empty() -> (p: WindowProperties)
        ensures
            p.app_id is None,
            p.title is None,
            p.pid is None,
    {
        WindowProperties { app_id: None, title: None, pid: None }
    }
}

/// A window on the canvas.
#[derive(Debug, PartialEq)]
pub struct Window {
    pub id: WindowId,
    pub properties: WindowProperties,
    pub bounds: Rect,
    pub floating: bool,
    pub exclude_from_focus: bool,
    /// Whether this window is in fullscreen state. Initially false.
    pub fullscreen: bool,
    /// Whether this window is in maximized state. Initially false.
    pub maximized: bool,
    /// Whether this window has an urgency hint set. Initially false.
    pub urgent: bool,
    /// Wall-clock time at which this window was first mapped into the session.
    pub mapped_at: Option<SystemTime>,
    /// Wall-clock time at which this window most recently gained focus.
    pub last_focused_at: Option<SystemTime>,
}

impl Clone for Window {
    fn clone(&self) -> (r: Self)
        ensures
            r == *self,
    {
        Window {
            id: self.id,
            properties: self.properties.clone(),
            bounds: self.bounds,
            floating: self.floating,
            exclude_from_focus: self.exclude_from_focus,
            fullscreen: self.fullscreen,
            maximized: self.maximized,
            urgent: self.urgent,
            mapped_at: self.mapped_at,
            last_focused_at: self.last_focused_at,
        }
    }
}

impl Window {
    /// A newly mapped floating window with no client properties, stamped with the
    /// current time as its mapping time.
    pub fn new(id: WindowId, bounds: Rect) -> (w: Window)
        ensures
            w.id == id,
            w.bounds == bounds,
            w.properties.app_id is None,
            w.properties.title is None,
            w.properties.pid is None,
            w.floating,
            !w.exclude_from_focus,
            !w.fullscreen,
            !w.maximized,
            !w.urgent,
            w.mapped_at is Some,
            w.last_focused_at is None,
    {
        Window {
            id,
            properties: WindowProperties::empty(),
            bounds,
            floating: true,
            exclude_from_focus: false,
            fullscreen: false,
            maximized: false,
            urgent: false,
            mapped_at: Some(wall_clock_now()),
            last_focused_at: None,
        }
    }

    /// The window with its client properties replaced.
    pub fn with_properties(self, properties: WindowProperties) -> (w: Window)
        ensures
            w == (Window { properties, ..self }),
    {
        let mut w = self;
        w.properties = properties;
        w
    }

    /// The window's size.
    pub fn size(&self) -> (s: Size)
        ensures
            s == self.bounds.size,
    {
        self.bounds.size
    }
}

} // verus!
