//! The headless session: the window model of a compositor without a display.
//!
//! It keeps the mapped windows, the windows that were unmapped but not yet destroyed,
//! the pending close requests, focus, the pointer and the key bindings. The camera over
//! the canvas (pan and zoom) is kept beside it by the program that runs the session.
use vstd::prelude::*;

use crate::canvas::{Point, Rect, Size};
use crate::config::{Config, ConfigError};
use crate::hooks::ActionTarget;
use crate::input::actions::Action;
use crate::input::bindings::{BindingMap, ModifierSet};
use crate::number::Double;
use crate::window::focus::{distinct, FocusStack};
use crate::window::model::{Window, WindowId, WindowProperties};

verus! {

/// Whether some window in `ws` has the id `id`.
pub open spec fn has_window(ws: Seq<Window>, id: WindowId) -> bool {
    exists|i: int| 0 <= i < ws.len() && (#[trigger] ws[i]).id == id
}

/// The position in `ws` of the window with the id `id`.
pub open spec fn window_index(ws: Seq<Window>, id: WindowId) -> int {
    choose|i: int| 0 <= i < ws.len() && (#[trigger] ws[i]).id == id
}

/// The ids of `ws` strictly increase and stay below `next`.
pub open spec fn ids_ascending_below(ws: Seq<Window>, next: u64) -> bool {
    &&& forall|i: int, j: int| 0 <= i < j < ws.len() ==> (#[trigger] ws[i]).id.0 < (#[trigger] ws[j]).id.0
    &&& forall|i: int| 0 <= i < ws.len() ==> (#[trigger] ws[i]).id.0 < next
}

/// No two windows of `ws` share an id.
pub open spec fn ids_distinct(ws: Seq<Window>) -> bool {
    forall|i: int, j: int| 0 <= i < ws.len() && 0 <= j < ws.len() && i != j ==> (#[trigger] ws[i]).id != (#[trigger] ws[j]).id
}

/// `ws` with the window at `i` given new bounds.
pub open spec fn with_bounds_at(ws: Seq<Window>, i: int, bounds: Rect) -> Seq<Window> {
    ws.update(i, Window { bounds, ..ws[i] })
}

/// What triggering a key binding did.
#[derive(Debug)]
pub enum BindingEffect {
    /// No binding applies.
    Unbound,
    /// The bound action was carried out on the session.
    Applied,
    /// The bound action pans or zooms; the camera is left to the caller.
    Camera(Action),
}

/// A change of the camera that a hook asked for; the program that runs the session
/// applies it to the camera it keeps.
#[derive(Debug, Clone, Copy, PartialEq, Eq, Structural)]
pub enum CameraRequest {
    /// Pan the canvas by (`dx`, `dy`).
    Pan { dx: Double, dy: Double },
    /// Zoom the canvas by `factor` about the centre of the screen.
    Zoom { factor: Double },
}

/// The headless session state.
#[derive(Debug, PartialEq)]
pub struct HeadlessSession {
    focus_stack: FocusStack,
    bindings: BindingMap,
    config_path: Option<String>,
    config: Option<Config>,
    next_window_id: u64,
    pointer_position: Point,
    window_models: Vec<Window>,
    pending_close_requests: Vec<WindowId>,
    unmapped_windows: Vec<Window>,
    camera_requests: Vec<CameraRequest>,
}

/// `after` is `before` with the mapped window `id` closed: gone from the mapped windows,
/// the focus order and focus, and from the unmapped windows and close requests.
pub open spec fn window_closed(before: HeadlessSession, after: HeadlessSession, id: WindowId) -> bool {
    &&& has_window(before.windows_view(), id)
    &&& after.windows_view() == before.windows_view().remove(window_index(before.windows_view(), id))
    &&& after.unmapped_view() == before.unmapped_view()
    &&& after.focus_view().order_view() == crate::window::focus::without(before.focus_view().order_view(), id)
    &&& after.focus_view().focus_view() == (if before.focus_view().focus_view() == Some(id) { None } else { before.focus_view().focus_view() })
    &&& !after.pending_view().contains(id)
    &&& after.next_id_view() == before.next_id_view()
    &&& after.bindings_view() == before.bindings_view()
    &&& after.config_view() == before.config_view()
    &&& after.config_path_view() == before.config_path_view()
}

impl HeadlessSession {
    /// The mapped windows, in order of creation.
    pub closed spec fn windows_view(&self) -> Seq<Window> {
        self.window_models@
    }

    /// The windows unmapped but not yet destroyed.
    pub closed spec fn unmapped_view(&self) -> Seq<Window> {
        self.unmapped_windows@
    }

    /// The windows asked to close.
    pub closed spec fn pending_view(&self) -> Seq<WindowId> {
        self.pending_close_requests@
    }

    /// The focus and its order.
    pub closed spec fn focus_view(&self) -> FocusStack {
        self.focus_stack
    }

    /// The key bindings.
    pub closed spec fn bindings_view(&self) -> BindingMap {
        self.bindings
    }

    /// The id the next window gets.
    pub closed spec fn next_id_view(&self) -> u64 {
        self.next_window_id
    }

    /// The pointer position.
    pub closed spec fn pointer_view(&self) -> Point {
        self.pointer_position
    }

    /// The camera changes asked for and not yet taken, oldest first.
    pub closed spec fn camera_view(&self) -> Seq<CameraRequest> {
        self.camera_requests@
    }

    /// The configuration the session runs with.
    pub closed spec fn config_view(&self) -> Option<Config> {
        self.config
    }

    /// Where the configuration was read from, as displayed.
    pub closed spec fn config_path_view(&self) -> Option<String> {
        self.config_path
    }

    /// The session is consistent: mapped windows have ascending ids below the next id,
    /// unmapped windows have distinct ids below it that no mapped window has, and focus
    /// and close requests concern mapped windows only.
    pub open spec fn wf(&self) -> bool {
        &&& ids_ascending_below(self.windows_view(), self.next_id_view())
        &&& ids_distinct(self.unmapped_view())
        &&& forall|i: int| 0 <= i < self.unmapped_view().len() ==> (#[trigger] self.unmapped_view()[i]).id.0 < self.next_id_view()
            && !has_window(self.windows_view(), self.unmapped_view()[i].id)
        &&& self.focus_view().wf()
        &&& forall|i: int| 0 <= i < self.focus_view().order_view().len() ==> has_window(self.windows_view(), #[trigger] self.focus_view().order_view()[i])
        &&& (self.focus_view().focus_view() matches Some(f) ==> has_window(self.windows_view(), f))
        &&& distinct(self.pending_view())
        &&& forall|i: int| 0 <= i < self.pending_view().len() ==> has_window(self.windows_view(), #[trigger] self.pending_view()[i])
    }

    /// A session without windows, the pointer at the origin, the next window numbered 1,
    /// and the config's key bindings (`default_zoom_out` being the reciprocal of the
    /// config's zoom step).
    pub fn new(config_path: Option<String>, config: Option<Config>, default_zoom_out: Double) -> (s: HeadlessSession)
        ensures
            s.wf(),
            s.windows_view() == Seq::<Window>::empty(),
            s.unmapped_view() == Seq::<Window>::empty(),
            s.pending_view() == Seq::<WindowId>::empty(),
            s.focus_view().focus_view() is None,
            s.next_id_view() == 1,
            s.pointer_view() == (Point { x: 0, y: 0 }),
            s.config_view() == config,
            s.config_path_view() == config_path,
            s.camera_view() == Seq::<CameraRequest>::empty(),
            match config {
                Some(c) => s.bindings_view().entries() == crate::input::bindings::entries_from_config(c.bindings@, c.canvas.pan_step, c.canvas.zoom_step, default_zoom_out),
                None => s.bindings_view().entries() == Seq::<(ModifierSet, Seq<char>, crate::input::actions::ActionView)>::empty(),
            },
    {
        let bindings = match &config {
            Some(cfg) => BindingMap::from_config(cfg.bindings.as_slice(), cfg.canvas.pan_step, cfg.canvas.zoom_step, default_zoom_out),
            None => BindingMap::new(),
        };
        HeadlessSession {
            focus_stack: FocusStack::new(),
            bindings,
            config_path,
            config,
            next_window_id: 1,
            pointer_position: Point { x: 0, y: 0 },
            window_models: Vec::new(),
            pending_close_requests: Vec::new(),
            unmapped_windows: Vec::new(),
            camera_requests: Vec::new(),
        }
    }

    /// The mapped windows, in order of creation.
    pub fn windows(&self) -> (r: &[Window])
        ensures
            r@ == self.windows_view(),
    {
        self.window_models.as_slice()
    }

    /// The focused window.
    pub fn focused_window_id(&self) -> (r: Option<WindowId>)
        ensures
            r == self.focus_view().focus_view(),
    {
        self.focus_stack.focused()
    }

    /// The focus order, most recent first.
    pub fn focus_order(&self) -> (r: &[WindowId])
        ensures
            r@ == self.focus_view().order_view(),
    {
        self.focus_stack.order()
    }

    /// The pointer position.
    pub fn pointer_position(&self) -> (r: Point)
        ensures
            r == self.pointer_view(),
    {
        self.pointer_position
    }

    /// The configuration the session runs with.
    pub fn config(&self) -> (r: &Option<Config>)
        ensures
            *r == self.config_view(),
    {
        &self.config
    }

    /// Where the configuration was loaded from.
    pub fn config_path(&self) -> (r: &Option<String>)
        ensures
            *r == self.config_path_view(),
    {
        &self.config_path
    }

    /// The key bindings.
    pub fn bindings(&self) -> (r: &BindingMap)
        ensures
            *r == self.bindings_view(),
    {
        &self.bindings
    }

    /// The mapped window with the id `id`.
    pub fn window(&self, id: WindowId) -> (r: Option<&Window>)
        requires
            self.wf(),
        ensures
            r is Some <==> has_window(self.windows_view(), id),
            r matches Some(w) ==> *w == self.windows_view()[window_index(self.windows_view(), id)],
    {
        match find_window(self.window_models.as_slice(), id) {
            Some(i) => Some(&self.window_models[i]),
            None => None,
        }
    }

    /// Moves the pointer.
    pub fn set_pointer_position(&mut self, position: Point)
        ensures
            final(self).pointer_view() == position,
            final(self).windows_view() == old(self).windows_view(),
            final(self).unmapped_view() == old(self).unmapped_view(),
            final(self).pending_view() == old(self).pending_view(),
            final(self).focus_view() == old(self).focus_view(),
            final(self).next_id_view() == old(self).next_id_view(),
            final(self).bindings_view() == old(self).bindings_view(),
            final(self).config_view() == old(self).config_view(),
            final(self).config_path_view() == old(self).config_path_view(),
            final(self).camera_view() == old(self).camera_view(),
            old(self).wf() ==> final(self).wf(),
    {
        self.pointer_position = position;
    }

    /// Maps a new window with the next id, `bounds` and `properties`, and returns its id.
    pub fn create_window(&mut self, bounds: Rect, properties: WindowProperties) -> (id: WindowId)
        requires
            old(self).wf(),
            old(self).next_id_view() < u64::MAX,
        ensures
            final(self).wf(),
            id.0 == old(self).next_id_view(),
            !has_window(old(self).windows_view(), id),
            forall|i: int| 0 <= i < old(self).unmapped_view().len() ==> (#[trigger] old(self).unmapped_view()[i]).id != id,
            final(self).next_id_view() == old(self).next_id_view() + 1,
            final(self).windows_view().len() == old(self).windows_view().len() + 1,
            final(self).windows_view().drop_last() == old(self).windows_view(),
            final(self).windows_view().last().id == id,
            final(self).windows_view().last().bounds == bounds,
            final(self).windows_view().last().properties == properties,
            final(self).windows_view().last().floating,
            !final(self).windows_view().last().exclude_from_focus,
            !final(self).windows_view().last().fullscreen,
            !final(self).windows_view().last().maximized,
            !final(self).windows_view().last().urgent,
            final(self).windows_view().last().mapped_at is Some,
            final(self).windows_view().last().last_focused_at is None,
            final(self).unmapped_view() == old(self).unmapped_view(),
            final(self).pending_view() == old(self).pending_view(),
            final(self).focus_view() == old(self).focus_view(),
            final(self).bindings_view() == old(self).bindings_view(),
            final(self).config_view() == old(self).config_view(),
            final(self).config_path_view() == old(self).config_path_view(),
            final(self).pointer_view() == old(self).pointer_view(),
            final(self).camera_view() == old(self).camera_view(),
    {
        let id = WindowId(self.next_window_id);
        self.next_window_id = self.next_window_id + 1;
        let window = Window::new(id, bounds).with_properties(properties);
        let ghost old_ws = self.window_models@;
        self.window_models.push(window);
        proof {
            let ws = self.window_models@;
            assert(ws.drop_last() =~= old_ws);
            assert forall|k: int| 0 <= k < old_ws.len() implies (#[trigger] old_ws[k]).id != id by {}
            assert forall|x: WindowId| has_window(old_ws, x) implies has_window(ws, x) by {
                let k = choose|k: int| 0 <= k < old_ws.len() && (#[trigger] old_ws[k]).id == x;
                assert(ws[k] == old_ws[k]);
            }
            assert forall|i: int| 0 <= i < self.unmapped_view().len() implies !has_window(ws, (#[trigger] self.unmapped_view()[i]).id) by {
                let u = self.unmapped_view()[i].id;
                if has_window(ws, u) {
                    let k = choose|k: int| 0 <= k < ws.len() && (#[trigger] ws[k]).id == u;
                    if k < old_ws.len() {
                        assert(old_ws[k] == ws[k]);
                    }
                }
            }
        }
        id
    }

    /// Focuses the mapped window `id`; returns whether it is mapped.
    pub fn focus_window(&mut self, id: WindowId) -> (r: bool)
        requires
            old(self).wf(),
        ensures
            final(self).wf(),
            r == has_window(old(self).windows_view(), id),
            r ==> final(self).focus_view().focus_view() == Some(id)
                && final(self).focus_view().order_view() == crate::window::focus::order_after_focus(old(self).focus_view().order_view(), id),
            !r ==> final(self).focus_view() == old(self).focus_view(),
            final(self).windows_view() == old(self).windows_view(),
            final(self).unmapped_view() == old(self).unmapped_view(),
            final(self).pending_view() == old(self).pending_view(),
            final(self).next_id_view() == old(self).next_id_view(),
            final(self).bindings_view() == old(self).bindings_view(),
            final(self).config_view() == old(self).config_view(),
            final(self).config_path_view() == old(self).config_path_view(),
            final(self).pointer_view() == old(self).pointer_view(),
            final(self).camera_view() == old(self).camera_view(),
    {
        if find_window(self.window_models.as_slice(), id).is_some() {
            self.focus_stack.focus(id);
            proof {
                let o = self.focus_stack.order_view();
                let prev = old(self).focus_view().order_view();
                assert forall|i: int| 0 <= i < o.len() implies has_window(self.windows_view(), #[trigger] o[i]) by {
                    if i > 0 {
                        crate::window::focus::lemma_without_member(prev, id, i - 1);
                        let j = choose|j: int| 0 <= j < prev.len() && prev[j] == crate::window::focus::without(prev, id)[i - 1];
                        assert(has_window(self.windows_view(), prev[j]));
                    }
                }
            }
            true
        } else {
            false
        }
    }

    /// Unfocuses; returns whether a window was focused.
    pub fn clear_focus(&mut self) -> (r: bool)
        requires
            old(self).wf(),
        ensures
            final(self).wf(),
            r == old(self).focus_view().focus_view() is Some,
            final(self).focus_view().focus_view() is None,
            final(self).focus_view().order_view() == old(self).focus_view().order_view(),
            final(self).windows_view() == old(self).windows_view(),
            final(self).unmapped_view() == old(self).unmapped_view(),
            final(self).pending_view() == old(self).pending_view(),
            final(self).next_id_view() == old(self).next_id_view(),
            final(self).bindings_view() == old(self).bindings_view(),
            final(self).config_view() == old(self).config_view(),
            final(self).config_path_view() == old(self).config_path_view(),
            final(self).pointer_view() == old(self).pointer_view(),
            final(self).camera_view() == old(self).camera_view(),
    {
        let changed = self.focus_stack.focused().is_some();
        self.focus_stack.clear_focus_only();
        changed
    }

    fn replace_bounds(&mut self, i: usize, bounds: Rect)
        requires
            old(self).wf(),
            i < old(self).windows_view().len(),
        ensures
            final(self).wf(),
            final(self).windows_view() == with_bounds_at(old(self).windows_view(), i as int, bounds),
            final(self).unmapped_view() == old(self).unmapped_view(),
            final(self).pending_view() == old(self).pending_view(),
            final(self).focus_view() == old(self).focus_view(),
            final(self).next_id_view() == old(self).next_id_view(),
            final(self).bindings_view() == old(self).bindings_view(),
            final(self).config_view() == old(self).config_view(),
            final(self).config_path_view() == old(self).config_path_view(),
            final(self).pointer_view() == old(self).pointer_view(),
            final(self).camera_view() == old(self).camera_view(),
    {
        let mut w = self.window_models[i].clone();
        w.bounds = bounds;
        self.window_models.set(i, w);
        proof {
            let ws = self.window_models@;
            let old_ws = old(self).windows_view();
            assert(ws =~= with_bounds_at(old_ws, i as int, bounds));
            assert forall|k: int| 0 <= k < ws.len() implies (#[trigger] ws[k]).id == old_ws[k].id by {}
            assert forall|x: WindowId| has_window(old_ws, x) implies has_window(ws, x) by {
                let k = choose|k: int| 0 <= k < old_ws.len() && (#[trigger] old_ws[k]).id == x;
                assert(ws[k].id == x);
            }
            assert forall|x: WindowId| has_window(ws, x) implies has_window(old_ws, x) by {
                let k = choose|k: int| 0 <= k < ws.len() && (#[trigger] ws[k]).id == x;
                assert(old_ws[k].id == x);
            }
        }
    }

    /// Moves the mapped window `id` to `(x, y)`; returns whether it is mapped.
    pub fn move_window(&mut self, id: WindowId, x: i64, y: i64) -> (r: bool)
        requires
            old(self).wf(),
        ensures
            final(self).wf(),
            r == has_window(old(self).windows_view(), id),
            r ==> final(self).windows_view() == with_bounds_at(old(self).windows_view(), window_index(old(self).windows_view(), id),
                Rect { origin: Point { x, y }, size: old(self).windows_view()[window_index(old(self).windows_view(), id)].bounds.size }),
            !r ==> final(self).windows_view() == old(self).windows_view(),
            final(self).unmapped_view() == old(self).unmapped_view(),
            final(self).pending_view() == old(self).pending_view(),
            final(self).focus_view() == old(self).focus_view(),
            final(self).next_id_view() == old(self).next_id_view(),
            final(self).bindings_view() == old(self).bindings_view(),
            final(self).config_view() == old(self).config_view(),
            final(self).config_path_view() == old(self).config_path_view(),
            final(self).pointer_view() == old(self).pointer_view(),
            final(self).camera_view() == old(self).camera_view(),
    {
        match find_window(self.window_models.as_slice(), id) {
            Some(i) => {
                let size = self.window_models[i].bounds.size;
                self.replace_bounds(i, Rect { origin: Point { x, y }, size });
                true
            },
            None => false,
        }
    }

    /// Gives the mapped window `id` the size `w` by `h`; returns false, changing nothing,
    /// when a dimension is not positive or the window is not mapped.
    pub fn resize_window(&mut self, id: WindowId, w: i64, h: i64) -> (r: bool)
        requires
            old(self).wf(),
        ensures
            final(self).wf(),
            r == (w > 0 && h > 0 && has_window(old(self).windows_view(), id)),
            r ==> final(self).windows_view() == with_bounds_at(old(self).windows_view(), window_index(old(self).windows_view(), id),
                Rect { origin: old(self).windows_view()[window_index(old(self).windows_view(), id)].bounds.origin, size: Size { w, h } }),
            !r ==> final(self).windows_view() == old(self).windows_view(),
            final(self).unmapped_view() == old(self).unmapped_view(),
            final(self).pending_view() == old(self).pending_view(),
            final(self).focus_view() == old(self).focus_view(),
            final(self).next_id_view() == old(self).next_id_view(),
            final(self).bindings_view() == old(self).bindings_view(),
            final(self).config_view() == old(self).config_view(),
            final(self).config_path_view() == old(self).config_path_view(),
            final(self).pointer_view() == old(self).pointer_view(),
            final(self).camera_view() == old(self).camera_view(),
    {
        if w <= 0 || h <= 0 {
            return false;
        }
        match find_window(self.window_models.as_slice(), id) {
            Some(i) => {
                let origin = self.window_models[i].bounds.origin;
                self.replace_bounds(i, Rect { origin, size: Size { w, h } });
                true
            },
            None => false,
        }
    }

    /// Gives the mapped window `id` the bounds `bounds`; returns false, changing nothing,
    /// when a dimension is not positive or the window is not mapped.
    pub fn set_window_bounds(&mut self, id: WindowId, bounds: Rect) -> (r: bool)
        requires
            old(self).wf(),
        ensures
            final(self).wf(),
            r == (bounds.size.w > 0 && bounds.size.h > 0 && has_window(old(self).windows_view(), id)),
            r ==> final(self).windows_view() == with_bounds_at(old(self).windows_view(), window_index(old(self).windows_view(), id), bounds),
            !r ==> final(self).windows_view() == old(self).windows_view(),
            final(self).unmapped_view() == old(self).unmapped_view(),
            final(self).pending_view() == old(self).pending_view(),
            final(self).focus_view() == old(self).focus_view(),
            final(self).next_id_view() == old(self).next_id_view(),
            final(self).bindings_view() == old(self).bindings_view(),
            final(self).config_view() == old(self).config_view(),
            final(self).config_path_view() == old(self).config_path_view(),
            final(self).pointer_view() == old(self).pointer_view(),
            final(self).camera_view() == old(self).camera_view(),
    {
        if bounds.size.w <= 0 || bounds.size.h <= 0 {
            return false;
        }
        match find_window(self.window_models.as_slice(), id) {
            Some(i) => {
                self.replace_bounds(i, bounds);
                true
            },
            None => false,
        }
    }

    /// Records a request to close the mapped window `id`; returns whether it is mapped.
    pub fn request_close_window(&mut self, id: WindowId) -> (r: bool)
        requires
            old(self).wf(),
        ensures
            final(self).wf(),
            r == has_window(old(self).windows_view(), id),
            r ==> final(self).pending_view().contains(id),
            forall|x: WindowId| #![trigger final(self).pending_view().contains(x)] x != id ==> (final(self).pending_view().contains(x) == old(self).pending_view().contains(x)),
            !r ==> *final(self) == *old(self),
            final(self).windows_view() == old(self).windows_view(),
            final(self).unmapped_view() == old(self).unmapped_view(),
            final(self).focus_view() == old(self).focus_view(),
            final(self).next_id_view() == old(self).next_id_view(),
            final(self).bindings_view() == old(self).bindings_view(),
            final(self).config_view() == old(self).config_view(),
            final(self).config_path_view() == old(self).config_path_view(),
            final(self).pointer_view() == old(self).pointer_view(),
            final(self).camera_view() == old(self).camera_view(),
    {
        if find_window(self.window_models.as_slice(), id).is_none() {
            return false;
        }
        if !contains_id(self.pending_close_requests.as_slice(), id) {
            self.pending_close_requests.push(id);
            proof {
                let p = self.pending_close_requests@;
                let q = old(self).pending_view();
                assert(p.drop_last() =~= q);
                assert forall|i: int, j: int| 0 <= i < p.len() && 0 <= j < p.len() && i != j implies p[i] != p[j] by {
                    if i < q.len() && j < q.len() {
                        assert(p[i] == q[i] && p[j] == q[j]);
                    } else if i < q.len() {
                        assert(p[i] == q[i]);
                    } else if j < q.len() {
                        assert(p[j] == q[j]);
                    }
                }
                assert(p[p.len() - 1] == id);
                assert forall|x: WindowId| x != id implies (#[trigger] p.contains(x) == q.contains(x)) by {
                    if p.contains(x) {
                        let k = choose|k: int| 0 <= k < p.len() && p[k] == x;
                        assert(q[k] == x);
                    }
                    if q.contains(x) {
                        let k = choose|k: int| 0 <= k < q.len() && q[k] == x;
                        assert(p[k] == x);
                    }
                }
                assert forall|i: int| 0 <= i < p.len() implies has_window(self.windows_view(), #[trigger] p[i]) by {
                    if i < q.len() {
                        assert(p[i] == q[i]);
                    }
                }
            }
        }
        true
    }

    /// Whether closing the window `id` was requested.
    pub fn is_close_requested(&self, id: WindowId) -> (r: bool)
        ensures
            r == self.pending_view().contains(id),
    {
        contains_id(self.pending_close_requests.as_slice(), id)
    }

    /// Unmaps the window `id`, keeping it among the unmapped windows: its close request
    /// is dropped and it leaves the focus order (unfocused, without passing focus on).
    /// Returns whether it was mapped.
    pub fn unmap_window(&mut self, id: WindowId) -> (r: bool)
        requires
            old(self).wf(),
        ensures
            final(self).wf(),
            r == has_window(old(self).windows_view(), id),
            r ==> final(self).windows_view() == old(self).windows_view().remove(window_index(old(self).windows_view(), id))
                && final(self).unmapped_view() == old(self).unmapped_view().push(old(self).windows_view()[window_index(old(self).windows_view(), id)])
                && !final(self).pending_view().contains(id)
                && final(self).focus_view().order_view() == crate::window::focus::without(old(self).focus_view().order_view(), id)
                && final(self).focus_view().focus_view() == (if old(self).focus_view().focus_view() == Some(id) { None } else { old(self).focus_view().focus_view() }),
            !r ==> *final(self) == *old(self),
            forall|x: WindowId| #![trigger final(self).pending_view().contains(x)] x != id ==> (final(self).pending_view().contains(x) == old(self).pending_view().contains(x)),
            !has_window(final(self).windows_view(), id),
            final(self).next_id_view() == old(self).next_id_view(),
            final(self).bindings_view() == old(self).bindings_view(),
            final(self).config_view() == old(self).config_view(),
            final(self).config_path_view() == old(self).config_path_view(),
            final(self).pointer_view() == old(self).pointer_view(),
            final(self).camera_view() == old(self).camera_view(),
    {
        let i = match find_window(self.window_models.as_slice(), id) {
            Some(i) => i,
            None => {
                return false;
            },
        };
        let ghost old_ws = self.window_models@;
        let window = self.window_models.remove(i);
        remove_id(&mut self.pending_close_requests, id);
        self.focus_stack.remove_without_fallback(id);
        let ghost old_un = self.unmapped_windows@;
        self.unmapped_windows.push(window);
        proof {
            let ws = self.window_models@;
            lemma_remove_keeps_ascending(old_ws, i as int, self.next_window_id);
            assert(window_index(old_ws, id) == i as int);
            assert forall|x: WindowId| has_window(ws, x) implies has_window(old_ws, x) && x != id by {
                let k = choose|k: int| 0 <= k < ws.len() && (#[trigger] ws[k]).id == x;
                if k < i {
                    assert(old_ws[k] == ws[k]);
                } else {
                    assert(old_ws[k + 1] == ws[k]);
                }
            }
            assert forall|x: WindowId| has_window(old_ws, x) && x != id implies has_window(ws, x) by {
                let k = choose|k: int| 0 <= k < old_ws.len() && (#[trigger] old_ws[k]).id == x;
                if k < i {
                    assert(ws[k] == old_ws[k]);
                } else {
                    assert(k != i);
                    assert(ws[k - 1] == old_ws[k]);
                }
            }
            let un = self.unmapped_windows@;
            assert(un.drop_last() =~= old_un);
            assert forall|a: int, b: int| 0 <= a < un.len() && 0 <= b < un.len() && a != b implies (#[trigger] un[a]).id != (#[trigger] un[b]).id by {
                if a < old_un.len() && b < old_un.len() {
                    assert(un[a] == old_un[a] && un[b] == old_un[b]);
                } else if a < old_un.len() {
                    assert(un[a] == old_un[a]);
                    assert(!has_window(old_ws, old_un[a].id));
                } else if b < old_un.len() {
                    assert(un[b] == old_un[b]);
                    assert(!has_window(old_ws, old_un[b].id));
                }
            }
            assert forall|k: int| 0 <= k < un.len() implies (#[trigger] un[k]).id.0 < self.next_window_id && !has_window(ws, un[k].id) by {
                if k < old_un.len() {
                    assert(un[k] == old_un[k]);
                }
            }
            let o = self.focus_stack.order_view();
            let prev = old(self).focus_view().order_view();
            assert forall|k: int| 0 <= k < o.len() implies has_window(ws, #[trigger] o[k]) by {
                crate::window::focus::lemma_without_member(prev, id, k);
                let j = choose|j: int| 0 <= j < prev.len() && prev[j] == o[k];
                assert(has_window(old_ws, prev[j]));
            }
            let p = self.pending_close_requests@;
            assert forall|k: int| 0 <= k < p.len() implies has_window(ws, #[trigger] p[k]) by {
                assert(p.contains(p[k]));
                let q = old(self).pending_view();
                assert(q.contains(p[k]));
                let j = choose|j: int| 0 <= j < q.len() && q[j] == p[k];
                assert(has_window(old_ws, q[j]));
            }
        }
        true
    }

    /// The unmapped window `id`, if it has not been destroyed.
    pub fn unmapped_window(&self, id: WindowId) -> (r: Option<&Window>)
        requires
            self.wf(),
        ensures
            r is Some <==> has_window(self.unmapped_view(), id),
            r matches Some(w) ==> *w == self.unmapped_view()[window_index(self.unmapped_view(), id)],
    {
        match find_window_distinct(self.unmapped_windows.as_slice(), id) {
            Some(i) => Some(&self.unmapped_windows[i]),
            None => None,
        }
    }

    /// Destroys the unmapped window `id` and drops its close request; returns whether it
    /// was an unmapped window.
    pub fn destroy_window(&mut self, id: WindowId) -> (r: bool)
        requires
            old(self).wf(),
        ensures
            final(self).wf(),
            r == has_window(old(self).unmapped_view(), id),
            r ==> final(self).unmapped_view() == old(self).unmapped_view().remove(window_index(old(self).unmapped_view(), id)),
            !r ==> final(self).unmapped_view() == old(self).unmapped_view(),
            !has_window(final(self).unmapped_view(), id),
            !final(self).pending_view().contains(id),
            forall|x: WindowId| #![trigger final(self).pending_view().contains(x)] x != id ==> (final(self).pending_view().contains(x) == old(self).pending_view().contains(x)),
            final(self).windows_view() == old(self).windows_view(),
            final(self).focus_view() == old(self).focus_view(),
            final(self).next_id_view() == old(self).next_id_view(),
            final(self).bindings_view() == old(self).bindings_view(),
            final(self).config_view() == old(self).config_view(),
            final(self).config_path_view() == old(self).config_path_view(),
            final(self).pointer_view() == old(self).pointer_view(),
            final(self).camera_view() == old(self).camera_view(),
    {
        remove_id(&mut self.pending_close_requests, id);
        proof {
            let p = self.pending_close_requests@;
            assert forall|k: int| 0 <= k < p.len() implies has_window(self.windows_view(), #[trigger] p[k]) by {
                assert(p.contains(p[k]));
                let q = old(self).pending_view();
                if p[k] != id {
                    assert(q.contains(p[k]));
                    let j = choose|j: int| 0 <= j < q.len() && q[j] == p[k];
                    assert(has_window(self.windows_view(), q[j]));
                }
            }
        }
        match find_window_distinct(self.unmapped_windows.as_slice(), id) {
            Some(i) => {
                let ghost old_un = self.unmapped_windows@;
                let _ = self.unmapped_windows.remove(i);
                proof {
                    let un = self.unmapped_windows@;
                    assert(window_index(old_un, id) == i as int);
                    assert forall|k: int| 0 <= k < un.len() implies #[trigger] un[k] == (if k < i { old_un[k] } else { old_un[k + 1] }) by {}
                    assert forall|a: int, b: int| 0 <= a < un.len() && 0 <= b < un.len() && a != b implies (#[trigger] un[a]).id != (#[trigger] un[b]).id by {
                        let a2 = if a < i { a } else { a + 1 };
                        let b2 = if b < i { b } else { b + 1 };
                        assert(un[a] == old_un[a2] && un[b] == old_un[b2]);
                    }
                    assert forall|k: int| 0 <= k < un.len() implies (#[trigger] un[k]).id.0 < self.next_window_id && !has_window(self.windows_view(), un[k].id) by {
                        let k2 = if k < i { k } else { k + 1 };
                        assert(un[k] == old_un[k2]);
                    }
                    assert(!has_window(un, id)) by {
                        if has_window(un, id) {
                            let k = choose|k: int| 0 <= k < un.len() && (#[trigger] un[k]).id == id;
                            let k2 = if k < i { k } else { k + 1 };
                            assert(un[k] == old_un[k2]);
                        }
                    }
                }
                true
            },
            None => false,
        }
    }

    /// Closes the mapped window `id`: requests the close, unmaps and destroys it.
    /// Returns whether it was mapped; if it was not, nothing changes.
    pub fn close_window(&mut self, id: WindowId) -> (r: bool)
        requires
            old(self).wf(),
        ensures
            final(self).wf(),
            r == has_window(old(self).windows_view(), id),
            r ==> final(self).windows_view() == old(self).windows_view().remove(window_index(old(self).windows_view(), id))
                && final(self).unmapped_view() == old(self).unmapped_view()
                && final(self).focus_view().order_view() == crate::window::focus::without(old(self).focus_view().order_view(), id)
                && final(self).focus_view().focus_view() == (if old(self).focus_view().focus_view() == Some(id) { None } else { old(self).focus_view().focus_view() }),
            !r ==> *final(self) == *old(self),
            !has_window(final(self).windows_view(), id),
            r ==> !has_window(final(self).unmapped_view(), id) && !final(self).pending_view().contains(id),
            final(self).next_id_view() == old(self).next_id_view(),
            final(self).bindings_view() == old(self).bindings_view(),
            final(self).config_view() == old(self).config_view(),
            final(self).config_path_view() == old(self).config_path_view(),
            final(self).pointer_view() == old(self).pointer_view(),
            final(self).camera_view() == old(self).camera_view(),
    {
        if !self.request_close_window(id) {
            return false;
        }
        let ghost before_unmap = *self;
        let unmapped = self.unmap_window(id);
        let ghost after_unmap = *self;
        let destroyed = self.destroy_window(id);
        proof {
            let w = before_unmap.windows_view()[window_index(before_unmap.windows_view(), id)];
            assert(w.id == id);
            let u = after_unmap.unmapped_view();
            assert(u.last() == w);
            assert(has_window(u, id));
            assert(window_index(u, id) == u.len() - 1);
            assert(u.remove(u.len() - 1) =~= old(self).unmapped_view());
        }
        unmapped && destroyed
    }

    /// Where the next window goes when nothing else places it: the default placement
    /// policy over the visible area `visible`, cascading by the number of mapped windows.
    pub fn next_placement(&self, visible: Rect) -> (r: Rect)
        requires
            visible.ok(),
        ensures
            r == crate::window::placement::placement_bounds(crate::window::placement::PlacementPolicy {
                default_size: Size { w: 900, h: 600 },
                padding: 32,
                cascade_step: crate::canvas::Vec2 { x: 32, y: 24 },
            }, visible, self.windows_view().len(), None),
    {
        let policy = crate::window::placement::PlacementPolicy::default();
        policy.place_new_window(visible, self.window_models.len(), None).bounds
    }

    /// Applies a bound action: closing closes the focused window (if any), spawning does
    /// nothing here, and a pan or zoom is handed back for the camera.
    pub fn apply_action(&mut self, action: Action) -> (camera: Option<Action>)
        requires
            old(self).wf(),
        ensures
            final(self).wf(),
            match action {
                Action::CloseWindow => camera is None && match old(self).focus_view().focus_view() {
                    Some(f) => window_closed(*old(self), *final(self), f),
                    None => *final(self) == *old(self),
                },
                Action::Spawn { .. } => camera is None && *final(self) == *old(self),
                _ => camera == Some(action) && *final(self) == *old(self),
            },
            final(self).pointer_view() == old(self).pointer_view(),
            final(self).camera_view() == old(self).camera_view(),
    {
        match action {
            Action::CloseWindow => {
                if let Some(id) = self.focused_window_id() {
                    let _ = self.close_window(id);
                }
                None
            },
            Action::Spawn { .. } => None,
            other => Some(other),
        }
    }

    /// Runs the action bound to `key` with `modifiers`, if one is (see `apply_action`).
    pub fn trigger_binding(&mut self, key: &str, modifiers: ModifierSet) -> (r: BindingEffect)
        requires
            old(self).wf(),
        ensures
            final(self).wf(),
            final(self).bindings_view() == old(self).bindings_view(),
            final(self).config_view() == old(self).config_view(),
            final(self).config_path_view() == old(self).config_path_view(),
            match crate::input::bindings::first_match(old(self).bindings_view().entries(), crate::input::bindings::normalized_key(key@), modifiers) {
                None => r is Unbound && *final(self) == *old(self),
                Some(a) => match a {
                    crate::input::actions::ActionView::CloseWindow => r is Applied && match old(self).focus_view().focus_view() {
                        Some(f) => window_closed(*old(self), *final(self), f),
                        None => *final(self) == *old(self),
                    },
                    crate::input::actions::ActionView::Spawn { .. } => r is Applied && *final(self) == *old(self),
                    _ => (r matches BindingEffect::Camera(c) && c@ == a) && *final(self) == *old(self),
                },
            },
    {
        match self.bindings.resolve(key, modifiers) {
            None => BindingEffect::Unbound,
            Some(action) => match self.apply_action(action) {
                Some(camera) => BindingEffect::Camera(camera),
                None => BindingEffect::Applied,
            },
        }
    }
}

/// The position of the window `id` in `ws`, whose ids ascend.
fn find_window(ws: &[Window], id: WindowId) -> (r: Option<usize>)
    requires
        forall|i: int, j: int| 0 <= i < j < ws@.len() ==> (#[trigger] ws@[i]).id.0 < (#[trigger] ws@[j]).id.0,
    ensures
        r is Some <==> has_window(ws@, id),
        r matches Some(i) ==> i < ws@.len() && ws@[i as int].id == id && window_index(ws@, id) == i,
{
    let mut i: usize = 0;
    while i < ws.len()
        invariant
            i <= ws@.len(),
            forall|i: int, j: int| 0 <= i < j < ws@.len() ==> (#[trigger] ws@[i]).id.0 < (#[trigger] ws@[j]).id.0,
            forall|k: int| 0 <= k < i ==> (#[trigger] ws@[k]).id != id,
        decreases ws@.len() - i,
    {
        if ws[i].id == id {
            proof {
                let j = window_index(ws@, id);
                assert(ws@[j].id == id);
                if j < i {
                    assert(ws@[j].id.0 < ws@[i as int].id.0);
                } else if j > i {
                    assert(ws@[i as int].id.0 < ws@[j].id.0);
                }
            }
            return Some(i);
        }
        i += 1;
    }
    None
}

/// The position of the window `id` in `ws`, whose ids are distinct.
fn find_window_distinct(ws: &[Window], id: WindowId) -> (r: Option<usize>)
    requires
        ids_distinct(ws@),
    ensures
        r is Some <==> has_window(ws@, id),
        r matches Some(i) ==> i < ws@.len() && ws@[i as int].id == id && window_index(ws@, id) == i,
{
    let mut i: usize = 0;
    while i < ws.len()
        invariant
            i <= ws@.len(),
            ids_distinct(ws@),
            forall|k: int| 0 <= k < i ==> (#[trigger] ws@[k]).id != id,
        decreases ws@.len() - i,
    {
        if ws[i].id == id {
            proof {
                let j = window_index(ws@, id);
                assert(ws@[j].id == id);
            }
            return Some(i);
        }
        i += 1;
    }
    None
}

fn contains_id(ids: &[WindowId], id: WindowId) -> (r: bool)
    ensures
        r == ids@.contains(id),
{
    let mut i: usize = 0;
    while i < ids.len()
        invariant
            i <= ids@.len(),
            forall|k: int| 0 <= k < i ==> ids@[k] != id,
        decreases ids@.len() - i,
    {
        if ids[i] == id {
            return true;
        }
        i += 1;
    }
    false
}

/// Removes every occurrence of `id` from `ids`.
fn remove_id(ids: &mut Vec<WindowId>, id: WindowId)
    ensures
        final(ids)@ == crate::window::focus::without(old(ids)@, id),
        !final(ids)@.contains(id),
        forall|x: WindowId| #![trigger final(ids)@.contains(x)] x != id ==> (final(ids)@.contains(x) == old(ids)@.contains(x)),
        distinct(old(ids)@) ==> distinct(final(ids)@),
{
    let mut kept: Vec<WindowId> = Vec::new();
    let mut i: usize = 0;
    while i < ids.len()
        invariant
            i <= ids@.len(),
            kept@ == crate::window::focus::without(ids@.take(i as int), id),
        decreases ids@.len() - i,
    {
        let ghost next = ids@.take(i + 1);
        proof {
            assert(next.drop_last() =~= ids@.take(i as int));
        }
        if ids[i] != id {
            kept.push(ids[i]);
        }
        i += 1;
    }
    assert(ids@.take(ids@.len() as int) =~= ids@);
    proof {
        crate::window::focus::lemma_without_excludes(ids@, id);
        crate::window::focus::lemma_without_distinct(ids@, id);
        assert forall|x: WindowId| x != id implies (#[trigger] kept@.contains(x) == ids@.contains(x)) by {
            crate::window::focus::lemma_without_contains(ids@, id, x);
        }
    }
    *ids = kept;
}

proof fn lemma_remove_keeps_ascending(ws: Seq<Window>, i: int, next: u64)
    requires
        0 <= i < ws.len(),
        ids_ascending_below(ws, next),
    ensures
        ids_ascending_below(ws.remove(i), next),
{
    let r = ws.remove(i);
    assert forall|a: int, b: int| 0 <= a < b < r.len() implies (#[trigger] r[a]).id.0 < (#[trigger] r[b]).id.0 by {
        let a2 = if a < i { a } else { a + 1 };
        let b2 = if b < i { b } else { b + 1 };
        assert(r[a] == ws[a2] && r[b] == ws[b2]);
    }
    assert forall|a: int| 0 <= a < r.len() implies (#[trigger] r[a]).id.0 < next by {
        let a2 = if a < i { a } else { a + 1 };
        assert(r[a] == ws[a2]);
    }
}

/// `after` keeps everything of `before` but the mapped windows.
pub open spec fn same_but_windows(before: HeadlessSession, after: HeadlessSession) -> bool {
    &&& after.unmapped_view() == before.unmapped_view()
    &&& after.pending_view() == before.pending_view()
    &&& after.focus_view() == before.focus_view()
    &&& after.next_id_view() == before.next_id_view()
    &&& after.bindings_view() == before.bindings_view()
    &&& after.config_view() == before.config_view()
    &&& after.config_path_view() == before.config_path_view()
    &&& after.pointer_view() == before.pointer_view()
    &&& after.camera_view() == before.camera_view()
}

/// `after` keeps everything of `before` but focus.
pub open spec fn same_but_focus(before: HeadlessSession, after: HeadlessSession) -> bool {
    &&& after.windows_view() == before.windows_view()
    &&& after.unmapped_view() == before.unmapped_view()
    &&& after.pending_view() == before.pending_view()
    &&& after.next_id_view() == before.next_id_view()
    &&& after.bindings_view() == before.bindings_view()
    &&& after.config_view() == before.config_view()
    &&& after.config_path_view() == before.config_path_view()
    &&& after.pointer_view() == before.pointer_view()
    &&& after.camera_view() == before.camera_view()
}

/// `after` keeps everything of `before` but the camera requests.
pub open spec fn same_but_camera(before: HeadlessSession, after: HeadlessSession) -> bool {
    &&& after.windows_view() == before.windows_view()
    &&& after.unmapped_view() == before.unmapped_view()
    &&& after.pending_view() == before.pending_view()
    &&& after.focus_view() == before.focus_view()
    &&& after.next_id_view() == before.next_id_view()
    &&& after.bindings_view() == before.bindings_view()
    &&& after.config_view() == before.config_view()
    &&& after.config_path_view() == before.config_path_view()
    &&& after.pointer_view() == before.pointer_view()
}

/// `after` is `before` with the bounds of the mapped window `id` replaced by what
/// `bounds` makes of them, where `ok` says that it is mapped and the change allowed.
pub open spec fn bounds_changed(
    before: HeadlessSession,
    after: HeadlessSession,
    id: WindowId,
    ok: bool,
    bounds: spec_fn(Rect) -> Rect,
) -> bool {
    &&& after.wf()
    &&& (ok ==> after.windows_view() == with_bounds_at(before.windows_view(), window_index(before.windows_view(), id),
        bounds(before.windows_view()[window_index(before.windows_view(), id)].bounds)))
    &&& (!ok ==> after.windows_view() == before.windows_view())
    &&& same_but_windows(before, after)
}

/// The message of a zoom by a factor that is not positive.
pub open spec fn zoom_refusal() -> Seq<char> {
    "hook action zoom_canvas requires factor > 0"@
}

impl ActionTarget for HeadlessSession {
    /// The session is consistent.
    open spec fn ready(&self) -> bool {
        self.wf()
    }

    /// The window `id`, if mapped, moved to (`x`, `y`) with its size kept.
    open spec fn moved(&self, after: &Self, id: WindowId, x: i64, y: i64, ok: bool) -> bool {
        &&& ok == has_window(self.windows_view(), id)
        &&& bounds_changed(*self, *after, id, ok, |b: Rect| Rect { origin: Point { x, y }, size: b.size })
    }

    /// The window `id`, if mapped and the size positive, resized in place.
    open spec fn resized(&self, after: &Self, id: WindowId, w: i64, h: i64, ok: bool) -> bool {
        &&& ok == (w > 0 && h > 0 && has_window(self.windows_view(), id))
        &&& bounds_changed(*self, *after, id, ok, |b: Rect| Rect { origin: b.origin, size: Size { w, h } })
    }

    /// The window `id`, if mapped and the size positive, given `bounds`.
    open spec fn bounds_set(&self, after: &Self, id: WindowId, bounds: Rect, ok: bool) -> bool {
        &&& ok == (bounds.size.w > 0 && bounds.size.h > 0 && has_window(self.windows_view(), id))
        &&& bounds_changed(*self, *after, id, ok, |b: Rect| bounds)
    }

    /// The window `id`, if mapped, focused and moved to the front of the focus order.
    open spec fn focused(&self, after: &Self, id: WindowId, ok: bool) -> bool {
        &&& after.wf()
        &&& ok == has_window(self.windows_view(), id)
        &&& (ok ==> after.focus_view().focus_view() == Some(id)
            && after.focus_view().order_view() == crate::window::focus::order_after_focus(self.focus_view().order_view(), id))
        &&& (!ok ==> after.focus_view() == self.focus_view())
        &&& same_but_focus(*self, *after)
    }

    /// Focus cleared, the order kept; `ok` says whether a window was focused.
    open spec fn focus_cleared(&self, after: &Self, ok: bool) -> bool {
        &&& after.wf()
        &&& ok == self.focus_view().focus_view() is Some
        &&& after.focus_view().focus_view() is None
        &&& after.focus_view().order_view() == self.focus_view().order_view()
        &&& same_but_focus(*self, *after)
    }

    /// The window `id`, if mapped, closed.
    open spec fn closed(&self, after: &Self, id: WindowId, ok: bool) -> bool {
        &&& after.wf()
        &&& ok == has_window(self.windows_view(), id)
        &&& (ok ==> window_closed(*self, *after, id))
        &&& (!ok ==> *after == *self)
        &&& after.pointer_view() == self.pointer_view()
        &&& after.camera_view() == self.camera_view()
    }

    /// The pan asked of the camera.
    open spec fn panned(&self, after: &Self, dx: Double, dy: Double) -> bool {
        &&& after.wf()
        &&& after.camera_view() == self.camera_view().push(CameraRequest::Pan { dx, dy })
        &&& same_but_camera(*self, *after)
    }

    /// The zoom asked of the camera, unless the factor is not positive (`factor <= 0.0`),
    /// which is refused.
    open spec fn zoomed(&self, after: &Self, factor: Double, r: Result<(), ConfigError>) -> bool {
        if factor.le_zero_spec() {
            (r matches Err(ConfigError::Validation(m)) && m@ == zoom_refusal()) && *after == *self
        } else {
            &&& r is Ok
            &&& after.wf()
            &&& after.camera_view() == self.camera_view().push(CameraRequest::Zoom { factor })
            &&& same_but_camera(*self, *after)
        }
    }

    fn move_window(&mut self, id: WindowId, x: i64, y: i64) -> (ok: bool) {
        HeadlessSession::move_window(self, id, x, y)
    }

    fn resize_window(&mut self, id: WindowId, w: i64, h: i64) -> (ok: bool) {
        HeadlessSession::resize_window(self, id, w, h)
    }

    fn set_window_bounds(&mut self, id: WindowId, bounds: Rect) -> (ok: bool) {
        HeadlessSession::set_window_bounds(self, id, bounds)
    }

    fn focus_window(&mut self, id: WindowId) -> (ok: bool) {
        HeadlessSession::focus_window(self, id)
    }

    fn clear_focus(&mut self) -> (ok: bool) {
        HeadlessSession::clear_focus(self)
    }

    fn close_window(&mut self, id: WindowId) -> (ok: bool) {
        HeadlessSession::close_window(self, id)
    }

    fn pan_canvas(&mut self, dx: Double, dy: Double) {
        self.camera_requests.push(CameraRequest::Pan { dx, dy });
    }

    fn zoom_canvas(&mut self, factor: Double) -> (r: Result<(), ConfigError>) {
        if factor.le_zero() {
            return Err(ConfigError::Validation(crate::text::copy_str("hook action zoom_canvas requires factor > 0")));
        }
        self.camera_requests.push(CameraRequest::Zoom { factor });
        Ok(())
    }
}

impl HeadlessSession {
    /// Takes the camera changes asked for so far, oldest first, leaving none.
    pub fn take_camera_requests(&mut self) -> (r: Vec<CameraRequest>)
        ensures
            r@ == old(self).camera_view(),
            final(self).camera_view() == Seq::<CameraRequest>::empty(),
            same_but_camera(*old(self), *final(self)),
            old(self).wf() ==> final(self).wf(),
    {
        let mut taken: Vec<CameraRequest> = Vec::new();
        std::mem::swap(&mut taken, &mut self.camera_requests);
        taken
    }
}

/// Ids are handed out once: a created window's id was held by no window, mapped or
/// unmapped, before it, and stays above every earlier one.
pub proof fn law_created_ids_are_fresh(s: HeadlessSession, id: WindowId)
    requires
        s.wf(),
        id.0 == s.next_id_view(),
    ensures
        !has_window(s.windows_view(), id),
        !has_window(s.unmapped_view(), id),
{
    if has_window(s.windows_view(), id) {
        let k = choose|k: int| 0 <= k < s.windows_view().len() && (#[trigger] s.windows_view()[k]).id == id;
    }
    if has_window(s.unmapped_view(), id) {
        let k = choose|k: int| 0 <= k < s.unmapped_view().len() && (#[trigger] s.unmapped_view()[k]).id == id;
    }
}

} // verus!
