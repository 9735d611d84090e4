//! What Lua hooks see and what they hand back: snapshots, draw spaces, hook actions
//! and their outcome, and the text of hook errors.
use vstd::prelude::*;

use crate::canvas::Rect;
use crate::config::{error_text, ConfigError};
use crate::number::Double;
use crate::text::{concat_str, copy_str, lemma_text_lt_irreflexive, lemma_text_lt_total, lemma_text_lt_transitive, str_equal, str_lt, string_from_chars, strings_view, text_lt};
use crate::window::model::WindowId;

verus! {

/// The decimal digit for `d`.
pub open spec fn digit_char(d: int) -> char {
    ('0' as int + d) as char
}

/// The decimal representation of `n`, as `Display` writes an unsigned integer.
pub open spec fn decimal_text(n: nat) -> Seq<char>
    decreases n,
{
    if n < 10 {
        seq![digit_char(n as int)]
    } else {
        decimal_text(n / 10) + seq![digit_char((n % 10) as int)]
    }
}

/// The decimal representation of `n`.
pub fn decimal_string(n: u64) -> (s: String)
    ensures
        s@ == decimal_text(n as nat),
{
    // Digits from the least significant up, then reversed.
    let mut digits: Vec<char> = Vec::new();
    let mut m: u64 = n;
    let ghost mut done: Seq<char> = Seq::empty();
    loop
        invariant_except_break
            decimal_text(n as nat) == decimal_text(m as nat) + done,
            digits@ == done.reverse(),
        ensures
            decimal_text(n as nat) == done,
            digits@ == done.reverse(),
        decreases m,
    {
        let d = m % 10;
        let c = (('0' as u8) + (d as u8)) as char;
        proof {
            assert(c == digit_char(d as int));
        }
        if m < 10 {
            digits.push(c);
            proof {
                assert(decimal_text(m as nat) == seq![c]);
                done = seq![c] + done;
                assert(digits@ =~= done.reverse());
                assert(decimal_text(n as nat) =~= done);
            }
            break;
        }
        digits.push(c);
        proof {
            assert(decimal_text(m as nat) == decimal_text((m / 10) as nat) + seq![c]);
            assert(decimal_text(n as nat) =~= decimal_text((m / 10) as nat) + (seq![c] + done));
            done = seq![c] + done;
            assert(digits@ =~= done.reverse());
        }
        m = m / 10;
    }
    let mut out: Vec<char> = Vec::new();
    let mut i: usize = digits.len();
    while i > 0
        invariant
            i <= digits@.len(),
            out@ == digits@.subrange(i as int, digits@.len() as int).reverse(),
        decreases i,
    {
        i -= 1;
        out.push(digits[i]);
        assert(out@ =~= digits@.subrange(i as int, digits@.len() as int).reverse());
    }
    proof {
        assert(digits@.subrange(0, digits@.len() as int) =~= digits@);
        assert(done.reverse().reverse() =~= done);
    }
    let s = string_from_chars(out.as_slice());
    proof {
        assert(out@ =~= done);
    }
    s
}

/// The line reported when a live Lua hook fails.
pub open spec fn hook_error_line(hook_name: Seq<char>, error: ConfigError) -> Seq<char> {
    "[evilwm] lua hook error: evil.on."@ + hook_name + " — "@ + error_text(error)
}

/// The line reported when the live Lua hook `hook_name` fails with `error`.
pub fn format_live_hook_error(hook_name: &str, error: &ConfigError) -> (r: String)
    ensures
        r@ == hook_error_line(hook_name@, *error),
{
    let a = concat_str("[evilwm] lua hook error: evil.on.", hook_name);
    let b = concat_str(a.as_str(), " — ");
    let e = error.describe();
    concat_str(b.as_str(), e.as_str())
}

/// The name of a pointer button code: left, right or middle.
pub open spec fn button_named(button: u32) -> Option<Seq<char>> {
    if button == 272 {
        Some("left"@)
    } else if button == 273 {
        Some("right"@)
    } else if button == 274 {
        Some("middle"@)
    } else {
        None
    }
}

/// The name of a pointer button code (272 left, 273 right, 274 middle).
pub fn button_name(button: u32) -> (r: Option<&'static str>)
    ensures
        r is None <==> button_named(button) is None,
        r matches Some(n) ==> button_named(button) == Some(n@),
{
    match button {
        272 => Some("left"),
        273 => Some("right"),
        274 => Some("middle"),
        _ => None,
    }
}

/// Whether a drawn shape is placed in screen or world coordinates.
#[derive(Debug, Clone, Copy, PartialEq, Eq, Structural)]
pub enum DrawSpace {
    Screen,
    World,
}

/// The draw space a shape names; world space when it names none.
pub fn parse_draw_space(space: Option<&str>) -> (r: Result<DrawSpace, ConfigError>)
    ensures
        match space {
            None => r == Ok::<DrawSpace, ConfigError>(DrawSpace::World),
            Some(s) => if s@ == "world"@ {
                r == Ok::<DrawSpace, ConfigError>(DrawSpace::World)
            } else if s@ == "screen"@ {
                r == Ok::<DrawSpace, ConfigError>(DrawSpace::Screen)
            } else {
                r matches Err(ConfigError::Validation(m)) && m@ == "unsupported draw space: "@ + s@
            },
        },
{
    match space {
        None => Ok(DrawSpace::World),
        Some(s) => {
            if str_equal(s, "world") {
                Ok(DrawSpace::World)
            } else if str_equal(s, "screen") {
                Ok(DrawSpace::Screen)
            } else {
                Err(ConfigError::Validation(concat_str("unsupported draw space: ", s)))
            }
        },
    }
}

/// A typed property value passed to the `window_property_changed` hook context.
#[derive(Debug, Clone, PartialEq)]
pub enum PropertyValue {
    /// An optional string (covers `title`, `app_id`). `None` maps to Lua `nil`.
    OptionString(Option<String>),
    /// A boolean (covers `floating`, `exclude_from_focus`, etc.).
    Bool(bool),
}

/// What a hook sees of a window.
#[derive(Debug, Clone, PartialEq)]
pub struct WindowSnapshot {
    pub id: u64,
    pub app_id: Option<String>,
    pub title: Option<String>,
    pub bounds: Rect,
    pub floating: bool,
    pub exclude_from_focus: bool,
    pub focused: bool,
}

/// The position of the first snapshot of the window `id`.
pub open spec fn is_first_snapshot_of(windows: Seq<WindowSnapshot>, id: WindowId, i: int) -> bool {
    &&& 0 <= i < windows.len()
    &&& windows[i].id == id.0
    &&& forall|j: int| 0 <= j < i ==> (#[trigger] windows[j]).id != id.0
}

/// A copy of the first snapshot of the window `id` among `windows`.
pub fn find_window_snapshot(windows: &[WindowSnapshot], id: WindowId) -> (r: Option<WindowSnapshot>)
    ensures
        r is None <==> forall|j: int| 0 <= j < windows@.len() ==> (#[trigger] windows@[j]).id != id.0,
        r matches Some(w) ==> exists|i: int| is_first_snapshot_of(windows@, id, i) && w == windows@[i],
{
    let mut i: usize = 0;
    while i < windows.len()
        invariant
            i <= windows@.len(),
            forall|j: int| 0 <= j < i ==> (#[trigger] windows@[j]).id != id.0,
        decreases windows@.len() - i,
    {
        if windows[i].id == id.0 {
            let w = &windows[i];
            let copy = WindowSnapshot {
                id: w.id,
                app_id: crate::window::model::copy_opt_string(&w.app_id),
                title: crate::window::model::copy_opt_string(&w.title),
                bounds: w.bounds,
                floating: w.floating,
                exclude_from_focus: w.exclude_from_focus,
                focused: w.focused,
            };
            assert(is_first_snapshot_of(windows@, id, i as int));
            return Some(copy);
        }
        i += 1;
    }
    None
}

/// An action that a hook asks the compositor to perform.
#[derive(Debug, Clone, Copy, PartialEq, Eq, Structural)]
pub enum HookAction {
    MoveWindow { id: u64, x: i64, y: i64 },
    ResizeWindow { id: u64, w: i64, h: i64 },
    SetBounds { id: u64, x: i64, y: i64, w: i64, h: i64 },
    FocusWindow { id: u64 },
    ClearFocus,
    CloseWindow { id: u64 },
    PanCanvas { dx: Double, dy: Double },
    ZoomCanvas { factor: Double },
}

/// What hook actions act on: the session's windows, focus and camera. Each method
/// reports whether it took effect.
///
/// An implementation states what each method does through the relation named after
/// it, which holds between the target before the call, the target after it, the
/// arguments and the answer, and may ask through `ready` for a state its methods act
/// on. An implementation that does not define a relation promises nothing through it.
pub trait ActionTarget {
    /// Whether the target is in a state its methods can act on; each method keeps it so.
    /// Every state is, unless an implementation says otherwise.
    open spec fn ready(&self) -> bool {
        true
    }

    /// `after` is what `self` becomes when asked to move the window `id` to (`x`, `y`),
    /// answering `ok`.
    open spec fn moved(&self, after: &Self, id: WindowId, x: i64, y: i64, ok: bool) -> bool {
        true
    }

    /// `after` is what `self` becomes when asked to resize the window `id` to `w` by
    /// `h`, answering `ok`.
    open spec fn resized(&self, after: &Self, id: WindowId, w: i64, h: i64, ok: bool) -> bool {
        true
    }

    /// `after` is what `self` becomes when asked to give the window `id` the bounds
    /// `bounds`, answering `ok`.
    open spec fn bounds_set(&self, after: &Self, id: WindowId, bounds: Rect, ok: bool) -> bool {
        true
    }

    /// `after` is what `self` becomes when asked to focus the window `id`, answering `ok`.
    open spec fn focused(&self, after: &Self, id: WindowId, ok: bool) -> bool {
        true
    }

    /// `after` is what `self` becomes when asked to clear focus, answering `ok`.
    open spec fn focus_cleared(&self, after: &Self, ok: bool) -> bool {
        true
    }

    /// `after` is what `self` becomes when asked to close the window `id`, answering `ok`.
    open spec fn closed(&self, after: &Self, id: WindowId, ok: bool) -> bool {
        true
    }

    /// `after` is what `self` becomes when asked to pan the canvas by (`dx`, `dy`).
    open spec fn panned(&self, after: &Self, dx: Double, dy: Double) -> bool {
        true
    }

    /// `after` is what `self` becomes when asked to zoom the canvas by `factor`,
    /// answering `r`.
    open spec fn zoomed(&self, after: &Self, factor: Double, r: Result<(), ConfigError>) -> bool {
        true
    }

    fn move_window(&mut self, id: WindowId, x: i64, y: i64) -> (ok: bool)
        requires
            old(self).ready(),
        ensures
            final(self).ready(),
            old(self).moved(final(self), id, x, y, ok),
    ;

    fn resize_window(&mut self, id: WindowId, w: i64, h: i64) -> (ok: bool)
        requires
            old(self).ready(),
        ensures
            final(self).ready(),
            old(self).resized(final(self), id, w, h, ok),
    ;

    fn set_window_bounds(&mut self, id: WindowId, bounds: Rect) -> (ok: bool)
        requires
            old(self).ready(),
        ensures
            final(self).ready(),
            old(self).bounds_set(final(self), id, bounds, ok),
    ;

    fn focus_window(&mut self, id: WindowId) -> (ok: bool)
        requires
            old(self).ready(),
        ensures
            final(self).ready(),
            old(self).focused(final(self), id, ok),
    ;

    fn clear_focus(&mut self) -> (ok: bool)
        requires
            old(self).ready(),
        ensures
            final(self).ready(),
            old(self).focus_cleared(final(self), ok),
    ;

    fn close_window(&mut self, id: WindowId) -> (ok: bool)
        requires
            old(self).ready(),
        ensures
            final(self).ready(),
            old(self).closed(final(self), id, ok),
    ;

    fn pan_canvas(&mut self, dx: Double, dy: Double)
        requires
            old(self).ready(),
        ensures
            final(self).ready(),
            old(self).panned(final(self), dx, dy),
    ;

    fn zoom_canvas(&mut self, factor: Double) -> (r: Result<(), ConfigError>)
        requires
            old(self).ready(),
        ensures
            final(self).ready(),
            old(self).zoomed(final(self), factor, r),
    ;
}

/// The rectangle with origin (`x`, `y`) and size `w` by `h`.
pub open spec fn rect_of(x: i64, y: i64, w: i64, h: i64) -> Rect {
    Rect { origin: crate::canvas::Point { x, y }, size: crate::canvas::Size { w, h } }
}

/// What performing `action` on `before` did: the target method that the action names
/// was asked once, with the action's fields (the window id as a `WindowId`, the bounds
/// as the rectangle they give), turning `before` into `after`; window actions answer
/// `Ok` when the target took them and the failure message otherwise, clearing focus
/// and panning answer `Ok`, and zooming answers what the target answered.
pub open spec fn hook_action_done<T: ActionTarget>(before: T, after: T, action: HookAction, r: Result<(), ConfigError>) -> bool {
    match action {
        HookAction::MoveWindow { id, x, y } => exists|ok: bool|
            #[trigger] before.moved(&after, WindowId(id), x, y, ok) && hook_action_outcome(action, ok, r),
        HookAction::ResizeWindow { id, w, h } => exists|ok: bool|
            #[trigger] before.resized(&after, WindowId(id), w, h, ok) && hook_action_outcome(action, ok, r),
        HookAction::SetBounds { id, x, y, w, h } => exists|ok: bool|
            #[trigger] before.bounds_set(&after, WindowId(id), rect_of(x, y, w, h), ok) && hook_action_outcome(action, ok, r),
        HookAction::FocusWindow { id } => exists|ok: bool|
            #[trigger] before.focused(&after, WindowId(id), ok) && hook_action_outcome(action, ok, r),
        HookAction::ClearFocus => (exists|ok: bool| #[trigger] before.focus_cleared(&after, ok)) && r is Ok,
        HookAction::CloseWindow { id } => exists|ok: bool|
            #[trigger] before.closed(&after, WindowId(id), ok) && hook_action_outcome(action, ok, r),
        HookAction::PanCanvas { dx, dy } => before.panned(&after, dx, dy) && r is Ok,
        HookAction::ZoomCanvas { factor } => before.zoomed(&after, factor, r),
    }
}

/// The message reported when a hook action on a window fails, or `None` for actions
/// that cannot fail that way.
pub open spec fn hook_action_failure(action: HookAction) -> Option<Seq<char>> {
    match action {
        HookAction::MoveWindow { id, .. } => Some("hook action move_window failed for window id "@ + decimal_text(id as nat)),
        HookAction::ResizeWindow { id, .. } => Some("hook action resize_window failed for window id "@ + decimal_text(id as nat)),
        HookAction::SetBounds { id, .. } => Some("hook action set_bounds failed for window id "@ + decimal_text(id as nat)),
        HookAction::FocusWindow { id } => Some("hook action focus_window failed for window id "@ + decimal_text(id as nat)),
        HookAction::CloseWindow { id } => Some("hook action close_window failed for window id "@ + decimal_text(id as nat)),
        _ => None,
    }
}

/// The outcome of a hook action on a window, given whether the target reported success.
pub open spec fn hook_action_outcome(action: HookAction, succeeded: bool, r: Result<(), ConfigError>) -> bool {
    match hook_action_failure(action) {
        Some(m) => if succeeded {
            r is Ok
        } else {
            r matches Err(ConfigError::Validation(e)) && e@ == m
        },
        None => true,
    }
}

/// The result of a window action, given whether the target reported success: `Ok`, or
/// the failure message naming the action and the window.
pub fn window_action_result(action: &HookAction, succeeded: bool) -> (r: Result<(), ConfigError>)
    requires
        hook_action_failure(*action) is Some,
    ensures
        hook_action_outcome(*action, succeeded, r),
{
    if succeeded {
        return Ok(());
    }
    let (prefix, id) = match action {
        HookAction::MoveWindow { id, .. } => ("hook action move_window failed for window id ", *id),
        HookAction::ResizeWindow { id, .. } => ("hook action resize_window failed for window id ", *id),
        HookAction::SetBounds { id, .. } => ("hook action set_bounds failed for window id ", *id),
        HookAction::FocusWindow { id } => ("hook action focus_window failed for window id ", *id),
        HookAction::CloseWindow { id } => ("hook action close_window failed for window id ", *id),
        _ => ("", 0),
    };
    let digits = decimal_string(id);
    Err(ConfigError::Validation(concat_str(prefix, digits.as_str())))
}

/// Performs a hook action on `target`: asks the target method that the action names,
/// once, with the action's fields. Window actions report the failure message when the
/// target reports that they did not take effect; clearing focus and panning always
/// succeed; zooming reports what the target reports.
pub fn apply_hook_action<T: ActionTarget>(target: &mut T, action: HookAction) -> (r: Result<(), ConfigError>)
    requires
        old(target).ready(),
    ensures
        final(target).ready(),
        hook_action_done(*old(target), *final(target), action, r),
{
    match action {
        HookAction::MoveWindow { id, x, y } => {
            let ok = target.move_window(WindowId(id), x, y);
            window_action_result(&action, ok)
        },
        HookAction::ResizeWindow { id, w, h } => {
            let ok = target.resize_window(WindowId(id), w, h);
            window_action_result(&action, ok)
        },
        HookAction::SetBounds { id, x, y, w, h } => {
            let bounds = Rect::new(x, y, w, h);
            assert(bounds == rect_of(x, y, w, h));
            let ok = target.set_window_bounds(WindowId(id), bounds);
            window_action_result(&action, ok)
        },
        HookAction::FocusWindow { id } => {
            let ok = target.focus_window(WindowId(id));
            window_action_result(&action, ok)
        },
        HookAction::ClearFocus => {
            let _ = target.clear_focus();
            Ok(())
        },
        HookAction::CloseWindow { id } => {
            let ok = target.close_window(WindowId(id));
            window_action_result(&action, ok)
        },
        HookAction::PanCanvas { dx, dy } => {
            target.pan_canvas(dx, dy);
            Ok(())
        },
        HookAction::ZoomCanvas { factor } => {
            target.zoom_canvas(factor)
        },
    }
}

} // verus!

verus! {

/// How often a hook has failed and the text of its last failure.
#[derive(Debug, Clone, PartialEq, Eq)]
pub struct HookErrorState {
    pub count: u64,
    pub last_error: String,
}

/// What recording a hook failure gives: the hook's failure count so far, the error
/// line, and whether the line is printed (on the first failure, when the text
/// changes, and on every tenth).
#[derive(Debug)]
pub struct HookErrorReport {
    pub count: u64,
    pub message: String,
    pub print: bool,
}

/// A hook's failures as reported in a runtime snapshot.
#[derive(Debug, Clone, PartialEq)]
pub struct HookErrorSnapshot {
    pub hook: String,
    pub count: u64,
    pub last_error: String,
}

/// The failures of live hooks, by hook name, kept in the order of the names.
#[derive(Debug)]
pub struct HookErrorLog {
    names: Vec<String>,
    states: Vec<HookErrorState>,
}

/// Whether the names ascend strictly (so none occurs twice).
pub open spec fn names_ascending(names: Seq<Seq<char>>) -> bool {
    forall|i: int, j: int| 0 <= i < j < names.len() ==> text_lt(#[trigger] names[i], #[trigger] names[j])
}

impl HookErrorLog {
    /// The hook names, in order.
    pub closed spec fn names_view(&self) -> Seq<Seq<char>> {
        strings_view(self.names@)
    }

    /// The failures recorded: each hook's name, count and last error line, in the order
    /// of the names.
    pub closed spec fn entries(&self) -> Seq<(Seq<char>, nat, Seq<char>)> {
        Seq::new(self.names@.len(), |i: int| (self.names@[i]@, self.states@[i].count as nat, self.states@[i].last_error@))
    }

    /// Each name has a state, and the names ascend.
    pub closed spec fn wf(&self) -> bool {
        &&& self.names@.len() == self.states@.len()
        &&& names_ascending(self.names_view())
    }

    /// Whether hook `name` has failed before.
    pub closed spec fn has(&self, name: Seq<char>) -> bool {
        exists|i: int| 0 <= i < self.names@.len() && (#[trigger] self.names@[i])@ == name
    }

    /// The failure count and last error line of hook `name`, if it has failed.
    pub closed spec fn state_of(&self, name: Seq<char>) -> Option<(nat, Seq<char>)> {
        if self.has(name) {
            let i = choose|i: int| 0 <= i < self.names@.len() && (#[trigger] self.names@[i])@ == name;
            Some((self.states@[i].count as nat, self.states@[i].last_error@))
        } else {
            None
        }
    }

    proof fn lemma_unique_index(&self, i: int, j: int)
        requires
            self.wf(),
            0 <= i < self.names@.len(),
            0 <= j < self.names@.len(),
            self.names@[i]@ == self.names@[j]@,
        ensures
            i == j,
    {
        if i < j {
            assert(text_lt(self.names_view()[i], self.names_view()[j]));
            lemma_text_lt_irreflexive(self.names@[i]@);
        } else if j < i {
            assert(text_lt(self.names_view()[j], self.names_view()[i]));
            lemma_text_lt_irreflexive(self.names@[i]@);
        }
    }

    /// A log with no failures.
    pub fn new() -> (log: HookErrorLog)
        ensures
            log.wf(),
            log.entries().len() == 0,
            forall|n: Seq<char>| #[trigger] log.state_of(n) is None,
    {
        HookErrorLog { names: Vec::new(), states: Vec::new() }
    }

    /// The failure count of hook `name`: zero where it has not failed.
    pub fn count_of(&self, name: &str) -> (c: u64)
        requires
            self.wf(),
        ensures
            match self.state_of(name@) {
                Some((n, _)) => c == n,
                None => c == 0,
            },
    {
        match self.find(name) {
            Ok(i) => self.states[i].count,
            Err(_) => 0,
        }
    }

    /// Where `name` is (`Ok`), or where it would go to keep the names in order (`Err`).
    fn find(&self, name: &str) -> (r: Result<usize, usize>)
        requires
            self.wf(),
        ensures
            match r {
                Ok(i) => i < self.names@.len() && self.names@[i as int]@ == name@ && self.has(name@)
                    && self.state_of(name@) == Some((self.states@[i as int].count as nat, self.states@[i as int].last_error@)),
                Err(p) => !self.has(name@) && self.state_of(name@) is None && p <= self.names@.len()
                    && (forall|k: int| 0 <= k < p ==> text_lt(#[trigger] self.names_view()[k], name@))
                    && (forall|k: int| p <= k < self.names@.len() ==> text_lt(name@, #[trigger] self.names_view()[k])),
            },
    {
        let mut i: usize = 0;
        while i < self.names.len()
            invariant
                self.wf(),
                i <= self.names@.len(),
                forall|k: int| 0 <= k < i ==> text_lt(#[trigger] self.names_view()[k], name@),
            decreases self.names@.len() - i,
        {
            assert(self.names_view()[i as int] == self.names@[i as int]@);
            if str_equal(self.names[i].as_str(), name) {
                proof {
                    let j = choose|j: int| 0 <= j < self.names@.len() && (#[trigger] self.names@[j])@ == name@;
                    self.lemma_unique_index(i as int, j);
                }
                return Ok(i);
            }
            if !str_lt(self.names[i].as_str(), name) {
                proof {
                    lemma_text_lt_total(self.names@[i as int]@, name@);
                    assert forall|k: int| i <= k < self.names@.len() implies text_lt(name@, #[trigger] self.names_view()[k]) by {
                        if k > i {
                            assert(text_lt(self.names_view()[i as int], self.names_view()[k]));
                            lemma_text_lt_transitive(name@, self.names_view()[i as int], self.names_view()[k]);
                        }
                    }
                    if self.has(name@) {
                        let j = choose|j: int| 0 <= j < self.names@.len() && (#[trigger] self.names@[j])@ == name@;
                        assert(self.names_view()[j] == name@);
                        if j < i {
                            lemma_text_lt_irreflexive(name@);
                        } else {
                            lemma_text_lt_irreflexive(name@);
                        }
                    }
                }
                return Err(i);
            }
            i += 1;
        }
        proof {
            if self.has(name@) {
                let j = choose|j: int| 0 <= j < self.names@.len() && (#[trigger] self.names@[j])@ == name@;
                assert(self.names_view()[j] == name@);
                lemma_text_lt_irreflexive(name@);
            }
        }
        Err(i)
    }

    /// Records that hook `hook_name` failed with `error`.
    pub fn record(&mut self, hook_name: &str, error: &ConfigError) -> (r: HookErrorReport)
        requires
            old(self).wf(),
            old(self).state_of(hook_name@) matches Some((n, _)) ==> n < u64::MAX,
        ensures
            final(self).wf(),
            r.message@ == hook_error_line(hook_name@, *error),
            r.count == (match old(self).state_of(hook_name@) {
                Some((n, _)) => n + 1,
                None => 1,
            }),
            r.print == (r.count == 1 || r.count % 10 == 0 || match old(self).state_of(hook_name@) {
                Some((_, last)) => last != r.message@,
                None => false,
            }),
            final(self).state_of(hook_name@) == Some((r.count as nat, r.message@)),
            forall|n: Seq<char>| n != hook_name@ ==> #[trigger] final(self).state_of(n) == old(self).state_of(n),
    {
        let formatted = format_live_hook_error(hook_name, error);
        let ghost old_log = *self;
        match self.find(hook_name) {
            Ok(i) => {
                let count = self.states[i].count + 1;
                let changed = !str_equal(self.states[i].last_error.as_str(), formatted.as_str());
                self.states.set(i, HookErrorState { count, last_error: formatted.clone() });
                proof {
                    assert(self.names@ == old_log.names@);
                    assert(self.names_view() == old_log.names_view());
                    assert(self.has(hook_name@));
                    let j = choose|j: int| 0 <= j < self.names@.len() && (#[trigger] self.names@[j])@ == hook_name@;
                    self.lemma_unique_index(i as int, j);
                    assert forall|n: Seq<char>| n != hook_name@ implies #[trigger] self.state_of(n) == old_log.state_of(n) by {
                        if old_log.has(n) {
                            let k = choose|k: int| 0 <= k < old_log.names@.len() && (#[trigger] old_log.names@[k])@ == n;
                            assert(self.names@[k]@ == n);
                            assert(self.has(n));
                            assert(k != i as int);
                        } else {
                            assert(!self.has(n));
                        }
                    }
                }
                HookErrorReport { count, message: formatted, print: count == 1 || changed || count % 10 == 0 }
            },
            Err(p) => {
                self.names.insert(p, copy_str(hook_name));
                self.states.insert(p, HookErrorState { count: 1, last_error: formatted.clone() });
                proof {
                    let on = old_log.names@;
                    let nn = self.names@;
                    let old_index = |k: int| if k < p { k } else { k - 1 };
                    assert(nn[p as int]@ == hook_name@);
                    assert forall|k: int| 0 <= k < nn.len() && k != p implies (#[trigger] nn[k]) == on[old_index(k)] by {}
                    assert(self.names_view() =~= old_log.names_view().insert(p as int, hook_name@));
                    assert forall|a: int, b: int| 0 <= a < b < self.names@.len() implies text_lt(#[trigger] self.names_view()[a], #[trigger] self.names_view()[b]) by {
                        let v = self.names_view();
                        let ov = old_log.names_view();
                        if a == p {
                            assert(v[b] == ov[b - 1]);
                        } else if b == p {
                            assert(v[a] == ov[a]);
                        } else {
                            assert(v[a] == ov[old_index(a)] && v[b] == ov[old_index(b)]);
                        }
                    }
                    assert(self.has(hook_name@));
                    let j = choose|j: int| 0 <= j < self.names@.len() && (#[trigger] self.names@[j])@ == hook_name@;
                    self.lemma_unique_index(p as int, j);
                    assert forall|n: Seq<char>| n != hook_name@ implies #[trigger] self.state_of(n) == old_log.state_of(n) by {
                        if old_log.has(n) {
                            let k = choose|k: int| 0 <= k < old_log.names@.len() && (#[trigger] old_log.names@[k])@ == n;
                            let k2 = if k < p { k } else { k + 1 };
                            assert(self.names@[k2] == old_log.names@[k]);
                            assert(self.has(n));
                            let j2 = choose|j: int| 0 <= j < self.names@.len() && (#[trigger] self.names@[j])@ == n;
                            self.lemma_unique_index(k2, j2);
                        } else if self.has(n) {
                            let j2 = choose|j: int| 0 <= j < self.names@.len() && (#[trigger] self.names@[j])@ == n;
                            assert(j2 != p);
                            assert(old_log.names@[old_index(j2)]@ == n);
                        }
                    }
                }
                HookErrorReport { count: 1, message: formatted, print: true }
            },
        }
    }

    /// The failures recorded, one per hook, in the order of the hook names.
    pub fn snapshot(&self) -> (r: Vec<HookErrorSnapshot>)
        requires
            self.wf(),
        ensures
            r@.len() == self.entries().len(),
            forall|i: int| 0 <= i < r@.len() ==> ((#[trigger] r@[i]).hook@, r@[i].count as nat, r@[i].last_error@) == self.entries()[i],
            names_ascending(Seq::new(self.entries().len(), |i: int| self.entries()[i].0)),
    {
        let mut out: Vec<HookErrorSnapshot> = Vec::new();
        let mut i: usize = 0;
        while i < self.names.len()
            invariant
                self.wf(),
                i <= self.names@.len(),
                out@.len() == i,
                forall|k: int| 0 <= k < i ==> ((#[trigger] out@[k]).hook@, out@[k].count as nat, out@[k].last_error@) == self.entries()[k],
            decreases self.names@.len() - i,
        {
            out.push(HookErrorSnapshot {
                hook: self.names[i].clone(),
                count: self.states[i].count,
                last_error: self.states[i].last_error.clone(),
            });
            i += 1;
        }
        proof {
            assert(Seq::new(self.entries().len(), |i: int| self.entries()[i].0) =~= self.names_view());
        }
        out
    }
}

} // verus!
