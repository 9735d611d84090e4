//! The decisions the compositor takes on key presses and pointer buttons. The caller
//! performs what a decision asks for (running a script hook, forwarding the event to a
//! client) and hands the answer back.
use vstd::prelude::*;

use crate::input::actions::Action;
use crate::input::bindings::{first_match, format_keyspec, keyspec_text, normalize_key, normalized_key, BindingMap, ModifierSet};
use crate::tty::{tty_action_spec, tty_control_action_for, TtyConfig, TtyControlAction};
use crate::text::strings_view;
use crate::window::model::WindowId;

verus! {

/// The button code of the middle mouse button, which pans the canvas.
pub const MIDDLE_BUTTON: u32 = 274;

/// The button code of the left mouse button.
pub const LEFT_BUTTON: u32 = 272;

/// Where a key press goes before any script hook has seen it.
#[derive(Debug)]
pub enum KeyPressRoute {
    /// A session control key: the press is taken and the control runs.
    TtyControl(TtyControlAction),
    /// The session is locked: the press is taken and nothing else happens.
    Locked,
    /// The key hook is asked with `keyspec`; `bound` is the action the bindings give.
    Resolve { keyspec: String, bound: Option<Action> },
}

/// The route of a press of `key` (as the keyboard names it) with `modifiers`. Session
/// control keys are looked up only where `tty` is given.
pub open spec fn key_press_route(
    key: Seq<char>,
    modifiers: ModifierSet,
    tty: Option<TtyConfig>,
    session_locked: bool,
) -> Option<Option<TtyControlAction>> {
    let control = match tty {
        Some(t) => tty_action_spec(normalized_key(key), modifiers, strings_view(t.quit_mods@), t.quit_key@, strings_view(t.vt_switch_modifiers@)),
        None => None,
    };
    if control is Some {
        Some(control)
    } else if session_locked {
        Some(None)
    } else {
        None
    }
}

/// Routes a key press: session control keys first, then the lock, then the bindings.
/// (`key_press_route` is `Some(Some(c))` for a control, `Some(None)` for a locked session
/// and `None` where the bindings and the key hook decide.)
pub fn route_key_press(
    key: &str,
    modifiers: ModifierSet,
    tty: Option<&TtyConfig>,
    session_locked: bool,
    bindings: &BindingMap,
) -> (r: KeyPressRoute)
    ensures
        match key_press_route(key@, modifiers, match tty { Some(t) => Some(*t), None => None }, session_locked) {
            Some(Some(c)) => r == KeyPressRoute::TtyControl(c),
            Some(None) => r is Locked,
            None => r matches KeyPressRoute::Resolve { keyspec, bound }
                && keyspec@ == keyspec_text(normalized_key(key@), modifiers)
                && match bound {
                    Some(a) => first_match(bindings.entries(), normalized_key(key@), modifiers) == Some(a@),
                    None => first_match(bindings.entries(), normalized_key(key@), modifiers) is None,
                },
        },
{
    let normalized = normalize_key(key);
    if let Some(t) = tty {
        if let Some(control) = tty_control_action_for(normalized.as_str(), modifiers, t) {
            return KeyPressRoute::TtyControl(control);
        }
    }
    if session_locked {
        return KeyPressRoute::Locked;
    }
    proof {
        crate::input::bindings::law_normalize_key_idempotent(key@);
    }
    let keyspec = format_keyspec(normalized.as_str(), modifiers);
    let bound = bindings.resolve(normalized.as_str(), modifiers);
    KeyPressRoute::Resolve { keyspec, bound }
}

/// What becomes of a resolved key press once the key hook has answered.
#[derive(Debug)]
pub struct KeyPressOutcome {
    /// Whether the press is kept from the focused client: it is whenever a binding applies.
    pub intercepted: bool,
    /// The bound action to run: none where the hook handled the key.
    pub run: Option<Action>,
}

/// Settles a key press whose binding lookup gave `bound`, the key hook having
/// answered `hook_handled`.
pub fn settle_key_press(bound: Option<Action>, hook_handled: bool) -> (r: KeyPressOutcome)
    ensures
        r.intercepted == bound is Some,
        hook_handled ==> r.run is None,
        !hook_handled ==> r.run == bound,
{
    let intercepted = bound.is_some();
    if hook_handled {
        KeyPressOutcome { intercepted, run: None }
    } else {
        KeyPressOutcome { intercepted, run: bound }
    }
}

/// The input events the compositor acts on, by kind.
#[derive(Debug, Clone, Copy, PartialEq, Eq, Structural)]
pub enum InputEventKind {
    Keyboard,
    PointerMotion,
    PointerMotionAbsolute,
    PointerButton,
    PointerAxis,
    GestureSwipeBegin,
    GestureSwipeUpdate,
    GestureSwipeEnd,
    GesturePinchBegin,
    GesturePinchUpdate,
    GesturePinchEnd,
    /// Any other event (devices appearing, tablet and touch input).
    Other,
}

/// Where an input event goes.
#[derive(Debug, Clone, Copy, PartialEq, Eq, Structural)]
pub enum InputRoute {
    /// To the key handler, which takes the lock into account itself (see
    /// `route_key_press`): a locked session takes every key press that is not a session
    /// control key, and runs no binding and no key hook for it.
    KeyHandler,
    /// To its pointer, scroll or gesture handler.
    PointerHandler,
    /// Nowhere: the session is locked, so the event changes nothing and reaches no client.
    Dropped,
    /// Nowhere: the compositor does not act on this kind of event.
    Ignored,
}

/// The route of an input event of kind `kind`: keyboard events go to the key handler,
/// pointer, scroll and gesture events to their handlers unless the session is locked.
pub open spec fn input_route(kind: InputEventKind, session_locked: bool) -> InputRoute {
    match kind {
        InputEventKind::Keyboard => InputRoute::KeyHandler,
        InputEventKind::Other => InputRoute::Ignored,
        _ => if session_locked {
            InputRoute::Dropped
        } else {
            InputRoute::PointerHandler
        },
    }
}

/// Routes an input event of kind `kind` (see `input_route`).
pub fn route_input_event(kind: InputEventKind, session_locked: bool) -> (r: InputRoute)
    ensures
        r == input_route(kind, session_locked),
{
    match kind {
        InputEventKind::Keyboard => InputRoute::KeyHandler,
        InputEventKind::Other => InputRoute::Ignored,
        _ => if session_locked {
            InputRoute::Dropped
        } else {
            InputRoute::PointerHandler
        },
    }
}

/// What a button press asks for first.
#[derive(Debug, Clone, Copy, PartialEq, Eq, Structural)]
pub enum PressStep {
    /// The session is locked: the press is dropped, nothing is recorded and the client
    /// sees nothing.
    Locked,
    /// The pointer is grabbed: the press goes to the client as it is.
    Forward,
    /// The middle button: a canvas pan starts and the press is kept from the client.
    StartPan,
    /// The focus hook is asked about the press.
    AskFocusHook,
}

/// What happens to focus after a press that the focus hook did not handle.
#[derive(Debug, Clone, Copy, PartialEq, Eq, Structural)]
pub enum FocusChange {
    /// Nothing changes.
    Keep,
    /// The window under the pointer gets focus.
    Focus(WindowId),
    /// Focus is cleared: the press fell on the canvas.
    Clear,
}

/// The follow-up of a press the focus hook was asked about.
#[derive(Debug, Clone, Copy, PartialEq, Eq, Structural)]
pub struct PressFollowUp {
    /// Whether the press is kept from the client.
    pub suppress: bool,
    pub focus: FocusChange,
}

/// The buttons a pointer holds track of: the last one pressed and the one whose
/// release is kept from the client.
#[derive(Debug, Clone, Copy, PartialEq, Eq, Structural)]
pub struct ButtonTracker {
    pub last_pressed: Option<u32>,
    pub suppressed_release: Option<u32>,
}

/// The first step of a press of `button`.
pub open spec fn press_step(button: u32, grabbed: bool, session_locked: bool) -> PressStep {
    if session_locked {
        PressStep::Locked
    } else if grabbed {
        PressStep::Forward
    } else if button == MIDDLE_BUTTON {
        PressStep::StartPan
    } else {
        PressStep::AskFocusHook
    }
}

/// The tracker after a press of `button`; a locked session leaves it as it was.
pub open spec fn after_press(t: ButtonTracker, button: u32, grabbed: bool, session_locked: bool) -> ButtonTracker {
    if session_locked {
        t
    } else {
        ButtonTracker {
            last_pressed: Some(button),
            suppressed_release: if press_step(button, grabbed, false) == PressStep::StartPan {
                Some(button)
            } else {
                t.suppressed_release
            },
        }
    }
}

/// The follow-up of a press of `button` over `hovered`: the press is kept from the client
/// when the hook started an interactive operation, or when a logo-modified press of a
/// button other than the left one over a window was handled; an unhandled press focuses
/// the window under the pointer or clears focus.
pub open spec fn press_follow_up(
    button: u32,
    hovered: Option<WindowId>,
    logo: bool,
    handled: bool,
    op_before: bool,
    op_after: bool,
) -> PressFollowUp {
    let started_by_hook = !op_before && op_after;
    let modifier_resize_click = hovered is Some && logo && button != LEFT_BUTTON;
    PressFollowUp {
        suppress: started_by_hook || (modifier_resize_click && handled),
        focus: if handled {
            FocusChange::Keep
        } else {
            match hovered {
                Some(id) => FocusChange::Focus(id),
                None => FocusChange::Clear,
            }
        },
    }
}

/// Whether the release of `button` reaches the client: never while the session is
/// locked.
pub open spec fn release_forwarded(t: ButtonTracker, button: u32, session_locked: bool) -> bool {
    !session_locked && t.suppressed_release != Some(button)
}

/// The tracker after a release of `button`; a locked session leaves it as it was.
pub open spec fn after_release(t: ButtonTracker, button: u32, session_locked: bool) -> ButtonTracker {
    if session_locked {
        t
    } else {
        ButtonTracker {
            last_pressed: if t.last_pressed == Some(button) { None } else { t.last_pressed },
            suppressed_release: if t.suppressed_release == Some(button) { None } else { t.suppressed_release },
        }
    }
}

impl ButtonTracker {
    /// No button pressed, nothing suppressed.
    pub fn new() -> (t: ButtonTracker)
        ensures
            t.last_pressed is None,
            t.suppressed_release is None,
    {
        ButtonTracker { last_pressed: None, suppressed_release: None }
    }

    /// Records a press of `button` (`grabbed`: a pointer grab is active) and says what
    /// comes first; while the session is locked the press is dropped and nothing is
    /// recorded.
    pub fn press(&mut self, button: u32, grabbed: bool, session_locked: bool) -> (r: PressStep)
        ensures
            r == press_step(button, grabbed, session_locked),
            *final(self) == after_press(*old(self), button, grabbed, session_locked),
    {
        if session_locked {
            return PressStep::Locked;
        }
        self.last_pressed = Some(button);
        if grabbed {
            PressStep::Forward
        } else if button == MIDDLE_BUTTON {
            self.suppressed_release = Some(button);
            PressStep::StartPan
        } else {
            PressStep::AskFocusHook
        }
    }

    /// Takes the focus hook's answer about a press of `button` over `hovered` (`logo`:
    /// the logo modifier is held; `op_before`, `op_after`: an interactive operation ran
    /// before and after the hook).
    pub fn follow_up(
        &mut self,
        button: u32,
        hovered: Option<WindowId>,
        logo: bool,
        handled: bool,
        op_before: bool,
        op_after: bool,
    ) -> (r: PressFollowUp)
        ensures
            r == press_follow_up(button, hovered, logo, handled, op_before, op_after),
            final(self).last_pressed == old(self).last_pressed,
            final(self).suppressed_release == (if r.suppress { Some(button) } else { old(self).suppressed_release }),
    {
        let started_by_hook = !op_before && op_after;
        let modifier_resize_click = hovered.is_some() && logo && button != LEFT_BUTTON;
        let suppress = started_by_hook || (modifier_resize_click && handled);
        if suppress {
            self.suppressed_release = Some(button);
        }
        let focus = if handled {
            FocusChange::Keep
        } else {
            match hovered {
                Some(id) => FocusChange::Focus(id),
                None => FocusChange::Clear,
            }
        };
        PressFollowUp { suppress, focus }
    }

    /// Records a release of `button`; the result says whether the client sees it. While
    /// the session is locked the release is dropped and nothing is recorded.
    pub fn release(&mut self, button: u32, session_locked: bool) -> (forwarded: bool)
        ensures
            forwarded == release_forwarded(*old(self), button, session_locked),
            *final(self) == after_release(*old(self), button, session_locked),
    {
        if session_locked {
            return false;
        }
        let forwarded = self.suppressed_release != Some(button);
        if self.last_pressed == Some(button) {
            self.last_pressed = None;
        }
        if self.suppressed_release == Some(button) {
            self.suppressed_release = None;
        }
        forwarded
    }
}

/// A middle-button press, which starts a canvas pan, keeps its release from the client,
/// and after that release no button is held back any more.
pub proof fn law_pan_press_hides_release(t: ButtonTracker)
    ensures
        press_step(MIDDLE_BUTTON, false, false) == PressStep::StartPan,
        !release_forwarded(after_press(t, MIDDLE_BUTTON, false, false), MIDDLE_BUTTON, false),
        after_release(after_press(t, MIDDLE_BUTTON, false, false), MIDDLE_BUTTON, false).suppressed_release is None,
        after_release(after_press(t, MIDDLE_BUTTON, false, false), MIDDLE_BUTTON, false).last_pressed is None,
{
}

/// A press that the follow-up suppresses has its release suppressed too; one that it
/// lets through leaves the release of a button nothing held back reaching the client.
pub proof fn law_suppressed_press_hides_release(
    t: ButtonTracker,
    button: u32,
    hovered: Option<WindowId>,
    logo: bool,
    handled: bool,
    op_before: bool,
    op_after: bool,
)
    requires
        press_step(button, false, false) == PressStep::AskFocusHook,
    ensures
        ({
            let f = press_follow_up(button, hovered, logo, handled, op_before, op_after);
            let t1 = after_press(t, button, false, false);
            let t2 = ButtonTracker {
                last_pressed: t1.last_pressed,
                suppressed_release: if f.suppress { Some(button) } else { t1.suppressed_release },
            };
            &&& f.suppress ==> !release_forwarded(t2, button, false)
            &&& !f.suppress && t.suppressed_release != Some(button) ==> release_forwarded(t2, button, false)
        }),
{
}

/// A press of a grabbed pointer goes to the client and changes no suppression.
pub proof fn law_grabbed_press_forwards(t: ButtonTracker, button: u32)
    ensures
        press_step(button, true, false) == PressStep::Forward,
        after_press(t, button, true, false).suppressed_release == t.suppressed_release,
{
}

/// While the session is locked, every pointer, scroll and gesture event is dropped, and a
/// button press or release is dropped whatever the button or grab: the tracker stays as
/// it was and nothing reaches a client.
pub proof fn law_locked_session_drops_pointer_input(t: ButtonTracker, kind: InputEventKind, button: u32, grabbed: bool)
    ensures
        kind != InputEventKind::Keyboard && kind != InputEventKind::Other ==> input_route(kind, true) == InputRoute::Dropped,
        input_route(InputEventKind::Keyboard, true) == InputRoute::KeyHandler,
        press_step(button, grabbed, true) == PressStep::Locked,
        after_press(t, button, grabbed, true) == t,
        !release_forwarded(t, button, true),
        after_release(t, button, true) == t,
{
}

} // verus!

verus! {

/// What the focus hook is asked: why, about which window under the pointer, what was
/// focused before, and the pointer, button and modifiers involved.
#[derive(Debug, Clone, PartialEq)]
pub struct ResolveFocusRequest {
    pub reason: String,
    pub window: Option<crate::hooks::WindowSnapshot>,
    pub previous: Option<WindowId>,
    pub pointer: Option<crate::canvas::Point>,
    pub button: Option<u32>,
    pub pressed: Option<bool>,
    pub modifiers: Option<ModifierSet>,
}

/// The focus request for a pointer motion to `pointer` over `window`.
pub fn motion_focus_request(
    window: Option<crate::hooks::WindowSnapshot>,
    previous: Option<WindowId>,
    pointer: crate::canvas::Point,
    modifiers: ModifierSet,
) -> (r: ResolveFocusRequest)
    ensures
        r.reason@ == "pointer_motion"@,
        r.window == window,
        r.previous == previous,
        r.pointer == Some(pointer),
        r.button is None,
        r.pressed is None,
        r.modifiers == Some(modifiers),
{
    ResolveFocusRequest {
        reason: crate::text::copy_str("pointer_motion"),
        window,
        previous,
        pointer: Some(pointer),
        button: None,
        pressed: None,
        modifiers: Some(modifiers),
    }
}

/// The focus request for a press of `button` at `pointer` over `window`.
pub fn press_focus_request(
    window: Option<crate::hooks::WindowSnapshot>,
    previous: Option<WindowId>,
    pointer: crate::canvas::Point,
    button: u32,
    modifiers: ModifierSet,
) -> (r: ResolveFocusRequest)
    ensures
        r.reason@ == "pointer_button"@,
        r.window == window,
        r.previous == previous,
        r.pointer == Some(pointer),
        r.button == Some(button),
        r.pressed == Some(true),
        r.modifiers == Some(modifiers),
{
    ResolveFocusRequest {
        reason: crate::text::copy_str("pointer_button"),
        window,
        previous,
        pointer: Some(pointer),
        button: Some(button),
        pressed: Some(true),
        modifiers: Some(modifiers),
    }
}

} // verus!
