//! The actions a key binding can trigger.
use vstd::prelude::*;

use crate::number::Double;
use crate::text::{copy_str, str_equal};

verus! {

/// An action that a key binding triggers. Pan amounts and zoom factors are config
/// numbers (see `crate::number`).
#[derive(Debug, PartialEq)]
pub enum Action {
    PanLeft { amount: Double },
    PanRight { amount: Double },
    PanUp { amount: Double },
    PanDown { amount: Double },
    ZoomIn { factor: Double },
    ZoomOut { factor: Double },
    CloseWindow,
    Spawn { command: String },
}

/// An action with its command as characters.
pub enum ActionView {
    PanLeft { amount: Double },
    PanRight { amount: Double },
    PanUp { amount: Double },
    PanDown { amount: Double },
    ZoomIn { factor: Double },
    ZoomOut { factor: Double },
    CloseWindow,
    Spawn { command: Seq<char> },
}

impl View for Action {
    type V = ActionView;

    open spec fn view(&self) -> ActionView {
        match self {
            Action::PanLeft { amount } => ActionView::PanLeft { amount: *amount },
            Action::PanRight { amount } => ActionView::PanRight { amount: *amount },
            Action::PanUp { amount } => ActionView::PanUp { amount: *amount },
            Action::PanDown { amount } => ActionView::PanDown { amount: *amount },
            Action::ZoomIn { factor } => ActionView::ZoomIn { factor: *factor },
            Action::ZoomOut { factor } => ActionView::ZoomOut { factor: *factor },
            Action::CloseWindow => ActionView::CloseWindow,
            Action::Spawn { command } => ActionView::Spawn { command: command@ },
        }
    }
}

impl Clone for Action {
    fn clone(&self) -> (r: Self)
        ensures
            r == *self,
    {
        match self {
            Action::PanLeft { amount } => Action::PanLeft { amount: *amount },
            Action::PanRight { amount } => Action::PanRight { amount: *amount },
            Action::PanUp { amount } => Action::PanUp { amount: *amount },
            Action::PanDown { amount } => Action::PanDown { amount: *amount },
            Action::ZoomIn { factor } => Action::ZoomIn { factor: *factor },
            Action::ZoomOut { factor } => Action::ZoomOut { factor: *factor },
            Action::CloseWindow => Action::CloseWindow,
            Action::Spawn { command } => Action::Spawn { command: command.clone() },
        }
    }
}

/// The name of an action as bindings spell it.
pub open spec fn action_name(a: ActionView) -> Seq<char> {
    match a {
        ActionView::PanLeft { .. } => "pan_left"@,
        ActionView::PanRight { .. } => "pan_right"@,
        ActionView::PanUp { .. } => "pan_up"@,
        ActionView::PanDown { .. } => "pan_down"@,
        ActionView::ZoomIn { .. } => "zoom_in"@,
        ActionView::ZoomOut { .. } => "zoom_out"@,
        ActionView::CloseWindow => "close_window"@,
        ActionView::Spawn { .. } => "spawn"@,
    }
}

/// The action a binding names: pan amounts default to `default_pan`, zooming in to
/// `default_zoom` and zooming out to `default_zoom_out` (the reciprocal of the zoom
/// step); `spawn` needs a command. Other names yield nothing.
pub open spec fn action_named(name: Seq<char>, amount: Option<Double>, default_pan: Double, default_zoom: Double, default_zoom_out: Double, command: Option<Seq<char>>) -> Option<ActionView> {
    let pan = match amount {
        Some(a) => a,
        None => default_pan,
    };
    if name == "pan_left"@ {
        Some(ActionView::PanLeft { amount: pan })
    } else if name == "pan_right"@ {
        Some(ActionView::PanRight { amount: pan })
    } else if name == "pan_up"@ {
        Some(ActionView::PanUp { amount: pan })
    } else if name == "pan_down"@ {
        Some(ActionView::PanDown { amount: pan })
    } else if name == "zoom_in"@ {
        Some(ActionView::ZoomIn { factor: match amount { Some(a) => a, None => default_zoom } })
    } else if name == "zoom_out"@ {
        Some(ActionView::ZoomOut { factor: match amount { Some(a) => a, None => default_zoom_out } })
    } else if name == "close_window"@ {
        Some(ActionView::CloseWindow)
    } else if name == "spawn"@ {
        match command {
            Some(c) => Some(ActionView::Spawn { command: c }),
            None => None,
        }
    } else {
        None
    }
}

impl Action {
    /// The name of the action as bindings spell it.
    pub fn name(&self) -> (r: &'static str)
        ensures
            r@ == action_name(self@),
    {
        match self {
            Action::PanLeft { .. } => "pan_left",
            Action::PanRight { .. } => "pan_right",
            Action::PanUp { .. } => "pan_up",
            Action::PanDown { .. } => "pan_down",
            Action::ZoomIn { .. } => "zoom_in",
            Action::ZoomOut { .. } => "zoom_out",
            Action::CloseWindow => "close_window",
            Action::Spawn { .. } => "spawn",
        }
    }

    /// The action a binding names (see `action_named`). `default_zoom_out` is the
    /// reciprocal of `default_zoom`, which the caller computes.
    pub fn from_name(
        name: &str,
        amount: Option<Double>,
        default_pan: Double,
        default_zoom: Double,
        default_zoom_out: Double,
        command: Option<&str>,
    ) -> (r: Option<Action>)
        ensures
            match r {
                Some(a) => action_named(name@, amount, default_pan, default_zoom, default_zoom_out, match command { Some(c) => Some(c@), None => None }) == Some(a@),
                None => action_named(name@, amount, default_pan, default_zoom, default_zoom_out, match command { Some(c) => Some(c@), None => None }) is None,
            },
    {
        let pan = match amount {
            Some(a) => a,
            None => default_pan,
        };
        if str_equal(name, "pan_left") {
            Some(Action::PanLeft { amount: pan })
        } else if str_equal(name, "pan_right") {
            Some(Action::PanRight { amount: pan })
        } else if str_equal(name, "pan_up") {
            Some(Action::PanUp { amount: pan })
        } else if str_equal(name, "pan_down") {
            Some(Action::PanDown { amount: pan })
        } else if str_equal(name, "zoom_in") {
            Some(Action::ZoomIn { factor: match amount { Some(a) => a, None => default_zoom } })
        } else if str_equal(name, "zoom_out") {
            Some(Action::ZoomOut { factor: match amount { Some(a) => a, None => default_zoom_out } })
        } else if str_equal(name, "close_window") {
            Some(Action::CloseWindow)
        } else if str_equal(name, "spawn") {
            match command {
                Some(c) => Some(Action::Spawn { command: copy_str(c) }),
                None => None,
            }
        } else {
            None
        }
    }
}


/// An action found by name carries that name, and its value is the one given or else the
/// default of its kind: pans move by the amount or the default pan, zooms in by the
/// amount or the default zoom, zooms out by the amount or the default zoom-out factor,
/// and `spawn` runs the command given.
pub proof fn law_named_action_has_its_name(
    name: Seq<char>,
    amount: Option<Double>,
    default_pan: Double,
    default_zoom: Double,
    default_zoom_out: Double,
    command: Option<Seq<char>>,
)
    ensures
        action_named(name, amount, default_pan, default_zoom, default_zoom_out, command) matches Some(a) ==> {
            &&& action_name(a) == name
            &&& match a {
                ActionView::PanLeft { amount: p } => p == (match amount { Some(v) => v, None => default_pan }),
                ActionView::PanRight { amount: p } => p == (match amount { Some(v) => v, None => default_pan }),
                ActionView::PanUp { amount: p } => p == (match amount { Some(v) => v, None => default_pan }),
                ActionView::PanDown { amount: p } => p == (match amount { Some(v) => v, None => default_pan }),
                ActionView::ZoomIn { factor } => factor == (match amount { Some(v) => v, None => default_zoom }),
                ActionView::ZoomOut { factor } => factor == (match amount { Some(v) => v, None => default_zoom_out }),
                ActionView::CloseWindow => true,
                ActionView::Spawn { command: c } => command == Some(c),
            }
        },
{
}

} // verus!
