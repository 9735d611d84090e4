//! Choosing the backend that runs the compositor.
use vstd::prelude::*;

verus! {

/// The backends the compositor can run on.
#[derive(Debug, Clone, Copy, PartialEq, Eq, Structural)]
pub enum Backend {
    X11,
    Winit,
    Udev,
    Headless,
}

/// The backend that a config file names, if it names one.
pub open spec fn backend_named(name: Seq<char>) -> Option<Backend> {
    if name == "x11"@ {
        Some(Backend::X11)
    } else if name == "winit"@ {
        Some(Backend::Winit)
    } else if name == "udev"@ {
        Some(Backend::Udev)
    } else if name == "headless"@ {
        Some(Backend::Headless)
    } else {
        None
    }
}

impl Backend {
    /// The backend that a config file's `backend` value names.
    pub fn from_config_name(name: &str) -> (r: Option<Backend>)
        ensures
            r == backend_named(name@),
    {
        if crate::text::str_equal(name, "x11") {
            Some(Backend::X11)
        } else if crate::text::str_equal(name, "winit") {
            Some(Backend::Winit)
        } else if crate::text::str_equal(name, "udev") {
            Some(Backend::Udev)
        } else if crate::text::str_equal(name, "headless") {
            Some(Backend::Headless)
        } else {
            None
        }
    }
}

/// The backend to run: the one given on the command line, else the one the config
/// names, else the nested winit backend.
pub fn resolve_backend_choice(cli_backend: Option<Backend>, config_backend: Option<&str>) -> (r: Backend)
    ensures
        r == match cli_backend {
            Some(b) => b,
            None => match config_backend {
                Some(name) => match backend_named(name@) {
                    Some(b) => b,
                    None => Backend::Winit,
                },
                None => Backend::Winit,
            },
        },
{
    match cli_backend {
        Some(b) => b,
        None => match config_backend {
            Some(name) => match Backend::from_config_name(name) {
                Some(b) => b,
                None => Backend::Winit,
            },
            None => Backend::Winit,
        },
    }
}

} // verus!
