//! Key bindings and the actions they trigger.
pub mod actions;
pub mod bindings;
pub mod dispatch;

pub use actions::Action;
pub use bindings::{parse_keyspec, ActionBinding, BindingMap, ModifierSet};
