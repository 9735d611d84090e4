//! Windows: the model, focus order, moving and resizing, and rules.
pub mod focus;
pub mod model;
pub mod move_resize;
pub mod placement;
pub mod rules;
pub mod sizing;

pub use focus::FocusStack;
pub use model::{Window, WindowId, WindowProperties};
pub use move_resize::{snap_to_rect, ResizeEdges, ResizePolicy};
pub use placement::{PlacementPolicy, PlacementTarget};
pub use rules::{AppliedWindowRules, WindowRule};
