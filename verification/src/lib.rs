//! Inventory data-and-interaction engine for grid-based item management.
//!
//! The crate tracks item instances and their types, the placement of items
//! inside named 2D collections, and the rules that move items between slots
//! in response to user gestures. Rendering, asset loading, persistence to
//! disk and raw input dispatch are external collaborators: they hand plain
//! values in and read plain values back out.

pub mod auto_move;
pub mod double_click;
pub mod drag_drop;
pub mod grid;
pub mod hover;
pub mod item;
pub mod inventory;
pub mod kv;
pub mod shift_click;
pub mod slot;
pub mod slot_updater;
