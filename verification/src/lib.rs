//! Verified core of a reflection-driven scene editor: texture atlas grid
//! inference, component selection bookkeeping for entity UIs, editor form
//! state and the small text and queue logic that the editor's widgets rely on.

pub mod atlas_grid;
pub mod collections;
pub mod component_sets;
pub mod transform_control;
pub mod resource_queue;
pub mod hierarchy;
pub mod text;
pub mod serialization;
pub mod reflection;
pub mod list_rows;
pub mod ui_plan;
