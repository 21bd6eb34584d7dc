//! The logic of the FlowBetween scenery: tool state, keyboard and pointer focus,
//! tool docks, sprite allocation and resource tables, with their contracts.

pub mod ids;
pub mod table;
pub mod lists;
pub mod tool_state;
pub mod tool_laws;
pub mod gl_renderer;
pub mod focus;
pub mod sprites;
pub mod binding;
pub mod sim;
pub mod dock;
pub mod squish;
pub mod document;
pub mod dialog_state;
pub mod keys;
