//! A terminal UI engine: text sizing, scroll clipping, a styled cell grid
//! with minimal frame diffs, and focus navigation over a rebuilt tree.
pub mod chars;
pub mod color;
pub mod focus;
pub mod focus_list;
pub mod focus_state;
pub mod frame;
pub mod input_view;
pub mod layout;
pub mod node;
pub mod present;
pub mod render;
pub mod style;
pub mod text;
pub mod text_input;
pub mod widgets;
pub mod width;
