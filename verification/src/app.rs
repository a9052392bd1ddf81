//! The session window: what it shows, and what it does with input.

pub mod desktop;
pub mod dropped;
pub mod input;
pub mod keys;
pub mod resize;
pub mod screen;
pub mod session;
pub mod status;

pub use screen::{blit, cursor_bounds, damage_regions, draw_cursor, image_digest};
pub use session::{App, AppOptions, Task, Wake, WindowEvent};
