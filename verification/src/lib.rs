//! Window-management core of a small Wayland desktop: window bookkeeping,
//! tiling layout, key bindings, the top bar and the frame's fill plan.
pub mod animation;
pub mod bar;
pub mod config;
pub mod cursor;
pub mod geometry;
pub mod input;
pub mod keybinds;
pub mod layout;
pub mod render;
pub mod text;
pub mod window;
