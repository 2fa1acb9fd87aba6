//! The desktop: software renderer, windows, compositor, terminal and splash.
pub mod font;
pub mod renderer;
pub mod strings;
pub mod window;
pub mod compositor;
pub mod grimbox;
pub mod splash;
pub mod desktop;
