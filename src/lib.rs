pub mod app;
pub mod editor;
pub mod lifecycle;
pub mod state;
