//! The dashboard engine, one module per component.

pub mod app;
pub mod config;
pub mod event;
pub mod pattern;
pub mod ring;
pub mod state;
pub mod tabs;
