//! The configuration: key bindings, jobs, and the settings they make.
pub mod keybindings;
pub mod settings;
