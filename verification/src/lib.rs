pub mod text;
pub mod desktop;
pub mod index;
pub mod icons;
pub mod calc;
pub mod evaluator;
pub mod state;
pub mod search;
pub mod fileinfo;
pub mod commands;
pub mod sysinfo;
pub mod shortcut;
pub mod paths;
