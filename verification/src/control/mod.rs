pub mod actions;
pub mod bindings;
pub mod controller;
pub mod commands;
