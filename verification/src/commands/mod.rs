//! What each command decides, between what it reads and what it does.

pub mod lifecycle;
pub mod profile;
pub mod registry_commands;
pub mod running;
pub mod scaffold;
pub mod services;
pub mod shared;
pub mod shell_integration;
pub mod startup;
