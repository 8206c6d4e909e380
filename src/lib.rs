pub mod config;
pub mod secret;
pub mod location;
pub mod zsh;
