//! Verified core of the Sodium Minecraft launcher: platform conventions,
//! library selection rules, Maven paths, install plans, launch command
//! lines and the Microsoft sign-in message formats.

pub mod platform;
pub mod text;
pub mod model;
pub mod rules;
pub mod maven;
pub mod launch;
pub mod install;
pub mod auth;
pub mod paths;
