//! Minecraft server status: MOTD rendering, response models, the response
//! cache, query decisions and configuration resolution.

pub mod text;
pub mod motd;
pub mod motd_laws;
pub mod status;
pub mod cache;
pub mod query;
pub mod reply;
pub mod config;
