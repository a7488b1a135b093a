pub mod cascade;
pub mod config;
pub mod create;
pub mod show;
pub mod sync;
pub mod walk;
