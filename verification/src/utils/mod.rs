pub mod display;
pub mod logger;
