pub mod backend;
pub mod branch;
pub mod commit;
pub mod history;
pub mod merge;
pub mod remote;
pub mod status;
pub mod timeline;
