pub mod error;
pub mod text;
pub mod fatbin;
pub mod io;
pub mod ring;
pub mod local;
pub mod wire;
pub mod transport;
pub mod restore;
pub mod handle;
pub mod session;
pub mod timer;
pub mod hook;
pub mod plan;
pub mod stub;
pub mod cuda;
pub mod cache;
pub mod runtime;
pub mod config;
pub mod laws;
