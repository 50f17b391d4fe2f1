pub mod backend;
pub mod bytes;
pub mod codec;
pub mod config;
pub mod constants;
pub mod digest;
pub mod error;
pub mod header;
pub mod keys;
pub mod prelude;
pub mod structs;
pub mod text;
