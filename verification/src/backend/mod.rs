pub mod fs;
pub mod plan;
pub mod store;
