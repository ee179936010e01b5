pub mod list;
pub mod append;
pub mod read;
pub mod write;
pub mod search;
