pub mod list;
pub mod sync;
pub mod update;
