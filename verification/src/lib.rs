pub mod app;
pub mod data;
pub mod idmap;
pub mod lists;
pub mod text;
