pub mod actions;
pub mod text;
pub mod tools;
pub mod versions;
