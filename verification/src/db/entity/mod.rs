//! Records as the database returns them.
pub mod text;
