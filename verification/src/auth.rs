pub mod access;
pub mod permission;
