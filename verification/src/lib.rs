//! Reading and inspecting the headers of Portable Executable (PE) files.

pub mod helpers;
pub mod types;
pub mod pe;
