//! Tracee control core of a process-level debugger: symbols of an executable
//! image, the image's live memory mappings, syscall entry/exit pairing and the
//! decisions taken on each trace-stop.

pub mod command_line;
pub mod debug_info;
pub mod debugger;
pub mod mapping;
pub mod syscall;
