//! Host inventory: parsers and decision rules that turn what the system's
//! pseudo-files, commands and platform queries return into battery, CPU,
//! memory, disk, GPU and distribution records, plus the report's lines.
//!
//! Every function here works on plain values handed in by the caller; reading
//! files, running commands and printing happen outside this library.
pub mod battery;
pub mod cpu;
pub mod disk;
pub mod distro;
pub mod error;
pub mod gpu;
pub mod memory;
pub mod report;
pub mod text;
