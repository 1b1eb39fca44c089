//! A verified model of a teaching kernel: the easy-fs file system and its
//! virtual file layer, per-task file descriptors and memory areas, the
//! round-robin and FIFO task schedulers, system-call decoding and the trap
//! handler's decisions.
pub mod config;
pub mod efs;
pub mod vfs;
pub mod fs;
pub mod mm;
pub mod task;
pub mod syscall;
pub mod trap;
pub mod manager;
pub mod dispatch;
