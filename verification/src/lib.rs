//! Verified core logic of a small x86 teaching kernel: bitmaps and memory
//! pools, the pid allocator, queues and pipes, file descriptor tables, the
//! keyboard scan-code decoder, ATA/PIO register encoding and the file system.

pub mod bitmap;
pub mod mem_pool;
pub mod pid_allocator;
pub mod queue;
pub mod sync;
pub mod blocking_queue;
pub mod filesystem;
pub mod pipe;
pub mod scancode;
pub mod keyboard;
pub mod printer;
pub mod device;
pub mod memory;
pub mod mutex;
pub mod console;
pub mod common;
pub mod scheduler;
pub mod exec;
pub mod init;
