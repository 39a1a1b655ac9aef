//! The file system: descriptors, paths, inodes, directories and files.

pub mod file_descriptor;
pub mod constant;
pub mod superblock;
pub mod inode;
pub mod file_util;
pub mod dir_entry;
pub mod fs;
pub mod file;
pub mod dir_api;
pub mod file_api;
pub mod dir;
pub mod global_file_table;
