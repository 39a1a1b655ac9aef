//! Values passed between tasks and system calls.

pub mod cwd_dto;
pub mod exec_dto;
pub mod open_file_dto;
