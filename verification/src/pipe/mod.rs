//! Pipes: a blocking queue shared by a producing and a consuming task.

pub mod pipe_container;
pub mod pipe_holder;
pub mod pipe;
