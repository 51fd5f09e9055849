//! Building blocks of the value-approximating agent.

pub mod memory_buffer;
