//! Small general-purpose building blocks.

pub mod either;
pub mod empty;
