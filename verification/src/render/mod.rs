//! What a frame consists of, and in which order it is drawn.

pub mod cursor;
pub mod frame;
pub mod outline;
pub mod windows;
