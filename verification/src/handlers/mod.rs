//! What clients ask for and what they are answered.

pub mod activation;
pub mod capture;
pub mod decoration;
pub mod outputs;
pub mod seat;
pub mod session_lock;
