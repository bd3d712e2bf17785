//! Screenshots: what is captured, how it is put together and where it goes.

pub mod geometry;
pub mod picture;
pub mod compose;
pub mod capture;
pub mod gather;
pub mod request;
pub mod session;
