//! What is known of the compositor: outputs, windows, and memory for pictures.

pub mod cursor_stream;
pub mod dmabuf;
pub mod shm;
pub mod toplevel;
