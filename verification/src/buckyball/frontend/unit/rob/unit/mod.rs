pub mod dispatch;
pub mod ring_buffer;
