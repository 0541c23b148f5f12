//! Physical and virtual memory management.

pub mod frame_distributer;
pub mod mapper;
pub mod paging;
pub mod types;
