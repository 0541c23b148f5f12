//! Memory-management core of a small x86-64 kernel: the page-table entry
//! format, the linear-mapping routine, physical memory regions with their
//! power-of-two decomposition, and the text console's cell buffer.

pub mod memory;
pub mod vga_buffer;
