//! MONCOMBLE OS kernel library: the text console, the command shell, the
//! bump heap allocator, the keyboard scancode path and the interrupt numbering
//! of the kernel, with their contracts.

pub mod interrupts;
pub mod vga;
pub mod shell;
pub mod slab_allocator;
pub mod keyboard;
pub mod qemu;
