# moncomble_os

The verified library of MONCOMBLE OS, a small 32-bit x86 kernel with a VGA
text console, a PS/2 keyboard driver, a command shell and a bump heap
allocator.

- `src/vga.rs`: the 80x25 text screen (cursor, newline, carriage return, tab
  stops, wrapping, scrolling) and the boot and panic banners.
- `src/shell.rs`: the line editor and the `help`, `test` and `panic` commands.
- `src/slab_allocator.rs`: the bump allocator over the kernel heap.
- `src/keyboard.rs`: the bounded scancode queue, the scancode decoder and the
  key-to-character rule.
- `src/interrupts.rs`, `src/qemu.rs`: interrupt vectors and QEMU exit codes.
- `app/`: the kernel around the library: the hardware text buffer, the serial
  port, the interrupt handlers, the global allocator and the boot sequence.
