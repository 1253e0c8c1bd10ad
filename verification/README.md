# kernel_core

The decision-making core of a small 32-bit x86 teaching kernel, written in Verus
and verified: every function in `src/` carries a contract, and the properties the
kernel relies on are stated and proved as `law_*` proof functions.

- `keyboard`: PS/2 scancode set 1 driver: modifier keys, the ASCII tables, the key
  actions (characters, Ctrl+F1..F3 screen switches, Ctrl+1..8 colours) and the FIFO
  ring buffer filled by the keyboard interrupt.
- `vga_buffer`: colours, attribute bytes and a writer that keeps three virtual text
  screens. Each operation returns the hardware writes (`VgaOp`) that mirror it onto
  the VGA buffer; `law_byte_ops_mirror`, `law_string_ops_mirror` and
  `law_repaint_shows_screen` prove that performing them keeps the display equal to
  the shown screen.
- `shell`: the line editor and the command parser.
- `signal`: registration, raising, scheduling and delivery of signals, generic over
  the handler type.
- `gdt`, `idt`, `pic`, `port`: descriptor encodings, the kernel's segment table,
  system call dispatch, the PIC programming sequence and port writes.
- `stack`: the text of a hex/ASCII stack dump.

`app/` holds what cannot be verified: port and memory-mapped I/O, inline assembly,
interrupt stubs, the spin-locked globals and the main loop.
