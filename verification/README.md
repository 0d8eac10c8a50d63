# hadron_kernel

The logic of the Hadron kernel, verified with Verus.

- `src/` is the verified library: addresses and paging, the boot-time memory
  map, frame allocator and page table (and the runs of pages the boot stage
  maps), the kernel page table walk as a step function, PCIe bus parsing,
  platform devices and driver matching, the framebuffer and its text console,
  timers (RTC decoding, HPET), stack unwinding over the unwind tables (read
  with gimli), bit helpers and the register dump.
- `app/` is the kernel program around it: the Limine requests, port and
  memory-mapped I/O, inline assembly, the logger and the heap allocator. It
  drives the library's step functions and checks their preconditions.
- `tests/` runs the library on concrete values.
