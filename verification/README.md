# sigrun

The core of the SIGRUN capability-based microkernel for x86_64, written in
Verus: the functions in `src/` carry contracts that Verus proves. One
function is trusted rather than proved: `string_from_chars` in
`src/syscall_api.rs`, which collects characters into a `String` through
std.

- `src/capability`, `src/ipc`: capability rights, tables and transfer;
  message queues, channels, endpoints, notifications, shared memory and
  the IPC system calls.
- `src/memory`: the buddy frame allocator, page-table entries and the
  four-level mapper, address-space regions, the kernel heaps.
- `src/scheduler`, `src/timer`: the task table and round-robin choice,
  run queues, affinity, idle accounting; clocks and the timer wheel.
- `src/arch`, `src/interrupt`, `src/syscall`: descriptor tables, APIC and
  PIC register values, initial stack frames, the system-call decoding.
- `src/boot`: ELF loading plans, the memory-map summary, boot paging and
  boot parameters for the UEFI loader.

Laws that relate several operations are public proof functions named
`lemma_*` next to the operations they speak of.

`app/` holds what runs on the machine around the library: processor
instructions, the serial console, firmware calls, global state and the
kernel's start-up sequence. `tests/` exercises the library.
