# rcore_os

A verified model of a small RISC-V teaching kernel, written in Verus.

`src/` is the verified library:

- `efs` — the easy-fs file system as plain values: the inode area and inode
  positions, inode allocation, the root directory's entries, every file's
  bytes and the count of free data blocks (`FsView`), and the disk-inode
  operations (read, grow, write, clear) with the blocks each takes or gives back.
- `vfs` — operations on an inode handle: find, create, hard links, unlink,
  link counts, listing, and file reads and writes; laws on link counts and on
  reading back what was written.
- `fs` — open flags, the files a descriptor can hold (`FileHandle`, `OSInode`),
  `open_file`, and `Stat`.
- `mm` — virtual addresses and page numbers, memory areas and address spaces.
- `task` — tasks, descriptor allocation, the round-robin task manager,
  task switching decisions and per-task `mmap`/`munmap`.
- `manager` — the FIFO ready queue.
- `syscall` — system-call decoding and the file, memory, task and time calls.
- `trap` — trap-cause decoding (through the `riscv` crate) and the trap
  handler: a system call is decoded, a fault ends the task and the timer
  suspends it, each with the task switch to perform.
- `dispatch` — serving a decoded system call: the handler it names runs and
  its result goes to `a0`; which calls fit the kernel's limits.

`app/` is the kernel around the library: global state (`lazy_static`, `spin`),
user memory, the console, the clock, CSR access and the context switch.
