# kernel library

The logic of a small x86 teaching kernel, written in Verus and verified:

- `bitmap`, `mem_pool`, `memory/`: bitmaps, page pools, page tables, the
  block allocator and the kernel's memory manager (`sys_malloc`, `sys_free`,
  page allocation and release);
- `pid_allocator`, `queue`, `blocking_queue`, `sync`, `mutex`, `scheduler`:
  process ids, ring buffers, semaphores and locks, the clock tick decision;
- `scancode`, `keyboard`, `printer`, `console`: keyboard decoding and what
  the console prints for a key;
- `device/`: ATA register encoding, the command sequence of a sector
  transfer (one step per event, the port work left to the caller),
  partition tables, identify answers and formatting every partition;
- `filesystem/`: super block layout, inodes, directories, files, the open
  file and descriptor tables, paths and the working directory;
- `pipe/`: pipes between tasks over blocking queues.

`app/main.rs` runs the library on a hosted machine: it reads a disk image,
finds its partitions, formats them and copies the user programs from raw
sectors into the first file system. The tests are under `tests/`.
