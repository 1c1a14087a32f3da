# memory_cleanr

A Windows memory cleaner with a clipboard history, split in two:

- `src/` — the verified library (Verus). It holds the decisions and data
  formats: which memory areas are purged and in which order, the kernel
  request structures, the Mount Manager reply parser, process-name rules and
  the exclusion picker, the Run-key and `DisabledHotkeys` registry values,
  the singleton and polling state machines, clipboard entry processing
  (size limit, preview, BLAKE3 content hash), the clipboard panel's state and
  drag ordering, and the user-facing messages. Every public function carries a
  `requires`/`ensures` contract; the laws that span several functions are
  public proof functions.
- `app/` — plain Rust around it: the Win32 calls (snapshots, mutexes,
  registry, `DeviceIoControl`, `NtSetSystemInformation`, window styles), the
  log file, and serde copies of the clipboard types.
- `tests/` — tests of the library on concrete values.

The only outside call the library makes is `blake3::hash`, behind a trusted
wrapper whose result is named `blake3_digest`.
