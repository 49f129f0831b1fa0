# ruscv-sim

A RISC-V RV64 instruction-set simulator whose library is verified with Verus.

- `src/` is the verified library: instruction decoding (32-bit and
  compressed), the integer, multiply, atomic, compressed and
  double-precision compare instructions, CSRs, flat memory with per-byte
  versions for LR/SC, the Sv39 page-table walk, TLB and translator, an
  ELF64 loader, the system bus (RAM, a 16550-style UART at `0x1000_0000`,
  the HTIF `tohost` register at `0x4000_8000`), the run loops with
  `tohost`/HTIF exit detection, Spike-style commit records, and the text
  of results and errors.
- `tests/` holds the tests of the library.
- `app/` is the command-line program `ruscv-sim run <ELF>`: it reads the
  file, runs it on the bus, prints the UART output and the result, and
  writes the commit log when `--log-commits <FILE>` is given.  Its
  single-precision arithmetic helpers stand there too, since the verified
  library takes no floating point.
