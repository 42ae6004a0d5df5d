# about_sys

`about` prints the essentials of the machine it runs on: host name, operating
system and distribution, architecture, byte order, processor cores and speed,
graphics adapters, memory, disk usage and network addresses.

- `src/` is the library, verified with Verus: it reads the texts that the system
  provides (`/etc/os-release`, `/proc/meminfo`, `build.prop`, version plists,
  tool output, ...), decides what they mean, and lays out the report. The
  contracts state exactly what the parsing, deciding and formatting functions
  return. Of `check_jailbreak` and `detect_termux`, whose answers rest on the
  file system, the contracts state nothing: the paths they look up are fixed by
  `jailbreak_path` and `termux_path`, and the decision from the looked-up answers
  by `jailbreak_from_marks`, each with an exact contract.
- `app/main.rs` is the program around it: it reads the files, calls the
  operating system (through `libc` and the Windows API), and prints the lines
  that the library returns.
- `tests/` runs the library on sample texts.
