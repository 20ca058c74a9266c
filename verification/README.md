# llvm-stackmap-parser

Parses the LLVM Stack Map section (`.llvm_stackmaps`) of an object file and
generates `libsafepoints.a` and `safepoints.h`, which list the safepoints of
the program (with the stack locations of their GC roots) and the global GC
roots placed in a `.gcroots` section, for a garbage-collection runtime.

- `src/` is the library, verified with Verus: the byte format of the Stack
  Map as specification functions, the parser proved against them, the
  lookups of sections, relocations and symbols in an ELF file (decoded by
  `goblin`), and the text of the generated C source and header.
- `app/` is the command line tool: it reads the object file, writes the
  generated files and runs `gcc` and `ar`.
- `tests/` holds the tests of the library.

Usage: `llvm-stackmap-parser <object file>`.
