//! Parser for the LLVM Stack Map section (`.llvm_stackmaps`) of an object
//! file, and generator of the C source that lists its safepoints for a
//! garbage-collection runtime.
//!
//! - `stackmap_format`: the byte format, as specification functions.
//! - `stackmap`: the parsed types and the parser.
//! - `stackmap_laws`: properties of every parse.
//! - `field_laws`: each parsed field as the number its bytes spell out.
//! - `elf`: sections, relocations and symbols of an ELF object file.
//! - `text`: decimal numbers and symbol names as text.
//! - `safepoint_gen`: the generated C source and header.
//! - `safepoint_laws`: properties of the generated source.

pub mod elf;
pub mod field_laws;
pub mod safepoint_gen;
pub mod safepoint_laws;
pub mod stackmap;
pub mod stackmap_format;
pub mod stackmap_laws;
pub mod text;
