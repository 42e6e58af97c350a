//! Instantiation, linking and runtime memory management for compiled
//! WebAssembly modules, over plain values.
pub mod bytes;
pub mod errors;
pub mod imports;
pub mod indexes;
pub mod init;
pub mod instance;
pub mod memory;
pub mod reloc;
pub mod section;
pub mod shared;
