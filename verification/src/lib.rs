//! A text-mode BIOS, a display list for a graphical terminal, generational
//! object storage for an entity-component system, and a small register
//! machine.
pub mod interpreter;
pub mod interpreter_laws;
pub mod managed;
pub mod bios;
pub mod bios_laws;
pub mod io;
pub mod io_laws;
