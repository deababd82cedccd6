//! Turns the interface of a hardware module, as it stands in the syntax
//! tree of a SystemVerilog source file, into a black-box declaration for
//! Chisel.
//!
//! - [`syntax`]: the syntax tree that the extractor walks.
//! - [`sv_parse`]: the extractor, from a syntax tree to a symbol table.
//! - [`literal`]: sized numeric literals and their values.
//! - [`eval`]: the value of an expression over the macro table, and the
//!   width of a packed range.
//! - [`hdl_info`]: the symbol table of macros, modules and ports.
//! - [`converter`]: the code generator, from a module to source text.
//! - [`text`]: helpers on characters and lines.

pub mod converter;
pub mod eval;
pub mod hdl_info;
pub mod literal;
pub mod sv_parse;
pub mod syntax;
pub mod text;
