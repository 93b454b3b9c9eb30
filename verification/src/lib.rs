//! Extraction of `#define __NR_<name> <id>` syscall tables from header text,
//! and rendering of the extracted table as a Rust enumeration source file.
//!
//! The library works on bytes: `extract` scans the text of one header file and
//! collects the `(name, id)` pairs of every line that matches the macro
//! pattern, in source order; `render` turns such a table into the full text of
//! a generated enumeration, one member per entry.

pub mod extract;
pub mod laws;
pub mod render;
pub mod table;

use vstd::prelude::*;

verus! {

/// The whole pipeline on one file's text: extract the symbol table and
/// render it as the full text of the generated source file.
pub fn generate(text: &[u8]) -> (out: Vec<u8>)
    ensures
        out@ == render::spec_render(extract::spec_extract(text@)),
{
    let table = extract::extract(text);
    render::render(&table)
}

} // verus!
