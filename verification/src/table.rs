//! The symbol table: one entry per extracted `(name, id)` pair.

use vstd::prelude::*;

verus! {

/// Whitespace bytes, as the matching rule understands them: space, tab,
/// carriage return, vertical tab and form feed. The line feed never occurs
/// inside a line, since lines are split on it.
pub open spec fn is_space(b: u8) -> bool {
    b == 32 || b == 9 || b == 13 || b == 11 || b == 12
}

/// Decimal digit bytes `'0'..='9'`.
pub open spec fn is_digit(b: u8) -> bool {
    48 <= b && b <= 57
}

/// A well-formed symbol name: non-empty, no whitespace byte in it.
pub open spec fn wf_name(s: Seq<u8>) -> bool {
    s.len() > 0 && forall|i: int| 0 <= i < s.len() ==> !is_space(s[i])
}

/// A well-formed numeric id: non-empty, decimal digits only. The id keeps the
/// exact textual form it had in the source, leading zeros included.
pub open spec fn wf_id(s: Seq<u8>) -> bool {
    s.len() > 0 && forall|i: int| 0 <= i < s.len() ==> is_digit(s[i])
}

/// One extracted pair: the bare symbol name (the fixed prefix already
/// stripped) and its numeric id, both kept as the bytes that stood in the
/// source line.
#[derive(Debug)]
pub struct SymbolEntry {
    pub name: Vec<u8>,
    pub id: Vec<u8>,
}

impl View for SymbolEntry {
    type V = (Seq<u8>, Seq<u8>);

    open spec fn view(&self) -> (Seq<u8>, Seq<u8>) {
        (self.name@, self.id@)
    }
}

impl SymbolEntry {
    /// Every entry an extraction produces satisfies this invariant.
    pub open spec fn wf(self) -> bool {
        wf_name(self.name@) && wf_id(self.id@)
    }
}

/// The mathematical content of a table: the sequence of its `(name, id)`
/// pairs.
pub open spec fn table_view(t: Seq<SymbolEntry>) -> Seq<(Seq<u8>, Seq<u8>)> {
    t.map_values(|e: SymbolEntry| e@)
}

} // verus!
