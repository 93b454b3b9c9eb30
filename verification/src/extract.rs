//! Extraction: scan the text of one header file, line by line, and collect
//! one `SymbolEntry` per line that matches the fixed macro pattern
//! `#define __NR_<name> <id>`, anchored at both ends of the line.
//!
//! The matching rule, per line: the literal marker `#define`, one or more
//! whitespace bytes, the literal prefix `__NR_`, a non-empty name of
//! non-whitespace bytes, one or more whitespace bytes, and a non-empty run of
//! decimal digits reaching the end of the line. Any other line contributes
//! nothing and is silently skipped.

use vstd::prelude::*;

use crate::table::{is_digit, is_space, table_view, SymbolEntry};

verus! {

/// The bytes of the literal macro marker `#define`.
pub open spec fn define_marker() -> Seq<u8> {
    seq![35u8, 100u8, 101u8, 102u8, 105u8, 110u8, 101u8]
}

/// The bytes of the literal name prefix `__NR_`, stripped from each
/// extracted name.
pub open spec fn nr_prefix() -> Seq<u8> {
    seq![95u8, 95u8, 78u8, 82u8, 95u8]
}

/// The first position at or after `i` holding a byte that is not whitespace,
/// or the end of the line.
pub open spec fn span_space(line: Seq<u8>, i: int) -> int
    decreases line.len() - i,
{
    if i < line.len() && 0 <= i && is_space(line[i]) {
        span_space(line, i + 1)
    } else {
        i
    }
}

/// The first position at or after `i` holding a whitespace byte, or the end
/// of the line.
pub open spec fn span_nonspace(line: Seq<u8>, i: int) -> int
    decreases line.len() - i,
{
    if i < line.len() && 0 <= i && !is_space(line[i]) {
        span_nonspace(line, i + 1)
    } else {
        i
    }
}

/// Every byte of `s` is a decimal digit.
pub open spec fn all_digits(s: Seq<u8>) -> bool {
    forall|i: int| 0 <= i < s.len() ==> is_digit(s[i])
}

/// Parse one line against the macro pattern. `Some((name, id))` exactly when
/// the whole line has the shape `#define` WS+ `__NR_` name WS+ digits, with
/// the name and the digit run non-empty; the returned name has the prefix
/// stripped and the id keeps its textual form.
pub open spec fn parse_line(line: Seq<u8>) -> Option<(Seq<u8>, Seq<u8>)> {
    if line.len() < 7 || line.subrange(0, 7) != define_marker() {
        None
    } else {
        let a = span_space(line, 7);
        if a <= 7 || a + 5 > line.len() || line.subrange(a, a + 5) != nr_prefix() {
            None
        } else {
            let b = span_nonspace(line, a + 5);
            if b <= a + 5 {
                None
            } else {
                let c = span_space(line, b);
                if c <= b || c >= line.len() || !all_digits(line.subrange(c, line.len() as int)) {
                    None
                } else {
                    Some((line.subrange(a + 5, b), line.subrange(c, line.len() as int)))
                }
            }
        }
    }
}

/// The entries one line contributes: one for a matching line, none otherwise.
pub open spec fn line_entries(line: Seq<u8>) -> Seq<(Seq<u8>, Seq<u8>)> {
    match parse_line(line) {
        Some(e) => seq![e],
        None => Seq::empty(),
    }
}

/// The entries of `text`, with `cur` the bytes of the current line read so
/// far: lines end at each line feed, and the text's last line ends with the
/// text.
pub open spec fn extract_from(text: Seq<u8>, cur: Seq<u8>) -> Seq<(Seq<u8>, Seq<u8>)>
    decreases text.len(),
{
    if text.len() == 0 {
        line_entries(cur)
    } else if text[0] == 10 {
        line_entries(cur) + extract_from(text.drop_first(), Seq::empty())
    } else {
        extract_from(text.drop_first(), cur.push(text[0]))
    }
}

/// The table extracted from a whole text: the entries of its matching lines,
/// in source order.
pub open spec fn spec_extract(text: Seq<u8>) -> Seq<(Seq<u8>, Seq<u8>)> {
    extract_from(text, Seq::empty())
}

fn byte_is_space(b: u8) -> (r: bool)
    ensures
        r == is_space(b),
{
    b == 32 || b == 9 || b == 13 || b == 11 || b == 12
}

fn byte_is_digit(b: u8) -> (r: bool)
    ensures
        r == is_digit(b),
{
    48 <= b && b <= 57
}

/// Parse one line of the input against the macro pattern; the executable
/// counterpart of [`parse_line`].
#[verifier::loop_isolation(false)]
pub fn parse_line_bytes(line: &Vec<u8>) -> (r: Option<SymbolEntry>)
    ensures
        match r {
            Some(e) => parse_line(line@) == Some(e@) && e.wf(),
            None => parse_line(line@) is None,
        },
{
    let n = line.len();
    if n < 7 {
        return None;
    }
    if line[0] != 35 || line[1] != 100 || line[2] != 101 || line[3] != 102 || line[4] != 105
        || line[5] != 110 || line[6] != 101 {
        proof {
            assert(line@.subrange(0, 7) != define_marker()) by {
                if line@.subrange(0, 7) == define_marker() {
                    assert(forall|k: int| 0 <= k < 7 ==> line@.subrange(0, 7)[k] == line@[k]);
                }
            }
        }
        return None;
    }
    proof {
        assert(line@.subrange(0, 7) =~= define_marker());
    }
    // Skip the whitespace after the marker.
    let mut a: usize = 7;
    while a < n && byte_is_space(line[a])
        invariant
            7 <= a <= n,
            n == line@.len(),
            span_space(line@, 7) == span_space(line@, a as int),
        decreases n - a,
    {
        a = a + 1;
    }
    assert(span_space(line@, 7) == a as int);
    if a == 7 {
        return None;
    }
    if n - a < 5 {
        return None;
    }
    if line[a] != 95 || line[a + 1] != 95 || line[a + 2] != 78 || line[a + 3] != 82
        || line[a + 4] != 95 {
        proof {
            assert(line@.subrange(a as int, a as int + 5) != nr_prefix()) by {
                if line@.subrange(a as int, a as int + 5) == nr_prefix() {
                    assert(forall|k: int| 0 <= k < 5 ==> #[trigger] line@.subrange(
                        a as int,
                        a as int + 5,
                    )[k] == line@[a as int + k]);
                }
            }
        }
        return None;
    }
    proof {
        assert(line@.subrange(a as int, a as int + 5) =~= nr_prefix());
    }
    // The name: everything up to the next whitespace byte.
    let mut b: usize = a + 5;
    while b < n && !byte_is_space(line[b])
        invariant
            a + 5 <= b <= n,
            n == line@.len(),
            span_nonspace(line@, a as int + 5) == span_nonspace(line@, b as int),
            forall|t: int| a + 5 <= t < b ==> !is_space(line@[t]),
        decreases n - b,
    {
        b = b + 1;
    }
    assert(span_nonspace(line@, a as int + 5) == b as int);
    if b == a + 5 {
        return None;
    }
    // The whitespace between the name and the id.
    let mut c: usize = b;
    while c < n && byte_is_space(line[c])
        invariant
            b <= c <= n,
            n == line@.len(),
            span_space(line@, b as int) == span_space(line@, c as int),
        decreases n - c,
    {
        c = c + 1;
    }
    assert(span_space(line@, b as int) == c as int);
    if c == b || c == n {
        return None;
    }
    // The id: decimal digits reaching the end of the line.
    let mut k: usize = c;
    while k < n
        invariant
            c <= k <= n,
            n == line@.len(),
            forall|t: int| c <= t < k ==> is_digit(line@[t]),
        decreases n - k,
    {
        if !byte_is_digit(line[k]) {
            proof {
                assert(!all_digits(line@.subrange(c as int, n as int))) by {
                    assert(line@.subrange(c as int, n as int)[k - c] == line@[k as int]);
                }
            }
            return None;
        }
        k = k + 1;
    }
    assert(all_digits(line@.subrange(c as int, n as int))) by {
        assert(forall|i: int| 0 <= i < n - c ==> line@.subrange(c as int, n as int)[i]
            == line@[c + i]);
    }
    let name = vstd::slice::slice_to_vec(vstd::slice::slice_subrange(line.as_slice(), a + 5, b));
    let id = vstd::slice::slice_to_vec(vstd::slice::slice_subrange(line.as_slice(), c, n));
    let e = SymbolEntry { name, id };
    proof {
        assert(forall|i: int| 0 <= i < e.name@.len() ==> !is_space(#[trigger] e.name@[i]));
        assert(forall|i: int| 0 <= i < e.id@.len() ==> is_digit(#[trigger] e.id@[i]));
    }
    Some(e)
}

/// Extract the symbol table of a whole text: one entry per line matching the
/// macro pattern, in source order. Never fails; a text with no matching line
/// yields the empty table.
pub fn extract(text: &[u8]) -> (table: Vec<SymbolEntry>)
    ensures
        table_view(table@) == spec_extract(text@),
        forall|i: int| 0 <= i < table@.len() ==> (#[trigger] table@[i]).wf(),
{
    let n = text.len();
    let mut table: Vec<SymbolEntry> = Vec::new();
    let mut cur: Vec<u8> = Vec::new();
    let mut j: usize = 0;
    proof {
        assert(text@.skip(0) =~= text@);
        assert(Seq::<(Seq<u8>, Seq<u8>)>::empty() + extract_from(text@, Seq::empty())
            =~= extract_from(text@, Seq::empty()));
        assert(table_view(table@) =~= Seq::<(Seq<u8>, Seq<u8>)>::empty());
    }
    while j < n
        invariant
            j <= n,
            n == text@.len(),
            table_view(table@) + extract_from(text@.skip(j as int), cur@) == spec_extract(text@),
            forall|i: int| 0 <= i < table@.len() ==> (#[trigger] table@[i]).wf(),
        decreases n - j,
    {
        let ghost rest = text@.skip(j as int);
        proof {
            assert(rest[0] == text@[j as int]);
            assert(rest.drop_first() =~= text@.skip(j as int + 1));
        }
        let b = text[j];
        if b == 10 {
            match parse_line_bytes(&cur) {
                Some(e) => {
                    proof {
                        assert(table_view(table@.push(e)) =~= table_view(table@) + seq![e@]);
                        assert((table_view(table@) + seq![e@]) + extract_from(
                            rest.drop_first(),
                            Seq::empty(),
                        ) =~= table_view(table@) + (seq![e@] + extract_from(
                            rest.drop_first(),
                            Seq::empty(),
                        )));
                    }
                    table.push(e);
                },
                None => {
                    proof {
                        assert(table_view(table@) + (Seq::<(Seq<u8>, Seq<u8>)>::empty()
                            + extract_from(rest.drop_first(), Seq::empty())) =~= table_view(table@)
                            + extract_from(rest.drop_first(), Seq::empty()));
                    }
                },
            }
            cur.clear();
        } else {
            cur.push(b);
        }
        j = j + 1;
    }
    proof {
        assert(text@.skip(n as int) =~= Seq::<u8>::empty());
    }
    match parse_line_bytes(&cur) {
        Some(e) => {
            proof {
                assert(table_view(table@.push(e)) =~= table_view(table@) + seq![e@]);
            }
            table.push(e);
        },
        None => {
            proof {
                assert(table_view(table@) + Seq::<(Seq<u8>, Seq<u8>)>::empty()
                    =~= table_view(table@));
            }
        },
    }
    table
}

} // verus!
