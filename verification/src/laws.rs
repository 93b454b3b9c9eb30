//! The line structure of extraction, and the laws that rest on it: the text
//! splits into lines at each line feed, every line is parsed on its own, the
//! matching lines contribute exactly their entries in source order, and the
//! non-matching lines contribute nothing at all.

use vstd::prelude::*;

use crate::extract::{
    all_digits, define_marker, extract_from, nr_prefix, parse_line, span_nonspace, span_space,
    spec_extract,
};
use crate::table::{is_digit, is_space, wf_id, wf_name};

verus! {

/// The lines of `text`, with `cur` the bytes of the current line read so
/// far. The last line is the one the text ends in, whether or not a line
/// feed closes it; an empty text has one empty line.
pub open spec fn lines_from(text: Seq<u8>, cur: Seq<u8>) -> Seq<Seq<u8>>
    decreases text.len(),
{
    if text.len() == 0 {
        seq![cur]
    } else if text[0] == 10 {
        seq![cur] + lines_from(text.drop_first(), Seq::empty())
    } else {
        lines_from(text.drop_first(), cur.push(text[0]))
    }
}

/// The lines of a whole text, split at each line feed.
pub open spec fn spec_lines(text: Seq<u8>) -> Seq<Seq<u8>> {
    lines_from(text, Seq::empty())
}

/// The lines of `text` that match the macro pattern, in source order.
pub open spec fn matching_lines(text: Seq<u8>) -> Seq<Seq<u8>> {
    spec_lines(text).filter(|l: Seq<u8>| parse_line(l) is Some)
}

/// `filter_map` distributes over concatenation.
pub proof fn lemma_filter_map_concat<A, B>(a: Seq<A>, b: Seq<A>, f: spec_fn(A) -> Option<B>)
    ensures
        (a + b).filter_map(f) == a.filter_map(f) + b.filter_map(f),
    decreases b.len(),
{
    if b.len() == 0 {
        assert(a + b =~= a);
        assert(b.filter_map(f) == Seq::<B>::empty());
        assert(a.filter_map(f) + Seq::<B>::empty() =~= a.filter_map(f));
    } else {
        lemma_filter_map_concat(a, b.drop_last(), f);
        assert((a + b).drop_last() =~= a + b.drop_last());
        assert((a + b).last() == b.last());
        match f(b.last()) {
            Some(s) => {
                assert((a.filter_map(f) + b.drop_last().filter_map(f)) + seq![s] =~= a.filter_map(
                    f,
                ) + (b.drop_last().filter_map(f) + seq![s]));
            },
            None => {},
        }
    }
}

/// The parser's `filter_map` is the `filter` of the matching lines, each
/// mapped to its parse.
pub proof fn lemma_parse_filter_map_as_filter(s: Seq<Seq<u8>>)
    ensures
        s.filter_map(|l: Seq<u8>| parse_line(l)) == s.filter(
            |l: Seq<u8>| parse_line(l) is Some,
        ).map_values(|l: Seq<u8>| parse_line(l)->Some_0),
    decreases s.len(),
{
    reveal(Seq::filter);
    let f = |l: Seq<u8>| parse_line(l);
    let keep = |l: Seq<u8>| parse_line(l) is Some;
    let get = |l: Seq<u8>| parse_line(l)->Some_0;
    if s.len() == 0 {
        assert(s.filter(keep).map_values(get) =~= Seq::<(Seq<u8>, Seq<u8>)>::empty());
    } else {
        lemma_parse_filter_map_as_filter(s.drop_last());
        match f(s.last()) {
            Some(v) => {
                assert(s.filter(keep) == s.drop_last().filter(keep).push(s.last()));
                assert(s.drop_last().filter(keep).push(s.last()).map_values(get)
                    =~= s.drop_last().filter(keep).map_values(get).push(v));
                assert(s.filter_map(f) =~= s.drop_last().filter_map(f) + seq![v]);
                assert(s.drop_last().filter_map(f).push(v) =~= s.drop_last().filter_map(f)
                    + seq![v]);
            },
            None => {},
        }
    }
}

/// Extraction parses each line on its own: the extracted table is the
/// line-by-line `filter_map` of the parser over the text's lines.
pub proof fn lemma_extract_from_lines(text: Seq<u8>, cur: Seq<u8>)
    ensures
        extract_from(text, cur) == lines_from(text, cur).filter_map(|l: Seq<u8>| parse_line(l)),
    decreases text.len(),
{
    let f = |l: Seq<u8>| parse_line(l);
    if text.len() == 0 {
        Seq::<Seq<u8>>::lemma_filter_map_singleton(cur, f);
    } else if text[0] == 10 {
        lemma_extract_from_lines(text.drop_first(), Seq::empty());
        lemma_filter_map_concat(seq![cur], lines_from(text.drop_first(), Seq::empty()), f);
        Seq::<Seq<u8>>::lemma_filter_map_singleton(cur, f);
    } else {
        lemma_extract_from_lines(text.drop_first(), cur.push(text[0]));
    }
}

/// The extracted table is the parser's `filter_map` over the text's lines:
/// one entry per matching line, none for any other line, in line order.
pub proof fn lemma_extract_is_line_filter_map(text: Seq<u8>)
    ensures
        spec_extract(text) == spec_lines(text).filter_map(|l: Seq<u8>| parse_line(l)),
{
    lemma_extract_from_lines(text, Seq::empty());
}

/// A matching line yields exactly one entry, holding that line's name and
/// id, and the lines around it contribute independently of it: the table is
/// what the earlier lines yield, then this line's entry, then what the later
/// lines yield.
pub proof fn lemma_matching_line_yields_entry(text: Seq<u8>, i: int, name: Seq<u8>, id: Seq<u8>)
    requires
        0 <= i < spec_lines(text).len(),
        parse_line(spec_lines(text)[i]) == Some((name, id)),
    ensures
        spec_extract(text) == spec_lines(text).take(i).filter_map(|l: Seq<u8>| parse_line(l))
            + seq![(name, id)] + spec_lines(text).skip(i + 1).filter_map(
            |l: Seq<u8>| parse_line(l),
        ),
{
    let f = |l: Seq<u8>| parse_line(l);
    let ls = spec_lines(text);
    lemma_extract_is_line_filter_map(text);
    assert(ls =~= (ls.take(i) + seq![ls[i]]) + ls.skip(i + 1));
    lemma_filter_map_concat(ls.take(i) + seq![ls[i]], ls.skip(i + 1), f);
    lemma_filter_map_concat(ls.take(i), seq![ls[i]], f);
    Seq::<Seq<u8>>::lemma_filter_map_singleton(ls[i], f);
}

/// A non-matching line contributes no entry and does not affect what the
/// lines around it yield: the table is exactly what the other lines yield.
pub proof fn lemma_nonmatching_line_dropped(text: Seq<u8>, i: int)
    requires
        0 <= i < spec_lines(text).len(),
        parse_line(spec_lines(text)[i]) is None,
    ensures
        spec_extract(text) == spec_lines(text).remove(i).filter_map(|l: Seq<u8>| parse_line(l)),
{
    let f = |l: Seq<u8>| parse_line(l);
    let ls = spec_lines(text);
    lemma_extract_is_line_filter_map(text);
    assert(ls =~= (ls.take(i) + seq![ls[i]]) + ls.skip(i + 1));
    lemma_filter_map_concat(ls.take(i) + seq![ls[i]], ls.skip(i + 1), f);
    lemma_filter_map_concat(ls.take(i), seq![ls[i]], f);
    Seq::<Seq<u8>>::lemma_filter_map_singleton(ls[i], f);
    assert(ls.remove(i) =~= ls.take(i) + ls.skip(i + 1));
    lemma_filter_map_concat(ls.take(i), ls.skip(i + 1), f);
    assert(ls.take(i).filter_map(f) + Seq::<(Seq<u8>, Seq<u8>)>::empty() + ls.skip(i
        + 1).filter_map(f) =~= ls.take(i).filter_map(f) + ls.skip(i + 1).filter_map(f));
}

/// Extraction preserves source order: the `k`-th entry of the table is the
/// parse of the `k`-th matching line of the text.
pub proof fn lemma_extract_order_preserving(text: Seq<u8>)
    ensures
        spec_extract(text).len() == matching_lines(text).len(),
        forall|k: int| 0 <= k < spec_extract(text).len() ==> spec_extract(text)[k] == parse_line(
            #[trigger] matching_lines(text)[k],
        )->Some_0,
{
    lemma_extract_is_line_filter_map(text);
    lemma_parse_filter_map_as_filter(spec_lines(text));
}

/// A whitespace scan stays within the line, passes whitespace only, and
/// stops before a non-whitespace byte.
proof fn lemma_span_space_props(line: Seq<u8>, i: int)
    requires
        0 <= i <= line.len(),
    ensures
        i <= span_space(line, i) <= line.len(),
        forall|k: int| i <= k < span_space(line, i) ==> is_space(line[k]),
        span_space(line, i) < line.len() ==> !is_space(line[span_space(line, i)]),
    decreases line.len() - i,
{
    if i < line.len() && is_space(line[i]) {
        lemma_span_space_props(line, i + 1);
    }
}

/// A name scan stays within the line, passes non-whitespace only, and stops
/// before a whitespace byte.
proof fn lemma_span_nonspace_props(line: Seq<u8>, i: int)
    requires
        0 <= i <= line.len(),
    ensures
        i <= span_nonspace(line, i) <= line.len(),
        forall|k: int| i <= k < span_nonspace(line, i) ==> !is_space(line[k]),
        span_nonspace(line, i) < line.len() ==> is_space(line[span_nonspace(line, i)]),
    decreases line.len() - i,
{
    if i < line.len() && !is_space(line[i]) {
        lemma_span_nonspace_props(line, i + 1);
    }
}

/// A whitespace scan stops exactly at the first non-whitespace position.
proof fn lemma_span_space_exact(line: Seq<u8>, i: int, j: int)
    requires
        0 <= i <= j <= line.len(),
        forall|k: int| i <= k < j ==> is_space(line[k]),
        j < line.len() ==> !is_space(line[j]),
    ensures
        span_space(line, i) == j,
    decreases j - i,
{
    if i < j {
        lemma_span_space_exact(line, i + 1, j);
    }
}

/// A name scan stops exactly at the first whitespace position.
proof fn lemma_span_nonspace_exact(line: Seq<u8>, i: int, j: int)
    requires
        0 <= i <= j <= line.len(),
        forall|k: int| i <= k < j ==> !is_space(line[k]),
        j < line.len() ==> is_space(line[j]),
    ensures
        span_nonspace(line, i) == j,
    decreases j - i,
{
    if i < j {
        lemma_span_nonspace_exact(line, i + 1, j);
    }
}

/// Every well-formed line of the shape `#define` WS+ `__NR_` name WS+ digits
/// parses to exactly that name and that digit string, for any choice of the
/// two whitespace runs.
pub proof fn lemma_parse_well_formed_line(w1: Seq<u8>, name: Seq<u8>, w2: Seq<u8>, id: Seq<u8>)
    requires
        w1.len() > 0,
        forall|k: int| 0 <= k < w1.len() ==> is_space(w1[k]),
        wf_name(name),
        w2.len() > 0,
        forall|k: int| 0 <= k < w2.len() ==> is_space(w2[k]),
        wf_id(id),
    ensures
        parse_line(define_marker() + w1 + nr_prefix() + name + w2 + id) == Some((name, id)),
{
    let line = define_marker() + w1 + nr_prefix() + name + w2 + id;
    let a = 7 + w1.len() as int;
    let b = a + 5 + name.len() as int;
    let c = b + w2.len() as int;
    let n = line.len() as int;
    assert(n == c + id.len());
    assert(forall|k: int| 0 <= k < 7 ==> line[k] == define_marker()[k]);
    assert(forall|k: int| 0 <= k < w1.len() ==> line[7 + k] == w1[k]);
    assert(forall|k: int| 0 <= k < 5 ==> line[a + k] == nr_prefix()[k]);
    assert(forall|k: int| 0 <= k < name.len() ==> line[a + 5 + k] == name[k]);
    assert(forall|k: int| 0 <= k < w2.len() ==> line[b + k] == w2[k]);
    assert(forall|k: int| 0 <= k < id.len() ==> line[c + k] == id[k]);
    assert(line.subrange(0, 7) =~= define_marker());
    assert(!is_space(line[a])) by {
        assert(line[a] == nr_prefix()[0]);
    }
    lemma_span_space_exact(line, 7, a);
    assert(line.subrange(a, a + 5) =~= nr_prefix());
    assert(is_space(line[b])) by {
        assert(line[b] == w2[0]);
    }
    lemma_span_nonspace_exact(line, a + 5, b);
    assert(!is_space(line[c])) by {
        assert(line[c] == id[0]);
        assert(is_digit(id[0]));
    }
    lemma_span_space_exact(line, b, c);
    assert(line.subrange(a + 5, b) =~= name);
    assert(line.subrange(c, n) =~= id);
    assert(all_digits(line.subrange(c, n)));
}

/// One way of decomposing a line into the well-formed shape: the marker, a
/// whitespace run, the prefix, the name, a whitespace run and the id.
pub open spec fn line_decomposition(
    line: Seq<u8>,
    name: Seq<u8>,
    id: Seq<u8>,
    w1: Seq<u8>,
    w2: Seq<u8>,
) -> bool {
    &&& w1.len() > 0
    &&& (forall|k: int| 0 <= k < w1.len() ==> is_space(w1[k]))
    &&& w2.len() > 0
    &&& (forall|k: int| 0 <= k < w2.len() ==> is_space(w2[k]))
    &&& line == define_marker() + w1 + nr_prefix() + name + w2 + id
}

/// Only lines of the well-formed shape parse: a successful parse means the
/// line splits into the marker, whitespace, the prefix, the extracted name,
/// whitespace and the extracted id — and the name and id are well formed.
/// Together with [`lemma_parse_well_formed_line`] this pins the matching
/// rule down in both directions.
pub proof fn lemma_parse_line_inversion(line: Seq<u8>, name: Seq<u8>, id: Seq<u8>)
    requires
        parse_line(line) == Some((name, id)),
    ensures
        wf_name(name),
        wf_id(id),
        exists|w1: Seq<u8>, w2: Seq<u8>| #[trigger] line_decomposition(line, name, id, w1, w2),
{
    let n = line.len() as int;
    let a = span_space(line, 7);
    lemma_span_space_props(line, 7);
    let b = span_nonspace(line, a + 5);
    lemma_span_nonspace_props(line, a + 5);
    let c = span_space(line, b);
    lemma_span_space_props(line, b);
    assert(name == line.subrange(a + 5, b));
    assert(id == line.subrange(c, n));
    assert(wf_name(name)) by {
        assert(forall|k: int| 0 <= k < name.len() ==> #[trigger] name[k] == line[a + 5 + k]);
    }
    assert(wf_id(id)) by {
        assert(all_digits(line.subrange(c, n)));
    }
    let w1 = line.subrange(7, a);
    let w2 = line.subrange(b, c);
    assert(line =~= define_marker() + w1 + nr_prefix() + name + w2 + id) by {
        assert(line.subrange(0, 7) == define_marker());
        assert(line.subrange(a, a + 5) == nr_prefix());
    }
    assert(line_decomposition(line, name, id, w1, w2));
}

} // verus!
