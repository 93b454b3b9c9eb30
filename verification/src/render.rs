//! Rendering: turn an extracted symbol table into the full text of a
//! generated Rust source file holding one enumeration, `Syscall`, with one
//! member per table entry, in table order. Each member is preceded by a doc
//! comment linking to the manual page of its syscall.
//!
//! The output is a pure function of the table: the whole text is pinned down,
//! byte for byte, by the specification functions of this module.

use vstd::prelude::*;

use crate::table::{table_view, SymbolEntry};

verus! {

/// `"// AUTOGENERATED by tools/gen-syscall-enum\n"`
pub open spec fn header_comment() -> Seq<u8> {
    seq![47u8, 47u8, 32u8, 65u8, 85u8, 84u8, 79u8, 71u8, 69u8, 78u8, 69u8, 82u8, 65u8, 84u8,
        69u8, 68u8, 32u8, 98u8, 121u8, 32u8, 116u8, 111u8, 111u8, 108u8, 115u8, 47u8, 103u8,
        101u8, 110u8, 45u8, 115u8, 121u8, 115u8, 99u8, 97u8, 108u8, 108u8, 45u8, 101u8, 110u8,
        117u8, 109u8, 10u8]
}

/// `"\n"`
pub open spec fn blank_line() -> Seq<u8> {
    seq![10u8]
}

/// `"/// Linux syscalls.\n"`
pub open spec fn type_doc() -> Seq<u8> {
    seq![47u8, 47u8, 47u8, 32u8, 76u8, 105u8, 110u8, 117u8, 120u8, 32u8, 115u8, 121u8, 115u8,
        99u8, 97u8, 108u8, 108u8, 115u8, 46u8, 10u8]
}

/// `"#[allow(non_camel_case_types)]\n"`
pub open spec fn allow_attr() -> Seq<u8> {
    seq![35u8, 91u8, 97u8, 108u8, 108u8, 111u8, 119u8, 40u8, 110u8, 111u8, 110u8, 95u8, 99u8,
        97u8, 109u8, 101u8, 108u8, 95u8, 99u8, 97u8, 115u8, 101u8, 95u8, 116u8, 121u8, 112u8,
        101u8, 115u8, 41u8, 93u8, 10u8]
}

/// `"pub enum Syscall {\n"`
pub open spec fn enum_open() -> Seq<u8> {
    seq![112u8, 117u8, 98u8, 32u8, 101u8, 110u8, 117u8, 109u8, 32u8, 83u8, 121u8, 115u8, 99u8,
        97u8, 108u8, 108u8, 32u8, 123u8, 10u8]
}

/// `"    /// <https://man7.org/linux/man-pages/man2/"`
pub open spec fn doc_pre() -> Seq<u8> {
    seq![32u8, 32u8, 32u8, 32u8, 47u8, 47u8, 47u8, 32u8, 60u8, 104u8, 116u8, 116u8, 112u8,
        115u8, 58u8, 47u8, 47u8, 109u8, 97u8, 110u8, 55u8, 46u8, 111u8, 114u8, 103u8, 47u8,
        108u8, 105u8, 110u8, 117u8, 120u8, 47u8, 109u8, 97u8, 110u8, 45u8, 112u8, 97u8, 103u8,
        101u8, 115u8, 47u8, 109u8, 97u8, 110u8, 50u8, 47u8]
}

/// `".2.html>\n"`
pub open spec fn doc_post() -> Seq<u8> {
    seq![46u8, 50u8, 46u8, 104u8, 116u8, 109u8, 108u8, 62u8, 10u8]
}

/// `"    "`
pub open spec fn member_pre() -> Seq<u8> {
    seq![32u8, 32u8, 32u8, 32u8]
}

/// `" = "`
pub open spec fn member_eq() -> Seq<u8> {
    seq![32u8, 61u8, 32u8]
}

/// `",\n"`
pub open spec fn member_close() -> Seq<u8> {
    seq![44u8, 10u8]
}

/// `"}\n"`
pub open spec fn enum_close() -> Seq<u8> {
    seq![125u8, 10u8]
}

/// Everything above the first member: the autogeneration marker, a blank
/// line, the type's doc comment, the lint attribute and the opening of the
/// enumeration.
pub open spec fn preamble() -> Seq<u8> {
    header_comment() + blank_line() + type_doc() + allow_attr() + enum_open()
}

/// The doc comment of one member: the manual-page link with the entry's name
/// substituted into the fixed URL template.
pub open spec fn doc_line(name: Seq<u8>) -> Seq<u8> {
    doc_pre() + name + doc_post()
}

/// The declaration of one member: the entry's name bound to its id.
pub open spec fn member_line(name: Seq<u8>, id: Seq<u8>) -> Seq<u8> {
    member_pre() + name + member_eq() + id + member_close()
}

/// One member's whole text: its doc comment immediately followed by its
/// declaration.
pub open spec fn member_block(e: (Seq<u8>, Seq<u8>)) -> Seq<u8> {
    doc_line(e.0) + member_line(e.0, e.1)
}

/// The members section: the blocks of all entries, in table order.
pub open spec fn spec_members(t: Seq<(Seq<u8>, Seq<u8>)>) -> Seq<u8>
    decreases t.len(),
{
    if t.len() == 0 {
        Seq::empty()
    } else {
        member_block(t[0]) + spec_members(t.drop_first())
    }
}

/// The full rendered text of a table.
pub open spec fn spec_render(t: Seq<(Seq<u8>, Seq<u8>)>) -> Seq<u8> {
    preamble() + spec_members(t) + enum_close()
}

/// Appending an entry to the table appends exactly that entry's block to the
/// members section.
pub proof fn lemma_members_push(t: Seq<(Seq<u8>, Seq<u8>)>, e: (Seq<u8>, Seq<u8>))
    ensures
        spec_members(t.push(e)) == spec_members(t) + member_block(e),
    decreases t.len(),
{
    if t.len() == 0 {
        assert(t.push(e)[0] == e);
        assert(t.push(e).drop_first() =~= Seq::<(Seq<u8>, Seq<u8>)>::empty());
        assert(spec_members(Seq::<(Seq<u8>, Seq<u8>)>::empty()) == Seq::<u8>::empty());
        assert(spec_members(t.push(e)) =~= member_block(e));
        assert(spec_members(t) + member_block(e) =~= member_block(e));
    } else {
        assert(t.push(e).drop_first() =~= t.drop_first().push(e));
        lemma_members_push(t.drop_first(), e);
        assert(t.push(e)[0] == t[0]);
        assert(member_block(t[0]) + (spec_members(t.drop_first()) + member_block(e)) =~= (
        member_block(t[0]) + spec_members(t.drop_first())) + member_block(e));
    }
}

#[verifier::rlimit(60)]
/// The members section is the concatenation of one block per entry, in
/// table order: each block is the entry's doc-link line followed by its
/// member declaration. So the rendered text holds exactly one member, with
/// its own doc comment, for every entry of the table.
pub proof fn lemma_members_flat_map(t: Seq<(Seq<u8>, Seq<u8>)>)
    ensures
        spec_members(t) == t.flat_map(|e: (Seq<u8>, Seq<u8>)| member_block(e)),
    decreases t.len(),
{
    let f = |e: (Seq<u8>, Seq<u8>)| member_block(e);
    if t.len() == 0 {
        assert(t.flat_map(f) =~= Seq::<u8>::empty());
    } else {
        lemma_members_flat_map(t.drop_last());
        t.drop_last().lemma_flat_map_push(f, t.last());
        assert(t.drop_last().push(t.last()) =~= t);
        lemma_members_push(t.drop_last(), t.last());
    }
}

/// The shape of the whole rendered text: the fixed preamble, then one block
/// per entry in table order, then the closing of the enumeration.
pub proof fn lemma_render_shape(t: Seq<(Seq<u8>, Seq<u8>)>)
    ensures
        spec_render(t) == preamble() + t.flat_map(|e: (Seq<u8>, Seq<u8>)| member_block(e))
            + enum_close(),
{
    lemma_members_flat_map(t);
}

/// The empty table renders a syntactically complete, empty enumeration:
/// exactly the preamble followed by the closing brace, with no member.
pub proof fn lemma_render_empty()
    ensures
        spec_render(Seq::<(Seq<u8>, Seq<u8>)>::empty()) == preamble() + enum_close(),
{
    assert(spec_members(Seq::<(Seq<u8>, Seq<u8>)>::empty()) == Seq::<u8>::empty());
    assert(preamble() + Seq::<u8>::empty() + enum_close() =~= preamble() + enum_close());
}

fn push_header_comment(out: &mut Vec<u8>)
    ensures
        final(out)@ == old(out)@ + header_comment(),
{
    out.push(47); out.push(47); out.push(32); out.push(65); out.push(85); out.push(84);
    out.push(79); out.push(71); out.push(69); out.push(78); out.push(69); out.push(82);
    out.push(65); out.push(84); out.push(69); out.push(68); out.push(32); out.push(98);
    out.push(121); out.push(32); out.push(116); out.push(111); out.push(111); out.push(108);
    out.push(115); out.push(47); out.push(103); out.push(101); out.push(110); out.push(45);
    out.push(115); out.push(121); out.push(115); out.push(99); out.push(97); out.push(108);
    out.push(108); out.push(45); out.push(101); out.push(110); out.push(117); out.push(109);
    out.push(10);
    assert(out@ =~= old(out)@ + header_comment());
}

#[verifier::rlimit(60)]
fn push_type_doc(out: &mut Vec<u8>)
    ensures
        final(out)@ == old(out)@ + blank_line() + type_doc(),
{
    out.push(10);
    out.push(47); out.push(47); out.push(47); out.push(32); out.push(76); out.push(105);
    out.push(110); out.push(117); out.push(120); out.push(32); out.push(115); out.push(121);
    out.push(115); out.push(99); out.push(97); out.push(108); out.push(108); out.push(115);
    out.push(46); out.push(10);
    assert(out@ =~= old(out)@ + blank_line() + type_doc());
}

#[verifier::rlimit(60)]
fn push_allow_attr(out: &mut Vec<u8>)
    ensures
        final(out)@ == old(out)@ + allow_attr(),
{
    out.push(35); out.push(91); out.push(97); out.push(108); out.push(108); out.push(111);
    out.push(119); out.push(40); out.push(110); out.push(111); out.push(110); out.push(95);
    out.push(99); out.push(97); out.push(109); out.push(101); out.push(108); out.push(95);
    out.push(99); out.push(97); out.push(115); out.push(101); out.push(95); out.push(116);
    out.push(121); out.push(112); out.push(101); out.push(115); out.push(41); out.push(93);
    out.push(10);
    assert(out@ =~= old(out)@ + allow_attr());
}

#[verifier::rlimit(60)]
fn push_enum_open(out: &mut Vec<u8>)
    ensures
        final(out)@ == old(out)@ + enum_open(),
{
    out.push(112); out.push(117); out.push(98); out.push(32); out.push(101); out.push(110);
    out.push(117); out.push(109); out.push(32); out.push(83); out.push(121); out.push(115);
    out.push(99); out.push(97); out.push(108); out.push(108); out.push(32); out.push(123);
    out.push(10);
    assert(out@ =~= old(out)@ + enum_open());
}

fn push_preamble(out: &mut Vec<u8>)
    ensures
        final(out)@ == old(out)@ + preamble(),
{
    push_header_comment(out);
    push_type_doc(out);
    push_allow_attr(out);
    push_enum_open(out);
    assert(out@ =~= old(out)@ + preamble());
}

#[verifier::rlimit(80)]
fn push_doc_pre(out: &mut Vec<u8>)
    ensures
        final(out)@ == old(out)@ + doc_pre(),
{
    out.push(32); out.push(32); out.push(32); out.push(32); out.push(47); out.push(47);
    out.push(47); out.push(32); out.push(60); out.push(104); out.push(116); out.push(116);
    out.push(112); out.push(115); out.push(58); out.push(47); out.push(47); out.push(109);
    out.push(97); out.push(110); out.push(55); out.push(46); out.push(111); out.push(114);
    out.push(103); out.push(47); out.push(108); out.push(105); out.push(110); out.push(117);
    out.push(120); out.push(47); out.push(109); out.push(97); out.push(110); out.push(45);
    out.push(112); out.push(97); out.push(103); out.push(101); out.push(115); out.push(47);
    out.push(109); out.push(97); out.push(110); out.push(50); out.push(47);
    assert(out@ =~= old(out)@ + doc_pre());
}

fn push_doc_post(out: &mut Vec<u8>)
    ensures
        final(out)@ == old(out)@ + doc_post(),
{
    out.push(46); out.push(50); out.push(46); out.push(104); out.push(116); out.push(109);
    out.push(108); out.push(62); out.push(10);
    assert(out@ =~= old(out)@ + doc_post());
}

fn push_member_pre(out: &mut Vec<u8>)
    ensures
        final(out)@ == old(out)@ + member_pre(),
{
    out.push(32); out.push(32); out.push(32); out.push(32);
    assert(out@ =~= old(out)@ + member_pre());
}

fn push_member_eq(out: &mut Vec<u8>)
    ensures
        final(out)@ == old(out)@ + member_eq(),
{
    out.push(32); out.push(61); out.push(32);
    assert(out@ =~= old(out)@ + member_eq());
}

fn push_member_close(out: &mut Vec<u8>)
    ensures
        final(out)@ == old(out)@ + member_close(),
{
    out.push(44); out.push(10);
    assert(out@ =~= old(out)@ + member_close());
}

fn push_enum_close(out: &mut Vec<u8>)
    ensures
        final(out)@ == old(out)@ + enum_close(),
{
    out.push(125); out.push(10);
    assert(out@ =~= old(out)@ + enum_close());
}

/// Render a table as the full text of the generated source file. Never
/// fails; the empty table renders a complete, empty enumeration.
#[verifier::loop_isolation(false)]
pub fn render(table: &Vec<SymbolEntry>) -> (out: Vec<u8>)
    ensures
        out@ == spec_render(table_view(table@)),
{
    let ghost tv = table_view(table@);
    let mut out: Vec<u8> = Vec::new();
    push_preamble(&mut out);
    proof {
        assert(tv.take(0) =~= Seq::<(Seq<u8>, Seq<u8>)>::empty());
        assert(out@ =~= preamble() + spec_members(tv.take(0)));
    }
    let n = table.len();
    let mut k: usize = 0;
    while k < n
        invariant
            k <= n,
            n == table@.len(),
            tv == table_view(table@),
            out@ == preamble() + spec_members(tv.take(k as int)),
        decreases n - k,
    {
        let e = &table[k];
        push_doc_pre(&mut out);
        out.extend_from_slice(e.name.as_slice());
        push_doc_post(&mut out);
        push_member_pre(&mut out);
        out.extend_from_slice(e.name.as_slice());
        push_member_eq(&mut out);
        out.extend_from_slice(e.id.as_slice());
        push_member_close(&mut out);
        proof {
            assert(tv[k as int] == table@[k as int]@);
            lemma_members_push(tv.take(k as int), tv[k as int]);
            assert(tv.take(k as int + 1) =~= tv.take(k as int).push(tv[k as int]));
            assert(out@ =~= preamble() + spec_members(tv.take(k as int + 1)));
        }
        k = k + 1;
    }
    proof {
        assert(tv.take(n as int) =~= tv);
    }
    push_enum_close(&mut out);
    out
}

} // verus!
