//! Properties of splitting a combined source text into blocks.

use vstd::prelude::*;

use crate::shader::{
    blocks_view, fragment_word, parse_text, shader_marker, step, steps, vertex_word,
    ShaderSource, ShaderType, SourceBlock,
};
use crate::text::{contains, occurs_at, strip_cr, join_lines, lemma_lines_concat, lemma_lines_join, lines, plain_line, scan_lines};

verus! {

/// No line of `ls` holds the marker token.
pub open spec fn no_marker(ls: Seq<Seq<char>>) -> bool {
    forall|i: int| 0 <= i < ls.len() ==> !contains(#[trigger] ls[i], shader_marker())
}

/// Reading two runs of lines is reading the second from where the first
/// left off.
pub proof fn lemma_steps_concat(start: Seq<SourceBlock>, a: Seq<Seq<char>>, b: Seq<Seq<char>>)
    ensures
        steps(start, a + b) == steps(steps(start, a), b),
    decreases b.len(),
{
    if b.len() == 0 {
        assert(a + b =~= a);
    } else {
        assert((a + b).drop_last() =~= a + b.drop_last());
        lemma_steps_concat(start, a, b.drop_last());
    }
}

/// Lines without a marker, read while no block is open, are dropped.
pub proof fn lemma_steps_unopened(ls: Seq<Seq<char>>)
    requires
        no_marker(ls),
    ensures
        steps(Seq::empty(), ls) == Seq::<SourceBlock>::empty(),
    decreases ls.len(),
{
    if ls.len() > 0 {
        assert(!contains(ls[ls.len() - 1], shader_marker()));
        lemma_steps_unopened(ls.drop_last());
    }
}

/// Lines without a marker, read while a block is open, go to that block,
/// each with a line feed.
pub proof fn lemma_steps_body(start: Seq<SourceBlock>, ls: Seq<Seq<char>>)
    requires
        start.len() > 0,
        no_marker(ls),
    ensures
        steps(start, ls) == start.update(
            start.len() - 1,
            SourceBlock { stage: start.last().stage, text: start.last().text + join_lines(ls) },
        ),
    decreases ls.len(),
{
    let n = start.len() - 1;
    if ls.len() == 0 {
        assert(start.last().text + join_lines(ls) =~= start.last().text);
        assert(start.update(n, SourceBlock { stage: start.last().stage, text: start.last().text })
            =~= start);
    } else {
        assert(!contains(ls[ls.len() - 1], shader_marker()));
        lemma_steps_body(start, ls.drop_last());
        let prev = join_lines(ls.drop_last());
        assert(start.last().text + prev + ls.last().push('\n') =~= start.last().text + join_lines(
            ls,
        ));
        let mid = steps(start, ls.drop_last());
        assert(mid.update(
            n,
            SourceBlock { stage: start.last().stage, text: start.last().text + join_lines(ls) },
        ) =~= start.update(
            n,
            SourceBlock { stage: start.last().stage, text: start.last().text + join_lines(ls) },
        ));
    }
}

/// A text made of a vertex marker line, the vertex stage's lines, a
/// fragment marker line and the fragment stage's lines, each line ending in
/// a line feed, splits into exactly two blocks: first the vertex block, then
/// the fragment block, each holding its lines with a line feed after each.
pub proof fn lemma_two_blocks(
    vm: Seq<char>,
    vlines: Seq<Seq<char>>,
    fm: Seq<char>,
    flines: Seq<Seq<char>>,
)
    requires
        plain_line(vm),
        plain_line(fm),
        forall|i: int| 0 <= i < vlines.len() ==> plain_line(#[trigger] vlines[i]),
        forall|i: int| 0 <= i < flines.len() ==> plain_line(#[trigger] flines[i]),
        contains(vm, shader_marker()),
        contains(vm, vertex_word()),
        contains(fm, shader_marker()),
        !contains(fm, vertex_word()),
        contains(fm, fragment_word()),
        no_marker(vlines),
        no_marker(flines),
    ensures
        parse_text(join_lines(seq![vm] + vlines + seq![fm] + flines)) == seq![
            SourceBlock { stage: ShaderType::VertexShader, text: join_lines(vlines) },
            SourceBlock { stage: ShaderType::FragmentShader, text: join_lines(flines) },
        ],
{
    let ls = seq![vm] + vlines + seq![fm] + flines;
    assert forall|i: int| 0 <= i < ls.len() implies plain_line(#[trigger] ls[i]) by {
        if i >= 1 + vlines.len() + 1 {
            assert(ls[i] == flines[i - vlines.len() - 2]);
        } else if i >= 1 && i < 1 + vlines.len() {
            assert(ls[i] == vlines[i - 1]);
        }
    }
    lemma_lines_join(ls);
    let e = Seq::<SourceBlock>::empty();
    lemma_steps_concat(e, seq![vm] + vlines + seq![fm], flines);
    lemma_steps_concat(e, seq![vm] + vlines, seq![fm]);
    lemma_steps_concat(e, seq![vm], vlines);
    assert(seq![vm].drop_last() =~= Seq::<Seq<char>>::empty());
    let b0 = SourceBlock { stage: ShaderType::VertexShader, text: Seq::empty() };
    assert(steps(e, Seq::<Seq<char>>::empty()) == e);
    assert(seq![vm].last() == vm);
    assert(steps(e, seq![vm]) == step(e, vm));
    assert(step(e, vm) =~= seq![b0]);
    lemma_steps_body(seq![b0], vlines);
    let bv = SourceBlock { stage: ShaderType::VertexShader, text: join_lines(vlines) };
    assert(Seq::<char>::empty() + join_lines(vlines) =~= join_lines(vlines));
    assert(seq![b0].update(0, bv) =~= seq![bv]);
    assert(seq![fm].drop_last() =~= Seq::<Seq<char>>::empty());
    assert(steps(seq![bv], Seq::<Seq<char>>::empty()) == seq![bv]);
    assert(seq![fm].last() == fm);
    assert(steps(seq![bv], seq![fm]) == step(seq![bv], fm));
    let b1 = SourceBlock { stage: ShaderType::FragmentShader, text: Seq::empty() };
    assert(step(seq![bv], fm) =~= seq![bv, b1]);
    lemma_steps_body(seq![bv, b1], flines);
    let bf = SourceBlock { stage: ShaderType::FragmentShader, text: join_lines(flines) };
    assert(Seq::<char>::empty() + join_lines(flines) =~= join_lines(flines));
    assert(seq![bv, b1].update(1, bf) =~= seq![bv, bf]);
}

/// Lines before the first marker line have no effect: a text that ends at a
/// line break and has no marker on any line, put before another text,
/// leaves the blocks of that text unchanged.
pub proof fn lemma_leading_lines_dropped(lead: Seq<char>, s: Seq<char>)
    requires
        lead.len() > 0,
        lead.last() == '\n',
        no_marker(lines(lead)),
    ensures
        parse_text(lead + s) == parse_text(s),
{
    assert(scan_lines(lead).1.len() == 0);
    lemma_lines_concat(lead, s);
    lemma_steps_concat(Seq::empty(), lines(lead), lines(s));
    lemma_steps_unopened(lines(lead));
}

/// A blank line put before a text leaves its blocks unchanged.
pub proof fn lemma_leading_blank_line_dropped(s: Seq<char>)
    ensures
        parse_text(seq!['\n'] + s) == parse_text(s),
{
    let lead = seq!['\n'];
    let e = Seq::<char>::empty();
    assert(lead.drop_last() =~= e);
    assert(scan_lines(e) == (Seq::<Seq<char>>::empty(), e));
    assert(lead.last() == '\n');
    assert(Seq::<Seq<char>>::empty().push(strip_cr(e)) =~= seq![e]);
    assert(scan_lines(lead) == (seq![e], e));
    assert(lines(lead) =~= seq![e]);
    assert forall|i: int| 0 <= i < lines(lead).len() implies !contains(
        #[trigger] lines(lead)[i],
        shader_marker(),
    ) by {
        assert(lines(lead)[i] == e);
        if contains(e, shader_marker()) {
            let k = choose|k: int| occurs_at(e, shader_marker(), k);
            assert(k + shader_marker().len() <= e.len());
        }
    }
    lemma_leading_lines_dropped(lead, s);
}

/// Splitting is repeatable: two splits of the same text give equal blocks.
pub proof fn lemma_parse_repeatable(s: Seq<char>, r1: Seq<ShaderSource>, r2: Seq<ShaderSource>)
    requires
        blocks_view(r1) == parse_text(s),
        blocks_view(r2) == parse_text(s),
    ensures
        blocks_view(r1) == blocks_view(r2),
{
}

} // verus!
