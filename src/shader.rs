//! Shader stages, the blocks of source text that belong to them, and the
//! splitting of a combined source file into such blocks.

use vstd::prelude::*;
use vstd::string::{StrSliceExecFns, StringExecFns};

use crate::gl_consts::{gl_fragment_shader, gl_vertex_shader, FRAGMENT_SHADER_ENUM, VERTEX_SHADER_ENUM};
use crate::text::{chars_of, contains, contains_in, lines, scan_lines, strip_cr};

verus! {

/// A programmable stage of the rendering pipeline.
#[derive(Debug, Clone, Copy, PartialEq, Eq, Structural)]
pub enum ShaderType {
    VertexShader,
    FragmentShader,
}

/// The OpenGL enumeration value that names a stage.
pub open spec fn gl_enum_of(t: ShaderType) -> u32 {
    match t {
        ShaderType::VertexShader => VERTEX_SHADER_ENUM,
        ShaderType::FragmentShader => FRAGMENT_SHADER_ENUM,
    }
}

impl ShaderType {
    /// The value passed to `glCreateShader` for this stage.
    pub fn as_gl_enum(&self) -> (r: u32)
        ensures
            r == gl_enum_of(*self),
    {
        match self {
            ShaderType::VertexShader => gl_vertex_shader(),
            ShaderType::FragmentShader => gl_fragment_shader(),
        }
    }
}

/// What a block of source is: its stage and its text.
pub struct SourceBlock {
    pub stage: ShaderType,
    pub text: Seq<char>,
}

/// The source text of one shader stage.
#[derive(Debug, Clone)]
pub struct ShaderSource {
    type_: ShaderType,
    source: String,
}

impl View for ShaderSource {
    type V = SourceBlock;

    closed spec fn view(&self) -> SourceBlock {
        SourceBlock { stage: self.type_, text: self.source@ }
    }
}

impl ShaderSource {
    /// A block of the given stage holding `source`.
    pub fn new(type_: ShaderType, source: &str) -> (r: ShaderSource)
        ensures
            r@ == (SourceBlock { stage: type_, text: source@ }),
    {
        ShaderSource { type_, source: String::from_str(source) }
    }

    /// Adds `line` and a line feed to the end of the text.
    pub fn append_line(&mut self, line: &str)
        ensures
            final(self)@ == (SourceBlock {
                stage: old(self)@.stage,
                text: old(self)@.text + line@.push('\n'),
            }),
    {
        self.source.append(line);
        proof {
            reveal_strlit("\n");
        }
        self.source.append("\n");
        assert(self.source@ =~= old(self).source@ + line@.push('\n'));
    }

    /// The stage of this block.
    pub fn shader_type(&self) -> (r: ShaderType)
        ensures
            r == self@.stage,
    {
        self.type_
    }

    /// The text of this block.
    pub fn source(&self) -> (r: &str)
        ensures
            r@ == self@.text,
    {
        self.source.as_str()
    }
}

/// The token that starts a marker line.
pub open spec fn shader_marker() -> Seq<char> {
    seq!['#', 's', 'h', 'a', 'd', 'e', 'r']
}

/// The word that selects the vertex stage on a marker line.
pub open spec fn vertex_word() -> Seq<char> {
    seq!['v', 'e', 'r', 't', 'e', 'x']
}

/// The word that selects the fragment stage on a marker line.
pub open spec fn fragment_word() -> Seq<char> {
    seq!['f', 'r', 'a', 'g', 'm', 'e', 'n', 't']
}

/// The blocks after reading one more line. A marker line opens an empty
/// block of the stage it names, or is dropped when it names none; any other
/// line, with a line feed, extends the last block, and is dropped while no
/// block is open.
pub open spec fn step(blocks: Seq<SourceBlock>, line: Seq<char>) -> Seq<SourceBlock> {
    if contains(line, shader_marker()) {
        if contains(line, vertex_word()) {
            blocks.push(SourceBlock { stage: ShaderType::VertexShader, text: Seq::empty() })
        } else if contains(line, fragment_word()) {
            blocks.push(SourceBlock { stage: ShaderType::FragmentShader, text: Seq::empty() })
        } else {
            blocks
        }
    } else if blocks.len() > 0 {
        blocks.update(
            blocks.len() - 1,
            SourceBlock { stage: blocks.last().stage, text: blocks.last().text + line.push('\n') },
        )
    } else {
        blocks
    }
}

/// The blocks after reading the lines `ls` in order, starting from `start`.
pub open spec fn steps(start: Seq<SourceBlock>, ls: Seq<Seq<char>>) -> Seq<SourceBlock>
    decreases ls.len(),
{
    if ls.len() == 0 {
        start
    } else {
        step(steps(start, ls.drop_last()), ls.last())
    }
}

/// The blocks that a sequence of lines yields, read in order.
pub open spec fn parse_lines(ls: Seq<Seq<char>>) -> Seq<SourceBlock> {
    steps(Seq::empty(), ls)
}

/// The blocks that a combined source text yields.
pub open spec fn parse_text(s: Seq<char>) -> Seq<SourceBlock> {
    parse_lines(lines(s))
}

/// What a sequence of blocks holds.
pub open spec fn blocks_view(v: Seq<ShaderSource>) -> Seq<SourceBlock> {
    v.map_values(|b: ShaderSource| b@)
}

fn marker_chars() -> (r: Vec<char>)
    ensures
        r@ == shader_marker(),
{
    let r = vec!['#', 's', 'h', 'a', 'd', 'e', 'r'];
    assert(r@ =~= shader_marker());
    r
}

fn vertex_chars() -> (r: Vec<char>)
    ensures
        r@ == vertex_word(),
{
    let r = vec!['v', 'e', 'r', 't', 'e', 'x'];
    assert(r@ =~= vertex_word());
    r
}

fn fragment_chars() -> (r: Vec<char>)
    ensures
        r@ == fragment_word(),
{
    let r = vec!['f', 'r', 'a', 'g', 'm', 'e', 'n', 't'];
    assert(r@ =~= fragment_word());
    r
}

/// Reads the line of `src` from character `lo` up to `hi` into `shaders`.
fn read_line(shaders: &mut Vec<ShaderSource>, src: &str, cs: &Vec<char>, lo: usize, hi: usize)
    requires
        cs@ == src@,
        lo <= hi <= cs@.len(),
    ensures
        blocks_view(final(shaders)@) == step(
            blocks_view(old(shaders)@),
            cs@.subrange(lo as int, hi as int),
        ),
{
    let ghost line = cs@.subrange(lo as int, hi as int);
    let ghost before = blocks_view(shaders@);
    if contains_in(cs, lo, hi, &marker_chars()) {
        proof {
            reveal_strlit("");
            assert(""@ =~= Seq::<char>::empty());
        }
        if contains_in(cs, lo, hi, &vertex_chars()) {
            shaders.push(ShaderSource::new(ShaderType::VertexShader, ""));
            assert(blocks_view(shaders@) =~= step(before, line));
        } else if contains_in(cs, lo, hi, &fragment_chars()) {
            shaders.push(ShaderSource::new(ShaderType::FragmentShader, ""));
            assert(blocks_view(shaders@) =~= step(before, line));
        }
    } else if shaders.len() > 0 {
        let text = src.substring_char(lo, hi);
        let mut last = shaders.pop().unwrap();
        last.append_line(text);
        shaders.push(last);
        assert(blocks_view(shaders@) =~= step(before, line));
    }
}

/// Splits a combined shader source text into its blocks, in the order of
/// their marker lines.
pub fn parse_shader(src: &str) -> (r: Vec<ShaderSource>)
    ensures
        blocks_view(r@) == parse_text(src@),
{
    let cs = chars_of(src);
    let n: usize = cs.len();
    let mut shaders: Vec<ShaderSource> = Vec::new();
    let mut start: usize = 0;
    let mut i: usize = 0;
    assert(cs@.subrange(0, 0) =~= Seq::<char>::empty());
    assert(blocks_view(shaders@) =~= Seq::<SourceBlock>::empty());
    while i < n
        invariant
            n == cs@.len(),
            cs@ == src@,
            start <= i <= n,
            scan_lines(cs@.subrange(0, i as int)).1 == cs@.subrange(start as int, i as int),
            blocks_view(shaders@) == parse_lines(scan_lines(cs@.subrange(0, i as int)).0),
        decreases n - i,
    {
        let ghost prefix = cs@.subrange(0, i + 1);
        assert(prefix.drop_last() =~= cs@.subrange(0, i as int));
        let ghost done = scan_lines(cs@.subrange(0, i as int)).0;
        if cs[i] == '\n' {
            let end: usize = if i > start && cs[i - 1] == '\r' {
                i - 1
            } else {
                i
            };
            assert(strip_cr(cs@.subrange(start as int, i as int)) =~= cs@.subrange(
                start as int,
                end as int,
            ));
            read_line(&mut shaders, src, &cs, start, end);
            assert(scan_lines(prefix).0 == done.push(cs@.subrange(start as int, end as int)));
            assert(scan_lines(prefix).0.drop_last() =~= done);
            start = i + 1;
            assert(cs@.subrange(start as int, start as int) =~= Seq::<char>::empty());
        } else {
            assert(cs@.subrange(start as int, i + 1) =~= cs@.subrange(start as int, i as int).push(
                cs@[i as int],
            ));
        }
        i = i + 1;
    }
    assert(cs@.subrange(0, n as int) =~= src@);
    let ghost done = scan_lines(src@).0;
    if start < n {
        read_line(&mut shaders, src, &cs, start, n);
        assert(lines(src@).drop_last() =~= done);
    }
    shaders
}

} // verus!
