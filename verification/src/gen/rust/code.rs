//! Generated Rust code as values: lines, and blocks of lines in braces, each with the text
//! before its opening brace and after its closing one.
use vstd::prelude::*;

verus! {

/// A line of generated code, or a block of them.
pub enum Code {
    Line(String),
    Block(Block),
}

/// A block of generated code: the text before its opening brace, what stands within the
/// braces, and the text after its closing brace.
pub struct Block {
    pub before: String,
    pub body: Vec<Code>,
    pub after: Option<String>,
}

/// The body of a generated function.
pub struct Function {
    pub body: Vec<Code>,
}

/// A line or a block as a value.
pub enum CodeView {
    Line(Seq<char>),
    Block(Seq<char>, Seq<CodeView>, Option<Seq<char>>),
}

/// The value of a line or a block.
pub open spec fn code_view(c: Code) -> CodeView
    decreases c,
{
    match c {
        Code::Line(line) => CodeView::Line(line@),
        Code::Block(b) => CodeView::Block(
            b.before@,
            codes_view(b.body@),
            match b.after {
                Some(a) => Some(a@),
                None => None,
            },
        ),
    }
}

/// The values of lines and blocks.
pub open spec fn codes_view(codes: Seq<Code>) -> Seq<CodeView>
    decreases codes,
{
    if codes.len() == 0 {
        Seq::empty()
    } else {
        codes_view(codes.subrange(0, codes.len() - 1)).push(code_view(codes[codes.len() - 1]))
    }
}

/// A block as a value.
pub open spec fn block_view(b: Block) -> CodeView {
    CodeView::Block(
        b.before@,
        codes_view(b.body@),
        match b.after {
            Some(a) => Some(a@),
            None => None,
        },
    )
}

/// A block without `after` text, as a value.
pub open spec fn block_of(before: Seq<char>, body: Seq<CodeView>) -> CodeView {
    CodeView::Block(before, body, None)
}

proof fn lemma_codes_view_push(codes: Seq<Code>, c: Code)
    ensures
        codes_view(codes.push(c)) == codes_view(codes).push(code_view(c)),
{
    assert(codes.push(c).subrange(0, codes.len() as int) =~= codes);
}

impl Block {
    /// An empty block with `before` in front of its opening brace.
    pub fn new(before: &str) -> (b: Block)
        ensures
            block_view(b) == block_of(before@, Seq::empty()),
    {
        let b = Block { before: String::from_str(before), body: Vec::new(), after: None };
        assert(codes_view(b.body@) =~= Seq::<CodeView>::empty());
        b
    }

    /// Adds a line.
    pub fn line(&mut self, line: String)
        ensures
            final(self).before == old(self).before,
            final(self).after == old(self).after,
            codes_view(final(self).body@) == codes_view(old(self).body@).push(CodeView::Line(line@)),
    {
        proof {
            lemma_codes_view_push(self.body@, Code::Line(line));
        }
        self.body.push(Code::Line(line));
    }

    /// Adds a block.
    pub fn push_block(&mut self, block: Block)
        ensures
            final(self).before == old(self).before,
            final(self).after == old(self).after,
            codes_view(final(self).body@) == codes_view(old(self).body@).push(block_view(block)),
    {
        proof {
            lemma_codes_view_push(self.body@, Code::Block(block));
        }
        self.body.push(Code::Block(block));
    }

    /// Sets the text after the closing brace.
    pub fn after(&mut self, after: &str)
        ensures
            final(self).before == old(self).before,
            final(self).body == old(self).body,
            final(self).after matches Some(a) && a@ == after@,
    {
        self.after = Some(String::from_str(after));
    }
}

impl Function {
    /// A function without lines.
    pub fn new() -> (f: Function)
        ensures
            codes_view(f.body@) == Seq::<CodeView>::empty(),
    {
        let f = Function { body: Vec::new() };
        assert(codes_view(f.body@) =~= Seq::<CodeView>::empty());
        f
    }

    /// Adds a line.
    pub fn line(&mut self, line: String)
        ensures
            codes_view(final(self).body@) == codes_view(old(self).body@).push(CodeView::Line(line@)),
    {
        proof {
            lemma_codes_view_push(self.body@, Code::Line(line));
        }
        self.body.push(Code::Line(line));
    }

    /// Adds a block.
    pub fn push_block(&mut self, block: Block)
        ensures
            codes_view(final(self).body@) == codes_view(old(self).body@).push(block_view(block)),
    {
        proof {
            lemma_codes_view_push(self.body@, Code::Block(block));
        }
        self.body.push(Code::Block(block));
    }
}

} // verus!
