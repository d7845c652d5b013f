//! Blocks: the classified, positioned fragments a template is made of, and
//! the source text each one is emitted as.

use vstd::prelude::*;
use vstd::string::StringExecFns;
use crate::text::{decimal, push_char, write_decimal};

verus! {

/// The class of a `Block`.
#[derive(Clone, Copy, Debug, PartialEq, Eq, Structural)]
pub enum Class {
    /// Holds the signature of the generated function.
    Declaration,
    /// A dependency line of the generated source, placed before the function.
    Header,
    /// Code executed verbatim by the generated function.
    Code,
    /// Literal text written out by the generated function.
    Text,
    /// An expression whose value the generated function writes out.
    Print,
}

/// Where a block stands in its template.
#[derive(Clone, Copy, Debug, PartialEq, Eq, Structural)]
pub struct Pos {
    /// The 1-based line on which the block's scan completed.
    pub line_no: usize,
}

/// One classified, positioned fragment of a template.
#[derive(Clone, Debug, PartialEq, Eq)]
pub struct Block {
    /// What the fragment is.
    pub class: Class,
    /// The fragment itself, without tag markers.
    pub content: String,
    /// Where the fragment stands.
    pub pos: Pos,
}

/// The mathematical value of a block.
pub struct BlockModel {
    pub class: Class,
    pub content: Seq<char>,
    pub line: nat,
}

impl Block {
    pub open spec fn view(&self) -> BlockModel {
        BlockModel { class: self.class, content: self.content@, line: self.pos.line_no as nat }
    }
}

/// The values of a sequence of blocks.
pub open spec fn models(bs: Seq<Block>) -> Seq<BlockModel> {
    bs.map_values(|b: Block| b@)
}

/// What `str::escape_default` makes of a text: quotes, backslashes and
/// control characters written as escapes, so that it can stand in a string
/// literal.
pub uninterp spec fn escaped(s: Seq<char>) -> Seq<char>;

/// Relies on str::escape_default (collected into a `String`): the result is
/// a function of the characters alone.
#[verifier::external_body]
fn escape_default(s: &String) -> (r: String)
    ensures
        r@ == escaped(s@),
{
    s.escape_default().to_string()
}

/// The marker line that maps generated code back to a template line.
pub open spec fn line_marker(line: nat) -> Seq<char> {
    "\n//line "@ + decimal(line) + "\n"@
}

/// The generated source for a block whose class is `class` and content
/// `content`, given the escaped form of that content (used by `Text` only).
pub open spec fn statement(class: Class, content: Seq<char>, escaped_content: Seq<char>) -> Seq<char> {
    match class {
        Class::Header => content + "\n"@,
        Class::Declaration => content + " {\n"@,
        Class::Text => "writer.write_line(\""@ + escaped_content + "\");\n"@,
        Class::Print => "writer.write_line(format!(\"{:?}\", "@ + content + "));\n"@,
        Class::Code => content + "\n"@,
    }
}

/// The generated source for `b`, given the escaped form of its content.
pub open spec fn block_source_with(b: BlockModel, escaped_content: Seq<char>) -> Seq<char> {
    line_marker(b.line) + statement(b.class, b.content, escaped_content)
}

/// The generated source for `b`.
pub open spec fn block_source(b: BlockModel) -> Seq<char> {
    block_source_with(b, escaped(b.content))
}

impl Pos {
    /// Appends the line marker of this position to `writer`.
    pub fn write(&self, writer: &mut String)
        ensures
            final(writer)@ == old(writer)@ + line_marker(self.line_no as nat),
    {
        writer.append("\n//line ");
        write_decimal(self.line_no, writer);
        writer.append("\n");
        assert(writer@ =~= old(writer)@ + line_marker(self.line_no as nat));
    }
}

impl Block {
    /// Appends the generated source of this block to `writer`, with
    /// `escaped_content` standing for the escaped form of the content.
    pub fn write_with(&self, escaped_content: &String, writer: &mut String)
        ensures
            final(writer)@ == old(writer)@ + block_source_with(self@, escaped_content@),
    {
        self.pos.write(writer);
        let ghost marked = writer@;
        match self.class {
            Class::Header => {
                writer.append(self.content.as_str());
                writer.append("\n");
            },
            Class::Declaration => {
                writer.append(self.content.as_str());
                writer.append(" {\n");
            },
            Class::Text => {
                writer.append("writer.write_line(\"");
                writer.append(escaped_content.as_str());
                writer.append("\");\n");
            },
            Class::Print => {
                writer.append("writer.write_line(format!(\"{:?}\", ");
                writer.append(self.content.as_str());
                writer.append("));\n");
            },
            Class::Code => {
                writer.append(self.content.as_str());
                writer.append("\n");
            },
        }
        assert(writer@ =~= marked + statement(self.class, self.content@, escaped_content@));
        assert(writer@ =~= old(writer)@ + block_source_with(self@, escaped_content@));
    }

    /// Appends the generated source of this block to `writer`.
    pub fn write(&self, writer: &mut String)
        ensures
            final(writer)@ == old(writer)@ + block_source(self@),
    {
        let escaped_content = escape_default(&self.content);
        self.write_with(&escaped_content, writer);
    }
}

} // verus!
