//! The parser: drives a scanner over a whole template and collects its
//! blocks.

use vstd::prelude::*;
use crate::blocks::{models, Block, BlockModel, Class};
use crate::scanner::{
    line_at, newlines, scan_content, scan_step, scan_tag, text_end, Scanner,
};
use crate::template::Template;

verus! {

/// A text run ends within the input, not before it starts.
pub proof fn lemma_text_end_bounds(s: Seq<char>, i: int)
    requires
        0 <= i <= s.len(),
    ensures
        i <= text_end(s, i) <= s.len(),
    decreases s.len() - i,
{
    if i < s.len() && s[i] != '<' {
        lemma_text_end_bounds(s, i + 1);
    }
}

/// A content scan ends within the input, and past its terminator when it
/// yields a content.
pub proof fn lemma_scan_content_bounds(s: Seq<char>, i: int, single_line: bool)
    requires
        0 <= i <= s.len(),
    ensures
        i <= scan_content(s, i, single_line).1 <= s.len(),
        scan_content(s, i, single_line).0 is Some ==> i + 2 <= scan_content(s, i, single_line).1,
    decreases s.len() - i,
{
    if i < s.len() && !(single_line && s[i] == '\n') {
        if s[i] == '%' {
            if i + 1 < s.len() && s[i + 1] != '>' && !(single_line && s[i + 1] == '\n') {
                lemma_scan_content_bounds(s, i + 2, single_line);
            }
        } else {
            lemma_scan_content_bounds(s, i + 1, single_line);
        }
    }
}

/// A scan step ends within the input, and moves forward when it yields a
/// block.
pub proof fn lemma_scan_step_bounds(s: Seq<char>, i: int)
    requires
        0 <= i <= s.len(),
    ensures
        i <= scan_step(s, i).1 <= s.len(),
        scan_step(s, i).0 is Some ==> i < scan_step(s, i).1,
{
    if i < s.len() {
        if s[i] == '<' {
            if i + 1 < s.len() {
                if s[i + 1] == '%' {
                    if i + 2 < s.len() {
                        lemma_scan_content_bounds(s, i + 3, s[i + 2] == '%');
                    }
                } else {
                    lemma_text_end_bounds(s, i + 2);
                }
            }
        } else {
            lemma_text_end_bounds(s, i + 1);
        }
    }
}

/// The blocks the scanner yields from cursor `i` on, until it yields none.
pub open spec fn scan_blocks(s: Seq<char>, i: int) -> Seq<BlockModel>
    decreases s.len() - i,
    via scan_blocks_decreases
{
    if 0 <= i < s.len() {
        match scan_step(s, i).0 {
            Some((class, content)) => {
                let end = scan_step(s, i).1;
                seq![BlockModel { class, content, line: line_at(s, end) }] + scan_blocks(s, end)
            },
            None => Seq::empty(),
        }
    } else {
        Seq::empty()
    }
}

#[via_fn]
proof fn scan_blocks_decreases(s: Seq<char>, i: int) {
    if 0 <= i < s.len() {
        lemma_scan_step_bounds(s, i);
    }
}

/// The blocks of a whole template.
pub open spec fn parse_model(s: Seq<char>) -> Seq<BlockModel> {
    scan_blocks(s, 0)
}

/// A run of text that meets no `<` reaches the end of the input.
proof fn lemma_text_end_without_lt(s: Seq<char>, i: int)
    requires
        0 <= i <= s.len(),
        forall|j: int| i <= j < s.len() ==> s[j] != '<',
    ensures
        text_end(s, i) == s.len(),
    decreases s.len() - i,
{
    if i < s.len() {
        lemma_text_end_without_lt(s, i + 1);
    }
}

/// A content scan that meets no `%` meets no terminator, and yields nothing.
proof fn lemma_scan_content_without_percent(s: Seq<char>, i: int, single_line: bool)
    requires
        0 <= i <= s.len(),
        forall|j: int| i <= j < s.len() ==> s[j] != '%',
    ensures
        scan_content(s, i, single_line).0 is None,
    decreases s.len() - i,
{
    if i < s.len() && !(single_line && s[i] == '\n') {
        lemma_scan_content_without_percent(s, i + 1, single_line);
    }
}

/// A template without tags is one text block: the whole input, stamped with
/// the line the input ends on. A template holds no tag when it is not empty
/// and no `<` stands in it but, possibly, its first character not followed
/// by `%`.
pub proof fn lemma_tagless_template_is_one_text_block(s: Seq<char>)
    requires
        s.len() > 0,
        forall|i: int| 0 < i < s.len() ==> s[i] != '<',
        !(s.len() >= 2 && s[0] == '<' && s[1] == '%'),
    ensures
        parse_model(s) == seq![BlockModel { class: Class::Text, content: s, line: 1 + newlines(s) }],
{
    let n = s.len() as int;
    if s[0] == '<' && n >= 2 {
        lemma_text_end_without_lt(s, 2);
        assert(seq!['<', s[1]] + s.subrange(2, n) =~= s);
    } else if s[0] == '<' {
        assert(seq!['<'] =~= s);
    } else {
        lemma_text_end_without_lt(s, 1);
        assert(seq![s[0]] + s.subrange(1, n) =~= s);
    }
    assert(scan_step(s, 0).1 == n);
    assert(s.take(n) =~= s);
    assert(scan_blocks(s, n) =~= Seq::<BlockModel>::empty());
    assert(parse_model(s) =~= seq![BlockModel { class: Class::Text, content: s, line: 1 + newlines(s) }]);
}

/// A tag that is never terminated yields no block, and the scan stops
/// there: whatever was parsed before it is all the template holds. The tag
/// opens with `<%` at `i`, and no `%` follows its class character.
pub proof fn lemma_unterminated_tag_ends_parse(s: Seq<char>, i: int)
    requires
        0 <= i,
        i + 2 <= s.len(),
        s[i] == '<',
        s[i + 1] == '%',
        forall|j: int| i + 3 <= j < s.len() ==> s[j] != '%',
    ensures
        scan_step(s, i).0 is None,
        scan_blocks(s, i) == Seq::<BlockModel>::empty(),
{
    if i + 2 < s.len() {
        lemma_scan_content_without_percent(s, i + 3, false);
        lemma_scan_content_without_percent(s, i + 3, true);
    }
    assert(scan_tag(s, i + 2).0 is None);
}

/// A parser of templates.
pub struct Parser {
    /// The version of the template grammar this parser reads.
    pub version: u32,
}

impl Parser {
    /// Creates a parser.
    pub fn new() -> (r: Parser)
        ensures
            r.version == 1,
    {
        Parser { version: 1 }
    }

    /// Parses the template `source`, read from `path`: the blocks the
    /// scanner yields, in order, until it yields none (at the end of the
    /// input, or at a tag it cannot finish).
    pub fn parse(&self, path: String, source: &str) -> (r: Template)
        requires
            source@.len() < usize::MAX,
        ensures
            r.path == path,
            r.model() == parse_model(source@),
    {
        let mut scanner = Scanner::new(source, path.clone());
        let ghost s = source@;
        let mut blocks: Vec<Block> = Vec::new();
        loop
            invariant_except_break
                scanner.wf(),
                scanner.input() == s,
                models(blocks@) + scan_blocks(s, scanner.cursor()) == parse_model(s),
            ensures
                models(blocks@) == parse_model(s),
            decreases s.len() - scanner.cursor(),
        {
            let ghost i = scanner.cursor();
            proof {
                lemma_scan_step_bounds(s, i);
            }
            match scanner.scan() {
                None => {
                    assert(scan_blocks(s, i) =~= Seq::<BlockModel>::empty());
                    assert(models(blocks@) + Seq::<BlockModel>::empty()
                        =~= models(blocks@));
                    break;
                },
                Some(block) => {
                    let ghost before = blocks@;
                    blocks.push(block);
                    assert(models(blocks@)
                        =~= models(before).push(block@));
                    assert(models(blocks@) + scan_blocks(s, scanner.cursor())
                        =~= models(before) + scan_blocks(s, i));
                },
            }
        }
        Template { path, blocks }
    }
}

} // verus!
