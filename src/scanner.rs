//! The scanner: a single-pass tokenizer that cuts a template into blocks.
//!
//! Each scanning mode has a spec function over the whole input and a cursor,
//! giving what the mode yields (a class and a content, or nothing) and where
//! the cursor stands afterwards; the executable methods are proved to follow
//! them.

use vstd::prelude::*;
use crate::blocks::{Block, BlockModel, Class, Pos};
use crate::text::push_char;

verus! {

/// The number of newline characters in `s`.
pub open spec fn newlines(s: Seq<char>) -> nat
    decreases s.len(),
{
    if s.len() == 0 {
        0
    } else {
        newlines(s.drop_last()) + if s.last() == '\n' { 1nat } else { 0nat }
    }
}

/// A sequence holds no more newlines than characters.
pub proof fn lemma_newlines_bounded(s: Seq<char>)
    ensures
        newlines(s) <= s.len(),
    decreases s.len(),
{
    if s.len() > 0 {
        lemma_newlines_bounded(s.drop_last());
    }
}

/// The 1-based line the scanner is on once it has consumed `s[..i]`.
pub open spec fn line_at(s: Seq<char>, i: int) -> nat {
    1 + newlines(s.take(i))
}

/// What a mode yields (a class and a content, or nothing), and where the
/// cursor stands once it is done.
pub type Outcome = (Option<(Class, Seq<char>)>, int);

/// What a content scan yields (the content, or nothing), and where the
/// cursor stands once it is done.
pub type ContentOutcome = (Option<Seq<char>>, int);

/// The end of a run of text that starts at `i`: the first `<` at or after
/// `i`, or the end of the input.
pub open spec fn text_end(s: Seq<char>, i: int) -> int
    decreases s.len() - i,
{
    if i >= s.len() || s[i] == '<' {
        i
    } else {
        text_end(s, i + 1)
    }
}

/// `p` put in front of the content of `o`, if it has one.
pub open spec fn prepend(p: Seq<char>, o: ContentOutcome) -> ContentOutcome {
    match o.0 {
        Some(t) => (Some(p + t), o.1),
        None => (None, o.1),
    }
}

/// The content of a tag, starting at `i` and ending at the first `%>`
/// (read two characters at a time after a `%`). The terminator is consumed
/// and left out. With `single_line`, a newline before the terminator is a
/// failure; so is the end of the input in either case.
pub open spec fn scan_content(s: Seq<char>, i: int, single_line: bool) -> ContentOutcome
    decreases s.len() - i,
{
    if i >= s.len() {
        (None, i)
    } else if single_line && s[i] == '\n' {
        (None, i + 1)
    } else if s[i] == '%' {
        if i + 1 >= s.len() {
            (None, i + 1)
        } else if s[i + 1] == '>' {
            (Some(Seq::empty()), i + 2)
        } else if single_line && s[i + 1] == '\n' {
            (None, i + 2)
        } else {
            prepend(seq!['%', s[i + 1]], scan_content(s, i + 2, single_line))
        }
    } else {
        prepend(seq![s[i]], scan_content(s, i + 1, single_line))
    }
}

/// A content outcome read as a block of class `class`.
pub open spec fn classify(class: Class, o: ContentOutcome) -> Outcome {
    match o.0 {
        Some(t) => (Some((class, t)), o.1),
        None => (None, o.1),
    }
}

/// A text block seeded with `seed`, the rest of the run starting at `i`.
pub open spec fn scan_text(s: Seq<char>, i: int, seed: Seq<char>) -> Outcome {
    (Some((Class::Text, seed + s.subrange(i, text_end(s, i)))), text_end(s, i))
}

/// The tag whose `<%` stands just before `i`.
pub open spec fn scan_tag(s: Seq<char>, i: int) -> Outcome {
    if i >= s.len() {
        (None, i)
    } else if s[i] == '!' {
        classify(Class::Declaration, scan_content(s, i + 1, false))
    } else if s[i] == '%' {
        classify(Class::Header, scan_content(s, i + 1, true))
    } else if s[i] == '=' {
        classify(Class::Print, scan_content(s, i + 1, false))
    } else {
        classify(Class::Code, prepend(seq![s[i]], scan_content(s, i + 1, false)))
    }
}

/// What follows a `<` that stands just before `i`.
pub open spec fn scan_tag_open(s: Seq<char>, i: int) -> Outcome {
    if i >= s.len() {
        (Some((Class::Text, seq!['<'])), i)
    } else if s[i] == '%' {
        scan_tag(s, i + 1)
    } else {
        scan_text(s, i + 1, seq!['<', s[i]])
    }
}

/// The block that starts at `i`, if any.
pub open spec fn scan_step(s: Seq<char>, i: int) -> Outcome {
    if i >= s.len() {
        (None, i)
    } else if s[i] == '<' {
        scan_tag_open(s, i + 1)
    } else {
        scan_text(s, i + 1, seq![s[i]])
    }
}

proof fn lemma_prepend_twice(o: Seq<char>, p: Seq<char>, x: ContentOutcome)
    ensures
        prepend(o, prepend(p, x)) == prepend(o + p, x),
{
    if let Some(t) = x.0 {
        assert(o + (p + t) =~= (o + p) + t);
    }
}

proof fn lemma_prepend_empty(x: ContentOutcome)
    ensures
        prepend(Seq::empty(), x) == x,
{
    if let Some(t) = x.0 {
        assert(Seq::<char>::empty() + t =~= t);
    }
}

/// Relies on str::chars (collected into a `Vec`): the characters of `s` in
/// order.
#[verifier::external_body]
fn chars_of(s: &str) -> (r: Vec<char>)
    ensures
        r@ == s@,
{
    s.chars().collect()
}

/// A scanner over one template.
pub struct Scanner {
    /// The characters of the template.
    buffer: Vec<char>,
    /// How many of them have been consumed.
    cursor: usize,
    /// Location of the template, for diagnostics.
    path: String,
    /// The 1-based line of the cursor.
    current_line: usize,
}

impl Scanner {
    /// The characters of the template.
    pub closed spec fn input(&self) -> Seq<char> {
        self.buffer@
    }

    /// How many characters have been consumed.
    pub closed spec fn cursor(&self) -> int {
        self.cursor as int
    }

    /// The line counter.
    pub closed spec fn line(&self) -> int {
        self.current_line as int
    }

    /// The location the template was read from.
    pub closed spec fn source_path(&self) -> Seq<char> {
        self.path@
    }

    /// The cursor stands within the input and the line counter is one more
    /// than the newlines consumed.
    pub open spec fn wf(&self) -> bool {
        &&& 0 <= self.cursor() <= self.input().len()
        &&& self.input().len() < usize::MAX
        &&& self.line() == line_at(self.input(), self.cursor())
    }

    /// `self` has done what `o` says, and returned `r`: the cursor
    /// stands where `o` ends, and `r` is the block `o` yields, stamped with
    /// the line reached.
    pub open spec fn yields(&self, r: Option<Block>, o: Outcome) -> bool {
        &&& self.cursor() == o.1
        &&& match o.0 {
            None => r is None,
            Some((class, content)) => r is Some && r->Some_0@ == (BlockModel {
                class,
                content,
                line: line_at(self.input(), o.1),
            }),
        }
    }

    /// `self` reads the same template from the same place as `other`.
    pub open spec fn same_template(&self, other: &Scanner) -> bool {
        &&& self.input() == other.input()
        &&& self.source_path() == other.source_path()
    }

    /// `self` has done what the content scan `o` says, and returned `r`:
    /// the cursor stands where `o` ends, and `r` is `prefix` followed by the
    /// content `o` yields.
    pub open spec fn yields_content(&self, r: Option<String>, prefix: Seq<char>, o: ContentOutcome) -> bool {
        &&& self.cursor() == o.1
        &&& match o.0 {
            None => r is None,
            Some(t) => r is Some && r->Some_0@ == prefix + t,
        }
    }

    /// Builds a scanner at the start of `input`, which was read from `path`.
    pub fn new(input: &str, path: String) -> (r: Scanner)
        requires
            input@.len() < usize::MAX,
        ensures
            r.wf(),
            r.input() == input@,
            r.cursor() == 0,
            r.source_path() == path@,
    {
        let buffer = chars_of(input);
        assert(buffer@.take(0) =~= Seq::<char>::empty());
        Scanner { buffer, cursor: 0, path, current_line: 1 }
    }

    /// Consumes the next character, counting the lines it ends.
    pub fn read_char(&mut self) -> (r: Option<char>)
        requires
            old(self).wf(),
        ensures
            final(self).wf(),
            final(self).same_template(old(self)),
            old(self).cursor() < old(self).input().len() ==> {
                &&& r == Some(old(self).input()[old(self).cursor()])
                &&& final(self).cursor() == old(self).cursor() + 1
            },
            old(self).cursor() == old(self).input().len() ==> {
                &&& r is None
                &&& final(self).cursor() == old(self).cursor()
            },
    {
        if self.cursor < self.buffer.len() {
            let c = self.buffer[self.cursor];
            proof {
                let s = self.buffer@;
                let i = self.cursor as int;
                assert(s.take(i + 1).drop_last() =~= s.take(i));
                assert(s.take(i + 1).last() == c);
                lemma_newlines_bounded(s.take(i));
            }
            if c == '\n' {
                self.current_line = self.current_line + 1;
            }
            self.cursor = self.cursor + 1;
            Some(c)
        } else {
            None
        }
    }

    /// The next character, without consuming it.
    pub fn peek_char(&mut self) -> (r: Option<char>)
        requires
            old(self).wf(),
        ensures
            *final(self) == *old(self),
            r == if old(self).cursor() < old(self).input().len() {
                Some(old(self).input()[old(self).cursor()])
            } else {
                None
            },
    {
        if self.cursor < self.buffer.len() {
            Some(self.buffer[self.cursor])
        } else {
            None
        }
    }

    /// Scans the content of a tag up to its `%>`, after `prefix`; with
    /// `single_line`, a newline ends the scan in failure.
    fn scan_tag_content(&mut self, prefix: String, single_line: bool) -> (r: Option<String>)
        requires
            old(self).wf(),
        ensures
            final(self).wf(),
            final(self).same_template(old(self)),
            final(self).yields_content(r, prefix@, scan_content(old(self).input(), old(self).cursor(), single_line)),
    {
        let ghost s = self.input();
        let ghost start = self.cursor();
        let ghost mut tail = Seq::<char>::empty();
        let mut output = prefix;
        proof {
            lemma_prepend_empty(scan_content(s, start, single_line));
            assert(prefix@ + tail =~= prefix@);
        }
        loop
            invariant
                self.wf(),
                self.same_template(old(self)),
                s == old(self).input(),
                start == old(self).cursor(),
                self.input() == s,
                output@ == prefix@ + tail,
                scan_content(s, start, single_line) == prepend(tail, scan_content(s, self.cursor(), single_line)),
            decreases s.len() - self.cursor(),
        {
            let ghost i = self.cursor();
            match self.read_char() {
                None => {
                    return None;
                },
                Some(c) => {
                    if single_line && c == '\n' {
                        return None;
                    }
                    if c == '%' {
                        match self.read_char() {
                            None => {
                                return None;
                            },
                            Some(d) => {
                                if d == '>' {
                                    assert(tail + Seq::<char>::empty() =~= tail);
                                    return Some(output);
                                }
                                if single_line && d == '\n' {
                                    return None;
                                }
                                proof {
                                    lemma_prepend_twice(tail, seq!['%', d], scan_content(s, i + 2, single_line));
                                    tail = tail + seq!['%', d];
                                }
                                push_char(&mut output, '%');
                                push_char(&mut output, d);
                                assert(output@ =~= prefix@ + tail);
                            },
                        }
                    } else {
                        proof {
                            lemma_prepend_twice(tail, seq![c], scan_content(s, i + 1, single_line));
                            tail = tail + seq![c];
                        }
                        push_char(&mut output, c);
                        assert(output@ =~= prefix@ + tail);
                    }
                },
            }
        }
    }

    /// Scans the content of a code, declaration or print tag up to its `%>`,
    /// after `prefix`.
    #[allow(non_snake_case)]
    pub fn scanContent(&mut self, prefix: String) -> (r: Option<String>)
        requires
            old(self).wf(),
        ensures
            final(self).wf(),
            final(self).same_template(old(self)),
            final(self).yields_content(r, prefix@, scan_content(old(self).input(), old(self).cursor(), false)),
    {
        self.scan_tag_content(prefix, false)
    }

    /// Scans the content of a header tag up to its `%>`, after `prefix`; a
    /// newline before the terminator is a failure.
    #[allow(non_snake_case)]
    pub fn scanHeaderContent(&mut self, prefix: String) -> (r: Option<String>)
        requires
            old(self).wf(),
        ensures
            final(self).wf(),
            final(self).same_template(old(self)),
            final(self).yields_content(r, prefix@, scan_content(old(self).input(), old(self).cursor(), true)),
    {
        self.scan_tag_content(prefix, true)
    }

    /// Scans a run of text after `seed`, up to the next `<` (left for the
    /// next scan) or the end of the input.
    #[allow(non_snake_case)]
    pub fn scanTextBlock(&mut self, seed: String) -> (r: Option<Block>)
        requires
            old(self).wf(),
        ensures
            final(self).wf(),
            final(self).same_template(old(self)),
            final(self).yields(r, scan_text(old(self).input(), old(self).cursor(), seed@)),
    {
        let ghost s = self.input();
        let ghost start = self.cursor();
        let mut output = seed;
        assert(s.subrange(start, start) =~= Seq::<char>::empty());
        assert(seed@ + Seq::<char>::empty() =~= seed@);
        loop
            invariant
                self.wf(),
                self.same_template(old(self)),
                s == old(self).input(),
                start == old(self).cursor(),
                self.input() == s,
                start <= self.cursor(),
                text_end(s, start) == text_end(s, self.cursor()),
                output@ == seed@ + s.subrange(start, self.cursor()),
            ensures
                text_end(s, start) == self.cursor(),
            decreases s.len() - self.cursor(),
        {
            let ghost i = self.cursor();
            match self.peek_char() {
                None => {
                    assert(text_end(s, i) == i);
                    break;
                },
                Some(c) => {
                    if c == '<' {
                        assert(text_end(s, i) == i);
                        break;
                    }
                    let next = self.read_char();
                    proof {
                        assert(next == Some(c));
                        assert(s.subrange(start, i + 1) =~= s.subrange(start, i).push(c));
                    }
                    push_char(&mut output, c);
                    assert(output@ =~= seed@ + s.subrange(start, i + 1));
                },
            }
        }
        Some(Block { class: Class::Text, content: output, pos: Pos { line_no: self.current_line } })
    }

    /// Scans the content of a declaration tag, after its `<%!`.
    #[allow(non_snake_case)]
    pub fn scanDeclarationBlock(&mut self) -> (r: Option<Block>)
        requires
            old(self).wf(),
        ensures
            final(self).wf(),
            final(self).same_template(old(self)),
            final(self).yields(r, classify(Class::Declaration, scan_content(old(self).input(), old(self).cursor(), false))),
    {
        match self.scanContent(String::new()) {
            None => None,
            Some(content) => {
                assert(content@ =~= scan_content(old(self).input(), old(self).cursor(), false).0->Some_0);
                Some(Block { class: Class::Declaration, content, pos: Pos { line_no: self.current_line } })
            },
        }
    }

    /// Scans the content of a header tag, after its `<%%`.
    #[allow(non_snake_case)]
    pub fn scanHeaderBlock(&mut self) -> (r: Option<Block>)
        requires
            old(self).wf(),
        ensures
            final(self).wf(),
            final(self).same_template(old(self)),
            final(self).yields(r, classify(Class::Header, scan_content(old(self).input(), old(self).cursor(), true))),
    {
        match self.scanHeaderContent(String::new()) {
            None => None,
            Some(content) => {
                assert(content@ =~= scan_content(old(self).input(), old(self).cursor(), true).0->Some_0);
                Some(Block { class: Class::Header, content, pos: Pos { line_no: self.current_line } })
            },
        }
    }

    /// Scans the content of a print tag, after its `<%=`.
    #[allow(non_snake_case)]
    pub fn scanPrintBlock(&mut self) -> (r: Option<Block>)
        requires
            old(self).wf(),
        ensures
            final(self).wf(),
            final(self).same_template(old(self)),
            final(self).yields(r, classify(Class::Print, scan_content(old(self).input(), old(self).cursor(), false))),
    {
        match self.scanContent(String::new()) {
            None => None,
            Some(content) => {
                assert(content@ =~= scan_content(old(self).input(), old(self).cursor(), false).0->Some_0);
                Some(Block { class: Class::Print, content, pos: Pos { line_no: self.current_line } })
            },
        }
    }

    /// Scans a tag after its `<%`: the next character tells its class.
    #[allow(non_snake_case)]
    pub fn scanCodeBlock(&mut self) -> (r: Option<Block>)
        requires
            old(self).wf(),
        ensures
            final(self).wf(),
            final(self).same_template(old(self)),
            final(self).yields(r, scan_tag(old(self).input(), old(self).cursor())),
    {
        match self.read_char() {
            None => None,
            Some(c) => {
                if c == '!' {
                    self.scanDeclarationBlock()
                } else if c == '%' {
                    self.scanHeaderBlock()
                } else if c == '=' {
                    self.scanPrintBlock()
                } else {
                    let mut prefix = String::new();
                    push_char(&mut prefix, c);
                    match self.scanContent(prefix) {
                        None => None,
                        Some(content) => Some(Block { class: Class::Code, content, pos: Pos { line_no: self.current_line } }),
                    }
                }
            },
        }
    }

    /// Scans what follows a `<`: a tag if `%` comes next, else text.
    #[allow(non_snake_case)]
    pub fn scanBlock(&mut self) -> (r: Option<Block>)
        requires
            old(self).wf(),
        ensures
            final(self).wf(),
            final(self).same_template(old(self)),
            final(self).yields(r, scan_tag_open(old(self).input(), old(self).cursor())),
    {
        match self.read_char() {
            None => {
                let mut content = String::new();
                push_char(&mut content, '<');
                assert(content@ =~= seq!['<']);
                Some(Block { class: Class::Text, content, pos: Pos { line_no: self.current_line } })
            },
            Some(c) => {
                if c == '%' {
                    self.scanCodeBlock()
                } else {
                    let mut seed = String::new();
                    push_char(&mut seed, '<');
                    push_char(&mut seed, c);
                    assert(seed@ =~= seq!['<', c]);
                    self.scanTextBlock(seed)
                }
            },
        }
    }

    /// Scans the next block; `None` at the end of the input, or where a tag
    /// is left unterminated or a header tag runs over a newline.
    pub fn scan(&mut self) -> (r: Option<Block>)
        requires
            old(self).wf(),
        ensures
            final(self).wf(),
            final(self).same_template(old(self)),
            final(self).yields(r, scan_step(old(self).input(), old(self).cursor())),
    {
        match self.read_char() {
            None => None,
            Some(c) => {
                if c == '<' {
                    self.scanBlock()
                } else {
                    let mut seed = String::new();
                    push_char(&mut seed, c);
                    assert(seed@ =~= seq![c]);
                    self.scanTextBlock(seed)
                }
            },
        }
    }
}

} // verus!
