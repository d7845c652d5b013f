//! Templates and their assembly into the source of one function.
//!
//! Blocks are emitted in three stable passes: headers, then declarations,
//! then everything else, each pass keeping the template's order.

use vstd::prelude::*;
use vstd::string::StringExecFns;
use crate::blocks::{block_source, models, Block, BlockModel, Class};

verus! {

/// The pass in which a block of class `c` is emitted.
pub open spec fn rank(c: Class) -> nat {
    match c {
        Class::Header => 0,
        Class::Declaration => 1,
        _ => 2,
    }
}

/// Whether a block is emitted in pass `k`.
pub open spec fn in_pass(k: nat) -> spec_fn(BlockModel) -> bool {
    |b: BlockModel| rank(b.class) == k
}

/// The blocks of `bs` emitted in pass `k`, in their order in `bs`.
pub open spec fn with_rank(bs: Seq<BlockModel>, k: nat) -> Seq<BlockModel> {
    bs.filter(in_pass(k))
}

/// The blocks of `bs` in the order they are emitted.
pub open spec fn emission_order(bs: Seq<BlockModel>) -> Seq<BlockModel> {
    with_rank(bs, 0) + with_rank(bs, 1) + with_rank(bs, 2)
}

/// The generated source of the blocks of `bs`, one after the other.
pub open spec fn sources(bs: Seq<BlockModel>) -> Seq<char>
    decreases bs.len(),
{
    if bs.len() == 0 {
        Seq::empty()
    } else {
        sources(bs.drop_last()) + block_source(bs.last())
    }
}

/// The statements that close the generated function.
pub open spec fn epilogue() -> Seq<char> {
    "writer.flush();"@ + "\n"@ + "}\n"@ + "\n"@
}

/// The generated source for a template made of `bs`.
pub open spec fn template_source(bs: Seq<BlockModel>) -> Seq<char> {
    sources(emission_order(bs)) + epilogue()
}

/// Emitting two sequences of blocks one after the other emits their
/// concatenation.
pub proof fn lemma_sources_concat(a: Seq<BlockModel>, b: Seq<BlockModel>)
    ensures
        sources(a + b) == sources(a) + sources(b),
    decreases b.len(),
{
    if b.len() == 0 {
        assert(a + b =~= a);
        assert(sources(a) + Seq::<char>::empty() =~= sources(a));
    } else {
        assert((a + b).drop_last() =~= a + b.drop_last());
        lemma_sources_concat(a, b.drop_last());
        assert(sources(a + b) =~= sources(a) + sources(b));
    }
}

/// The three passes emit every block exactly as many times as it occurs.
pub proof fn lemma_emission_order_len(bs: Seq<BlockModel>)
    ensures
        emission_order(bs).len() == bs.len(),
    decreases bs.len(),
{
    reveal(Seq::filter);
    if bs.len() > 0 {
        lemma_emission_order_len(bs.drop_last());
    }
}

/// A template: where it was read from, and its blocks in order.
#[derive(Clone, Debug)]
pub struct Template {
    /// Location of the template.
    pub path: String,
    /// The blocks that make the template.
    pub blocks: Vec<Block>,
}

/// Why a template could not be written.
#[derive(Clone, Copy, Debug, PartialEq, Eq, Structural)]
pub enum TemplateWriteError {
    /// The template has no declaration block. `write_formatted` does not
    /// raise it: a template without a declaration is written as it is.
    DeclarationNotFound,
}

fn class_rank(c: Class) -> (r: usize)
    ensures
        r == rank(c),
{
    match c {
        Class::Header => 0,
        Class::Declaration => 1,
        _ => 2,
    }
}

impl Template {
    /// The blocks of the template, as values.
    pub open spec fn model(&self) -> Seq<BlockModel> {
        models(self.blocks@)
    }

    /// Creates a template from a path and its blocks.
    pub fn new(obj_path: String, obj_blocks: Vec<Block>) -> (r: Template)
        ensures
            r.path == obj_path,
            r.blocks == obj_blocks,
    {
        Template { path: obj_path, blocks: obj_blocks }
    }

    /// Appends the generated source of the blocks emitted in pass `k`, and
    /// returns how many there are.
    fn write_pass(&self, k: usize, writer: &mut String) -> (n: usize)
        ensures
            final(writer)@ == old(writer)@ + sources(with_rank(self.model(), k as nat)),
            n == with_rank(self.model(), k as nat).len(),
    {
        let ghost bs = self.model();
        let mut n: usize = 0;
        let mut i: usize = 0;
        proof {
            reveal(Seq::filter);
            assert(bs.take(0) =~= Seq::<BlockModel>::empty());
            assert(old(writer)@ + Seq::<char>::empty() =~= old(writer)@);
        }
        while i < self.blocks.len()
            invariant
                i <= self.blocks.len(),
                bs == self.model(),
                writer@ == old(writer)@ + sources(bs.take(i as int).filter(in_pass(k as nat))),
                n == bs.take(i as int).filter(in_pass(k as nat)).len(),
                n <= i,
            decreases self.blocks.len() - i,
        {
            let block = &self.blocks[i];
            let ghost before = bs.take(i as int).filter(in_pass(k as nat));
            proof {
                reveal(Seq::filter);
                assert(bs.take(i + 1).drop_last() =~= bs.take(i as int));
                assert(bs[i as int] == block@);
                assert(bs.take(i + 1).last() == block@);
                assert(in_pass(k as nat)(block@) == (rank(block.class) == k as nat));
            }
            if class_rank(block.class) == k {
                let ghost w = writer@;
                block.write(writer);
                n = n + 1;
                proof {
                    assert(before.push(block@).drop_last() =~= before);
                    assert(bs.take(i + 1).filter(in_pass(k as nat)) == before.push(block@));
                    assert(writer@ =~= old(writer)@ + sources(bs.take(i + 1).filter(in_pass(k as nat))));
                }
            } else {
                assert(bs.take(i + 1).filter(in_pass(k as nat)) == before);
            }
            i = i + 1;
        }
        assert(bs.take(i as int) =~= bs);
        n
    }

    /// Appends the generated source of the template to `writer`: its
    /// headers, then its declarations, then its other blocks, each in
    /// template order and each after a marker of its line, then the
    /// statements that close the function. Returns how many blocks were
    /// written.
    pub fn write_formatted(&self, writer: &mut String) -> (r: Result<usize, TemplateWriteError>)
        ensures
            final(writer)@ == old(writer)@ + template_source(self.model()),
            r is Ok,
            r->Ok_0 == self.blocks@.len(),
    {
        let ghost bs = self.model();
        let headers = self.write_pass(0, writer);
        let declarations = self.write_pass(1, writer);
        let others = self.write_pass(2, writer);
        let total = self.blocks.len();
        proof {
            lemma_emission_order_len(bs);
            assert(total == bs.len());
        }
        writer.append("writer.flush();");
        writer.append("\n");
        writer.append("}\n");
        writer.append("\n");
        proof {
            lemma_sources_concat(with_rank(bs, 0), with_rank(bs, 1));
            lemma_sources_concat(with_rank(bs, 0) + with_rank(bs, 1), with_rank(bs, 2));
            assert(writer@ =~= old(writer)@ + template_source(bs));
        }
        Ok(headers + declarations + others)
    }
}

} // verus!
