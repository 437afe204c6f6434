//! The traversal protocol: one walk over a body, observed through four hooks.
//!
//! A walk enters each basic block in declaration order, shows the block's
//! statements in order and then its terminator, and after the last block shows
//! the type of every local. Each statement and terminator is followed by the
//! types that it mentions. The walk resolves nothing and reports no failure of
//! its own; what is made of the elements is up to the observer.
use vstd::prelude::*;
use crate::ir::{
    BasicBlock, BlockView, Body, BodyView, Callee, LocalDecl, Statement, StatementView, Terminator,
    TerminatorView, Ty,
};

verus! {

/// An observer of a walk. `Record` is the mathematical value of what has been
/// observed so far, and the `after_*` functions say how each hook changes it.
///
/// A walk alternates between two phases: between blocks, where the next block
/// may be entered, and inside a block, where statements and the terminator are
/// shown. Seeing a type keeps the phase.
pub trait Visitor: Sized {
    /// The mathematical value of what an observer has recorded.
    type Record;

    /// What this observer has recorded so far.
    spec fn record(&self) -> Self::Record;

    /// The observer is ready for the next block.
    spec fn between_blocks(r: Self::Record) -> bool;

    /// The observer is ready for a statement or the terminator of the block
    /// that was entered last.
    spec fn inside_block(r: Self::Record) -> bool;

    /// The record after a block is entered.
    spec fn after_block(r: Self::Record, block: BlockView) -> Self::Record;

    /// The record after a statement is shown.
    spec fn after_statement(r: Self::Record, stmt: StatementView) -> Self::Record;

    /// The record after a terminator is shown.
    spec fn after_terminator(r: Self::Record, term: TerminatorView) -> Self::Record;

    /// The record after an occurrence of a type is shown.
    spec fn after_ty(r: Self::Record, ty: Ty) -> Self::Record;

    /// Called when the walk enters a block, before any of its statements.
    fn visit_basic_block(&mut self, block: &BasicBlock)
        requires
            Self::between_blocks(old(self).record()),
        ensures
            final(self).record() == Self::after_block(old(self).record(), block@),
            Self::inside_block(final(self).record()),
    ;

    /// Called once for each statement of the current block, in order.
    fn visit_statement(&mut self, stmt: &Statement)
        requires
            Self::inside_block(old(self).record()),
        ensures
            final(self).record() == Self::after_statement(old(self).record(), stmt@),
            Self::inside_block(final(self).record()),
    ;

    /// Called once for the terminator of the current block, after its statements.
    fn visit_terminator(&mut self, term: &Terminator)
        requires
            Self::inside_block(old(self).record()),
        ensures
            final(self).record() == Self::after_terminator(old(self).record(), term@),
            Self::between_blocks(final(self).record()),
    ;

    /// Called once for each occurrence of a type.
    fn visit_ty(&mut self, ty: &Ty)
        ensures
            final(self).record() == Self::after_ty(old(self).record(), *ty),
            Self::inside_block(old(self).record()) ==> Self::inside_block(final(self).record()),
            Self::between_blocks(old(self).record()) ==> Self::between_blocks(
                final(self).record(),
            ),
    ;
}

/// The record after seeing `tys` one by one.
pub open spec fn walk_tys<V: Visitor>(r: V::Record, tys: Seq<Ty>) -> V::Record
    decreases tys.len(),
{
    if tys.len() == 0 {
        r
    } else {
        V::after_ty(walk_tys::<V>(r, tys.drop_last()), tys.last())
    }
}

/// The record after a statement and the types that it mentions.
pub open spec fn walk_statement<V: Visitor>(r: V::Record, stmt: StatementView) -> V::Record {
    walk_tys::<V>(V::after_statement(r, stmt), stmt.tys)
}

/// The record after the given statements, in order.
pub open spec fn walk_statements<V: Visitor>(r: V::Record, stmts: Seq<StatementView>) -> V::Record
    decreases stmts.len(),
{
    if stmts.len() == 0 {
        r
    } else {
        walk_statement::<V>(walk_statements::<V>(r, stmts.drop_last()), stmts.last())
    }
}

/// The record after a terminator and the types that it mentions.
pub open spec fn walk_terminator<V: Visitor>(r: V::Record, term: TerminatorView) -> V::Record {
    walk_tys::<V>(V::after_terminator(r, term), term.tys())
}

/// The record after one whole block.
pub open spec fn walk_block<V: Visitor>(r: V::Record, block: BlockView) -> V::Record {
    walk_terminator::<V>(
        walk_statements::<V>(V::after_block(r, block), block.statements),
        block.terminator,
    )
}

/// The record after the given blocks, in order.
pub open spec fn walk_blocks<V: Visitor>(r: V::Record, blocks: Seq<BlockView>) -> V::Record
    decreases blocks.len(),
{
    if blocks.len() == 0 {
        r
    } else {
        walk_block::<V>(walk_blocks::<V>(r, blocks.drop_last()), blocks.last())
    }
}

/// The declared types of the given locals, in order.
pub open spec fn local_tys(locals: Seq<LocalDecl>) -> Seq<Ty> {
    Seq::new(locals.len(), |i: int| locals[i].ty)
}

/// The record after a whole body: all blocks, then the type of every local.
pub open spec fn walk_body<V: Visitor>(r: V::Record, body: BodyView) -> V::Record {
    walk_tys::<V>(walk_blocks::<V>(r, body.blocks), local_tys(body.locals))
}

/// Seeing `a` and then `b` is seeing `a + b`.
pub proof fn lemma_walk_tys_concat<V: Visitor>(r: V::Record, a: Seq<Ty>, b: Seq<Ty>)
    ensures
        walk_tys::<V>(walk_tys::<V>(r, a), b) == walk_tys::<V>(r, a + b),
    decreases b.len(),
{
    if b.len() == 0 {
        assert(a + b =~= a);
    } else {
        lemma_walk_tys_concat::<V>(r, a, b.drop_last());
        assert((a + b).drop_last() =~= a + b.drop_last());
        assert((a + b).last() == b.last());
    }
}

/// Shows the observer each of `tys`, in order.
pub fn visit_tys<V: Visitor>(v: &mut V, tys: &Vec<Ty>)
    ensures
        final(v).record() == walk_tys::<V>(old(v).record(), tys@),
        V::inside_block(old(v).record()) ==> V::inside_block(final(v).record()),
        V::between_blocks(old(v).record()) ==> V::between_blocks(final(v).record()),
{
    let mut i: usize = 0;
    while i < tys.len()
        invariant
            i <= tys.len(),
            v.record() == walk_tys::<V>(old(v).record(), tys@.subrange(0, i as int)),
            V::inside_block(old(v).record()) ==> V::inside_block(v.record()),
            V::between_blocks(old(v).record()) ==> V::between_blocks(v.record()),
        decreases tys.len() - i,
    {
        v.visit_ty(&tys[i]);
        assert(tys@.subrange(0, i + 1).drop_last() =~= tys@.subrange(0, i as int));
        i += 1;
    }
    assert(tys@.subrange(0, i as int) =~= tys@);
}

/// Shows the observer the types that a terminator mentions: those in callee
/// position first, then the argument types.
pub fn visit_terminator_tys<V: Visitor>(v: &mut V, term: &Terminator)
    ensures
        final(v).record() == walk_tys::<V>(old(v).record(), term@.tys()),
        V::inside_block(old(v).record()) ==> V::inside_block(final(v).record()),
        V::between_blocks(old(v).record()) ==> V::between_blocks(final(v).record()),
{
    match term {
        Terminator::Goto { .. } => {},
        Terminator::Return => {},
        Terminator::Call { callee, args } => {
            match callee {
                Callee::Function { def: _, args: type_args } => {
                    visit_tys(v, type_args);
                },
                Callee::Pointer => {},
                Callee::Other { ty } => {
                    v.visit_ty(ty);
                    proof {
                        let one = seq![*ty];
                        assert(one.drop_last().len() == 0);
                        assert(walk_tys::<V>(old(v).record(), one.drop_last()) == old(v).record());
                        assert(one.last() == *ty);
                    }
                },
            }
            visit_tys(v, args);
            proof {
                lemma_walk_tys_concat::<V>(old(v).record(), callee@.tys(), args@);
            }
        },
        Terminator::Other { code: _, tys } => {
            visit_tys(v, tys);
        },
    }
}

/// Walks one block: the block itself, its statements in order, its terminator.
pub fn visit_block<V: Visitor>(v: &mut V, block: &BasicBlock)
    requires
        V::between_blocks(old(v).record()),
    ensures
        final(v).record() == walk_block::<V>(old(v).record(), block@),
        V::between_blocks(final(v).record()),
{
    v.visit_basic_block(block);
    let ghost entered = v.record();
    let mut i: usize = 0;
    while i < block.statements.len()
        invariant
            i <= block.statements.len(),
            V::inside_block(v.record()),
            v.record() == walk_statements::<V>(entered, block@.statements.subrange(0, i as int)),
        decreases block.statements.len() - i,
    {
        v.visit_statement(&block.statements[i]);
        visit_tys(v, &block.statements[i].tys);
        proof {
            let next = block@.statements.subrange(0, i + 1);
            assert(next.drop_last() =~= block@.statements.subrange(0, i as int));
            assert(next.last() == block.statements@[i as int]@);
        }
        i += 1;
    }
    assert(block@.statements.subrange(0, i as int) =~= block@.statements);
    v.visit_terminator(&block.terminator);
    visit_terminator_tys(v, &block.terminator);
}

/// Walks a whole body: every block in declaration order, then the declared
/// type of every local.
pub fn visit_body<V: Visitor>(v: &mut V, body: &Body)
    requires
        V::between_blocks(old(v).record()),
    ensures
        final(v).record() == walk_body::<V>(old(v).record(), body@),
        V::between_blocks(final(v).record()),
{
    let mut i: usize = 0;
    while i < body.blocks.len()
        invariant
            i <= body.blocks.len(),
            V::between_blocks(v.record()),
            v.record() == walk_blocks::<V>(old(v).record(), body@.blocks.subrange(0, i as int)),
        decreases body.blocks.len() - i,
    {
        visit_block(v, &body.blocks[i]);
        proof {
            let next = body@.blocks.subrange(0, i + 1);
            assert(next.drop_last() =~= body@.blocks.subrange(0, i as int));
            assert(next.last() == body.blocks@[i as int]@);
        }
        i += 1;
    }
    assert(body@.blocks.subrange(0, i as int) =~= body@.blocks);
    let ghost walked = v.record();
    let mut k: usize = 0;
    while k < body.locals.len()
        invariant
            k <= body.locals.len(),
            V::between_blocks(v.record()),
            v.record() == walk_tys::<V>(walked, local_tys(body@.locals).subrange(0, k as int)),
        decreases body.locals.len() - k,
    {
        v.visit_ty(&body.locals[k].ty);
        proof {
            let next = local_tys(body@.locals).subrange(0, k + 1);
            assert(next.drop_last() =~= local_tys(body@.locals).subrange(0, k as int));
            assert(next.last() == body.locals@[k as int].ty);
        }
        k += 1;
    }
    assert(local_tys(body@.locals).subrange(0, k as int) =~= local_tys(body@.locals));
}

} // verus!
