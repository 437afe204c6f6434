//! The observer that finds the calls of a body: what stands in callee
//! position of every call terminator, in block order.
use vstd::prelude::*;
use crate::ir::{
    BasicBlock, BlockView, Body, BodyView, Callee, CalleeView, Statement, StatementView,
    Terminator, TerminatorView, Ty,
};
use crate::visit::{
    local_tys, visit_body, walk_block, walk_blocks, walk_body, walk_statements, walk_tys, Visitor,
};

verus! {

/// The observer that records what stands in callee position of every call
/// terminator, in block order. It resolves nothing.
#[derive(Debug)]
pub struct CallVisitor {
    pub calls: Vec<Callee>,
}

/// The mathematical values of a list of callees.
pub open spec fn callee_views(calls: Seq<Callee>) -> Seq<CalleeView> {
    Seq::new(calls.len(), |i: int| calls[i]@)
}

impl View for CallVisitor {
    type V = Seq<CalleeView>;

    open spec fn view(&self) -> Seq<CalleeView> {
        callee_views(self.calls@)
    }
}

/// What stands in callee position, if the terminator is a call.
pub open spec fn callee_of(term: TerminatorView) -> Option<CalleeView> {
    match term {
        TerminatorView::Call { callee, args } => Some(callee),
        _ => None,
    }
}

/// The callees of the call terminators among the blocks, in block order.
pub open spec fn calls_of(blocks: Seq<BlockView>) -> Seq<CalleeView>
    decreases blocks.len(),
{
    if blocks.len() == 0 {
        Seq::empty()
    } else {
        match callee_of(blocks.last().terminator) {
            Some(callee) => calls_of(blocks.drop_last()).push(callee),
            None => calls_of(blocks.drop_last()),
        }
    }
}

impl CallVisitor {
    /// A visitor that has seen nothing.
    pub fn new() -> (v: CallVisitor)
        ensures
            v@ == Seq::<CalleeView>::empty(),
    {
        let v = CallVisitor { calls: Vec::new() };
        assert(v@ =~= Seq::empty());
        v
    }
}

impl Visitor for CallVisitor {
    type Record = Seq<CalleeView>;

    open spec fn record(&self) -> Seq<CalleeView> {
        self@
    }

    open spec fn between_blocks(r: Seq<CalleeView>) -> bool {
        true
    }

    open spec fn inside_block(r: Seq<CalleeView>) -> bool {
        true
    }

    open spec fn after_block(r: Seq<CalleeView>, block: BlockView) -> Seq<CalleeView> {
        r
    }

    open spec fn after_statement(r: Seq<CalleeView>, stmt: StatementView) -> Seq<CalleeView> {
        r
    }

    open spec fn after_terminator(r: Seq<CalleeView>, term: TerminatorView) -> Seq<CalleeView> {
        match callee_of(term) {
            Some(callee) => r.push(callee),
            None => r,
        }
    }

    open spec fn after_ty(r: Seq<CalleeView>, ty: Ty) -> Seq<CalleeView> {
        r
    }

    fn visit_basic_block(&mut self, block: &BasicBlock) {
    }

    fn visit_statement(&mut self, stmt: &Statement) {
    }

    fn visit_terminator(&mut self, term: &Terminator) {
        match term {
            Terminator::Call { callee, args: _ } => {
                self.calls.push(callee.clone());
                assert(self@ =~= old(self)@.push(callee@));
            },
            _ => {},
        }
    }

    fn visit_ty(&mut self, ty: &Ty) {
    }
}

/// Types leave the record of calls as it is.
pub proof fn lemma_calls_tys(r: Seq<CalleeView>, tys: Seq<Ty>)
    ensures
        walk_tys::<CallVisitor>(r, tys) == r,
    decreases tys.len(),
{
    if tys.len() > 0 {
        lemma_calls_tys(r, tys.drop_last());
    }
}

/// Statements leave the record of calls as it is.
pub proof fn lemma_calls_statements(r: Seq<CalleeView>, stmts: Seq<StatementView>)
    ensures
        walk_statements::<CallVisitor>(r, stmts) == r,
    decreases stmts.len(),
{
    if stmts.len() > 0 {
        lemma_calls_statements(r, stmts.drop_last());
        lemma_calls_tys(r, stmts.last().tys);
    }
}

/// A walk over blocks appends the callees of their call terminators.
pub proof fn lemma_calls_blocks(r: Seq<CalleeView>, blocks: Seq<BlockView>)
    ensures
        walk_blocks::<CallVisitor>(r, blocks) == r + calls_of(blocks),
    decreases blocks.len(),
{
    if blocks.len() == 0 {
        assert(r + calls_of(blocks) =~= r);
    } else {
        let front = blocks.drop_last();
        let last = blocks.last();
        lemma_calls_blocks(r, front);
        let prev = r + calls_of(front);
        lemma_calls_statements(prev, last.statements);
        let ended = CallVisitor::after_terminator(prev, last.terminator);
        lemma_calls_tys(ended, last.terminator.tys());
        assert(walk_block::<CallVisitor>(prev, last) == ended);
        assert(ended =~= r + calls_of(blocks));
    }
}

/// A walk from a fresh visitor records exactly the callees of the body's call
/// terminators, in block order.
pub proof fn lemma_walk_records_calls(body: BodyView)
    ensures
        walk_body::<CallVisitor>(Seq::empty(), body) == calls_of(body.blocks),
{
    lemma_calls_blocks(Seq::empty(), body.blocks);
    lemma_calls_tys(Seq::<CalleeView>::empty() + calls_of(body.blocks), local_tys(body.locals));
    assert(Seq::<CalleeView>::empty() + calls_of(body.blocks) =~= calls_of(body.blocks));
}

/// A callee is recorded exactly when some block ends in a call of it.
pub proof fn lemma_calls_of_blocks(blocks: Seq<BlockView>, callee: CalleeView)
    ensures
        calls_of(blocks).contains(callee) <==> exists|k: int|
            0 <= k < blocks.len() && callee_of(#[trigger] blocks[k].terminator) == Some(callee),
    decreases blocks.len(),
{
    if blocks.len() > 0 {
        let front = blocks.drop_last();
        lemma_calls_of_blocks(front, callee);
        if calls_of(blocks).contains(callee) {
            let t = choose|t: int| 0 <= t < calls_of(blocks).len() && calls_of(blocks)[t] == callee;
            if t < calls_of(front).len() {
                assert(calls_of(front)[t] == callee);
                assert(calls_of(front).contains(callee));
                let k = choose|k: int|
                    0 <= k < front.len() && callee_of(#[trigger] front[k].terminator) == Some(
                        callee,
                    );
                assert(callee_of(blocks[k].terminator) == Some(callee));
            } else {
                assert(callee_of(blocks[blocks.len() - 1].terminator) == Some(callee));
            }
        }
        if exists|k: int|
            0 <= k < blocks.len() && callee_of(#[trigger] blocks[k].terminator) == Some(callee) {
            let k = choose|k: int|
                0 <= k < blocks.len() && callee_of(#[trigger] blocks[k].terminator) == Some(callee);
            if k < front.len() {
                assert(callee_of(front[k].terminator) == Some(callee));
                let t = choose|t: int|
                    0 <= t < calls_of(front).len() && calls_of(front)[t] == callee;
                assert(calls_of(blocks)[t] == callee);
            } else {
                assert(calls_of(blocks)[calls_of(blocks).len() - 1] == callee);
            }
        }
    }
}

/// Walks the body with a fresh call visitor and returns what it recorded.
pub fn call_edges(body: &Body) -> (v: CallVisitor)
    ensures
        v@ == calls_of(body@.blocks),
{
    let mut v = CallVisitor::new();
    visit_body(&mut v, body);
    proof {
        lemma_walk_records_calls(body@);
    }
    v
}

} // verus!
