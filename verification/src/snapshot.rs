//! The observer that records a full structural snapshot of a body, and what a
//! walk leaves in it.
use std::collections::HashSet;
use vstd::prelude::*;
use crate::ir::{
    statement_views, terminator_views, BasicBlock, BlockView, Body, BodyView, Statement,
    StatementView, Terminator, TerminatorView, Ty,
};
use crate::visit::{
    local_tys, visit_body, walk_block, walk_blocks, walk_body, walk_statement, walk_statements,
    walk_terminator, walk_tys, Visitor,
};

verus! {

/// Records, per walk, the statements of each block as one group, the
/// terminators in block order, and every type that was seen.
#[derive(Debug)]
pub struct BodyVisitor {
    pub statements: Vec<Vec<Statement>>,
    pub terminators: Vec<Terminator>,
    /// The identities of the types seen.
    pub types: HashSet<u64>,
}

/// Mathematical value of a [`BodyVisitor`].
pub struct Snapshot {
    pub statements: Seq<Seq<StatementView>>,
    pub terminators: Seq<TerminatorView>,
    pub types: Set<Ty>,
}

/// The mathematical values of a list of statement groups.
pub open spec fn group_views(groups: Seq<Vec<Statement>>) -> Seq<Seq<StatementView>> {
    Seq::new(groups.len(), |i: int| statement_views(groups[i]@))
}

/// The types whose identities are in `ids`.
pub open spec fn tys_of(ids: Set<u64>) -> Set<Ty> {
    Set::new(|ty: Ty| ids.contains(ty.id))
}

impl View for BodyVisitor {
    type V = Snapshot;

    open spec fn view(&self) -> Snapshot {
        Snapshot {
            statements: group_views(self.statements@),
            terminators: terminator_views(self.terminators@),
            types: tys_of(self.types@),
        }
    }
}

impl Snapshot {
    /// The snapshot of a walk that has not started.
    pub open spec fn empty() -> Snapshot {
        Snapshot { statements: Seq::empty(), terminators: Seq::empty(), types: Set::empty() }
    }

    /// What the body itself reports: per block its statements and its
    /// terminator, and every type that the body mentions.
    pub open spec fn of(body: BodyView) -> Snapshot {
        Snapshot {
            statements: Seq::new(body.blocks.len(), |i: int| body.blocks[i].statements),
            terminators: Seq::new(body.blocks.len(), |i: int| body.blocks[i].terminator),
            types: Set::new(|ty: Ty| body_mentions(body, ty)),
        }
    }
}

/// Some statement of the list mentions the type.
pub open spec fn statements_mention(stmts: Seq<StatementView>, ty: Ty) -> bool {
    exists|j: int| 0 <= j < stmts.len() && #[trigger] stmts[j].tys.contains(ty)
}

/// A statement of the block or its terminator mentions the type.
pub open spec fn block_mentions(block: BlockView, ty: Ty) -> bool {
    statements_mention(block.statements, ty) || block.terminator.tys().contains(ty)
}

/// Some block of the list mentions the type.
pub open spec fn blocks_mention(blocks: Seq<BlockView>, ty: Ty) -> bool {
    exists|i: int| 0 <= i < blocks.len() && #[trigger] block_mentions(blocks[i], ty)
}

/// The type occurs in the body: in a block, or as the declared type of a local.
pub open spec fn body_mentions(body: BodyView, ty: Ty) -> bool {
    blocks_mention(body.blocks, ty) || local_tys(body.locals).contains(ty)
}

impl BodyVisitor {
    /// A visitor that has seen nothing.
    pub fn new() -> (v: BodyVisitor)
        ensures
            v@ == Snapshot::empty(),
    {
        let v = BodyVisitor {
            statements: Vec::new(),
            terminators: Vec::new(),
            types: HashSet::new(),
        };
        assert(v@.statements =~= Seq::empty());
        assert(v@.terminators =~= Seq::empty());
        assert(v@.types =~= Set::empty());
        v
    }

    /// Whether the type was seen.
    pub fn has_type(&self, ty: Ty) -> (r: bool)
        ensures
            r == self@.types.contains(ty),
    {
        self.types.contains(&ty.id)
    }
}

impl Visitor for BodyVisitor {
    type Record = Snapshot;

    open spec fn record(&self) -> Snapshot {
        self@
    }

    open spec fn between_blocks(r: Snapshot) -> bool {
        r.statements.len() == r.terminators.len()
    }

    open spec fn inside_block(r: Snapshot) -> bool {
        r.statements.len() == r.terminators.len() + 1
    }

    open spec fn after_block(r: Snapshot, block: BlockView) -> Snapshot {
        Snapshot { statements: r.statements.push(Seq::empty()), ..r }
    }

    open spec fn after_statement(r: Snapshot, stmt: StatementView) -> Snapshot {
        if r.statements.len() > 0 {
            Snapshot {
                statements: r.statements.drop_last().push(r.statements.last().push(stmt)),
                ..r
            }
        } else {
            r
        }
    }

    open spec fn after_terminator(r: Snapshot, term: TerminatorView) -> Snapshot {
        Snapshot { terminators: r.terminators.push(term), ..r }
    }

    open spec fn after_ty(r: Snapshot, ty: Ty) -> Snapshot {
        Snapshot { types: r.types.insert(ty), ..r }
    }

    fn visit_basic_block(&mut self, block: &BasicBlock) {
        self.statements.push(Vec::new());
        proof {
            let want = old(self)@.statements.push(Seq::empty());
            assert forall|i: int| 0 <= i < want.len() implies self@.statements[i] == want[i] by {
                if i < want.len() - 1 {
                    assert(self.statements@[i] == old(self).statements@[i]);
                } else {
                    assert(statement_views(self.statements@[i]@) =~= Seq::empty());
                }
            }
            assert(self@.statements =~= want);
        }
    }

    fn visit_statement(&mut self, stmt: &Statement) {
        let ghost before = self.statements@;
        let mut group = self.statements.pop().unwrap();
        let ghost open_group = group@;
        group.push(stmt.clone());
        let ghost grown = group@;
        self.statements.push(group);
        proof {
            let want = old(self)@.statements.drop_last().push(
                old(self)@.statements.last().push(stmt@),
            );
            assert(statement_views(grown) =~= statement_views(open_group).push(stmt@));
            assert(self@.statements.len() == want.len());
            assert forall|i: int| 0 <= i < want.len() implies self@.statements[i] == want[i] by {
                if i < want.len() - 1 {
                    assert(self.statements@[i] == before[i]);
                } else {
                    assert(self.statements@[i]@ == grown);
                    assert(old(self)@.statements.last() == statement_views(open_group));
                }
            }
            assert(self@.statements =~= want);
        }
    }

    fn visit_terminator(&mut self, term: &Terminator) {
        self.terminators.push(term.clone());
        assert(self@.terminators =~= old(self)@.terminators.push(term@));
    }

    fn visit_ty(&mut self, ty: &Ty) {
        self.types.insert(ty.id);
        assert(self@.types =~= old(self)@.types.insert(*ty));
    }
}

/// Seeing types only adds them to the set of types.
pub proof fn lemma_snapshot_tys(r: Snapshot, tys: Seq<Ty>)
    ensures
        walk_tys::<BodyVisitor>(r, tys).statements == r.statements,
        walk_tys::<BodyVisitor>(r, tys).terminators == r.terminators,
        forall|ty: Ty|
            #[trigger] walk_tys::<BodyVisitor>(r, tys).types.contains(ty) <==> (r.types.contains(ty)
                || tys.contains(ty)),
    decreases tys.len(),
{
    if tys.len() > 0 {
        lemma_snapshot_tys(r, tys.drop_last());
        assert forall|ty: Ty|
            #[trigger] walk_tys::<BodyVisitor>(r, tys).types.contains(ty) <==> (r.types.contains(ty)
                || tys.contains(ty)) by {
            if tys.drop_last().contains(ty) {
                let k = choose|k: int| 0 <= k < tys.drop_last().len() && tys.drop_last()[k] == ty;
                assert(tys[k] == ty);
            }
            if tys.contains(ty) {
                let k = choose|k: int| 0 <= k < tys.len() && tys[k] == ty;
                if k < tys.len() - 1 {
                    assert(tys.drop_last()[k] == ty);
                }
            }
            assert(tys.last() == tys[tys.len() - 1]);
        }
    }
}

/// Statements go to the open group, in order, and their types to the set.
pub proof fn lemma_snapshot_statements(r: Snapshot, stmts: Seq<StatementView>)
    requires
        r.statements.len() > 0,
    ensures
        walk_statements::<BodyVisitor>(r, stmts).statements == r.statements.drop_last().push(
            r.statements.last() + stmts,
        ),
        walk_statements::<BodyVisitor>(r, stmts).terminators == r.terminators,
        forall|ty: Ty|
            #[trigger] walk_statements::<BodyVisitor>(r, stmts).types.contains(ty) <==> (
            r.types.contains(ty) || statements_mention(stmts, ty)),
    decreases stmts.len(),
{
    if stmts.len() == 0 {
        assert(r.statements.last() + stmts =~= r.statements.last());
        assert(r.statements.drop_last().push(r.statements.last()) =~= r.statements);
    } else {
        let front = stmts.drop_last();
        lemma_snapshot_statements(r, front);
        let prev = walk_statements::<BodyVisitor>(r, front);
        let seen = BodyVisitor::after_statement(prev, stmts.last());
        lemma_snapshot_tys(seen, stmts.last().tys);
        let now = walk_statements::<BodyVisitor>(r, stmts);
        assert(now == walk_statement::<BodyVisitor>(prev, stmts.last()));
        assert(prev.statements.last() == r.statements.last() + front);
        assert(prev.statements.drop_last() =~= r.statements.drop_last());
        assert((r.statements.last() + front).push(stmts.last()) =~= r.statements.last() + stmts);
        assert forall|ty: Ty|
            #[trigger] now.types.contains(ty) <==> (r.types.contains(ty) || statements_mention(
                stmts,
                ty,
            )) by {
            if statements_mention(front, ty) {
                let j = choose|j: int| 0 <= j < front.len() && #[trigger] front[j].tys.contains(ty);
                assert(stmts[j].tys.contains(ty));
            }
            if stmts.last().tys.contains(ty) {
                assert(stmts[stmts.len() - 1].tys.contains(ty));
            }
            if statements_mention(stmts, ty) {
                let j = choose|j: int| 0 <= j < stmts.len() && #[trigger] stmts[j].tys.contains(ty);
                if j < stmts.len() - 1 {
                    assert(front[j].tys.contains(ty));
                }
            }
        }
    }
}

/// A block adds one group with its statements, its terminator, and the types
/// that it mentions.
pub proof fn lemma_snapshot_block(r: Snapshot, block: BlockView)
    ensures
        walk_block::<BodyVisitor>(r, block).statements == r.statements.push(block.statements),
        walk_block::<BodyVisitor>(r, block).terminators == r.terminators.push(block.terminator),
        forall|ty: Ty|
            #[trigger] walk_block::<BodyVisitor>(r, block).types.contains(ty) <==> (
            r.types.contains(ty) || block_mentions(block, ty)),
{
    let entered = BodyVisitor::after_block(r, block);
    lemma_snapshot_statements(entered, block.statements);
    let filled = walk_statements::<BodyVisitor>(entered, block.statements);
    let ended = BodyVisitor::after_terminator(filled, block.terminator);
    lemma_snapshot_tys(ended, block.terminator.tys());
    assert(entered.statements.drop_last() =~= r.statements);
    assert(Seq::<StatementView>::empty() + block.statements =~= block.statements);
    assert(walk_block::<BodyVisitor>(r, block) == walk_terminator::<BodyVisitor>(
        filled,
        block.terminator,
    ));
}

/// Blocks add their groups, terminators and types in declaration order.
pub proof fn lemma_snapshot_blocks(r: Snapshot, blocks: Seq<BlockView>)
    ensures
        walk_blocks::<BodyVisitor>(r, blocks).statements == r.statements + Seq::new(
            blocks.len(),
            |i: int| blocks[i].statements,
        ),
        walk_blocks::<BodyVisitor>(r, blocks).terminators == r.terminators + Seq::new(
            blocks.len(),
            |i: int| blocks[i].terminator,
        ),
        forall|ty: Ty|
            #[trigger] walk_blocks::<BodyVisitor>(r, blocks).types.contains(ty) <==> (
            r.types.contains(ty) || blocks_mention(blocks, ty)),
    decreases blocks.len(),
{
    let now = walk_blocks::<BodyVisitor>(r, blocks);
    if blocks.len() == 0 {
        assert(now.statements =~= r.statements + Seq::new(
            blocks.len(),
            |i: int| blocks[i].statements,
        ));
        assert(now.terminators =~= r.terminators + Seq::new(
            blocks.len(),
            |i: int| blocks[i].terminator,
        ));
    } else {
        let front = blocks.drop_last();
        lemma_snapshot_blocks(r, front);
        let prev = walk_blocks::<BodyVisitor>(r, front);
        lemma_snapshot_block(prev, blocks.last());
        assert(now.statements =~= r.statements + Seq::new(
            blocks.len(),
            |i: int| blocks[i].statements,
        ));
        assert(now.terminators =~= r.terminators + Seq::new(
            blocks.len(),
            |i: int| blocks[i].terminator,
        ));
        assert forall|ty: Ty|
            #[trigger] now.types.contains(ty) <==> (r.types.contains(ty) || blocks_mention(
                blocks,
                ty,
            )) by {
            if blocks_mention(front, ty) {
                let i = choose|i: int|
                    0 <= i < front.len() && #[trigger] block_mentions(front[i], ty);
                assert(block_mentions(blocks[i], ty));
            }
            if block_mentions(blocks.last(), ty) {
                assert(block_mentions(blocks[blocks.len() - 1], ty));
            }
            if blocks_mention(blocks, ty) {
                let i = choose|i: int|
                    0 <= i < blocks.len() && #[trigger] block_mentions(blocks[i], ty);
                if i < blocks.len() - 1 {
                    assert(block_mentions(front[i], ty));
                }
            }
        }
    }
}

/// A walk from a fresh visitor records exactly what the body itself reports:
/// one statement group and one terminator per block, in block order and equal
/// to the block's own, and every type that the body mentions.
pub proof fn lemma_walk_records_body(body: BodyView)
    ensures
        walk_body::<BodyVisitor>(Snapshot::empty(), body) == Snapshot::of(body),
{
    let start = Snapshot::empty();
    lemma_snapshot_blocks(start, body.blocks);
    let walked = walk_blocks::<BodyVisitor>(start, body.blocks);
    lemma_snapshot_tys(walked, local_tys(body.locals));
    let done = walk_body::<BodyVisitor>(start, body);
    assert(done.statements =~= Snapshot::of(body).statements);
    assert(done.terminators =~= Snapshot::of(body).terminators);
    assert(done.types =~= Snapshot::of(body).types);
}

/// Two walks over the same body, each from a fresh visitor, record the same:
/// as many terminators and as many statement groups as the body has blocks.
pub proof fn lemma_walk_repeats(first: BodyVisitor, second: BodyVisitor, body: BodyView)
    requires
        first@ == walk_body::<BodyVisitor>(Snapshot::empty(), body),
        second@ == walk_body::<BodyVisitor>(Snapshot::empty(), body),
    ensures
        first@ == second@,
        first@.terminators.len() == body.blocks.len(),
        first@.statements.len() == body.blocks.len(),
{
    lemma_walk_records_body(body);
}

/// The declared type of every local is among the types that a walk records,
/// whether or not a statement or terminator mentions it.
pub proof fn lemma_local_types_covered(body: BodyView, local: int)
    requires
        0 <= local < body.locals.len(),
    ensures
        walk_body::<BodyVisitor>(Snapshot::empty(), body).types.contains(body.locals[local].ty),
{
    lemma_walk_records_body(body);
    assert(local_tys(body.locals)[local] == body.locals[local].ty);
}

/// Walks the body with a fresh visitor and returns what it recorded.
pub fn snapshot(body: &Body) -> (v: BodyVisitor)
    ensures
        v@ == Snapshot::of(body@),
{
    let mut v = BodyVisitor::new();
    visit_body(&mut v, body);
    proof {
        lemma_walk_records_body(body@);
    }
    v
}

} // verus!
