//! The typed representation of a compiled program, as far as the checks read it.
//!
//! Statements, terminators and types are opaque beyond value equality; a call
//! terminator additionally tells what stands in callee position.
use vstd::prelude::*;

verus! {

/// An interned type of the inspected program. Only its identity matters.
#[derive(Clone, Copy, Debug, PartialEq, Eq, Hash, Structural)]
pub struct Ty {
    pub id: u64,
}

/// A function definition, possibly generic.
#[derive(Clone, Copy, Debug, PartialEq, Eq, Hash, Structural)]
pub struct FnDef {
    pub id: u64,
}

/// A source location.
#[derive(Clone, Copy, Debug, PartialEq, Eq, Hash, Structural)]
pub struct Span {
    pub id: u64,
}

/// A typed storage slot of a body: the return slot, an argument or a temporary.
#[derive(Clone, Copy, Debug, PartialEq, Eq, Hash, Structural)]
pub struct LocalDecl {
    pub ty: Ty,
}

/// An atomic, non-branching operation. `code` identifies the operation and
/// `tys` lists the types that it mentions, in the order a traversal meets them.
#[derive(Debug, PartialEq, Eq)]
pub struct Statement {
    pub code: u64,
    pub tys: Vec<Ty>,
}

/// What stands in callee position of a call.
#[derive(Debug, PartialEq, Eq)]
pub enum Callee {
    /// A statically known function definition with its concrete type arguments.
    Function { def: FnDef, args: Vec<Ty> },
    /// A function pointer whose target is not known statically.
    Pointer,
    /// A value of some other type where a callable was expected.
    Other { ty: Ty },
}

/// The control transfer that ends a basic block.
#[derive(Debug, PartialEq, Eq)]
pub enum Terminator {
    /// A jump to the block at position `target`.
    Goto { target: usize },
    /// The return to the caller.
    Return,
    /// A call, with the types of its arguments.
    Call { callee: Callee, args: Vec<Ty> },
    /// Any other control transfer, with the types that it mentions.
    Other { code: u64, tys: Vec<Ty> },
}

/// Statements in order, followed by exactly one terminator.
#[derive(Debug, PartialEq, Eq)]
pub struct BasicBlock {
    pub statements: Vec<Statement>,
    pub terminator: Terminator,
}

/// The control-flow representation of one function.
#[derive(Debug, PartialEq, Eq)]
pub struct Body {
    pub blocks: Vec<BasicBlock>,
    pub locals: Vec<LocalDecl>,
}

/// Mathematical value of a [`Statement`].
pub struct StatementView {
    pub code: u64,
    pub tys: Seq<Ty>,
}

/// Mathematical value of a [`Callee`].
pub enum CalleeView {
    Function { def: FnDef, args: Seq<Ty> },
    Pointer,
    Other { ty: Ty },
}

/// Mathematical value of a [`Terminator`].
pub enum TerminatorView {
    Goto { target: usize },
    Return,
    Call { callee: CalleeView, args: Seq<Ty> },
    Other { code: u64, tys: Seq<Ty> },
}

/// Mathematical value of a [`BasicBlock`].
pub struct BlockView {
    pub statements: Seq<StatementView>,
    pub terminator: TerminatorView,
}

/// Mathematical value of a [`Body`].
pub struct BodyView {
    pub blocks: Seq<BlockView>,
    pub locals: Seq<LocalDecl>,
}

impl View for Statement {
    type V = StatementView;

    open spec fn view(&self) -> StatementView {
        StatementView { code: self.code, tys: self.tys@ }
    }
}

impl View for Callee {
    type V = CalleeView;

    open spec fn view(&self) -> CalleeView {
        match *self {
            Callee::Function { def, args } => CalleeView::Function { def, args: args@ },
            Callee::Pointer => CalleeView::Pointer,
            Callee::Other { ty } => CalleeView::Other { ty },
        }
    }
}

impl View for Terminator {
    type V = TerminatorView;

    open spec fn view(&self) -> TerminatorView {
        match *self {
            Terminator::Goto { target } => TerminatorView::Goto { target },
            Terminator::Return => TerminatorView::Return,
            Terminator::Call { callee, args } => TerminatorView::Call {
                callee: callee@,
                args: args@,
            },
            Terminator::Other { code, tys } => TerminatorView::Other { code, tys: tys@ },
        }
    }
}

/// The mathematical values of a list of statements.
pub open spec fn statement_views(stmts: Seq<Statement>) -> Seq<StatementView> {
    Seq::new(stmts.len(), |i: int| stmts[i]@)
}

/// The mathematical values of a list of terminators.
pub open spec fn terminator_views(terms: Seq<Terminator>) -> Seq<TerminatorView> {
    Seq::new(terms.len(), |i: int| terms[i]@)
}

/// The mathematical values of a list of blocks.
pub open spec fn block_views(blocks: Seq<BasicBlock>) -> Seq<BlockView> {
    Seq::new(blocks.len(), |i: int| blocks[i]@)
}

impl View for BasicBlock {
    type V = BlockView;

    open spec fn view(&self) -> BlockView {
        BlockView { statements: statement_views(self.statements@), terminator: self.terminator@ }
    }
}

impl View for Body {
    type V = BodyView;

    open spec fn view(&self) -> BodyView {
        BodyView { blocks: block_views(self.blocks@), locals: self.locals@ }
    }
}

impl CalleeView {
    /// The types that a traversal meets in callee position.
    pub open spec fn tys(self) -> Seq<Ty> {
        match self {
            CalleeView::Function { def, args } => args,
            CalleeView::Pointer => Seq::empty(),
            CalleeView::Other { ty } => seq![ty],
        }
    }
}

impl TerminatorView {
    /// The types that a traversal meets inside the terminator, in order.
    pub open spec fn tys(self) -> Seq<Ty> {
        match self {
            TerminatorView::Goto { target } => Seq::empty(),
            TerminatorView::Return => Seq::empty(),
            TerminatorView::Call { callee, args } => callee.tys() + args,
            TerminatorView::Other { code, tys } => tys,
        }
    }
}

impl BodyView {
    /// Every body has at least one basic block.
    pub open spec fn well_formed(self) -> bool {
        self.blocks.len() >= 1
    }
}

/// Value equality of two type lists.
pub fn same_tys(a: &Vec<Ty>, b: &Vec<Ty>) -> (r: bool)
    ensures
        r == (a@ == b@),
{
    if a.len() != b.len() {
        return false;
    }
    let mut i: usize = 0;
    while i < a.len()
        invariant
            i <= a.len(),
            a.len() == b.len(),
            forall|k: int| 0 <= k < i ==> a@[k] == b@[k],
        decreases a.len() - i,
    {
        if a[i] != b[i] {
            return false;
        }
        i += 1;
    }
    assert(a@ =~= b@);
    true
}

/// A fresh list holding the same types in the same order.
pub fn copy_tys(v: &Vec<Ty>) -> (r: Vec<Ty>)
    ensures
        r@ == v@,
{
    let mut r: Vec<Ty> = Vec::new();
    let mut i: usize = 0;
    while i < v.len()
        invariant
            i <= v.len(),
            r@ == v@.subrange(0, i as int),
        decreases v.len() - i,
    {
        r.push(v[i]);
        assert(r@ =~= v@.subrange(0, i + 1));
        i += 1;
    }
    assert(r@ =~= v@);
    r
}

impl Body {
    /// A body of the given blocks and locals; `None` when there is no block.
    pub fn new(blocks: Vec<BasicBlock>, locals: Vec<LocalDecl>) -> (body: Option<Body>)
        ensures
            match body {
                Some(b) => blocks@.len() >= 1 && b.blocks == blocks && b.locals == locals
                    && b@.well_formed(),
                None => blocks@.len() == 0,
            },
    {
        if blocks.len() == 0 {
            None
        } else {
            Some(Body { blocks, locals })
        }
    }
}

impl Statement {
    /// Value equality.
    pub fn same(&self, other: &Statement) -> (r: bool)
        ensures
            r == (self@ == other@),
    {
        self.code == other.code && same_tys(&self.tys, &other.tys)
    }
}

impl Clone for Statement {
    fn clone(&self) -> (r: Statement)
        ensures
            r@ == self@,
    {
        Statement { code: self.code, tys: copy_tys(&self.tys) }
    }
}

impl Callee {
    /// Value equality.
    pub fn same(&self, other: &Callee) -> (r: bool)
        ensures
            r == (self@ == other@),
    {
        match (self, other) {
            (Callee::Function { def: d1, args: a1 }, Callee::Function { def: d2, args: a2 }) => {
                *d1 == *d2 && same_tys(a1, a2)
            },
            (Callee::Pointer, Callee::Pointer) => true,
            (Callee::Other { ty: t1 }, Callee::Other { ty: t2 }) => *t1 == *t2,
            _ => false,
        }
    }
}

impl Clone for Callee {
    fn clone(&self) -> (r: Callee)
        ensures
            r@ == self@,
    {
        match self {
            Callee::Function { def, args } => Callee::Function { def: *def, args: copy_tys(args) },
            Callee::Pointer => Callee::Pointer,
            Callee::Other { ty } => Callee::Other { ty: *ty },
        }
    }
}

impl Terminator {
    /// Value equality.
    pub fn same(&self, other: &Terminator) -> (r: bool)
        ensures
            r == (self@ == other@),
    {
        match (self, other) {
            (Terminator::Goto { target: t1 }, Terminator::Goto { target: t2 }) => *t1 == *t2,
            (Terminator::Return, Terminator::Return) => true,
            (
                Terminator::Call { callee: c1, args: a1 },
                Terminator::Call { callee: c2, args: a2 },
            ) => c1.same(c2) && same_tys(a1, a2),
            (Terminator::Other { code: c1, tys: t1 }, Terminator::Other { code: c2, tys: t2 }) => {
                *c1 == *c2 && same_tys(t1, t2)
            },
            _ => false,
        }
    }
}

impl Clone for Terminator {
    fn clone(&self) -> (r: Terminator)
        ensures
            r@ == self@,
    {
        match self {
            Terminator::Goto { target } => Terminator::Goto { target: *target },
            Terminator::Return => Terminator::Return,
            Terminator::Call { callee, args } => Terminator::Call {
                callee: callee.clone(),
                args: copy_tys(args),
            },
            Terminator::Other { code, tys } => Terminator::Other {
                code: *code,
                tys: copy_tys(tys),
            },
        }
    }
}

/// A fresh list holding statements of the same values in the same order.
pub fn copy_statements(v: &Vec<Statement>) -> (r: Vec<Statement>)
    ensures
        statement_views(r@) == statement_views(v@),
{
    let mut r: Vec<Statement> = Vec::new();
    let mut i: usize = 0;
    while i < v.len()
        invariant
            i <= v.len(),
            r@.len() == i,
            forall|k: int| 0 <= k < i ==> r@[k]@ == v@[k]@,
        decreases v.len() - i,
    {
        r.push(v[i].clone());
        i += 1;
    }
    assert(statement_views(r@) =~= statement_views(v@));
    r
}

impl Clone for BasicBlock {
    fn clone(&self) -> (r: BasicBlock)
        ensures
            r@ == self@,
    {
        BasicBlock {
            statements: copy_statements(&self.statements),
            terminator: self.terminator.clone(),
        }
    }
}

impl Clone for Body {
    fn clone(&self) -> (r: Body)
        ensures
            r@ == self@,
    {
        let mut blocks: Vec<BasicBlock> = Vec::new();
        let mut i: usize = 0;
        while i < self.blocks.len()
            invariant
                i <= self.blocks.len(),
                blocks@.len() == i,
                forall|k: int| 0 <= k < i ==> blocks@[k]@ == self.blocks@[k]@,
            decreases self.blocks.len() - i,
        {
            blocks.push(self.blocks[i].clone());
            i += 1;
        }
        let mut locals: Vec<LocalDecl> = Vec::new();
        let mut k: usize = 0;
        while k < self.locals.len()
            invariant
                k <= self.locals.len(),
                locals@ == self.locals@.subrange(0, k as int),
            decreases self.locals.len() - k,
        {
            locals.push(self.locals[k]);
            assert(locals@ =~= self.locals@.subrange(0, k + 1));
            k += 1;
        }
        assert(locals@ =~= self.locals@);
        assert(block_views(blocks@) =~= block_views(self.blocks@));
        Body { blocks, locals }
    }
}

} // verus!
