//! The comparison of what a visitor recorded of a body with what the body
//! itself reports, and the description of the first disagreement.
use vstd::prelude::*;
use vstd::string::StringExecFns;
use crate::ir::{
    statement_views, BasicBlock, BlockView, Body, BodyView, Statement, StatementView, Terminator,
    TerminatorView,
};
use crate::render::{describe_ty, statement_text, terminator_text, ty_text};
use crate::sanity_checks::{check_equal, mismatch_text, TestResult};
use crate::snapshot::{BodyVisitor, Snapshot};
use crate::text::{count_string, decimal};
use crate::visit::local_tys;

verus! {

/// What a visitor recorded agrees with what the body reports: one statement
/// group and one terminator per block, each equal to the block's own, and the
/// declared type of every local among the types seen.
pub open spec fn consistent(body: BodyView, seen: Snapshot) -> bool {
    &&& seen.statements.len() == body.blocks.len()
    &&& seen.terminators.len() == body.blocks.len()
    &&& forall|i: int|
        0 <= i < body.blocks.len() ==> #[trigger] seen.statements[i] == body.blocks[i].statements
    &&& forall|i: int|
        0 <= i < body.blocks.len() ==> #[trigger] seen.terminators[i] == body.blocks[i].terminator
    &&& forall|k: int|
        0 <= k < body.locals.len() ==> seen.types.contains(#[trigger] body.locals[k].ty)
}

/// The start of every report about a function.
pub open spec fn function_label(name: Seq<char>) -> Seq<char> {
    "Function `"@ + name + "`: "@
}

/// The start of every report about one block of a function.
pub open spec fn block_label(name: Seq<char>, block: int) -> Seq<char> {
    function_label(name) + "Block "@ + decimal(block as nat) + ": "@
}

/// The first position from `from` on at which the two lists differ, or the
/// length of `a` when there is none.
pub open spec fn first_difference(a: Seq<StatementView>, b: Seq<StatementView>, from: int) -> int
    decreases a.len() - from,
{
    if from >= a.len() {
        a.len() as int
    } else if a[from] != b[from] {
        from
    } else {
        first_difference(a, b, from + 1)
    }
}

/// What is wrong with the record of one block, if anything: the number of its
/// statements, else its first differing statement, else its terminator. The
/// block's own value is what was expected, the recorded one what was found.
pub open spec fn block_fault(
    name: Seq<char>,
    index: int,
    block: BlockView,
    stmts: Seq<StatementView>,
    term: TerminatorView,
) -> Option<Seq<char>> {
    let at = first_difference(block.statements, stmts, 0);
    if block.statements.len() != stmts.len() {
        Some(
            mismatch_text(
                block_label(name, index) + "Visited statements"@,
                decimal(block.statements.len()),
                decimal(stmts.len()),
            ),
        )
    } else if at < block.statements.len() {
        Some(
            mismatch_text(
                block_label(name, index) + "Visited statement"@,
                statement_text(block.statements[at]),
                statement_text(stmts[at]),
            ),
        )
    } else if block.terminator != term {
        Some(
            mismatch_text(
                block_label(name, index) + "Terminator"@,
                terminator_text(block.terminator),
                terminator_text(term),
            ),
        )
    } else {
        None
    }
}

/// The fault of the first block from `from` on that has one.
pub open spec fn first_block_fault(name: Seq<char>, body: BodyView, seen: Snapshot, from: int)
    -> Option<Seq<char>>
    decreases body.blocks.len() - from,
{
    if from >= body.blocks.len() {
        None
    } else {
        match block_fault(
            name,
            from,
            body.blocks[from],
            seen.statements[from],
            seen.terminators[from],
        ) {
            Some(fault) => Some(fault),
            None => first_block_fault(name, body, seen, from + 1),
        }
    }
}

/// The first local from `from` on whose declared type was not seen, or the
/// number of locals when there is none.
pub open spec fn first_unseen_local(body: BodyView, seen: Snapshot, from: int) -> int
    decreases body.locals.len() - from,
{
    if from >= body.locals.len() {
        body.locals.len() as int
    } else if !seen.types.contains(body.locals[from].ty) {
        from
    } else {
        first_unseen_local(body, seen, from + 1)
    }
}

/// The report of the first disagreement between record and body, in the order
/// in which they are compared: the number of statement groups, the number of
/// terminators, the blocks in order, the locals in order. What the body
/// reports is what was expected, what was recorded is what was found.
pub open spec fn first_fault(name: Seq<char>, body: BodyView, seen: Snapshot) -> Option<Seq<char>> {
    let missing = first_unseen_local(body, seen, 0);
    if seen.statements.len() != body.blocks.len() {
        Some(
            mismatch_text(
                function_label(name) + "Unexpected visited BB statements"@,
                decimal(body.blocks.len()),
                decimal(seen.statements.len()),
            ),
        )
    } else if seen.terminators.len() != body.blocks.len() {
        Some(
            mismatch_text(
                function_label(name) + "Visited terminals"@,
                decimal(body.blocks.len()),
                decimal(seen.terminators.len()),
            ),
        )
    } else if first_block_fault(name, body, seen, 0) is Some {
        first_block_fault(name, body, seen, 0)
    } else if missing < body.locals.len() {
        Some(function_label(name) + "Missing type `"@ + ty_text(body.locals[missing].ty) + "`"@)
    } else {
        None
    }
}

/// Writes the start of a report about a function.
pub fn function_prefix(name: &str) -> (s: String)
    ensures
        s@ == function_label(name@),
{
    let mut s = String::from_str("Function `");
    s.append(name);
    s.append("`: ");
    s
}

/// Writes the start of a report about one block, followed by `what`.
fn block_message(name: &str, block: usize, what: &str) -> (s: String)
    ensures
        s@ == block_label(name@, block as int) + what@,
{
    let mut s = function_prefix(name);
    s.append("Block ");
    s.append(count_string(block).as_str());
    s.append(": ");
    s.append(what);
    s
}

/// Compares the record of one block with the block itself.
fn compare_block(
    name: &str,
    index: usize,
    block: &BasicBlock,
    seen_statements: &Vec<Statement>,
    seen_terminator: &Terminator,
) -> (res: TestResult)
    ensures
        match res {
            Ok(_) => block_fault(
                name@,
                index as int,
                block@,
                statement_views(seen_statements@),
                seen_terminator@,
            ) is None,
            Err(m) => block_fault(
                name@,
                index as int,
                block@,
                statement_views(seen_statements@),
                seen_terminator@,
            ) == Some(m@),
        },
{
    let ghost got = statement_views(seen_statements@);
    let counted = check_equal(
        &seen_statements.len(),
        &block.statements.len(),
        block_message(name, index, "Visited statements").as_str(),
    );
    if counted.is_err() {
        return counted;
    }
    let mut j: usize = 0;
    while j < block.statements.len()
        invariant
            j <= block.statements.len(),
            block.statements.len() == seen_statements.len(),
            got == statement_views(seen_statements@),
            first_difference(block@.statements, got, 0) == first_difference(
                block@.statements,
                got,
                j as int,
            ),
        decreases block.statements.len() - j,
    {
        let compared = check_equal(
            &seen_statements[j],
            &block.statements[j],
            block_message(name, index, "Visited statement").as_str(),
        );
        if compared.is_err() {
            return compared;
        }
        j += 1;
    }
    check_equal(
        seen_terminator,
        &block.terminator,
        block_message(name, index, "Terminator").as_str(),
    )
}

/// Compares what a visitor recorded of a body with the body itself, and
/// reports the first disagreement.
pub fn compare(name: &str, body: &Body, seen: &BodyVisitor) -> (res: TestResult)
    ensures
        match res {
            Ok(_) => first_fault(name@, body@, seen@) is None,
            Err(m) => first_fault(name@, body@, seen@) == Some(m@),
        },
        res is Ok <==> consistent(body@, seen@),
{
    let mut groups = function_prefix(name);
    groups.append("Unexpected visited BB statements");
    let counted = check_equal(&seen.statements.len(), &body.blocks.len(), groups.as_str());
    if counted.is_err() {
        return counted;
    }
    let mut terminals = function_prefix(name);
    terminals.append("Visited terminals");
    let counted = check_equal(&seen.terminators.len(), &body.blocks.len(), terminals.as_str());
    if counted.is_err() {
        return counted;
    }
    let mut i: usize = 0;
    while i < body.blocks.len()
        invariant
            i <= body.blocks.len(),
            seen.statements.len() == body.blocks.len(),
            seen.terminators.len() == body.blocks.len(),
            first_block_fault(name@, body@, seen@, 0) == first_block_fault(
                name@,
                body@,
                seen@,
                i as int,
            ),
            forall|b: int|
                0 <= b < i ==> #[trigger] seen@.statements[b] == body@.blocks[b].statements,
            forall|b: int|
                0 <= b < i ==> #[trigger] seen@.terminators[b] == body@.blocks[b].terminator,
        decreases body.blocks.len() - i,
    {
        let compared = compare_block(
            name,
            i,
            &body.blocks[i],
            &seen.statements[i],
            &seen.terminators[i],
        );
        proof {
            lemma_block_fault_differs(
                name@,
                i as int,
                body@.blocks[i as int],
                seen@.statements[i as int],
                seen@.terminators[i as int],
            );
        }
        if compared.is_err() {
            return compared;
        }
        i += 1;
    }
    let mut k: usize = 0;
    while k < body.locals.len()
        invariant
            k <= body.locals.len(),
            seen.statements.len() == body.blocks.len(),
            seen.terminators.len() == body.blocks.len(),
            first_block_fault(name@, body@, seen@, 0) is None,
            forall|b: int|
                0 <= b < body.blocks.len() ==> #[trigger] seen@.statements[b]
                    == body@.blocks[b].statements,
            forall|b: int|
                0 <= b < body.blocks.len() ==> #[trigger] seen@.terminators[b]
                    == body@.blocks[b].terminator,
            first_unseen_local(body@, seen@, 0) == first_unseen_local(body@, seen@, k as int),
            forall|l: int| 0 <= l < k ==> seen@.types.contains(#[trigger] body@.locals[l].ty),
        decreases body.locals.len() - k,
    {
        let ty = body.locals[k].ty;
        if !seen.has_type(ty) {
            let mut s = function_prefix(name);
            s.append("Missing type `");
            s.append(describe_ty(ty).as_str());
            s.append("`");
            return Err(s);
        }
        k += 1;
    }
    Ok(())
}

/// A block's record has a fault exactly when it differs from the block.
pub proof fn lemma_block_fault_differs(
    name: Seq<char>,
    index: int,
    block: BlockView,
    stmts: Seq<StatementView>,
    term: TerminatorView,
)
    ensures
        block_fault(name, index, block, stmts, term) is None <==> (block.statements == stmts
            && block.terminator == term),
{
    if block.statements.len() == stmts.len() {
        lemma_first_difference(block.statements, stmts, 0);
        let at = first_difference(block.statements, stmts, 0);
        if at >= block.statements.len() {
            assert(block.statements =~= stmts);
        }
    }
}

/// `first_difference` finds a differing position, and none lies before it.
pub proof fn lemma_first_difference(a: Seq<StatementView>, b: Seq<StatementView>, from: int)
    requires
        a.len() == b.len(),
        0 <= from <= a.len(),
    ensures
        from <= first_difference(a, b, from) <= a.len(),
        first_difference(a, b, from) < a.len() ==> a[first_difference(a, b, from)]
            != b[first_difference(a, b, from)],
        forall|j: int| from <= j < first_difference(a, b, from) ==> a[j] == b[j],
    decreases a.len() - from,
{
    if from < a.len() && a[from] == b[from] {
        lemma_first_difference(a, b, from + 1);
    }
}

/// What a body reports of itself is consistent with the body: so a record
/// that equals it passes the comparison.
pub proof fn lemma_own_record_consistent(body: BodyView)
    ensures
        consistent(body, Snapshot::of(body)),
{
    assert forall|k: int| 0 <= k < body.locals.len() implies Snapshot::of(body).types.contains(
        #[trigger] body.locals[k].ty,
    ) by {
        assert(local_tys(body.locals)[k] == body.locals[k].ty);
    }
}

} // verus!
