//! A small analysis of one instance: the types that its body mentions and the
//! instances that it calls directly.
use std::collections::HashSet;
use vstd::prelude::*;
use crate::ir::{Callee, FnDef, Ty};
use crate::program::{lemma_first_with_key, Instance, Program};
use crate::calls::{call_edges, callee_of, calls_of, lemma_calls_of_blocks};
use crate::driver::{CompilerOutcome, FatalSetupError};
use crate::reach::{calls, enters, lemma_calls_known, target_of};
use crate::snapshot::{body_mentions, snapshot, tys_of};

verus! {

/// What the analysis of one instance found.
#[derive(Debug)]
pub struct Analysis {
    /// The identities of the types that the body mentions.
    pub types: HashSet<u64>,
    /// The instances that the body calls directly, each once, in the order of
    /// the instance table.
    pub fn_calls: Vec<Instance>,
}

/// The analysis holds exactly the types that the body of the instance
/// mentions and exactly the instances that it calls, in rising order.
pub open spec fn analysed(program: Program, instance: Instance, analysis: Analysis) -> bool {
    &&& forall|ty: Ty|
        #[trigger] tys_of(analysis.types@).contains(ty) <==> body_mentions(
            program.instances@[instance.index as int].body->0@,
            ty,
        )
    &&& forall|to: Instance|
        #[trigger] analysis.fn_calls@.contains(to) <==> calls(program, instance, to)
    &&& forall|i: int, j: int|
        0 <= i < j < analysis.fn_calls@.len() ==> analysis.fn_calls@[i].index
            < analysis.fn_calls@[j].index
}

/// Analyses the body of an instance. Returns `None` for an instance without a
/// body and for a handle that is not of this program. A call through a
/// function pointer, and a callee that does not resolve, are left out of the
/// calls.
pub fn analyze_instance(program: &Program, instance: Instance) -> (found: Option<Analysis>)
    ensures
        found is Some <==> program.knows(instance) && program.instances@[instance.index as int].body
            is Some,
        found matches Some(analysis) ==> analysed(*program, instance, analysis),
{
    let Some(body) = program.body_of(instance) else {
        return None;
    };
    let seen = snapshot(body);
    let edges = call_edges(body);
    let n = program.instances.len();
    let mut called: Vec<bool> = Vec::new();
    while called.len() < n
        invariant
            called.len() <= n,
            forall|k: int| 0 <= k < called.len() ==> !called@[k],
        decreases n - called.len(),
    {
        called.push(false);
    }
    let mut t: usize = 0;
    while t < edges.calls.len()
        invariant
            t <= edges.calls.len(),
            n == program.instances@.len(),
            called@.len() == n,
            forall|k: int|
                0 <= k < n ==> (#[trigger] called@[k] <==> exists|s: int|
                    0 <= s < t && target_of(*program, #[trigger] edges@[s]) == Some(
                        Instance { index: k as usize },
                    )),
        decreases edges.calls.len() - t,
    {
        let ghost before = called@;
        match &edges.calls[t] {
            Callee::Function { def, args } => {
                match program.resolve(*def, args) {
                    Ok(to) => {
                        called.set(to.index, true);
                    },
                    Err(_) => {},
                }
            },
            _ => {},
        }
        proof {
            assert forall|k: int| 0 <= k < n implies (#[trigger] called@[k] <==> exists|s: int|
                0 <= s < t + 1 && target_of(*program, #[trigger] edges@[s]) == Some(
                    Instance { index: k as usize },
                )) by {
                let to = Instance { index: k as usize };
                if before[k] {
                    let s = choose|s: int|
                        0 <= s < t && target_of(*program, #[trigger] edges@[s]) == Some(to);
                    assert(0 <= s < t + 1 && target_of(*program, edges@[s]) == Some(to));
                }
                if exists|s: int|
                    0 <= s < t + 1 && target_of(*program, #[trigger] edges@[s]) == Some(to) {
                    let s = choose|s: int|
                        0 <= s < t + 1 && target_of(*program, #[trigger] edges@[s]) == Some(to);
                    if s < t {
                        assert(before[k]);
                    }
                }
                if target_of(*program, edges@[t as int]) == Some(to) {
                    assert(called@[k]);
                }
            }
        }
        t += 1;
    }
    let mut fn_calls: Vec<Instance> = Vec::new();
    let mut k: usize = 0;
    while k < n
        invariant
            k <= n,
            n == called@.len(),
            forall|i: int| 0 <= i < fn_calls@.len() ==> (#[trigger] fn_calls@[i]).index < k,
            forall|i: int, j: int|
                0 <= i < j < fn_calls@.len() ==> fn_calls@[i].index < fn_calls@[j].index,
            forall|i: int|
                0 <= i < fn_calls@.len() ==> called@[(#[trigger] fn_calls@[i]).index as int],
            forall|v: int|
                0 <= v < k && #[trigger] called@[v] ==> fn_calls@.contains(
                    Instance { index: v as usize },
                ),
        decreases n - k,
    {
        if called[k] {
            let ghost before = fn_calls@;
            fn_calls.push(Instance { index: k });
            proof {
                assert(fn_calls@[before.len() as int] == Instance { index: k });
                assert forall|v: int|
                    0 <= v < k + 1 && #[trigger] called@[v] implies fn_calls@.contains(
                    Instance { index: v as usize },
                ) by {
                    if v < k {
                        let i = choose|i: int|
                            0 <= i < before.len() && before[i] == (Instance { index: v as usize });
                        assert(fn_calls@[i] == before[i]);
                    }
                }
            }
        }
        k += 1;
    }
    proof {
        assert forall|to: Instance| #[trigger] fn_calls@.contains(to) <==> calls(
            *program,
            instance,
            to,
        ) by {
            if fn_calls@.contains(to) {
                let i = choose|i: int| 0 <= i < fn_calls@.len() && fn_calls@[i] == to;
                assert(called@[to.index as int]);
                let s = choose|s: int|
                    0 <= s < edges@.len() && target_of(*program, #[trigger] edges@[s]) == Some(
                        Instance { index: to.index as int as usize },
                    );
                lemma_calls_of_blocks(body@.blocks, edges@[s]);
                assert(calls_of(body@.blocks).contains(edges@[s]));
                let b = choose|b: int|
                    0 <= b < body@.blocks.len() && callee_of(#[trigger] body@.blocks[b].terminator)
                        == Some(edges@[s]);
                assert(enters(*program, body@.blocks[b].terminator) == Some(to));
            }
            if calls(*program, instance, to) {
                lemma_calls_known(*program, instance, to);
                let b = choose|b: int|
                    0 <= b < body@.blocks.len() && #[trigger] enters(
                        *program,
                        body@.blocks[b].terminator,
                    ) == Some(to);
                let callee = callee_of(body@.blocks[b].terminator)->Some_0;
                lemma_calls_of_blocks(body@.blocks, callee);
                let s = choose|s: int| 0 <= s < edges@.len() && edges@[s] == callee;
                assert(target_of(*program, edges@[s]) == Some(
                    Instance { index: to.index as int as usize },
                ));
                assert(called@[to.index as int]);
                assert(fn_calls@.contains(Instance { index: to.index as int as usize }));
            }
        }
    }
    Some(Analysis { types: seen.types, fn_calls })
}

/// What the start finds wrong with the program, if anything.
pub open spec fn setup_fault(program: Program) -> Option<FatalSetupError> {
    match program.entry {
        None => Some(FatalSetupError::MissingEntryPoint),
        Some(entry) => match program.instance_for(entry) {
            None => Some(FatalSetupError::EntryWithoutInstance),
            Some(instance) => if program.instances@[instance.index as int].body is None {
                Some(FatalSetupError::EntryWithoutBody)
            } else {
                None
            },
        },
    }
}

/// Analyses the instance of the program's entry point and returns it with the
/// analysis. Fails before any analysis when the program has no entry point,
/// the entry point no instance, or the instance no body.
pub fn start_demo(program: &Program) -> (res: Result<(Instance, Analysis), FatalSetupError>)
    ensures
        match res {
            Ok((instance, analysis)) => {
                &&& setup_fault(*program) is None
                &&& program.instance_for(program.entry->0) == Some(instance)
                &&& analysed(*program, instance, analysis)
            },
            Err(e) => setup_fault(*program) == Some(e),
        },
{
    let Some(entry) = program.entry_point() else {
        return Err(FatalSetupError::MissingEntryPoint);
    };
    let Some(instance) = program.instance_from(entry) else {
        return Err(FatalSetupError::EntryWithoutInstance);
    };
    proof {
        lemma_first_with_key(program.instances@, FnDef { id: entry.id }, Seq::empty(), 0);
    }
    match analyze_instance(program, instance) {
        Some(analysis) => Ok((instance, analysis)),
        None => Err(FatalSetupError::EntryWithoutBody),
    }
}

/// Whether the demo leaves with success: always, unless the compiler could
/// not produce a program. The demo stops the compiler itself once it has
/// printed what it found.
pub fn succeeded(outcome: CompilerOutcome) -> (r: bool)
    ensures
        r == (outcome != CompilerOutcome::Failed),
{
    match outcome {
        CompilerOutcome::Failed => false,
        _ => true,
    }
}

} // verus!
