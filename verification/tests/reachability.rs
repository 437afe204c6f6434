use test_drive::demo::{analyze_instance, start_demo, succeeded};
use test_drive::driver::{CompilerOutcome, FatalSetupError};
use test_drive::ir::{BasicBlock, Body, Callee, FnDef, LocalDecl, Span, Terminator, Ty};
use test_drive::program::{
    Crate, CrateLookup, Instance, InstanceEntry, Item, ItemKind, Program, ResolutionError,
};
use test_drive::reach::{discover, reach_marks};
use test_drive::sanity_checks::{check_call, check_instance, roots, test_instances, CallFault};

fn local_crate() -> CrateLookup {
    CrateLookup {
        krate: Crate { id: 0, name: "app".to_string(), is_local: true },
        found: vec![Crate { id: 0, name: "app".to_string(), is_local: true }],
    }
}

fn block(terminator: Terminator) -> BasicBlock {
    BasicBlock { statements: vec![], terminator }
}

fn call(def: u64) -> Terminator {
    Terminator::Call {
        callee: Callee::Function { def: FnDef { id: def }, args: vec![] },
        args: vec![],
    }
}

fn calling(defs: &[u64]) -> Option<Body> {
    let mut blocks: Vec<BasicBlock> = defs.iter().map(|def| block(call(*def))).collect();
    blocks.push(block(Terminator::Return));
    Some(Body { blocks, locals: vec![LocalDecl { ty: Ty { id: 0 } }] })
}

fn entry(def: u64, name: &str, body: Option<Body>) -> InstanceEntry {
    InstanceEntry {
        def: FnDef { id: def },
        args: vec![],
        mangled_name: name.to_string(),
        body,
        record: None,
    }
}

fn function(id: u64, name: &str) -> Item {
    Item {
        id,
        name: name.to_string(),
        span: Span { id },
        kind: ItemKind::Function,
        body: None,
        record: None,
    }
}

fn program(items: Vec<Item>, instances: Vec<InstanceEntry>) -> Program {
    Program {
        entry: None,
        items,
        instances,
        trait_decls: vec![],
        trait_impls: vec![],
        local_crate: local_crate(),
        external_crates: vec![],
    }
}

fn handles(found: &[Instance]) -> Vec<usize> {
    found.iter().map(|instance| instance.index).collect()
}

#[test]
fn resolve_twice_gives_equal_instances() {
    let p = program(
        vec![],
        vec![
            entry(1, "a", None),
            InstanceEntry {
                def: FnDef { id: 1 },
                args: vec![Ty { id: 5 }],
                mangled_name: "a5".to_string(),
                body: None,
                record: None,
            },
        ],
    );
    let first = p.resolve(FnDef { id: 1 }, &vec![Ty { id: 5 }]);
    let second = p.resolve(FnDef { id: 1 }, &vec![Ty { id: 5 }]);
    assert_eq!(first, Ok(Instance { index: 1 }));
    assert_eq!(first, second);
    assert_eq!(p.resolve(FnDef { id: 1 }, &vec![]), Ok(Instance { index: 0 }));
}

#[test]
fn resolve_fails_on_a_missing_instance() {
    let p = program(vec![], vec![entry(1, "a", None)]);
    assert_eq!(
        p.resolve(FnDef { id: 1 }, &vec![Ty { id: 5 }]),
        Err(ResolutionError { def: FnDef { id: 1 }, args: vec![Ty { id: 5 }] })
    );
    assert_eq!(
        p.resolve(FnDef { id: 2 }, &vec![]),
        Err(ResolutionError { def: FnDef { id: 2 }, args: vec![] })
    );
}

#[test]
fn instance_from_is_for_function_items_only() {
    let p = program(vec![], vec![entry(1, "a", None)]);
    assert_eq!(p.instance_from(&function(1, "a")), Some(Instance { index: 0 }));
    assert_eq!(p.instance_from(&function(2, "generic")), None);
    let mut ty_item = function(1, "a");
    ty_item.kind = ItemKind::Type;
    assert_eq!(p.instance_from(&ty_item), None);
}

#[test]
fn body_of_is_absent_for_opaque_and_foreign_instances() {
    let p = program(vec![], vec![entry(1, "a", calling(&[])), entry(2, "extern", None)]);
    assert!(p.body_of(Instance { index: 0 }).is_some());
    assert!(p.body_of(Instance { index: 1 }).is_none());
    assert!(p.body_of(Instance { index: 2 }).is_none());
}

#[test]
fn intern_keeps_one_entry_per_key() {
    let mut p = program(vec![], vec![]);
    let a = p.intern(FnDef { id: 1 }, &vec![], "a");
    let b = p.intern(FnDef { id: 1 }, &vec![Ty { id: 2 }], "a2");
    let again = p.intern(FnDef { id: 1 }, &vec![], "other name");
    assert_eq!((a.index, b.index, again.index), (0, 1, 0));
    assert_eq!(p.instances.len(), 2);
    assert_eq!(p.instances[0].mangled_name, "a");
    assert!(p.is_well_formed());
    p.set_body(b, calling(&[1]).unwrap(), None);
    assert!(p.body_of(b).is_some());
    assert!(p.body_of(a).is_none());
    assert_eq!(p.instances[1].mangled_name, "a2");
    p.set_body(Instance { index: 9 }, calling(&[]).unwrap(), None);
    assert_eq!(p.instances.len(), 2);
}

#[test]
fn a_table_with_a_repeated_key_is_not_well_formed() {
    let p = program(vec![], vec![entry(1, "a", None), entry(2, "b", None), entry(1, "c", None)]);
    assert!(!p.is_well_formed());
    assert_eq!(p.resolve(FnDef { id: 1 }, &vec![]), Ok(Instance { index: 0 }));
}

#[test]
fn a_chain_of_calls_is_discovered_to_its_end() {
    let p = program(
        vec![],
        vec![
            entry(3, "c", calling(&[])),
            entry(1, "a", calling(&[2])),
            entry(9, "unused", calling(&[1])),
            entry(2, "b", calling(&[3])),
        ],
    );
    let found = discover(&p, &vec![Instance { index: 1 }]);
    assert_eq!(handles(&found), vec![0, 1, 3]);
}

#[test]
fn a_function_with_two_callers_is_found_once() {
    let p = program(
        vec![],
        vec![
            entry(1, "a", calling(&[3, 3])),
            entry(2, "b", calling(&[3])),
            entry(3, "shared", calling(&[])),
        ],
    );
    let found = discover(&p, &vec![Instance { index: 0 }, Instance { index: 1 }]);
    assert_eq!(handles(&found), vec![0, 1, 2]);
    let twice = discover(&p, &vec![Instance { index: 0 }, Instance { index: 0 }]);
    assert_eq!(handles(&twice), vec![0, 2]);
}

#[test]
fn self_recursion_ends_and_is_found_once() {
    let p = program(vec![], vec![entry(1, "loop", calling(&[1]))]);
    assert_eq!(handles(&discover(&p, &vec![Instance { index: 0 }])), vec![0]);
}

#[test]
fn mutual_recursion_ends_and_each_is_found_once() {
    let p = program(
        vec![],
        vec![entry(1, "ping", calling(&[2])), entry(2, "pong", calling(&[1])), entry(3, "x", None)],
    );
    assert_eq!(handles(&discover(&p, &vec![Instance { index: 1 }])), vec![0, 1]);
    assert_eq!(reach_marks(&p, &vec![Instance { index: 1 }]), vec![true, true, false]);
}

#[test]
fn discovery_without_roots_finds_nothing() {
    let p = program(vec![], vec![entry(1, "a", calling(&[1]))]);
    assert!(discover(&p, &vec![]).is_empty());
}

#[test]
fn a_root_of_another_program_is_left_out() {
    let p = program(vec![], vec![entry(1, "a", calling(&[]))]);
    let found = discover(&p, &vec![Instance { index: 5 }, Instance { index: 0 }]);
    assert_eq!(handles(&found), vec![0]);
}

#[test]
fn an_instance_without_a_body_is_a_leaf() {
    let p = program(vec![], vec![entry(1, "a", calling(&[2])), entry(2, "extern", None)]);
    assert_eq!(handles(&discover(&p, &vec![Instance { index: 0 }])), vec![0, 1]);
    assert_eq!(check_instance(&p, Instance { index: 1 }), Ok(()));
}

#[test]
fn a_call_through_a_function_pointer_is_no_edge_and_no_failure() {
    let body = Body {
        blocks: vec![
            block(Terminator::Call { callee: Callee::Pointer, args: vec![Ty { id: 1 }] }),
            block(Terminator::Return),
        ],
        locals: vec![],
    };
    let p = program(
        vec![function(1, "a")],
        vec![entry(1, "a", Some(body)), entry(2, "b", calling(&[]))],
    );
    assert_eq!(handles(&discover(&p, &vec![Instance { index: 0 }])), vec![0]);
    assert_eq!(check_instance(&p, Instance { index: 0 }), Ok(()));
    assert_eq!(test_instances(&p), Ok(()));
}

#[test]
fn an_unexpected_callee_is_a_failure() {
    let body = Body {
        blocks: vec![
            block(Terminator::Call { callee: Callee::Other { ty: Ty { id: 77 } }, args: vec![] }),
            block(call(5)),
        ],
        locals: vec![],
    };
    let p = program(vec![function(1, "a")], vec![entry(1, "_ZN1aE", Some(body))]);
    assert_eq!(
        check_instance(&p, Instance { index: 0 }),
        Err("Function `_ZN1aE`: Unexpected call: `Ty { id: 77 }`".to_string())
    );
}

#[test]
fn a_callee_that_does_not_resolve_is_a_failure_and_no_edge() {
    let body = Body {
        blocks: vec![block(Terminator::Call {
            callee: Callee::Function { def: FnDef { id: 5 }, args: vec![Ty { id: 1 }] },
            args: vec![],
        })],
        locals: vec![],
    };
    let p = program(
        vec![function(1, "a")],
        vec![entry(1, "a", Some(body)), entry(5, "five_without_args", calling(&[]))],
    );
    assert_eq!(handles(&discover(&p, &vec![Instance { index: 0 }])), vec![0]);
    assert_eq!(
        check_instance(&p, Instance { index: 0 }),
        Err(
            "Function `a`: Failed to resolve `FnDef { id: 5 }` with `[Ty { id: 1 }]`".to_string()
        )
    );
}

#[test]
fn roots_are_the_entry_and_all_function_items() {
    let mut p = program(
        vec![
            function(2, "b"),
            Item {
                id: 3,
                name: "T".to_string(),
                span: Span { id: 3 },
                kind: ItemKind::Type,
                body: None,
                record: None,
            },
            function(7, "generic"),
            function(1, "a"),
        ],
        vec![entry(1, "a", None), entry(2, "b", None), entry(3, "t", None)],
    );
    assert_eq!(handles(&roots(&p)), vec![1, 0]);
    p.entry = Some(function(1, "a"));
    assert_eq!(handles(&roots(&p)), vec![0, 1, 0]);
}

#[test]
fn test_instances_reports_every_faulty_instance() {
    let bad = |ty: u64| {
        Some(Body {
            blocks: vec![
                block(call(3)),
                block(Terminator::Call {
                    callee: Callee::Other { ty: Ty { id: ty } },
                    args: vec![],
                }),
            ],
            locals: vec![],
        })
    };
    let p = program(
        vec![function(1, "a"), function(2, "b")],
        vec![
            entry(1, "a", bad(10)),
            entry(4, "never_called", bad(40)),
            entry(2, "b", bad(20)),
            entry(3, "c", calling(&[])),
        ],
    );
    assert_eq!(
        test_instances(&p),
        Err(
            "Function `a`: Unexpected call: `Ty { id: 10 }`\nFunction `b`: Unexpected call: `Ty { id: 20 }`"
                .to_string()
        )
    );
}

#[test]
fn test_instances_passes_on_a_sound_program() {
    let p = program(
        vec![function(1, "a")],
        vec![entry(1, "a", calling(&[2, 1])), entry(2, "b", calling(&[1]))],
    );
    assert_eq!(test_instances(&p), Ok(()));
}

#[test]
fn analysis_lists_types_and_direct_callees() {
    let body = Body {
        blocks: vec![
            block(call(2)),
            block(Terminator::Call { callee: Callee::Pointer, args: vec![Ty { id: 6 }] }),
            block(call(9)),
            block(call(2)),
            block(call(1)),
        ],
        locals: vec![LocalDecl { ty: Ty { id: 4 } }],
    };
    let p = program(
        vec![],
        vec![entry(1, "a", Some(body)), entry(3, "c", calling(&[])), entry(2, "b", calling(&[3]))],
    );
    let analysis = analyze_instance(&p, Instance { index: 0 }).unwrap();
    assert_eq!(handles(&analysis.fn_calls), vec![0, 2]);
    let mut ids: Vec<u64> = analysis.types.iter().copied().collect();
    ids.sort();
    assert_eq!(ids, vec![4, 6]);
    assert!(analyze_instance(&p, Instance { index: 7 }).is_none());
    assert!(analyze_instance(&program(vec![], vec![entry(1, "a", None)]), Instance { index: 0 })
        .is_none());
}

#[test]
fn each_call_fault_has_its_input() {
    let p = program(vec![], vec![entry(1, "a", None)]);
    assert_eq!(check_call(&p, &call(1)), Ok(()));
    assert_eq!(check_call(&p, &Terminator::Return), Ok(()));
    assert_eq!(check_call(&p, &Terminator::Goto { target: 3 }), Ok(()));
    assert_eq!(check_call(&p, &Terminator::Other { code: 1, tys: vec![Ty { id: 1 }] }), Ok(()));
    assert_eq!(
        check_call(&p, &Terminator::Call { callee: Callee::Pointer, args: vec![] }),
        Ok(())
    );
    let unresolved = check_call(&p, &call(2)).unwrap_err();
    assert_eq!(
        unresolved,
        CallFault::Unresolved(ResolutionError { def: FnDef { id: 2 }, args: vec![] })
    );
    assert_eq!(
        unresolved.message("f"),
        "Function `f`: Failed to resolve `FnDef { id: 2 }` with `[]`"
    );
    let unexpected = check_call(
        &p,
        &Terminator::Call { callee: Callee::Other { ty: Ty { id: 4 } }, args: vec![] },
    )
    .unwrap_err();
    assert_eq!(unexpected, CallFault::UnexpectedCallee { ty: Ty { id: 4 } });
    assert_eq!(unexpected.message("f"), "Function `f`: Unexpected call: `Ty { id: 4 }`");
}

#[test]
fn the_demo_fails_only_without_a_program() {
    assert!(succeeded(CompilerOutcome::Completed));
    assert!(succeeded(CompilerOutcome::Skipped));
    assert!(succeeded(CompilerOutcome::Interrupted));
    assert!(!succeeded(CompilerOutcome::Failed));
}

#[test]
fn the_demo_starts_from_the_entry_point() {
    let mut p = program(
        vec![function(1, "main")],
        vec![entry(2, "helper", calling(&[])), entry(1, "main", calling(&[2]))],
    );
    assert_eq!(start_demo(&p).unwrap_err(), FatalSetupError::MissingEntryPoint);
    p.entry = Some(function(7, "generic"));
    assert_eq!(start_demo(&p).unwrap_err(), FatalSetupError::EntryWithoutInstance);
    p.entry = Some(function(1, "main"));
    let (instance, analysis) = start_demo(&p).unwrap();
    assert_eq!(instance, Instance { index: 1 });
    assert_eq!(handles(&analysis.fn_calls), vec![0]);
    p.instances[1].body = None;
    assert_eq!(start_demo(&p).unwrap_err(), FatalSetupError::EntryWithoutBody);
}
