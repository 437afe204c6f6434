use test_drive::calls::{call_edges, CallVisitor};
use test_drive::consistency::compare;
use test_drive::ir::{BasicBlock, Body, Callee, FnDef, LocalDecl, Statement, Terminator, Ty};
use test_drive::sanity_checks::{check, check_body, check_equal};
use test_drive::snapshot::{snapshot, BodyVisitor};
use test_drive::visit::{visit_body, Visitor};

fn ty(id: u64) -> Ty {
    Ty { id }
}

fn stmt(code: u64, tys: &[u64]) -> Statement {
    Statement { code, tys: tys.iter().map(|id| ty(*id)).collect() }
}

fn call(def: u64, type_args: &[u64], args: &[u64]) -> Terminator {
    Terminator::Call {
        callee: Callee::Function {
            def: FnDef { id: def },
            args: type_args.iter().map(|id| ty(*id)).collect(),
        },
        args: args.iter().map(|id| ty(*id)).collect(),
    }
}

fn sample_body() -> Body {
    Body {
        blocks: vec![
            BasicBlock {
                statements: vec![stmt(1, &[10]), stmt(2, &[])],
                terminator: call(7, &[11], &[12, 13]),
            },
            BasicBlock { statements: vec![], terminator: Terminator::Goto { target: 2 } },
            BasicBlock { statements: vec![stmt(3, &[14, 10])], terminator: Terminator::Return },
        ],
        locals: vec![LocalDecl { ty: ty(20) }, LocalDecl { ty: ty(10) }],
    }
}

#[test]
fn walk_records_one_group_and_one_terminator_per_block() {
    let body = sample_body();
    let seen = snapshot(&body);
    assert_eq!(seen.statements.len(), 3);
    assert_eq!(seen.terminators.len(), 3);
    for (index, block) in body.blocks.iter().enumerate() {
        assert_eq!(seen.statements[index], block.statements);
        assert_eq!(seen.terminators[index], block.terminator);
    }
}

#[test]
fn walking_twice_gives_identical_snapshots() {
    let body = sample_body();
    let first = snapshot(&body);
    let second = snapshot(&body);
    assert_eq!(first.statements, second.statements);
    assert_eq!(first.terminators, second.terminators);
    assert_eq!(first.types, second.types);
}

#[test]
fn walk_collects_every_type_once() {
    let seen = snapshot(&sample_body());
    let mut ids: Vec<u64> = seen.types.iter().copied().collect();
    ids.sort();
    assert_eq!(ids, vec![10, 11, 12, 13, 14, 20]);
}

#[test]
fn local_type_is_seen_without_any_use() {
    let body = Body {
        blocks: vec![BasicBlock {
            statements: vec![stmt(1, &[1])],
            terminator: Terminator::Return,
        }],
        locals: vec![LocalDecl { ty: ty(1) }, LocalDecl { ty: ty(99) }],
    };
    let seen = snapshot(&body);
    assert!(seen.has_type(ty(99)));
    assert!(seen.has_type(ty(1)));
    assert!(!seen.has_type(ty(2)));
}

#[test]
fn hooks_follow_the_walk_protocol() {
    let mut v = BodyVisitor::new();
    let block = BasicBlock { statements: vec![], terminator: Terminator::Return };
    v.visit_basic_block(&block);
    v.visit_statement(&stmt(5, &[]));
    v.visit_statement(&stmt(6, &[]));
    v.visit_ty(&ty(3));
    v.visit_terminator(&Terminator::Return);
    assert_eq!(v.statements, vec![vec![stmt(5, &[]), stmt(6, &[])]]);
    assert_eq!(v.terminators, vec![Terminator::Return]);
    assert!(v.has_type(ty(3)));
}

#[test]
fn visitors_start_clean_and_can_share_a_body() {
    let body = sample_body();
    let mut structure = BodyVisitor::new();
    visit_body(&mut structure, &body);
    let mut edges = CallVisitor::new();
    visit_body(&mut edges, &body);
    assert_eq!(structure.terminators.len(), 3);
    assert_eq!(
        edges.calls,
        vec![Callee::Function { def: FnDef { id: 7 }, args: vec![ty(11)] }]
    );
}

#[test]
fn call_edges_lists_callees_in_block_order() {
    let body = Body {
        blocks: vec![
            BasicBlock {
                statements: vec![],
                terminator: Terminator::Call { callee: Callee::Pointer, args: vec![] },
            },
            BasicBlock {
                statements: vec![],
                terminator: Terminator::Other { code: 4, tys: vec![] },
            },
            BasicBlock { statements: vec![], terminator: call(2, &[], &[]) },
            BasicBlock {
                statements: vec![],
                terminator: Terminator::Call { callee: Callee::Other { ty: ty(8) }, args: vec![] },
            },
        ],
        locals: vec![],
    };
    assert_eq!(
        call_edges(&body).calls,
        vec![
            Callee::Pointer,
            Callee::Function { def: FnDef { id: 2 }, args: vec![] },
            Callee::Other { ty: ty(8) },
        ]
    );
}

#[test]
fn check_body_succeeds_and_returns_the_visitor() {
    let body = sample_body();
    let seen = check_body("main", &body).unwrap();
    assert_eq!(seen.terminators.len(), body.blocks.len());
}

#[test]
fn check_body_accepts_a_body_without_blocks() {
    let body = Body { blocks: vec![], locals: vec![LocalDecl { ty: ty(1) }] };
    let seen = check_body("empty", &body).unwrap();
    assert!(seen.statements.is_empty());
    assert!(seen.has_type(ty(1)));
}

#[test]
fn compare_accepts_a_faithful_record() {
    let body = sample_body();
    assert_eq!(compare("main", &body, &snapshot(&body)), Ok(()));
}

#[test]
fn compare_accepts_types_beyond_those_of_the_locals() {
    let body = sample_body();
    let mut seen = snapshot(&body);
    seen.types.insert(1234);
    assert_eq!(compare("main", &body, &seen), Ok(()));
}

#[test]
fn compare_reports_a_wrong_number_of_groups() {
    let body = sample_body();
    let mut seen = snapshot(&body);
    seen.statements.pop();
    assert_eq!(
        compare("main", &body, &seen),
        Err("Function `main`: Unexpected visited BB statements: \n Expected: `3`\n Found: `2`"
            .to_string())
    );
}

#[test]
fn compare_reports_a_wrong_number_of_terminators() {
    let body = sample_body();
    let mut seen = snapshot(&body);
    seen.terminators.push(Terminator::Return);
    assert_eq!(
        compare("main", &body, &seen),
        Err("Function `main`: Visited terminals: \n Expected: `3`\n Found: `4`".to_string())
    );
}

#[test]
fn compare_reports_a_wrong_number_of_statements_in_a_block() {
    let body = sample_body();
    let mut seen = snapshot(&body);
    seen.statements[0].pop();
    assert_eq!(
        compare("f", &body, &seen),
        Err("Function `f`: Block 0: Visited statements: \n Expected: `2`\n Found: `1`".to_string())
    );
}

#[test]
fn compare_reports_the_first_differing_statement() {
    let body = sample_body();
    let mut seen = snapshot(&body);
    seen.statements[2][0] = stmt(3, &[14]);
    assert_eq!(
        compare("f", &body, &seen),
        Err(
            "Function `f`: Block 2: Visited statement: \n Expected: `Statement { code: 3, tys: [Ty { id: 14 }, Ty { id: 10 }] }`\n Found: `Statement { code: 3, tys: [Ty { id: 14 }] }`"
                .to_string()
        )
    );
}

#[test]
fn compare_reports_a_differing_terminator() {
    let body = sample_body();
    let mut seen = snapshot(&body);
    seen.terminators[1] = Terminator::Goto { target: 0 };
    assert_eq!(
        compare("f", &body, &seen),
        Err(
            "Function `f`: Block 1: Terminator: \n Expected: `Goto { target: 2 }`\n Found: `Goto { target: 0 }`"
                .to_string()
        )
    );
}

#[test]
fn compare_reports_the_earlier_block_first() {
    let body = sample_body();
    let mut seen = snapshot(&body);
    seen.terminators[2] = Terminator::Goto { target: 0 };
    seen.terminators[0] = Terminator::Return;
    let message = compare("f", &body, &seen).unwrap_err();
    assert!(message.starts_with("Function `f`: Block 0: Terminator"));
}

#[test]
fn compare_reports_a_local_whose_type_was_not_seen() {
    let body = sample_body();
    let mut seen = snapshot(&body);
    seen.types.remove(&20);
    assert_eq!(
        compare("f", &body, &seen),
        Err("Function `f`: Missing type `Ty { id: 20 }`".to_string())
    );
}

#[test]
fn check_passes_on_true_and_fails_with_the_message() {
    assert_eq!(check(true, "unused".to_string()), Ok(()));
    assert_eq!(check(false, "broken".to_string()), Err("broken".to_string()));
}

#[test]
fn check_equal_reports_expected_and_found() {
    assert_eq!(check_equal(&3usize, &3usize, "count"), Ok(()));
    assert_eq!(
        check_equal(&3usize, &40usize, "count"),
        Err("count: \n Expected: `40`\n Found: `3`".to_string())
    );
}

#[test]
fn check_equal_compares_terminators_by_value() {
    let left = call(1, &[2], &[3]);
    let right = call(1, &[2], &[3]);
    assert_eq!(check_equal(&left, &right, "Terminator"), Ok(()));
    let other = call(1, &[2], &[4]);
    assert!(check_equal(&left, &other, "Terminator").is_err());
}

#[test]
fn value_equality_agrees_with_derived_equality() {
    let values = vec![
        Terminator::Return,
        Terminator::Goto { target: 1 },
        Terminator::Goto { target: 2 },
        call(1, &[], &[]),
        call(1, &[1], &[]),
        call(1, &[], &[1]),
        Terminator::Call { callee: Callee::Pointer, args: vec![] },
        Terminator::Call { callee: Callee::Other { ty: ty(1) }, args: vec![] },
        Terminator::Other { code: 1, tys: vec![] },
        Terminator::Other { code: 1, tys: vec![ty(1)] },
    ];
    for a in &values {
        for b in &values {
            assert_eq!(a.same(b), a == b);
        }
        assert_eq!(&a.clone(), a);
    }
    assert!(stmt(1, &[2, 3]).same(&stmt(1, &[2, 3])));
    assert!(!stmt(1, &[2, 3]).same(&stmt(1, &[3, 2])));
    assert!(!stmt(1, &[2]).same(&stmt(2, &[2])));
    assert_eq!(sample_body().clone(), sample_body());
}

#[test]
fn a_body_needs_a_block() {
    assert_eq!(Body::new(vec![], vec![LocalDecl { ty: ty(1) }]), None);
    let blocks = vec![BasicBlock { statements: vec![], terminator: Terminator::Return }];
    let body = Body::new(blocks, vec![]).unwrap();
    assert_eq!(body.blocks.len(), 1);
    assert!(body.locals.is_empty());
}
