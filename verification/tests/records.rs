use test_drive::driver::{test_stable_mir, Settings};
use test_drive::ir::{BasicBlock, Body, Callee, FnDef, LocalDecl, Span, Statement, Terminator, Ty};
use test_drive::program::{
    Crate, CrateLookup, Instance, InstanceEntry, Item, ItemKind, Program,
};
use test_drive::sanity_checks::{
    check_instance, check_record, test_all_fns, test_entry_fn, test_instances,
};
use test_drive::snapshot::{snapshot, BodyVisitor};

fn body(code: u64) -> Body {
    Body {
        blocks: vec![
            BasicBlock {
                statements: vec![Statement { code, tys: vec![Ty { id: 1 }] }],
                terminator: Terminator::Goto { target: 1 },
            },
            BasicBlock { statements: vec![], terminator: Terminator::Return },
        ],
        locals: vec![LocalDecl { ty: Ty { id: 2 } }],
    }
}

fn faithful(code: u64) -> Option<BodyVisitor> {
    Some(snapshot(&body(code)))
}

fn without_last_terminator(code: u64) -> Option<BodyVisitor> {
    let mut record = snapshot(&body(code));
    record.terminators.pop();
    Some(record)
}

fn without_local_type(code: u64) -> Option<BodyVisitor> {
    let mut record = snapshot(&body(code));
    record.types.remove(&2);
    Some(record)
}

fn item(id: u64, name: &str, record: Option<BodyVisitor>) -> Item {
    Item {
        id,
        name: name.to_string(),
        span: Span { id },
        kind: ItemKind::Function,
        body: Some(body(id)),
        record,
    }
}

fn instance(def: u64, name: &str, body: Body, record: Option<BodyVisitor>) -> InstanceEntry {
    InstanceEntry {
        def: FnDef { id: def },
        args: vec![],
        mangled_name: name.to_string(),
        body: Some(body),
        record,
    }
}

fn program(items: Vec<Item>, instances: Vec<InstanceEntry>) -> Program {
    let local = Crate { id: 0, name: "app".to_string(), is_local: true };
    let found = Crate { id: 0, name: "app".to_string(), is_local: true };
    Program {
        entry: None,
        items,
        instances,
        trait_decls: vec![],
        trait_impls: vec![],
        local_crate: CrateLookup { krate: local, found: vec![found] },
        external_crates: vec![],
    }
}

const TERMINALS_OF_ONE: &str = "Function `one`: Visited terminals: \n Expected: `2`\n Found: `1`";

#[test]
fn a_record_is_compared_with_its_body() {
    assert_eq!(check_record("f", &Some(body(1)), &faithful(1)), Ok(()));
    assert_eq!(check_record("f", &Some(body(1)), &None), Ok(()));
    assert_eq!(check_record("f", &None, &faithful(1)), Ok(()));
    assert_eq!(check_record("f", &None, &None), Ok(()));
    assert_eq!(
        check_record("one", &Some(body(1)), &without_last_terminator(1)),
        Err(TERMINALS_OF_ONE.to_string())
    );
    assert_eq!(
        check_record("f", &Some(body(1)), &faithful(2)),
        Err(
            "Function `f`: Block 0: Visited statement: \n Expected: `Statement { code: 1, tys: [Ty { id: 1 }] }`\n Found: `Statement { code: 2, tys: [Ty { id: 1 }] }`"
                .to_string()
        )
    );
}

#[test]
fn a_faulty_first_item_is_reported_and_the_others_are_still_compared() {
    let p = program(
        vec![
            item(1, "one", without_last_terminator(1)),
            item(2, "two", faithful(2)),
            item(3, "three", faithful(3)),
        ],
        vec![],
    );
    assert_eq!(test_all_fns(&p), Err(TERMINALS_OF_ONE.to_string()));
}

#[test]
fn the_faults_of_all_items_are_collected_in_their_order() {
    let p = program(
        vec![
            item(1, "one", without_last_terminator(1)),
            item(2, "two", faithful(2)),
            item(3, "three", without_local_type(3)),
        ],
        vec![],
    );
    assert_eq!(
        test_all_fns(&p),
        Err(format!("{TERMINALS_OF_ONE}\nFunction `three`: Missing type `Ty {{ id: 2 }}`"))
    );
}

#[test]
fn items_pass_with_faithful_records_and_without_records() {
    let mut bodiless = item(4, "extern", without_last_terminator(4));
    bodiless.body = None;
    let p = program(
        vec![item(1, "one", faithful(1)), item(2, "two", None), bodiless],
        vec![],
    );
    assert_eq!(test_all_fns(&p), Ok(()));
    assert_eq!(test_all_fns(&program(vec![], vec![])), Ok(()));
}

#[test]
fn the_record_of_the_entry_point_is_compared_first() {
    let mut p = program(vec![item(1, "one", faithful(1))], vec![]);
    p.entry = Some(item(1, "one", faithful(1)));
    assert_eq!(test_entry_fn(&p), Ok(()));
    p.entry = Some(item(9, "one", without_last_terminator(9)));
    assert_eq!(test_entry_fn(&p), Err(TERMINALS_OF_ONE.to_string()));
    p.entry = Some(item(9, "one", faithful(9)));
    assert_eq!(test_entry_fn(&p), Err("Failed to find entry_fn: `one`".to_string()));
}

#[test]
fn the_record_of_an_instance_is_compared_before_its_calls() {
    let mut calling = body(1);
    calling.blocks[1].terminator =
        Terminator::Call { callee: Callee::Other { ty: Ty { id: 8 } }, args: vec![] };
    let mut short = snapshot(&calling);
    short.terminators.pop();
    let faithful_calling = Some(snapshot(&calling));
    let p = program(
        vec![],
        vec![
            instance(1, "one", calling.clone(), Some(short)),
            instance(2, "two", calling, faithful_calling),
            instance(3, "three", body(3), faithful(3)),
        ],
    );
    assert_eq!(check_instance(&p, Instance { index: 0 }), Err(TERMINALS_OF_ONE.to_string()));
    assert_eq!(
        check_instance(&p, Instance { index: 1 }),
        Err("Function `two`: Unexpected call: `Ty { id: 8 }`".to_string())
    );
    assert_eq!(check_instance(&p, Instance { index: 2 }), Ok(()));
}

#[test]
fn the_record_faults_of_all_discovered_instances_are_collected() {
    let mut p = program(
        vec![item(1, "one", None), item(2, "two", None), item(3, "three", None)],
        vec![
            instance(1, "one", body(1), without_last_terminator(1)),
            instance(2, "two", body(2), faithful(2)),
            instance(3, "three", body(3), without_local_type(3)),
            instance(4, "not_reached", body(4), without_last_terminator(4)),
        ],
    );
    assert_eq!(
        test_instances(&p),
        Err(format!("{TERMINALS_OF_ONE}\nFunction `three`: Missing type `Ty {{ id: 2 }}`"))
    );
    let two = Instance { index: 1 };
    p.set_body(two, body(2), without_local_type(2));
    assert_eq!(
        check_instance(&p, two),
        Err("Function `two`: Missing type `Ty { id: 2 }`".to_string())
    );
    p.set_body(two, body(2), None);
    assert_eq!(check_instance(&p, two), Ok(()));
    assert_eq!(p.instances[1].mangled_name, "two");
}

#[test]
fn a_run_reports_faulty_items_and_goes_on() {
    let p = program(
        vec![item(1, "one", without_last_terminator(1)), item(2, "two", faithful(2))],
        vec![instance(1, "one", body(1), faithful(1))],
    );
    let report = test_stable_mir(&p, Settings { check: true, verbose: false, fixme: false });
    assert_eq!(report.results, vec![Ok(()), Err(TERMINALS_OF_ONE.to_string()), Ok(()), Ok(())]);
    assert_eq!((report.succeeded, report.failed), (3, 1));
    assert_eq!(
        report.lines,
        vec![format!("Test sanity_checks::test_all_fns: Failed:\n    - {TERMINALS_OF_ONE}")]
    );
}
