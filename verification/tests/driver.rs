use test_drive::driver::{
    info, run, run_test, same_text, settings, split_args, starts_with, succeeded, summarize,
    test_stable_mir, CheckOutcome, CompilerOutcome, FatalSetupError, NamedOutcome, Settings,
};
use test_drive::ir::{BasicBlock, Body, Callee, FnDef, Span, Terminator, Ty};
use test_drive::program::{
    Crate, CrateLookup, InstanceEntry, Item, ItemKind, Program, TraitDef, TraitImpl,
};
use test_drive::sanity_checks::{test_all_fns, test_crates, test_entry_fn, test_traits};

fn strings(items: &[&str]) -> Vec<String> {
    items.iter().map(|s| s.to_string()).collect()
}

fn krate(id: u64, name: &str) -> Crate {
    Crate { id, name: name.to_string(), is_local: id == 0 }
}

fn returning() -> Option<Body> {
    Some(Body {
        blocks: vec![BasicBlock { statements: vec![], terminator: Terminator::Return }],
        locals: vec![],
    })
}

fn main_item() -> Item {
    Item {
        id: 1,
        name: "main".to_string(),
        span: Span { id: 1 },
        kind: ItemKind::Function,
        body: returning(),
        record: None,
    }
}

fn sound_program() -> Program {
    Program {
        entry: Some(main_item()),
        items: vec![main_item()],
        instances: vec![InstanceEntry {
            def: FnDef { id: 1 },
            args: vec![],
            mangled_name: "main".to_string(),
            body: returning(),
            record: None,
        }],
        trait_decls: vec![TraitDef { id: 1 }],
        trait_impls: vec![TraitImpl { id: 5, trait_def: TraitDef { id: 1 } }],
        local_crate: CrateLookup { krate: krate(0, "app"), found: vec![krate(0, "app")] },
        external_crates: vec![CrateLookup {
            krate: krate(1, "core"),
            found: vec![krate(2, "core"), krate(1, "core")],
        }],
    }
}

fn asked(verbose: bool, fixme: bool) -> Settings {
    Settings { check: true, verbose, fixme }
}

fn named(name: &str, outcome: CheckOutcome) -> NamedOutcome {
    NamedOutcome { name: name.to_string(), outcome }
}

#[test]
fn starts_with_compares_the_leading_characters() {
    assert!(starts_with("--smir-check", "--smir"));
    assert!(starts_with("--smir", "--smir"));
    assert!(starts_with("anything", ""));
    assert!(!starts_with("--smi", "--smir"));
    assert!(!starts_with("-smir-check", "--smir"));
    assert!(!starts_with("x--smir", "--smir"));
}

#[test]
fn split_args_separates_the_tools_arguments() {
    let args = strings(&["driver", "--smir-check", "main.rs", "--smir-verbose", "--edition=2021"]);
    let (own, rest) = split_args(&args);
    assert_eq!(own, strings(&["--smir-check", "--smir-verbose"]));
    assert_eq!(rest, strings(&["driver", "main.rs", "--edition=2021"]));
}

#[test]
fn settings_need_the_check_flag() {
    assert_eq!(
        settings(&strings(&["--smir-check", "--smir-fixme"])),
        Settings { check: true, verbose: false, fixme: true }
    );
    assert_eq!(
        settings(&strings(&["--smir-verbose", "--smir-check"])),
        Settings { check: true, verbose: true, fixme: false }
    );
    assert_eq!(
        settings(&strings(&["--smir-verbose", "--smir-fixme"])),
        Settings { check: false, verbose: false, fixme: false }
    );
    assert_eq!(
        settings(&strings(&["--smir-checks"])),
        Settings { check: false, verbose: false, fixme: false }
    );
}

#[test]
fn info_tags_the_message_in_a_verbose_run() {
    assert_eq!(info(true, "hello".to_string()), Some("[T-DRIVE] hello".to_string()));
    assert_eq!(info(false, "hello".to_string()), None);
}

#[test]
fn run_test_turns_a_crash_into_a_failure() {
    let (result, line) = run_test("t", &CheckOutcome::Crashed, false);
    assert_eq!(result, Err("Panic!".to_string()));
    assert_eq!(line, Some("Test t: Failed:\n    - Panic!".to_string()));
}

#[test]
fn run_test_reports_success_only_when_verbose() {
    let ok = CheckOutcome::Finished(Ok(()));
    assert_eq!(run_test("t", &ok, false), (Ok(()), None));
    assert_eq!(run_test("t", &ok, true), (Ok(()), Some("[T-DRIVE] Test t: Ok".to_string())));
    let failed = CheckOutcome::Finished(Err("bad".to_string()));
    assert_eq!(
        run_test("t", &failed, true),
        (Err("bad".to_string()), Some("Test t: Failed:\n    - bad".to_string()))
    );
}

#[test]
fn a_crash_in_the_second_check_leaves_the_third_its_result() {
    let checks = vec![
        named("first", CheckOutcome::Finished(Ok(()))),
        named("second", CheckOutcome::Crashed),
        named("third", CheckOutcome::Finished(Ok(()))),
    ];
    let report = summarize(&checks, true);
    assert_eq!(report.results, vec![Ok(()), Err("Panic!".to_string()), Ok(())]);
    assert_eq!(report.total(), 3);
    assert_eq!(report.succeeded, 2);
    assert_eq!(report.failed, 1);
    assert!(!report.passed());
    assert_eq!(
        report.lines,
        strings(&[
            "[T-DRIVE] Test first: Ok",
            "Test second: Failed:\n    - Panic!",
            "[T-DRIVE] Test third: Ok",
            "[T-DRIVE] Ran 3 tests. 2 succeeded. 1 failed",
        ])
    );
}

#[test]
fn a_quiet_run_prints_failures_only() {
    let checks = vec![
        named("first", CheckOutcome::Finished(Err("broken".to_string()))),
        named("second", CheckOutcome::Finished(Ok(()))),
    ];
    let report = summarize(&checks, false);
    assert_eq!(report.lines, strings(&["Test first: Failed:\n    - broken"]));
    assert_eq!((report.succeeded, report.failed), (1, 1));
}

#[test]
fn a_run_without_checks_passes() {
    let report = summarize(&vec![], true);
    assert!(report.passed());
    assert_eq!(report.total(), 0);
    assert_eq!(report.lines, strings(&["[T-DRIVE] Ran 0 tests. 0 succeeded. 0 failed"]));
}

#[test]
fn a_sound_program_passes_every_check() {
    let program = sound_program();
    let report = test_stable_mir(&program, asked(true, true));
    assert!(report.passed());
    assert_eq!(report.total(), 5);
    assert_eq!(
        report.lines,
        strings(&[
            "[T-DRIVE] Test sanity_checks::test_entry_fn: Ok",
            "[T-DRIVE] Test sanity_checks::test_all_fns: Ok",
            "[T-DRIVE] Test sanity_checks::test_crates: Ok",
            "[T-DRIVE] Test sanity_checks::test_instances: Ok",
            "[T-DRIVE] Test sanity_checks::test_traits: Ok",
            "[T-DRIVE] Ran 5 tests. 5 succeeded. 0 failed",
        ])
    );
    assert_eq!(test_stable_mir(&program, asked(false, false)).total(), 4);
}

#[test]
fn one_failed_check_does_not_stop_the_others() {
    let mut program = sound_program();
    program.trait_decls.clear();
    program.local_crate.found.clear();
    program.instances[0].body = Some(Body {
        blocks: vec![BasicBlock {
            statements: vec![],
            terminator: Terminator::Call {
                callee: Callee::Other { ty: Ty { id: 3 } },
                args: vec![],
            },
        }],
        locals: vec![],
    });
    let report = test_stable_mir(&program, asked(false, true));
    assert_eq!(
        report.results,
        vec![
            Ok(()),
            Ok(()),
            Err("Cannot find local: `Crate { id: 0, name: \"app\", is_local: true }`".to_string()),
            Err("Function `main`: Unexpected call: `Ty { id: 3 }`".to_string()),
            Err(
                "Failed to find trait definition: `TraitImpl { id: 5, trait_def: TraitDef { id: 1 } }`"
                    .to_string()
            ),
        ]
    );
    assert_eq!((report.succeeded, report.failed), (2, 3));
    assert!(!report.passed());
    let without_fixme = test_stable_mir(&program, asked(false, false));
    assert_eq!((without_fixme.succeeded, without_fixme.failed), (2, 2));
}

#[test]
fn the_entry_point_must_be_a_local_function() {
    let mut program = sound_program();
    assert_eq!(test_entry_fn(&program), Ok(()));
    program.entry = None;
    assert_eq!(test_entry_fn(&program), Ok(()));
    program.entry = Some(Item { id: 9, ..main_item() });
    assert_eq!(test_entry_fn(&program), Err("Failed to find entry_fn: `main`".to_string()));
    program.entry = Some(Item { kind: ItemKind::Other, ..main_item() });
    assert_eq!(
        test_entry_fn(&program),
        Err("Entry must be a function: \n Expected: `Function`\n Found: `Other`".to_string())
    );
}

#[test]
fn every_body_of_a_local_item_passes() {
    let mut program = sound_program();
    program.items.push(Item { id: 2, body: None, ..main_item() });
    assert_eq!(test_all_fns(&program), Ok(()));
}

#[test]
fn the_first_undeclared_trait_is_reported() {
    let mut program = sound_program();
    assert_eq!(test_traits(&program), Ok(()));
    program.trait_impls.push(TraitImpl { id: 6, trait_def: TraitDef { id: 2 } });
    program.trait_impls.push(TraitImpl { id: 7, trait_def: TraitDef { id: 3 } });
    assert_eq!(
        test_traits(&program),
        Err(
            "Failed to find trait definition: `TraitImpl { id: 6, trait_def: TraitDef { id: 2 } }`"
                .to_string()
        )
    );
}

#[test]
fn a_crate_must_be_found_by_its_name() {
    let mut program = sound_program();
    assert_eq!(test_crates(&program), Ok(()));
    let lost = CrateLookup { krate: krate(3, "std"), found: vec![krate(4, "std")] };
    program.external_crates.push(lost);
    assert_eq!(
        test_crates(&program),
        Err("Cannot find `Crate { id: 3, name: \"std\", is_local: false }`".to_string())
    );
}

#[test]
fn only_a_whole_or_an_empty_compilation_is_a_success() {
    assert!(succeeded(CompilerOutcome::Completed));
    assert!(succeeded(CompilerOutcome::Skipped));
    assert!(!succeeded(CompilerOutcome::Failed));
    assert!(!succeeded(CompilerOutcome::Interrupted));
}

#[test]
fn same_text_compares_whole_texts() {
    assert!(same_text("", ""));
    assert!(same_text("--smir-check", "--smir-check"));
    assert!(!same_text("--smir-check", "--smir-checks"));
    assert!(!same_text("--smir-checks", "--smir-check"));
    assert!(!same_text("abc", "abd"));
    assert!(same_text("h\u{e9}", "h\u{e9}"));
}

#[test]
fn a_run_checks_only_when_asked_and_only_a_usable_program() {
    let mut program = sound_program();
    let quiet = Settings { check: false, verbose: true, fixme: true };
    assert!(run(&program, quiet).unwrap().is_none());
    let report = run(&program, asked(false, false)).unwrap().unwrap();
    assert_eq!((report.total(), report.succeeded, report.failed), (4, 4, 0));
    program.instances.push(InstanceEntry {
        def: FnDef { id: 1 },
        args: vec![],
        mangled_name: "again".to_string(),
        body: None,
        record: None,
    });
    assert_eq!(run(&program, asked(false, false)).unwrap_err(), FatalSetupError::RepeatedInstance);
    assert!(run(&program, quiet).unwrap().is_none());
}
