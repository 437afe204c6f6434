use test_drive::ir::{Callee, FnDef, Statement, Terminator, Ty};
use test_drive::program::{Crate, ItemKind, TraitDef, TraitImpl};
use test_drive::render::{
    describe_callee, describe_crate, describe_fn_def, describe_kind, describe_statement,
    describe_terminator, describe_trait_impl, describe_ty, describe_tys,
};
use test_drive::text::{count_string, decimal_string, join};

#[test]
fn decimal_string_writes_numbers_without_leading_zeros() {
    assert_eq!(decimal_string(0), "0");
    assert_eq!(decimal_string(7), "7");
    assert_eq!(decimal_string(10), "10");
    assert_eq!(decimal_string(1234567890), "1234567890");
    assert_eq!(decimal_string(u64::MAX), "18446744073709551615");
    assert_eq!(count_string(305), "305");
}

#[test]
fn join_puts_the_separator_between_neighbours() {
    let none: Vec<String> = vec![];
    assert_eq!(join(&none, ", "), "");
    assert_eq!(join(&vec!["a".to_string()], ", "), "a");
    assert_eq!(join(&vec!["a".to_string(), "b".to_string(), "c".to_string()], ", "), "a, b, c");
    assert_eq!(join(&vec!["".to_string(), "".to_string()], "-"), "-");
}

#[test]
fn values_read_like_their_debug_form() {
    let ty = Ty { id: 42 };
    assert_eq!(describe_ty(ty), format!("{:?}", ty));
    let def = FnDef { id: 3 };
    assert_eq!(describe_fn_def(def), format!("{:?}", def));
    let tys = vec![Ty { id: 1 }, Ty { id: 2 }, Ty { id: 3 }];
    assert_eq!(describe_tys(&tys), format!("{:?}", tys));
    assert_eq!(describe_tys(&vec![]), "[]");
    let stmt = Statement { code: 9, tys: vec![Ty { id: 1 }] };
    assert_eq!(describe_statement(&stmt), format!("{:?}", stmt));
    let callees = vec![
        Callee::Function { def, args: vec![ty] },
        Callee::Pointer,
        Callee::Other { ty },
    ];
    for callee in &callees {
        assert_eq!(describe_callee(callee), format!("{:?}", callee));
    }
    let terminators = vec![
        Terminator::Goto { target: 12 },
        Terminator::Return,
        Terminator::Call { callee: Callee::Function { def, args: vec![] }, args: vec![ty, ty] },
        Terminator::Other { code: 5, tys: vec![ty] },
    ];
    for term in &terminators {
        assert_eq!(describe_terminator(term), format!("{:?}", term));
    }
    for kind in [ItemKind::Function, ItemKind::Type, ItemKind::Trait, ItemKind::Other] {
        assert_eq!(describe_kind(kind), format!("{:?}", kind));
    }
    let imp = TraitImpl { id: 4, trait_def: TraitDef { id: 8 } };
    assert_eq!(describe_trait_impl(imp), format!("{:?}", imp));
    let krate = Crate { id: 2, name: "core".to_string(), is_local: false };
    assert_eq!(describe_crate(&krate), format!("{:?}", krate));
    assert_eq!(
        describe_crate(&Crate { id: 0, name: "app".to_string(), is_local: true }),
        "Crate { id: 0, name: \"app\", is_local: true }"
    );
}
