//! How the values of the program representation read in a report.
//!
//! Each value is written the way its `Debug` form reads: a struct as its name
//! and fields in braces, a list in square brackets.
use vstd::prelude::*;
use vstd::string::StringExecFns;
use crate::ir::{
    Callee, CalleeView, FnDef, Statement, StatementView, Terminator, TerminatorView, Ty,
};
use crate::program::{Crate, CrateView, ItemKind, TraitDef, TraitImpl};
use crate::text::{count_string, decimal, decimal_string, join, joined, views};

verus! {

pub open spec fn ty_text(ty: Ty) -> Seq<char> {
    "Ty { id: "@ + decimal(ty.id as nat) + " }"@
}

pub open spec fn fn_def_text(def: FnDef) -> Seq<char> {
    "FnDef { id: "@ + decimal(def.id as nat) + " }"@
}

pub open spec fn ty_texts(tys: Seq<Ty>) -> Seq<Seq<char>> {
    Seq::new(tys.len(), |i: int| ty_text(tys[i]))
}

pub open spec fn tys_text(tys: Seq<Ty>) -> Seq<char> {
    "["@ + joined(ty_texts(tys), ", "@) + "]"@
}

pub open spec fn statement_text(stmt: StatementView) -> Seq<char> {
    "Statement { code: "@ + decimal(stmt.code as nat) + ", tys: "@ + tys_text(stmt.tys) + " }"@
}

pub open spec fn callee_text(callee: CalleeView) -> Seq<char> {
    match callee {
        CalleeView::Function { def, args } => "Function { def: "@ + fn_def_text(def) + ", args: "@
            + tys_text(args) + " }"@,
        CalleeView::Pointer => "Pointer"@,
        CalleeView::Other { ty } => "Other { ty: "@ + ty_text(ty) + " }"@,
    }
}

pub open spec fn terminator_text(term: TerminatorView) -> Seq<char> {
    match term {
        TerminatorView::Goto { target } => "Goto { target: "@ + decimal(target as nat) + " }"@,
        TerminatorView::Return => "Return"@,
        TerminatorView::Call { callee, args } => "Call { callee: "@ + callee_text(callee)
            + ", args: "@ + tys_text(args) + " }"@,
        TerminatorView::Other { code, tys } => "Other { code: "@ + decimal(code as nat)
            + ", tys: "@ + tys_text(tys) + " }"@,
    }
}

pub fn describe_ty(ty: Ty) -> (s: String)
    ensures
        s@ == ty_text(ty),
{
    let mut s = String::from_str("Ty { id: ");
    s.append(decimal_string(ty.id).as_str());
    s.append(" }");
    s
}

pub fn describe_fn_def(def: FnDef) -> (s: String)
    ensures
        s@ == fn_def_text(def),
{
    let mut s = String::from_str("FnDef { id: ");
    s.append(decimal_string(def.id).as_str());
    s.append(" }");
    s
}

pub fn describe_tys(tys: &Vec<Ty>) -> (s: String)
    ensures
        s@ == tys_text(tys@),
{
    let mut pieces: Vec<String> = Vec::new();
    let mut i: usize = 0;
    while i < tys.len()
        invariant
            i <= tys.len(),
            pieces@.len() == i,
            views(pieces@) == ty_texts(tys@.subrange(0, i as int)),
        decreases tys.len() - i,
    {
        let ghost before = pieces@;
        pieces.push(describe_ty(tys[i]));
        assert forall|k: int| 0 <= k < i + 1 implies views(pieces@)[k] == ty_texts(
            tys@.subrange(0, i + 1),
        )[k] by {
            if k < i {
                assert(views(before)[k] == ty_texts(tys@.subrange(0, i as int))[k]);
            }
        }
        assert(views(pieces@) =~= ty_texts(tys@.subrange(0, i + 1)));
        i += 1;
    }
    assert(tys@.subrange(0, i as int) =~= tys@);
    let mut s = String::from_str("[");
    s.append(join(&pieces, ", ").as_str());
    s.append("]");
    s
}

pub fn describe_statement(stmt: &Statement) -> (s: String)
    ensures
        s@ == statement_text(stmt@),
{
    let mut s = String::from_str("Statement { code: ");
    s.append(decimal_string(stmt.code).as_str());
    s.append(", tys: ");
    s.append(describe_tys(&stmt.tys).as_str());
    s.append(" }");
    s
}

pub fn describe_callee(callee: &Callee) -> (s: String)
    ensures
        s@ == callee_text(callee@),
{
    match callee {
        Callee::Function { def, args } => {
            let mut s = String::from_str("Function { def: ");
            s.append(describe_fn_def(*def).as_str());
            s.append(", args: ");
            s.append(describe_tys(args).as_str());
            s.append(" }");
            s
        },
        Callee::Pointer => String::from_str("Pointer"),
        Callee::Other { ty } => {
            let mut s = String::from_str("Other { ty: ");
            s.append(describe_ty(*ty).as_str());
            s.append(" }");
            s
        },
    }
}

pub fn describe_terminator(term: &Terminator) -> (s: String)
    ensures
        s@ == terminator_text(term@),
{
    match term {
        Terminator::Goto { target } => {
            let mut s = String::from_str("Goto { target: ");
            s.append(count_string(*target).as_str());
            s.append(" }");
            s
        },
        Terminator::Return => String::from_str("Return"),
        Terminator::Call { callee, args } => {
            let mut s = String::from_str("Call { callee: ");
            s.append(describe_callee(callee).as_str());
            s.append(", args: ");
            s.append(describe_tys(args).as_str());
            s.append(" }");
            s
        },
        Terminator::Other { code, tys } => {
            let mut s = String::from_str("Other { code: ");
            s.append(decimal_string(*code).as_str());
            s.append(", tys: ");
            s.append(describe_tys(tys).as_str());
            s.append(" }");
            s
        },
    }
}

pub open spec fn kind_text(kind: ItemKind) -> Seq<char> {
    match kind {
        ItemKind::Function => "Function"@,
        ItemKind::Type => "Type"@,
        ItemKind::Trait => "Trait"@,
        ItemKind::Other => "Other"@,
    }
}

pub open spec fn trait_def_text(def: TraitDef) -> Seq<char> {
    "TraitDef { id: "@ + decimal(def.id as nat) + " }"@
}

pub open spec fn trait_impl_text(imp: TraitImpl) -> Seq<char> {
    "TraitImpl { id: "@ + decimal(imp.id as nat) + ", trait_def: "@ + trait_def_text(imp.trait_def)
        + " }"@
}

pub open spec fn bool_text(b: bool) -> Seq<char> {
    if b {
        "true"@
    } else {
        "false"@
    }
}

/// The crate's name stands between double quotes, as it is.
pub open spec fn crate_text(krate: CrateView) -> Seq<char> {
    "Crate { id: "@ + decimal(krate.id as nat) + ", name: \""@ + krate.name + "\", is_local: "@
        + bool_text(krate.is_local) + " }"@
}

pub fn describe_kind(kind: ItemKind) -> (s: String)
    ensures
        s@ == kind_text(kind),
{
    match kind {
        ItemKind::Function => String::from_str("Function"),
        ItemKind::Type => String::from_str("Type"),
        ItemKind::Trait => String::from_str("Trait"),
        ItemKind::Other => String::from_str("Other"),
    }
}

pub fn describe_trait_impl(imp: TraitImpl) -> (s: String)
    ensures
        s@ == trait_impl_text(imp),
{
    let mut s = String::from_str("TraitImpl { id: ");
    s.append(decimal_string(imp.id).as_str());
    s.append(", trait_def: ");
    s.append("TraitDef { id: ");
    s.append(decimal_string(imp.trait_def.id).as_str());
    s.append(" }");
    s.append(" }");
    assert(s@ =~= trait_impl_text(imp));
    s
}

pub fn describe_crate(krate: &Crate) -> (s: String)
    ensures
        s@ == crate_text(krate@),
{
    let mut s = String::from_str("Crate { id: ");
    s.append(decimal_string(krate.id).as_str());
    s.append(", name: \"");
    s.append(krate.name.as_str());
    s.append("\", is_local: ");
    if krate.is_local {
        s.append("true");
    } else {
        s.append("false");
    }
    s.append(" }");
    s
}

} // verus!
