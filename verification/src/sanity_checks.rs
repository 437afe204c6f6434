//! Checks that the introspection interface is coherent with itself.
//!
//! Every check returns `Ok` or the description of what it found wrong; no
//! check panics. A check that goes over several bodies reports the first
//! fault of each of them, so that one faulty body does not hide another.
use vstd::prelude::*;
use vstd::string::StringExecFns;
use crate::consistency::{
    compare, consistent, first_fault, function_label, function_prefix,
    lemma_own_record_consistent,
};
use crate::ir::{Body, Callee, CalleeView, FnDef, Statement, Terminator, TerminatorView, Ty};
use crate::program::{
    crate_views, CrateLookup, Instance, Item, ItemKind, Program, ResolutionError, TraitDef,
    TraitImpl,
};
use crate::reach::{discover, discovery, enters, lemma_reachable_known, reachable};
use crate::render::{
    crate_text, describe_crate, describe_fn_def, describe_kind, describe_statement,
    describe_terminator, describe_trait_impl, describe_ty, describe_tys, fn_def_text, kind_text,
    statement_text, terminator_text, trait_impl_text, ty_text, tys_text,
};
use crate::snapshot::{snapshot, BodyVisitor, Snapshot};
use crate::text::{count_string, decimal, join, joined, views};

verus! {

/// The outcome of one check: success, or a description of what is wrong.
pub type TestResult = Result<(), String>;

/// A value that a check can compare with another and show in a report.
pub trait Checkable {
    /// Value equality.
    spec fn agrees(&self, other: &Self) -> bool;

    /// How the value reads in a report.
    spec fn text(&self) -> Seq<char>;

    fn same_as(&self, other: &Self) -> (r: bool)
        ensures
            r == self.agrees(other),
    ;

    fn describe(&self) -> (s: String)
        ensures
            s@ == self.text(),
    ;
}

impl Checkable for usize {
    open spec fn agrees(&self, other: &usize) -> bool {
        *self == *other
    }

    open spec fn text(&self) -> Seq<char> {
        decimal(*self as nat)
    }

    fn same_as(&self, other: &usize) -> (r: bool) {
        *self == *other
    }

    fn describe(&self) -> (s: String) {
        count_string(*self)
    }
}

impl Checkable for Statement {
    open spec fn agrees(&self, other: &Statement) -> bool {
        self@ == other@
    }

    open spec fn text(&self) -> Seq<char> {
        statement_text(self@)
    }

    fn same_as(&self, other: &Statement) -> (r: bool) {
        self.same(other)
    }

    fn describe(&self) -> (s: String) {
        describe_statement(self)
    }
}

impl Checkable for Terminator {
    open spec fn agrees(&self, other: &Terminator) -> bool {
        self@ == other@
    }

    open spec fn text(&self) -> Seq<char> {
        terminator_text(self@)
    }

    fn same_as(&self, other: &Terminator) -> (r: bool) {
        self.same(other)
    }

    fn describe(&self) -> (s: String) {
        describe_terminator(self)
    }
}

impl Checkable for ItemKind {
    open spec fn agrees(&self, other: &ItemKind) -> bool {
        *self == *other
    }

    open spec fn text(&self) -> Seq<char> {
        kind_text(*self)
    }

    fn same_as(&self, other: &ItemKind) -> (r: bool) {
        *self == *other
    }

    fn describe(&self) -> (s: String) {
        describe_kind(*self)
    }
}

/// The report of two values that should agree and do not.
pub open spec fn mismatch_text(msg: Seq<char>, expected: Seq<char>, found: Seq<char>) -> Seq<char> {
    msg + ": \n Expected: `"@ + expected + "`\n Found: `"@ + found + "`"@
}

/// Succeeds when `val` agrees with `expected`; otherwise reports `msg` with
/// both values: `expected` as what was expected and `val` as what was found.
pub fn check_equal<T: Checkable>(val: &T, expected: &T, msg: &str) -> (res: TestResult)
    ensures
        val.agrees(expected) ==> res is Ok,
        !val.agrees(expected) ==> res is Err && res->Err_0@ == mismatch_text(
            msg@,
            expected.text(),
            val.text(),
        ),
{
    if !val.same_as(expected) {
        let mut s = String::from_str(msg);
        s.append(": \n Expected: `");
        s.append(expected.describe().as_str());
        s.append("`\n Found: `");
        s.append(val.describe().as_str());
        s.append("`");
        Err(s)
    } else {
        Ok(())
    }
}

/// Succeeds when `val` holds; otherwise fails with `msg`.
pub fn check(val: bool, msg: String) -> (res: TestResult)
    ensures
        val ==> res is Ok,
        !val ==> res == Err::<(), String>(msg),
{
    if !val {
        Err(msg)
    } else {
        Ok(())
    }
}

/// Walks the body with a fresh visitor, compares what it recorded with the
/// body, and returns the visitor. The walk of this crate never disagrees with
/// the body, so the check succeeds on every body.
pub fn check_body(name: &str, body: &Body) -> (res: Result<BodyVisitor, String>)
    ensures
        res is Ok,
        res->Ok_0@ == Snapshot::of(body@),
        consistent(body@, res->Ok_0@),
{
    let visitor = snapshot(body);
    proof {
        lemma_own_record_consistent(body@);
    }
    match compare(name, body, &visitor) {
        Ok(_) => Ok(visitor),
        Err(m) => Err(m),
    }
}

/// Some item of the list is the declaration `id`.
pub open spec fn lists_item(items: Seq<Item>, id: u64) -> bool {
    exists|i: int| 0 <= i < items.len() && (#[trigger] items[i]).id == id
}

/// Whether some item of the list is the declaration `id`.
fn holds_item(items: &Vec<Item>, id: u64) -> (r: bool)
    ensures
        r == lists_item(items@, id),
{
    let mut i: usize = 0;
    while i < items.len()
        invariant
            i <= items.len(),
            forall|j: int| 0 <= j < i ==> (#[trigger] items@[j]).id != id,
        decreases items.len() - i,
    {
        if items[i].id == id {
            return true;
        }
        i += 1;
    }
    false
}

/// What is wrong with what the interface's own traversal recorded of a body,
/// if anything: the first disagreement between the record and the body.
/// Where there is no body, or no record was taken, nothing is wrong.
pub open spec fn record_fault(name: Seq<char>, body: Option<Body>, record: Option<BodyVisitor>)
    -> Option<Seq<char>> {
    match (body, record) {
        (Some(body), Some(record)) => first_fault(name, body@, record@),
        _ => None,
    }
}

/// Compares what the interface's own traversal recorded of a body with the
/// body itself. A body of which no record was taken is walked by the visitor
/// of this crate, which never disagrees with it.
pub fn check_record(name: &str, body: &Option<Body>, record: &Option<BodyVisitor>) -> (res:
    TestResult)
    ensures
        match res {
            Ok(_) => record_fault(name@, *body, *record) is None,
            Err(m) => record_fault(name@, *body, *record) == Some(m@),
        },
{
    match body {
        Some(body) => match record {
            Some(record) => compare(name, body, record),
            None => match check_body(name, body) {
                Ok(_) => Ok(()),
                Err(m) => Err(m),
            },
        },
        None => Ok(()),
    }
}

/// What is wrong with the program's entry point, if anything: what was
/// recorded of its body disagrees with the body, or it is missing from the
/// local items, or it is not a function.
pub open spec fn entry_fault(program: Program) -> Option<Seq<char>> {
    match program.entry {
        None => None,
        Some(entry) => if record_fault(entry.name@, entry.body, entry.record) is Some {
            record_fault(entry.name@, entry.body, entry.record)
        } else if !lists_item(program.items@, entry.id) {
            Some("Failed to find entry_fn: `"@ + entry.name@ + "`"@)
        } else if entry.kind != ItemKind::Function {
            Some(
                mismatch_text(
                    "Entry must be a function"@,
                    kind_text(ItemKind::Function),
                    kind_text(entry.kind),
                ),
            )
        } else {
            None
        },
    }
}

/// If the program has an entry point, what was recorded of its body agrees
/// with the body, it is one of the local items, and it is a function.
pub fn test_entry_fn(program: &Program) -> (res: TestResult)
    ensures
        match res {
            Ok(_) => entry_fault(*program) is None,
            Err(m) => entry_fault(*program) == Some(m@),
        },
{
    match program.entry_point() {
        None => Ok(()),
        Some(entry) => {
            let compared = check_record(entry.name.as_str(), &entry.body, &entry.record);
            if compared.is_err() {
                return compared;
            }
            if !holds_item(program.all_local_items(), entry.id) {
                let mut s = String::from_str("Failed to find entry_fn: `");
                s.append(entry.name.as_str());
                s.append("`");
                return Err(s);
            }
            check_equal(&entry.kind, &ItemKind::Function, "Entry must be a function")
        },
    }
}

/// The record faults of the local items before position `upto`, in
/// declaration order; an item without a fault adds nothing.
pub open spec fn item_faults(program: Program, upto: int) -> Seq<Seq<char>>
    decreases upto,
{
    if upto <= 0 {
        Seq::empty()
    } else {
        let item = program.items@[upto - 1];
        match record_fault(item.name@, item.body, item.record) {
            Some(fault) => item_faults(program, upto - 1).push(fault),
            None => item_faults(program, upto - 1),
        }
    }
}

/// What is wrong with the bodies of the local items, if anything: the record
/// faults of all of them, one per line, in declaration order.
pub open spec fn items_fault(program: Program) -> Option<Seq<char>> {
    let faults = item_faults(program, program.items@.len() as int);
    if faults.len() == 0 {
        None
    } else {
        Some(joined(faults, "\n"@))
    }
}

/// Compares, for every local item that has a body, what the interface's own
/// traversal recorded of it with the body itself. Succeeds when no record
/// disagrees; otherwise reports the first disagreement of every item that has
/// one, so that one faulty item does not hide another.
pub fn test_all_fns(program: &Program) -> (res: TestResult)
    ensures
        match res {
            Ok(_) => items_fault(*program) is None,
            Err(m) => items_fault(*program) == Some(m@),
        },
{
    let items = program.all_local_items();
    let mut faults: Vec<String> = Vec::new();
    let mut i: usize = 0;
    while i < items.len()
        invariant
            i <= items.len(),
            *items == program.items,
            views(faults@) == item_faults(*program, i as int),
        decreases items.len() - i,
    {
        match check_record(items[i].name.as_str(), &items[i].body, &items[i].record) {
            Ok(_) => {},
            Err(fault) => {
                let ghost before = faults@;
                faults.push(fault);
                assert(views(faults@) =~= views(before).push(fault@));
            },
        }
        i += 1;
    }
    if faults.len() == 0 {
        Ok(())
    } else {
        Err(join(&faults, "\n"))
    }
}

/// The first implementation from `from` on whose trait is not declared, or
/// the number of implementations when there is none.
pub open spec fn first_undeclared(decls: Seq<TraitDef>, impls: Seq<TraitImpl>, from: int) -> int
    decreases impls.len() - from,
{
    if from >= impls.len() {
        impls.len() as int
    } else if !decls.contains(impls[from].trait_def) {
        from
    } else {
        first_undeclared(decls, impls, from + 1)
    }
}

/// What is wrong with the program's traits, if anything.
pub open spec fn traits_fault(program: Program) -> Option<Seq<char>> {
    let at = first_undeclared(program.trait_decls@, program.trait_impls@, 0);
    if at < program.trait_impls@.len() {
        Some(
            "Failed to find trait definition: `"@ + trait_impl_text(program.trait_impls@[at])
                + "`"@,
        )
    } else {
        None
    }
}

/// Whether the trait is among the declarations.
fn holds_trait(decls: &Vec<TraitDef>, def: TraitDef) -> (r: bool)
    ensures
        r == decls@.contains(def),
{
    let mut i: usize = 0;
    while i < decls.len()
        invariant
            i <= decls.len(),
            forall|j: int| 0 <= j < i ==> decls@[j] != def,
        decreases decls.len() - i,
    {
        if decls[i] == def {
            return true;
        }
        i += 1;
    }
    false
}

/// The trait of every trait implementation is among the trait declarations;
/// the first implementation for which it is not is reported.
pub fn test_traits(program: &Program) -> (res: TestResult)
    ensures
        match res {
            Ok(_) => traits_fault(*program) is None,
            Err(m) => traits_fault(*program) == Some(m@),
        },
        res is Ok <==> forall|i: int|
            0 <= i < program.trait_impls@.len() ==> program.trait_decls@.contains(
                (#[trigger] program.trait_impls@[i]).trait_def,
            ),
{
    let mut i: usize = 0;
    while i < program.trait_impls.len()
        invariant
            i <= program.trait_impls.len(),
            first_undeclared(program.trait_decls@, program.trait_impls@, 0) == first_undeclared(
                program.trait_decls@,
                program.trait_impls@,
                i as int,
            ),
            forall|j: int|
                0 <= j < i ==> program.trait_decls@.contains(
                    (#[trigger] program.trait_impls@[j]).trait_def,
                ),
        decreases program.trait_impls.len() - i,
    {
        let imp = program.trait_impls[i];
        if !holds_trait(&program.trait_decls, imp.trait_def) {
            let mut s = String::from_str("Failed to find trait definition: `");
            s.append(describe_trait_impl(imp).as_str());
            s.append("`");
            return Err(s);
        }
        i += 1;
    }
    Ok(())
}

/// The search for the crate's name returned the crate itself.
pub open spec fn crate_found(lookup: CrateLookup) -> bool {
    crate_views(lookup.found@).contains(lookup.krate@)
}

/// Whether the search for the crate's name returned the crate itself.
fn found_itself(lookup: &CrateLookup) -> (r: bool)
    ensures
        r == crate_found(*lookup),
{
    let mut i: usize = 0;
    while i < lookup.found.len()
        invariant
            i <= lookup.found.len(),
            forall|j: int| 0 <= j < i ==> lookup.found@[j]@ != lookup.krate@,
        decreases lookup.found.len() - i,
    {
        let other = &lookup.found[i];
        if other.id == lookup.krate.id && other.name == lookup.krate.name && other.is_local
            == lookup.krate.is_local {
            assert(crate_views(lookup.found@)[i as int] == lookup.krate@);
            return true;
        }
        i += 1;
    }
    assert forall|j: int| 0 <= j < crate_views(lookup.found@).len() implies crate_views(
        lookup.found@,
    )[j] != lookup.krate@ by {
        assert(lookup.found@[j]@ != lookup.krate@);
    }
    false
}

/// The first lookup from `from` on that did not return its own crate, or the
/// number of lookups when there is none.
pub open spec fn first_lost(lookups: Seq<CrateLookup>, from: int) -> int
    decreases lookups.len() - from,
{
    if from >= lookups.len() {
        lookups.len() as int
    } else if !crate_found(lookups[from]) {
        from
    } else {
        first_lost(lookups, from + 1)
    }
}

/// What is wrong with the program's crates, if anything: the first external
/// crate that a search for its name does not return, else the local crate.
pub open spec fn crates_fault(program: Program) -> Option<Seq<char>> {
    let at = first_lost(program.external_crates@, 0);
    if at < program.external_crates@.len() {
        Some("Cannot find `"@ + crate_text(program.external_crates@[at].krate@) + "`"@)
    } else if !crate_found(program.local_crate) {
        Some("Cannot find local: `"@ + crate_text(program.local_crate.krate@) + "`"@)
    } else {
        None
    }
}

/// A search for the name of each crate, external or local, returns that crate.
pub fn test_crates(program: &Program) -> (res: TestResult)
    ensures
        match res {
            Ok(_) => crates_fault(*program) is None,
            Err(m) => crates_fault(*program) == Some(m@),
        },
        res is Ok <==> crate_found(program.local_crate) && forall|i: int|
            0 <= i < program.external_crates@.len() ==> crate_found(
                #[trigger] program.external_crates@[i],
            ),
{
    let mut i: usize = 0;
    while i < program.external_crates.len()
        invariant
            i <= program.external_crates.len(),
            first_lost(program.external_crates@, 0) == first_lost(
                program.external_crates@,
                i as int,
            ),
            forall|j: int| 0 <= j < i ==> crate_found(#[trigger] program.external_crates@[j]),
        decreases program.external_crates.len() - i,
    {
        if !found_itself(&program.external_crates[i]) {
            let mut s = String::from_str("Cannot find `");
            s.append(describe_crate(&program.external_crates[i].krate).as_str());
            s.append("`");
            return Err(s);
        }
        i += 1;
    }
    if !found_itself(&program.local_crate) {
        let mut s = String::from_str("Cannot find local: `");
        s.append(describe_crate(&program.local_crate.krate).as_str());
        s.append("`");
        return Err(s);
    }
    Ok(())
}

/// What is wrong with a call.
#[derive(Debug, PartialEq, Eq)]
pub enum CallFault {
    /// The callee is a function definition that does not resolve.
    Unresolved(ResolutionError),
    /// The callee is neither a function definition nor a function pointer,
    /// but a value of this type.
    UnexpectedCallee { ty: Ty },
}

/// Mathematical value of a [`CallFault`].
pub enum CallFaultView {
    Unresolved { def: FnDef, args: Seq<Ty> },
    UnexpectedCallee { ty: Ty },
}

impl View for CallFault {
    type V = CallFaultView;

    open spec fn view(&self) -> CallFaultView {
        match *self {
            CallFault::Unresolved(e) => CallFaultView::Unresolved { def: e.def, args: e.args@ },
            CallFault::UnexpectedCallee { ty } => CallFaultView::UnexpectedCallee { ty },
        }
    }
}

/// What is wrong with a terminator as a call, if anything: its callee is a
/// function definition that does not resolve, or it is of an unexpected
/// shape. A call through a function pointer is in order, and so is every
/// terminator that is no call.
pub open spec fn call_fault(program: Program, term: TerminatorView) -> Option<CallFaultView> {
    match term {
        TerminatorView::Call { callee, args } => match callee {
            CalleeView::Function { def, args } => if program.resolution(def, args) is None {
                Some(CallFaultView::Unresolved { def, args })
            } else {
                None
            },
            CalleeView::Pointer => None,
            CalleeView::Other { ty } => Some(CallFaultView::UnexpectedCallee { ty }),
        },
        _ => None,
    }
}

/// The report of a call fault in the function `name`.
pub open spec fn call_fault_text(name: Seq<char>, fault: CallFaultView) -> Seq<char> {
    match fault {
        CallFaultView::Unresolved { def, args } => function_label(name) + "Failed to resolve `"@
            + fn_def_text(def) + "` with `"@ + tys_text(args) + "`"@,
        CallFaultView::UnexpectedCallee { ty } => function_label(name) + "Unexpected call: `"@
            + ty_text(ty) + "`"@,
    }
}

/// The call fault of the first terminator from `from` on that has one.
pub open spec fn first_call_fault(
    program: Program,
    name: Seq<char>,
    terms: Seq<TerminatorView>,
    from: int,
) -> Option<Seq<char>>
    decreases terms.len() - from,
{
    if from >= terms.len() {
        None
    } else {
        match call_fault(program, terms[from]) {
            Some(fault) => Some(call_fault_text(name, fault)),
            None => first_call_fault(program, name, terms, from + 1),
        }
    }
}

/// What is wrong with an instance, if anything: the first disagreement
/// between what was recorded of its body and the body, else the first call
/// fault among the terminators of its body, in block order. An instance
/// without a body has no fault.
pub open spec fn instance_fault(program: Program, instance: Instance) -> Option<Seq<char>> {
    let entry = program.instances@[instance.index as int];
    if record_fault(entry.mangled_name@, entry.body, entry.record) is Some {
        record_fault(entry.mangled_name@, entry.body, entry.record)
    } else {
        match entry.body {
            Some(body) => first_call_fault(
                program,
                entry.mangled_name@,
                Snapshot::of(body@).terminators,
                0,
            ),
            None => None,
        }
    }
}

/// Checks one terminator as a call.
pub fn check_call(program: &Program, term: &Terminator) -> (res: Result<(), CallFault>)
    ensures
        match res {
            Ok(_) => call_fault(*program, term@) is None,
            Err(fault) => call_fault(*program, term@) == Some(fault@),
        },
{
    match term {
        Terminator::Call { callee: Callee::Function { def, args }, args: _ } => {
            match program.resolve(*def, args) {
                Ok(_) => Ok(()),
                Err(e) => Err(CallFault::Unresolved(e)),
            }
        },
        Terminator::Call { callee: Callee::Other { ty }, args: _ } => {
            Err(CallFault::UnexpectedCallee { ty: *ty })
        },
        _ => Ok(()),
    }
}

impl CallFault {
    /// The report of the fault in the function `name`.
    pub fn message(&self, name: &str) -> (s: String)
        ensures
            s@ == call_fault_text(name@, self@),
    {
        let mut s = function_prefix(name);
        match self {
            CallFault::Unresolved(e) => {
                s.append("Failed to resolve `");
                s.append(describe_fn_def(e.def).as_str());
                s.append("` with `");
                s.append(describe_tys(&e.args).as_str());
                s.append("`");
            },
            CallFault::UnexpectedCallee { ty } => {
                s.append("Unexpected call: `");
                s.append(describe_ty(*ty).as_str());
                s.append("`");
            },
        }
        s
    }
}

/// Checks one instance: compares what was recorded of its body with the
/// body, then walks the body and checks every terminator that the walk
/// recorded as a call, and reports the first fault. An instance without a
/// body, and a handle that is not of this program, pass.
pub fn check_instance(program: &Program, instance: Instance) -> (res: TestResult)
    ensures
        !program.knows(instance) ==> res is Ok,
        program.knows(instance) ==> match res {
            Ok(_) => instance_fault(*program, instance) is None,
            Err(m) => instance_fault(*program, instance) == Some(m@),
        },
{
    let Some(body) = program.body_of(instance) else {
        return Ok(());
    };
    let name = program.instances[instance.index].mangled_name.as_str();
    let entry = &program.instances[instance.index];
    let compared = check_record(name, &entry.body, &entry.record);
    if compared.is_err() {
        return compared;
    }
    let walked = check_body(name, body);
    if walked.is_err() {
        return Err(walked.unwrap_err());
    }
    let visitor = walked.unwrap();
    let ghost terms = Snapshot::of(body@).terminators;
    let mut i: usize = 0;
    while i < visitor.terminators.len()
        invariant
            i <= visitor.terminators.len(),
            program.knows(instance),
            program.instances@[instance.index as int].body == Some(*body),
            record_fault(
                name@,
                program.instances@[instance.index as int].body,
                program.instances@[instance.index as int].record,
            ) is None,
            visitor@ == Snapshot::of(body@),
            terms == Snapshot::of(body@).terminators,
            name@ == program.instances@[instance.index as int].mangled_name@,
            first_call_fault(*program, name@, terms, 0) == first_call_fault(
                *program,
                name@,
                terms,
                i as int,
            ),
        decreases visitor.terminators.len() - i,
    {
        assert(visitor@.terminators[i as int] == visitor.terminators@[i as int]@);
        match check_call(program, &visitor.terminators[i]) {
            Ok(_) => {},
            Err(fault) => {
                return Err(fault.message(name));
            },
        }
        i += 1;
    }
    Ok(())
}

/// The instances of the local function items before position `upto`, in
/// declaration order.
pub open spec fn item_roots(program: Program, upto: int) -> Seq<Instance>
    decreases upto,
{
    if upto <= 0 {
        Seq::empty()
    } else {
        match program.instance_for(program.items@[upto - 1]) {
            Some(instance) => item_roots(program, upto - 1).push(instance),
            None => item_roots(program, upto - 1),
        }
    }
}

/// The roots of discovery: the instance of the entry point, if it has one,
/// and the instances of all local function items.
pub open spec fn roots_of(program: Program) -> Seq<Instance> {
    let items = item_roots(program, program.items@.len() as int);
    match program.entry {
        Some(entry) => match program.instance_for(entry) {
            Some(instance) => seq![instance] + items,
            None => items,
        },
        None => items,
    }
}

/// Collects the roots of discovery.
pub fn roots(program: &Program) -> (r: Vec<Instance>)
    ensures
        r@ == roots_of(*program),
{
    let mut r: Vec<Instance> = Vec::new();
    match program.entry_point() {
        Some(entry) => {
            match program.instance_from(entry) {
                Some(instance) => {
                    r.push(instance);
                },
                None => {},
            }
        },
        None => {},
    }
    let ghost head = r@;
    let items = program.all_local_items();
    let mut i: usize = 0;
    while i < items.len()
        invariant
            i <= items.len(),
            *items == program.items,
            r@ == head + item_roots(*program, i as int),
        decreases items.len() - i,
    {
        match program.instance_from(&items[i]) {
            Some(instance) => {
                r.push(instance);
                assert(r@ =~= head + item_roots(*program, i + 1));
            },
            None => {},
        }
        i += 1;
    }
    assert(r@ =~= roots_of(*program)) by {
        assert(head + item_roots(*program, program.items@.len() as int) =~= roots_of(*program));
    }
    r
}

/// The faults of the given instances, in their order; an instance without a
/// fault adds nothing.
pub open spec fn faults_among(program: Program, instances: Seq<Instance>) -> Seq<Seq<char>>
    decreases instances.len(),
{
    if instances.len() == 0 {
        Seq::empty()
    } else {
        match instance_fault(program, instances.last()) {
            Some(fault) => faults_among(program, instances.drop_last()).push(fault),
            None => faults_among(program, instances.drop_last()),
        }
    }
}

/// What is wrong with the discovered instances, if anything: the faults of all
/// of them, one per line, in the order of the instance table.
pub open spec fn instances_fault(program: Program) -> Option<Seq<char>> {
    let faults = faults_among(program, discovery(program, roots_of(program)));
    if faults.len() == 0 {
        None
    } else {
        Some(joined(faults, "\n"@))
    }
}

/// Discovers every instance that the roots reach and checks each of them
/// once. Succeeds when none has a fault; otherwise reports the faults of all
/// of them, so that one faulty instance does not hide another.
pub fn test_instances(program: &Program) -> (res: TestResult)
    ensures
        match res {
            Ok(_) => instances_fault(*program) is None,
            Err(m) => instances_fault(*program) == Some(m@),
        },
{
    let start = roots(program);
    let found = discover(program, &start);
    let mut faults: Vec<String> = Vec::new();
    let mut i: usize = 0;
    while i < found.len()
        invariant
            i <= found.len(),
            found@ == discovery(*program, roots_of(*program)),
            forall|instance: Instance|
                #[trigger] found@.contains(instance) <==> reachable(
                    *program,
                    roots_of(*program),
                    instance,
                ),
            views(faults@) == faults_among(*program, found@.subrange(0, i as int)),
        decreases found.len() - i,
    {
        proof {
            assert(found@.contains(found@[i as int]));
            lemma_reachable_known(*program, roots_of(*program), found@[i as int]);
            let next = found@.subrange(0, i + 1);
            assert(next.drop_last() =~= found@.subrange(0, i as int));
            assert(next.last() == found@[i as int]);
        }
        match check_instance(program, found[i]) {
            Ok(_) => {},
            Err(fault) => {
                let ghost before = faults@;
                faults.push(fault);
                assert(views(faults@) =~= views(before).push(fault@));
            },
        }
        i += 1;
    }
    assert(found@.subrange(0, i as int) =~= found@);
    if faults.len() == 0 {
        Ok(())
    } else {
        Err(join(&faults, "\n"))
    }
}

/// A call through a function pointer is no fault and leads to no instance.
pub proof fn lemma_pointer_call_is_in_order(program: Program, args: Seq<Ty>)
    ensures
        call_fault(program, TerminatorView::Call { callee: CalleeView::Pointer, args }) is None,
        enters(program, TerminatorView::Call { callee: CalleeView::Pointer, args }) is None,
{
}

} // verus!
