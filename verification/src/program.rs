//! The inspected program as a read-only model: its items, its function
//! instances, and the queries that the checks put to it.
use vstd::prelude::*;
use crate::ir::{copy_tys, same_tys, Body, FnDef, Span, Ty};
use crate::snapshot::BodyVisitor;

verus! {

/// What kind of declaration an item is.
#[derive(Clone, Copy, Debug, PartialEq, Eq, Hash, Structural)]
pub enum ItemKind {
    Function,
    Type,
    Trait,
    Other,
}

/// A named, located declaration of the local program. Two items are the same
/// declaration when their `id`s are equal.
#[derive(Debug)]
pub struct Item {
    pub id: u64,
    pub name: String,
    pub span: Span,
    pub kind: ItemKind,
    /// The item's body; `None` for an opaque or external definition.
    pub body: Option<Body>,
    /// What the interface's own traversal recorded of the body; `None` where
    /// it was not run.
    pub record: Option<BodyVisitor>,
}

/// A concrete callable: a handle into the program's table of instances.
/// The table holds each pair of definition and type arguments once, so two
/// handles of a well-formed program are equal exactly when their pairs are.
#[derive(Clone, Copy, Debug, PartialEq, Eq, Hash, Structural)]
pub struct Instance {
    pub index: usize,
}

/// One instance of the table: a definition with concrete type arguments.
#[derive(Debug)]
pub struct InstanceEntry {
    pub def: FnDef,
    pub args: Vec<Ty>,
    pub mangled_name: String,
    /// The instance's body; `None` for an opaque or external definition.
    pub body: Option<Body>,
    /// What the interface's own traversal recorded of the body; `None` where
    /// it was not run.
    pub record: Option<BodyVisitor>,
}

/// The definition and type arguments that could not be made into an instance.
#[derive(Debug, PartialEq, Eq)]
pub struct ResolutionError {
    pub def: FnDef,
    pub args: Vec<Ty>,
}

/// A trait declaration.
#[derive(Clone, Copy, Debug, PartialEq, Eq, Hash, Structural)]
pub struct TraitDef {
    pub id: u64,
}

/// An implementation of a trait, with the trait that it names.
#[derive(Clone, Copy, Debug, PartialEq, Eq, Hash, Structural)]
pub struct TraitImpl {
    pub id: u64,
    pub trait_def: TraitDef,
}

/// A crate of the compilation.
#[derive(Debug, PartialEq, Eq)]
pub struct Crate {
    pub id: u64,
    pub name: String,
    pub is_local: bool,
}

/// Mathematical value of a [`Crate`].
pub struct CrateView {
    pub id: u64,
    pub name: Seq<char>,
    pub is_local: bool,
}

impl View for Crate {
    type V = CrateView;

    open spec fn view(&self) -> CrateView {
        CrateView { id: self.id, name: self.name@, is_local: self.is_local }
    }
}

/// The mathematical values of a list of crates.
pub open spec fn crate_views(crates: Seq<Crate>) -> Seq<CrateView> {
    Seq::new(crates.len(), |i: int| crates[i]@)
}

/// A crate together with the crates that a search for its name returned.
#[derive(Debug, PartialEq, Eq)]
pub struct CrateLookup {
    pub krate: Crate,
    pub found: Vec<Crate>,
}

/// The inspected program.
#[derive(Debug)]
pub struct Program {
    /// The program's designated start function, if it has one.
    pub entry: Option<Item>,
    /// Every locally defined item, in declaration order.
    pub items: Vec<Item>,
    /// Every instance that the program can be asked about.
    pub instances: Vec<InstanceEntry>,
    /// Every trait declaration that the program reports.
    pub trait_decls: Vec<TraitDef>,
    /// Every trait implementation that the program reports.
    pub trait_impls: Vec<TraitImpl>,
    /// The crate under inspection.
    pub local_crate: CrateLookup,
    /// The crates that it depends on.
    pub external_crates: Vec<CrateLookup>,
}

/// The entry stands for `def` applied to `args`.
pub open spec fn has_key(entry: InstanceEntry, def: FnDef, args: Seq<Ty>) -> bool {
    entry.def == def && entry.args@ == args
}

/// The entry stands for `def` applied to `args` under the given name, and has
/// neither a body nor a record yet.
pub open spec fn fresh_entry(
    entry: InstanceEntry,
    def: FnDef,
    args: Seq<Ty>,
    mangled_name: Seq<char>,
) -> bool {
    &&& has_key(entry, def, args)
    &&& entry.mangled_name@ == mangled_name
    &&& entry.body is None
    &&& entry.record is None
}

/// The two entries agree in everything but their bodies and what was
/// recorded of them.
pub open spec fn same_but_body(entry: InstanceEntry, other: InstanceEntry) -> bool {
    entry.def == other.def && entry.args == other.args && entry.mangled_name == other.mangled_name
}

/// The first position from `from` on whose entry stands for `def` applied to
/// `args`, or the length of the table when there is none.
pub open spec fn first_with_key(table: Seq<InstanceEntry>, def: FnDef, args: Seq<Ty>, from: int)
    -> int
    decreases table.len() - from,
{
    if from >= table.len() {
        table.len() as int
    } else if has_key(table[from], def, args) {
        from
    } else {
        first_with_key(table, def, args, from + 1)
    }
}

/// `first_with_key` finds an entry with the key, and none lies before it.
pub proof fn lemma_first_with_key(table: Seq<InstanceEntry>, def: FnDef, args: Seq<Ty>, from: int)
    requires
        0 <= from <= table.len(),
    ensures
        from <= first_with_key(table, def, args, from) <= table.len(),
        first_with_key(table, def, args, from) < table.len() ==> has_key(
            table[first_with_key(table, def, args, from)],
            def,
            args,
        ),
        forall|j: int|
            from <= j < first_with_key(table, def, args, from) ==> !has_key(
                #[trigger] table[j],
                def,
                args,
            ),
    decreases table.len() - from,
{
    if from < table.len() && !has_key(table[from], def, args) {
        lemma_first_with_key(table, def, args, from + 1);
    }
}

impl Program {
    /// No two entries of the instance table stand for the same definition
    /// applied to the same type arguments.
    pub open spec fn well_formed(&self) -> bool {
        forall|i: int, j: int|
            0 <= i < j < self.instances@.len() ==> !has_key(
                #[trigger] self.instances@[i],
                self.instances@[j].def,
                (#[trigger] self.instances@[j]).args@,
            )
    }

    /// The two programs agree in everything but their instance tables.
    pub open spec fn same_but_instances(&self, other: Program) -> bool {
        &&& self.entry == other.entry
        &&& self.items == other.items
        &&& self.trait_decls == other.trait_decls
        &&& self.trait_impls == other.trait_impls
        &&& self.local_crate == other.local_crate
        &&& self.external_crates == other.external_crates
    }

    /// The instance tables are of one length and agree at every position but
    /// `at`.
    pub open spec fn same_instances_but(&self, other: Program, at: int) -> bool {
        &&& self.instances@.len() == other.instances@.len()
        &&& forall|i: int|
            0 <= i < self.instances@.len() && i != at ==> #[trigger] self.instances@[i]
                == other.instances@[i]
    }

    /// The handle belongs to this program.
    pub open spec fn knows(&self, instance: Instance) -> bool {
        instance.index < self.instances@.len()
    }

    /// The instance of a function item that needs no type arguments, if any.
    pub open spec fn instance_for(&self, item: Item) -> Option<Instance> {
        if item.kind == ItemKind::Function {
            self.resolution(FnDef { id: item.id }, Seq::empty())
        } else {
            None
        }
    }

    /// The instance that `def` applied to `args` resolves to, if any.
    pub open spec fn resolution(&self, def: FnDef, args: Seq<Ty>) -> Option<Instance> {
        let at = first_with_key(self.instances@, def, args, 0);
        if at < self.instances@.len() {
            Some(Instance { index: at as usize })
        } else {
            None
        }
    }

    /// Whether no two entries of the instance table stand for the same
    /// definition applied to the same type arguments.
    pub fn is_well_formed(&self) -> (r: bool)
        ensures
            r == self.well_formed(),
    {
        let mut j: usize = 0;
        while j < self.instances.len()
            invariant
                j <= self.instances.len(),
                forall|a: int, b: int|
                    0 <= a < b < j ==> !has_key(
                        #[trigger] self.instances@[a],
                        self.instances@[b].def,
                        (#[trigger] self.instances@[b]).args@,
                    ),
            decreases self.instances.len() - j,
        {
            let mut i: usize = 0;
            while i < j
                invariant
                    i <= j < self.instances.len(),
                    forall|a: int|
                        0 <= a < i ==> !has_key(
                            #[trigger] self.instances@[a],
                            self.instances@[j as int].def,
                            self.instances@[j as int].args@,
                        ),
                decreases j - i,
            {
                if self.instances[i].def == self.instances[j].def && same_tys(
                    &self.instances[i].args,
                    &self.instances[j].args,
                ) {
                    assert(has_key(
                        self.instances@[i as int],
                        self.instances@[j as int].def,
                        self.instances@[j as int].args@,
                    ));
                    return false;
                }
                i += 1;
            }
            j += 1;
        }
        true
    }

    /// Makes sure that the table holds an instance for `def` applied to
    /// `args`, and returns its handle: the one that is there already, or that
    /// of a new entry without body and record at the end of the table.
    /// Entries that were there keep their handles, and a well-formed table
    /// stays so.
    pub fn intern(&mut self, def: FnDef, args: &Vec<Ty>, mangled_name: &str) -> (instance: Instance)
        ensures
            final(self).resolution(def, args@) == Some(instance),
            match old(self).resolution(def, args@) {
                Some(known) => instance == known && final(self).instances@ == old(self).instances@,
                None => instance.index == old(self).instances@.len() && final(self).instances@.len()
                    == old(self).instances@.len() + 1 && final(self).instances@.subrange(
                    0,
                    old(self).instances@.len() as int,
                ) == old(self).instances@ && fresh_entry(
                    final(self).instances@[instance.index as int],
                    def,
                    args@,
                    mangled_name@,
                ),
            },
            old(self).well_formed() ==> final(self).well_formed(),
            final(self).same_but_instances(*old(self)),
    {
        match self.resolve(def, args) {
            Ok(instance) => instance,
            Err(_) => {
                let index = self.instances.len();
                self.instances.push(
                    InstanceEntry {
                        def,
                        args: copy_tys(args),
                        mangled_name: mangled_name.to_owned(),
                        body: None,
                        record: None,
                    },
                );
                proof {
                    let table = self.instances@;
                    assert(table.subrange(0, index as int) =~= old(self).instances@);
                    assert(fresh_entry(table[index as int], def, args@, mangled_name@));
                    lemma_first_with_key(table, def, args@, 0);
                    let at = first_with_key(table, def, args@, 0);
                    if at < index {
                        assert(table[at] == old(self).instances@[at]);
                    }
                    if old(self).well_formed() {
                        assert forall|i: int, j: int| 0 <= i < j < table.len() implies !has_key(
                            #[trigger] table[i],
                            table[j].def,
                            (#[trigger] table[j]).args@,
                        ) by {
                            assert(table[i] == old(self).instances@[i]);
                            if j < index {
                                assert(table[j] == old(self).instances@[j]);
                            }
                        }
                    }
                }
                Instance { index }
            },
        }
    }

    /// Gives the instance its body and what the interface's own traversal
    /// recorded of it. A handle that is not of this program is ignored.
    pub fn set_body(&mut self, instance: Instance, body: Body, record: Option<BodyVisitor>)
        ensures
            final(self).same_instances_but(*old(self), instance.index as int),
            old(self).knows(instance) ==> final(self).instances@[instance.index as int].body
                == Some(body) && final(self).instances@[instance.index as int].record == record
                && same_but_body(
                final(self).instances@[instance.index as int],
                old(self).instances@[instance.index as int],
            ),
            old(self).well_formed() ==> final(self).well_formed(),
            final(self).same_but_instances(*old(self)),
    {
        if instance.index < self.instances.len() {
            let ghost before = self.instances@;
            let mut entry = self.instances.remove(instance.index);
            entry.body = Some(body);
            entry.record = record;
            self.instances.insert(instance.index, entry);
            proof {
                let table = self.instances@;
                assert forall|i: int| 0 <= i < before.len() && i != instance.index implies table[i]
                    == before[i] by {}
                if old(self).well_formed() {
                    assert forall|i: int, j: int| 0 <= i < j < table.len() implies !has_key(
                        #[trigger] table[i],
                        table[j].def,
                        (#[trigger] table[j]).args@,
                    ) by {
                        assert(!has_key(before[i], before[j].def, before[j].args@));
                    }
                }
            }
        }
    }

    /// The program's designated start function, if it has one.
    pub fn entry_point(&self) -> (r: Option<&Item>)
        ensures
            match r {
                Some(item) => self.entry == Some(*item),
                None => self.entry is None,
            },
    {
        self.entry.as_ref()
    }

    /// Every locally defined item, in declaration order.
    pub fn all_local_items(&self) -> (r: &Vec<Item>)
        ensures
            *r == self.items,
    {
        &self.items
    }

    /// Turns a definition and concrete type arguments into the instance that
    /// stands for them. The same pair always gives the same instance. Fails
    /// when the program holds no such instance.
    pub fn resolve(&self, def: FnDef, args: &Vec<Ty>) -> (res: Result<Instance, ResolutionError>)
        ensures
            match res {
                Ok(instance) => self.resolution(def, args@) == Some(instance),
                Err(e) => self.resolution(def, args@) is None && e.def == def && e.args@ == args@,
            },
            res matches Ok(instance) ==> self.knows(instance) && has_key(
                self.instances@[instance.index as int],
                def,
                args@,
            ),
            res is Err ==> forall|j: int|
                0 <= j < self.instances@.len() ==> !has_key(
                    #[trigger] self.instances@[j],
                    def,
                    args@,
                ),
    {
        let mut i: usize = 0;
        while i < self.instances.len()
            invariant
                i <= self.instances.len(),
                first_with_key(self.instances@, def, args@, 0) == first_with_key(
                    self.instances@,
                    def,
                    args@,
                    i as int,
                ),
                forall|j: int|
                    0 <= j < i ==> !has_key(#[trigger] self.instances@[j], def, args@),
            decreases self.instances.len() - i,
        {
            if self.instances[i].def == def && same_tys(&self.instances[i].args, args) {
                return Ok(Instance { index: i });
            }
            i += 1;
        }
        Err(ResolutionError { def, args: copy_tys(args) })
    }

    /// The instance of a function item that needs no type arguments; `None`
    /// for an item of another kind, and for a function that has no such
    /// instance.
    pub fn instance_from(&self, item: &Item) -> (r: Option<Instance>)
        ensures
            r == self.instance_for(*item),
    {
        match item.kind {
            ItemKind::Function => {
                let no_args: Vec<Ty> = Vec::new();
                match self.resolve(FnDef { id: item.id }, &no_args) {
                    Ok(instance) => Some(instance),
                    Err(_) => None,
                }
            },
            _ => None,
        }
    }

    /// The body of an instance; `None` when the definition is opaque or
    /// external, and for a handle that is not of this program.
    pub fn body_of(&self, instance: Instance) -> (r: Option<&Body>)
        ensures
            match r {
                Some(body) => self.knows(instance) && self.instances@[instance.index as int].body
                    == Some(*body),
                None => !self.knows(instance) || self.instances@[instance.index as int].body
                    is None,
            },
    {
        if instance.index < self.instances.len() {
            self.instances[instance.index].body.as_ref()
        } else {
            None
        }
    }
}

/// Resolution is a function of the definition and the type arguments: asked
/// twice for the same pair, it gives equal instances.
pub proof fn lemma_resolution_repeats(
    program: Program,
    def: FnDef,
    first_args: Seq<Ty>,
    second_args: Seq<Ty>,
)
    requires
        first_args =~= second_args,
    ensures
        program.resolution(def, first_args) == program.resolution(def, second_args),
{
}

/// In a well-formed program two instances are equal exactly when they stand
/// for the same definition applied to the same type arguments.
pub proof fn lemma_instance_identity(program: Program, a: Instance, b: Instance)
    requires
        program.well_formed(),
        program.knows(a),
        program.knows(b),
    ensures
        a == b <==> has_key(
            program.instances@[a.index as int],
            program.instances@[b.index as int].def,
            program.instances@[b.index as int].args@,
        ),
{
    if a.index < b.index {
        assert(!has_key(
            program.instances@[a.index as int],
            program.instances@[b.index as int].def,
            program.instances@[b.index as int].args@,
        ));
    } else if b.index < a.index {
        assert(!has_key(
            program.instances@[b.index as int],
            program.instances@[a.index as int].def,
            program.instances@[a.index as int].args@,
        ));
    }
}

/// In a well-formed program every instance resolves to itself.
pub proof fn lemma_resolution_finds_instance(program: Program, instance: Instance)
    requires
        program.well_formed(),
        program.knows(instance),
    ensures
        program.resolution(
            program.instances@[instance.index as int].def,
            program.instances@[instance.index as int].args@,
        ) == Some(instance),
{
    let entry = program.instances@[instance.index as int];
    lemma_first_with_key(program.instances@, entry.def, entry.args@, 0);
    let at = first_with_key(program.instances@, entry.def, entry.args@, 0);
    if at < instance.index {
        assert(!has_key(program.instances@[at], entry.def, entry.args@));
    }
    if at > instance.index {
        assert(!has_key(program.instances@[instance.index as int], entry.def, entry.args@));
    }
}

} // verus!
