//! Discovery of every instance that the roots reach through direct calls.
//!
//! Call graphs may be cyclic, so discovery keeps an explicit worklist and a
//! visited set: an instance is expanded the first time it is taken from the
//! worklist and skipped every time after. The worklist is a stack.
use vstd::prelude::*;
use crate::calls::{call_edges, callee_of, calls_of, lemma_calls_of_blocks};
use crate::ir::{Body, Callee, CalleeView, TerminatorView};
use crate::program::{lemma_first_with_key, Instance, Program};

verus! {

/// The instance that a call of `callee` enters, if the callee is a function
/// definition that resolves. A call through a function pointer enters none
/// that is known, and neither does any other shape.
pub open spec fn target_of(program: Program, callee: CalleeView) -> Option<Instance> {
    match callee {
        CalleeView::Function { def, args } => program.resolution(def, args),
        _ => None,
    }
}

/// The instance that control enters through the terminator, if it is a direct
/// call that resolves.
pub open spec fn enters(program: Program, term: TerminatorView) -> Option<Instance> {
    match callee_of(term) {
        Some(callee) => target_of(program, callee),
        None => None,
    }
}

/// `from` has a body one of whose blocks ends in a direct call of `to`.
pub open spec fn calls(program: Program, from: Instance, to: Instance) -> bool {
    &&& program.knows(from)
    &&& program.instances@[from.index as int].body matches Some(body)
    &&& exists|k: int|
        0 <= k < body@.blocks.len() && #[trigger] enters(program, body@.blocks[k].terminator)
            == Some(to)
}

/// `target` is a root of the program, or is reached from one by at most
/// `steps` direct calls.
pub open spec fn reached_within(
    program: Program,
    roots: Seq<Instance>,
    steps: nat,
    target: Instance,
) -> bool
    decreases steps,
{
    if steps == 0 {
        program.knows(target) && roots.contains(target)
    } else {
        reached_within(program, roots, (steps - 1) as nat, target) || exists|mid: Instance|
            reached_within(program, roots, (steps - 1) as nat, mid) && #[trigger] calls(
                program,
                mid,
                target,
            )
    }
}

/// `target` is in the transitive closure of the roots under direct calls.
pub open spec fn reachable(program: Program, roots: Seq<Instance>, target: Instance) -> bool {
    exists|steps: nat| reached_within(program, roots, steps, target)
}

/// The number of entries that are still `false`.
spec fn unvisited(visited: Seq<bool>) -> nat
    decreases visited.len(),
{
    if visited.len() == 0 {
        0
    } else if visited.last() {
        unvisited(visited.drop_last())
    } else {
        unvisited(visited.drop_last()) + 1
    }
}

/// Marking an unvisited entry leaves one fewer.
proof fn lemma_mark_visited(visited: Seq<bool>, at: int)
    requires
        0 <= at < visited.len(),
        !visited[at],
    ensures
        unvisited(visited.update(at, true)) + 1 == unvisited(visited),
    decreases visited.len(),
{
    let marked = visited.update(at, true);
    if at == visited.len() - 1 {
        assert(marked.drop_last() =~= visited.drop_last());
    } else {
        lemma_mark_visited(visited.drop_last(), at);
        assert(marked.drop_last() =~= visited.drop_last().update(at, true));
    }
}

/// The instance is visited or waits on the worklist.
spec fn accounted(visited: Seq<bool>, queue: Seq<Instance>, instance: Instance) -> bool {
    (instance.index < visited.len() && visited[instance.index as int]) || queue.contains(instance)
}

/// Everything visited or waiting is reachable from the roots.
spec fn sound(
    program: Program,
    roots: Seq<Instance>,
    visited: Seq<bool>,
    queue: Seq<Instance>,
) -> bool {
    &&& visited.len() == program.instances@.len()
    &&& forall|k: int|
        0 <= k < visited.len() && #[trigger] visited[k] ==> reachable(
            program,
            roots,
            Instance { index: k as usize },
        )
    &&& forall|t: int|
        0 <= t < queue.len() && program.knows(#[trigger] queue[t]) ==> reachable(
            program,
            roots,
            queue[t],
        )
}

/// Every root of the program is visited or waiting.
spec fn roots_accounted(
    program: Program,
    roots: Seq<Instance>,
    visited: Seq<bool>,
    queue: Seq<Instance>,
) -> bool {
    forall|r: int|
        0 <= r < roots.len() && program.knows(#[trigger] roots[r]) ==> accounted(
            visited,
            queue,
            roots[r],
        )
}

/// Every instance that a visited one calls is visited or waiting, except
/// perhaps for the calls of `skip`.
spec fn closed_except(
    program: Program,
    visited: Seq<bool>,
    queue: Seq<Instance>,
    skip: Instance,
) -> bool {
    forall|from: Instance, to: Instance|
        from != skip && program.knows(from) && visited[from.index as int] && #[trigger] calls(
            program,
            from,
            to,
        ) ==> accounted(visited, queue, to)
}

/// A call enters only instances of the program.
pub proof fn lemma_calls_known(program: Program, from: Instance, to: Instance)
    requires
        calls(program, from, to),
    ensures
        program.knows(from),
        program.knows(to),
{
    let body = program.instances@[from.index as int].body->Some_0;
    let k = choose|k: int|
        0 <= k < body@.blocks.len() && #[trigger] enters(program, body@.blocks[k].terminator)
            == Some(to);
    let callee = callee_of(body@.blocks[k].terminator)->Some_0;
    match callee {
        CalleeView::Function { def, args } => {
            lemma_first_with_key(program.instances@, def, args, 0);
        },
        _ => {},
    }
}

/// Every root that the program knows is reachable.
pub proof fn lemma_roots_reachable(program: Program, roots: Seq<Instance>, root: int)
    requires
        0 <= root < roots.len(),
        program.knows(roots[root]),
    ensures
        reachable(program, roots, roots[root]),
{
    assert(reached_within(program, roots, 0, roots[root]));
}

/// What is reachable is closed under direct calls: whatever a reachable
/// instance calls is reachable too.
pub proof fn lemma_reachable_closed(
    program: Program,
    roots: Seq<Instance>,
    from: Instance,
    to: Instance,
)
    requires
        reachable(program, roots, from),
        calls(program, from, to),
    ensures
        reachable(program, roots, to),
{
    let steps = choose|steps: nat| reached_within(program, roots, steps, from);
    assert(reached_within(program, roots, steps + 1, to));
}

/// A set of instances that holds the roots and is closed under direct calls
/// holds everything reachable.
proof fn lemma_closed_holds_reachable(
    program: Program,
    roots: Seq<Instance>,
    visited: Seq<bool>,
    steps: nat,
    target: Instance,
)
    requires
        visited.len() == program.instances@.len(),
        forall|r: int|
            0 <= r < roots.len() && program.knows(#[trigger] roots[r])
                ==> visited[roots[r].index as int],
        forall|from: Instance, to: Instance|
            program.knows(from) && visited[from.index as int] && #[trigger] calls(program, from, to)
                ==> program.knows(to) && visited[to.index as int],
        reached_within(program, roots, steps, target),
    ensures
        program.knows(target),
        visited[target.index as int],
    decreases steps,
{
    if steps == 0 {
        let r = choose|r: int| 0 <= r < roots.len() && roots[r] == target;
        assert(program.knows(roots[r]));
    } else {
        if reached_within(program, roots, (steps - 1) as nat, target) {
            lemma_closed_holds_reachable(program, roots, visited, (steps - 1) as nat, target);
        } else {
            let mid = choose|mid: Instance|
                reached_within(program, roots, (steps - 1) as nat, mid) && #[trigger] calls(
                    program,
                    mid,
                    target,
                );
            lemma_closed_holds_reachable(program, roots, visited, (steps - 1) as nat, mid);
        }
    }
}

/// A handle that stands for no instance of the program.
spec fn nobody(program: Program) -> Instance {
    Instance { index: program.instances.len() }
}

/// The instance that a recorded call enters, if any, is visited or waiting.
spec fn edge_accounted(
    program: Program,
    visited: Seq<bool>,
    queue: Seq<Instance>,
    callee: CalleeView,
) -> bool {
    match target_of(program, callee) {
        Some(to) => accounted(visited, queue, to),
        None => true,
    }
}

/// Pushing onto the worklist accounts for the pushed instance and keeps what
/// was accounted for.
proof fn lemma_push_accounts(visited: Seq<bool>, queue: Seq<Instance>, pushed: Instance)
    ensures
        accounted(visited, queue.push(pushed), pushed),
        forall|instance: Instance|
            accounted(visited, queue, instance) ==> #[trigger] accounted(
                visited,
                queue.push(pushed),
                instance,
            ),
{
    assert(queue.push(pushed)[queue.len() as int] == pushed);
    assert forall|instance: Instance|
        accounted(visited, queue, instance) implies #[trigger] accounted(
        visited,
        queue.push(pushed),
        instance,
    ) by {
        if queue.contains(instance) {
            let t = choose|t: int| 0 <= t < queue.len() && queue[t] == instance;
            assert(queue.push(pushed)[t] == instance);
        }
    }
}

/// Taking the last instance off the worklist keeps every other instance
/// accounted for, and the taken one too once it is visited.
proof fn lemma_pop_accounts(visited: Seq<bool>, queue: Seq<Instance>, marked: Seq<bool>)
    requires
        queue.len() > 0,
        marked.len() == visited.len(),
        forall|k: int| 0 <= k < visited.len() && visited[k] ==> marked[k],
    ensures
        forall|instance: Instance|
            accounted(visited, queue, instance) && (instance != queue.last() || (instance.index
                < marked.len() && marked[instance.index as int])) ==> #[trigger] accounted(
                marked,
                queue.drop_last(),
                instance,
            ),
{
    assert forall|instance: Instance|
        accounted(visited, queue, instance) && (instance != queue.last() || (instance.index
            < marked.len() && marked[instance.index as int])) implies #[trigger] accounted(
        marked,
        queue.drop_last(),
        instance,
    ) by {
        if !(instance.index < visited.len() && visited[instance.index as int]) && instance
            != queue.last() {
            let t = choose|t: int| 0 <= t < queue.len() && queue[t] == instance;
            assert(queue.drop_last()[t] == instance);
        }
    }
}

/// Puts on the worklist every instance that the body of `instance` calls and
/// that is not visited yet. After that the calls of `instance` are accounted
/// for like those of every other visited instance.
fn enqueue_callees(
    program: &Program,
    instance: Instance,
    body: &Body,
    visited: &Vec<bool>,
    queue: &mut Vec<Instance>,
    Ghost(roots): Ghost<Seq<Instance>>,
)
    requires
        program.knows(instance),
        program.instances@[instance.index as int].body == Some(*body),
        visited@[instance.index as int],
        reachable(*program, roots, instance),
        sound(*program, roots, visited@, old(queue)@),
        roots_accounted(*program, roots, visited@, old(queue)@),
        closed_except(*program, visited@, old(queue)@, instance),
    ensures
        sound(*program, roots, visited@, final(queue)@),
        roots_accounted(*program, roots, visited@, final(queue)@),
        closed_except(*program, visited@, final(queue)@, nobody(*program)),
{
    let edges = call_edges(body);
    let mut t: usize = 0;
    while t < edges.calls.len()
        invariant
            t <= edges.calls.len(),
            program.knows(instance),
            program.instances@[instance.index as int].body == Some(*body),
            visited@[instance.index as int],
            edges@ == calls_of(body@.blocks),
            reachable(*program, roots, instance),
            sound(*program, roots, visited@, queue@),
            roots_accounted(*program, roots, visited@, queue@),
            closed_except(*program, visited@, queue@, instance),
            forall|s: int|
                0 <= s < t ==> edge_accounted(*program, visited@, queue@, #[trigger] edges@[s]),
        decreases edges.calls.len() - t,
    {
        let ghost queue_then = queue@;
        match &edges.calls[t] {
            Callee::Function { def, args } => {
                match program.resolve(*def, args) {
                    Ok(to) => {
                        if !visited[to.index] {
                            queue.push(to);
                        }
                        proof {
                            lemma_push_accounts(visited@, queue_then, to);
                            lemma_recorded_call(*program, instance, edges@[t as int], to);
                            lemma_reachable_closed(*program, roots, instance, to);
                            assert forall|u: int|
                                0 <= u < queue@.len() && program.knows(
                                    #[trigger] queue@[u],
                                ) implies reachable(*program, roots, queue@[u]) by {
                                if u < queue_then.len() {
                                    assert(queue@[u] == queue_then[u]);
                                }
                            }
                        }
                    },
                    Err(_) => {},
                }
            },
            _ => {},
        }
        t += 1;
    }
    proof {
        assert forall|to: Instance| #[trigger] calls(*program, instance, to) implies accounted(
            visited@,
            queue@,
            to,
        ) by {
            let k = choose|k: int|
                0 <= k < body@.blocks.len() && #[trigger] enters(
                    *program,
                    body@.blocks[k].terminator,
                ) == Some(to);
            let callee = callee_of(body@.blocks[k].terminator)->Some_0;
            lemma_calls_of_blocks(body@.blocks, callee);
            let s = choose|s: int| 0 <= s < edges@.len() && edges@[s] == callee;
            assert(edge_accounted(*program, visited@, queue@, edges@[s]));
        }
    }
}

/// A callee that a walk over the body of `from` recorded, and that resolves
/// to `to`, is a direct call from `from` to `to`.
proof fn lemma_recorded_call(program: Program, from: Instance, callee: CalleeView, to: Instance)
    requires
        program.knows(from),
        program.instances@[from.index as int].body is Some,
        calls_of(program.instances@[from.index as int].body->0@.blocks).contains(callee),
        target_of(program, callee) == Some(to),
    ensures
        calls(program, from, to),
{
    let body = program.instances@[from.index as int].body->0;
    lemma_calls_of_blocks(body@.blocks, callee);
    let k = choose|k: int|
        0 <= k < body@.blocks.len() && callee_of(#[trigger] body@.blocks[k].terminator) == Some(
            callee,
        );
    assert(enters(program, body@.blocks[k].terminator) == Some(to));
}

/// Marks every instance that the roots reach through direct calls: the roots
/// that the program knows, and whatever a marked instance calls. A call
/// through a function pointer, and a callee that does not resolve, lead
/// nowhere. An instance without a body is a leaf.
pub fn reach_marks(program: &Program, roots: &Vec<Instance>) -> (visited: Vec<bool>)
    ensures
        visited@.len() == program.instances@.len(),
        forall|k: int|
            0 <= k < visited@.len() ==> (#[trigger] visited@[k] <==> reachable(
                *program,
                roots@,
                Instance { index: k as usize },
            )),
{
    let n = program.instances.len();
    let mut visited: Vec<bool> = Vec::new();
    while visited.len() < n
        invariant
            visited.len() <= n,
            forall|k: int| 0 <= k < visited.len() ==> !visited@[k],
        decreases n - visited.len(),
    {
        visited.push(false);
    }
    let mut queue: Vec<Instance> = Vec::new();
    let mut r: usize = 0;
    while r < roots.len()
        invariant
            r <= roots.len(),
            queue@ == roots@.subrange(0, r as int),
        decreases roots.len() - r,
    {
        queue.push(roots[r]);
        assert(queue@ =~= roots@.subrange(0, r + 1));
        r += 1;
    }
    proof {
        assert(queue@ =~= roots@);
        assert forall|t: int| 0 <= t < queue@.len() && program.knows(
            #[trigger] queue@[t],
        ) implies reachable(*program, roots@, queue@[t]) by {
            lemma_roots_reachable(*program, roots@, t);
        }
    }
    while queue.len() > 0
        invariant
            n == program.instances@.len(),
            sound(*program, roots@, visited@, queue@),
            roots_accounted(*program, roots@, visited@, queue@),
            closed_except(*program, visited@, queue@, nobody(*program)),
        decreases unvisited(visited@), queue@.len(),
    {
        let ghost visited_before = visited@;
        let ghost queue_before = queue@;
        let instance = queue.pop().unwrap();
        if instance.index < n && !visited[instance.index] {
            visited.set(instance.index, true);
            proof {
                lemma_mark_visited(visited_before, instance.index as int);
                lemma_taken(*program, roots@, visited_before, queue_before, visited@);
            }
            match &program.instances[instance.index].body {
                Some(body) => {
                    enqueue_callees(program, instance, body, &visited, &mut queue, Ghost(roots@));
                },
                None => {},
            }
        } else {
            proof {
                lemma_taken(*program, roots@, visited_before, queue_before, visited@);
            }
        }
    }
    proof {
        assert forall|k: int|
            0 <= k < visited@.len() implies (#[trigger] visited@[k] <==> reachable(
            *program,
            roots@,
            Instance { index: k as usize },
        )) by {
            let instance = Instance { index: k as usize };
            if reachable(*program, roots@, instance) {
                let steps = choose|steps: nat| reached_within(*program, roots@, steps, instance);
                assert forall|from: Instance, to: Instance|
                    program.knows(from) && visited@[from.index as int] && #[trigger] calls(
                        *program,
                        from,
                        to,
                    ) implies program.knows(to) && visited@[to.index as int] by {
                    lemma_calls_known(*program, from, to);
                    assert(accounted(visited@, queue@, to));
                }
                assert forall|r: int| 0 <= r < roots@.len() && program.knows(
                    #[trigger] roots@[r],
                ) implies visited@[roots@[r].index as int] by {
                    assert(accounted(visited@, queue@, roots@[r]));
                }
                lemma_closed_holds_reachable(*program, roots@, visited@, steps, instance);
            }
        }
    }
    visited
}

/// The instance taken off the worklist was either skipped, being visited
/// already or no instance of the program, or it was marked visited.
spec fn taken_or_skipped(
    program: Program,
    visited: Seq<bool>,
    taken: Instance,
    marked: Seq<bool>,
) -> bool {
    ||| marked == visited && (!program.knows(taken) || visited[taken.index as int])
    ||| program.knows(taken) && !visited[taken.index as int] && marked == visited.update(
        taken.index as int,
        true,
    )
}

/// Taking the last instance off the worklist keeps the worklist sound and
/// the roots accounted for, whether the instance is skipped (`marked` is
/// `visited`) or marked visited (`marked` is `visited` with its mark set).
/// The calls of all visited instances but the taken one stay accounted for.
proof fn lemma_taken(
    program: Program,
    roots: Seq<Instance>,
    visited: Seq<bool>,
    queue: Seq<Instance>,
    marked: Seq<bool>,
)
    requires
        queue.len() > 0,
        sound(program, roots, visited, queue),
        roots_accounted(program, roots, visited, queue),
        closed_except(program, visited, queue, nobody(program)),
        taken_or_skipped(program, visited, queue.last(), marked),
    ensures
        sound(program, roots, marked, queue.drop_last()),
        roots_accounted(program, roots, marked, queue.drop_last()),
        marked == visited ==> closed_except(program, marked, queue.drop_last(), nobody(program)),
        marked != visited ==> closed_except(program, marked, queue.drop_last(), queue.last()),
        marked != visited ==> reachable(program, roots, queue.last()),
{
    let taken = queue.last();
    let rest = queue.drop_last();
    assert(queue[queue.len() - 1] == taken);
    lemma_pop_accounts(visited, queue, marked);
    assert forall|t: int|
        0 <= t < rest.len() && program.knows(#[trigger] rest[t]) implies reachable(
        program,
        roots,
        rest[t],
    ) by {
        assert(rest[t] == queue[t]);
    }
    assert forall|k: int| 0 <= k < marked.len() && #[trigger] marked[k] implies reachable(
        program,
        roots,
        Instance { index: k as usize },
    ) by {
        if !visited[k] {
            assert(Instance { index: k as usize } == taken);
        }
    }
    assert forall|r: int|
        0 <= r < roots.len() && program.knows(#[trigger] roots[r]) implies accounted(
        marked,
        rest,
        roots[r],
    ) by {
        assert(accounted(visited, queue, roots[r]));
    }
    assert forall|from: Instance, to: Instance|
        (marked == visited || from != taken) && program.knows(from) && marked[from.index as int]
            && #[trigger] calls(program, from, to) implies accounted(marked, rest, to) by {
        lemma_calls_known(program, from, to);
        assert(visited[from.index as int]);
        assert(accounted(visited, queue, to));
    }
}

/// What is reachable is an instance of the program.
pub proof fn lemma_reachable_known(program: Program, roots: Seq<Instance>, target: Instance)
    requires
        reachable(program, roots, target),
    ensures
        program.knows(target),
{
    let steps = choose|steps: nat| reached_within(program, roots, steps, target);
    lemma_reached_known(program, roots, steps, target);
}

/// What is reached within some number of steps is an instance of the program.
proof fn lemma_reached_known(
    program: Program,
    roots: Seq<Instance>,
    steps: nat,
    target: Instance,
)
    requires
        reached_within(program, roots, steps, target),
    ensures
        program.knows(target),
    decreases steps,
{
    if steps > 0 {
        if reached_within(program, roots, (steps - 1) as nat, target) {
            lemma_reached_known(program, roots, (steps - 1) as nat, target);
        } else {
            let mid = choose|mid: Instance|
                reached_within(program, roots, (steps - 1) as nat, mid) && #[trigger] calls(
                    program,
                    mid,
                    target,
                );
            lemma_calls_known(program, mid, target);
        }
    }
}

/// The reachable instances with handles below `upto`, in the order of the
/// instance table.
pub open spec fn reachable_below(program: Program, roots: Seq<Instance>, upto: int) -> Seq<
    Instance,
>
    decreases upto,
{
    if upto <= 0 {
        Seq::empty()
    } else if reachable(program, roots, Instance { index: (upto - 1) as usize }) {
        reachable_below(program, roots, upto - 1).push(Instance { index: (upto - 1) as usize })
    } else {
        reachable_below(program, roots, upto - 1)
    }
}

/// The transitive closure of the roots under direct calls, as a list: every
/// reachable instance once, in the order of the instance table.
pub open spec fn discovery(program: Program, roots: Seq<Instance>) -> Seq<Instance> {
    reachable_below(program, roots, program.instances@.len() as int)
}

/// `reachable_below` lists exactly the reachable instances below `upto`, in
/// rising order.
pub proof fn lemma_reachable_below(program: Program, roots: Seq<Instance>, upto: int)
    requires
        0 <= upto <= program.instances@.len(),
    ensures
        forall|i: int|
            0 <= i < reachable_below(program, roots, upto).len() ==> (#[trigger] reachable_below(
                program,
                roots,
                upto,
            )[i]).index < upto,
        forall|i: int, j: int|
            0 <= i < j < reachable_below(program, roots, upto).len() ==> reachable_below(
                program,
                roots,
                upto,
            )[i].index < reachable_below(program, roots, upto)[j].index,
        forall|instance: Instance|
            #[trigger] reachable_below(program, roots, upto).contains(instance) <==> (
            instance.index < upto && reachable(program, roots, instance)),
    decreases upto,
{
    if upto > 0 {
        lemma_reachable_below(program, roots, upto - 1);
        let before = reachable_below(program, roots, upto - 1);
        let now = reachable_below(program, roots, upto);
        let last = Instance { index: (upto - 1) as usize };
        assert(program.instances.len() == program.instances@.len());
        assert(last.index == upto - 1);
        assert forall|i: int, j: int| 0 <= i < j < now.len() implies now[i].index
            < now[j].index by {
            assert(before[i].index < upto - 1);
            if j < before.len() {
                assert(before[i].index < before[j].index);
            }
        }
        assert forall|instance: Instance| #[trigger]
            now.contains(instance) <==> (instance.index < upto && reachable(
                program,
                roots,
                instance,
            )) by {
            if before.contains(instance) {
                let i = choose|i: int| 0 <= i < before.len() && before[i] == instance;
                assert(now[i] == instance);
            }
            if now.contains(instance) {
                let i = choose|i: int| 0 <= i < now.len() && now[i] == instance;
                if i < before.len() {
                    assert(before[i] == instance);
                }
            }
            if instance == last && reachable(program, roots, instance) {
                assert(now[now.len() - 1] == instance);
            }
        }
    }
}

/// The discovered list holds every root that the program knows, holds
/// whatever an instance in it calls, and holds no instance twice.
pub proof fn lemma_discovery_closed(program: Program, roots: Seq<Instance>)
    ensures
        discovery(program, roots).no_duplicates(),
        forall|instance: Instance|
            #[trigger] discovery(program, roots).contains(instance) <==> reachable(
                program,
                roots,
                instance,
            ),
        forall|r: int|
            0 <= r < roots.len() && program.knows(#[trigger] roots[r]) ==> discovery(
                program,
                roots,
            ).contains(roots[r]),
        forall|from: Instance, to: Instance|
            discovery(program, roots).contains(from) && #[trigger] calls(program, from, to)
                ==> discovery(program, roots).contains(to),
{
    let found = discovery(program, roots);
    lemma_reachable_below(program, roots, program.instances@.len() as int);
    assert forall|instance: Instance| #[trigger]
        found.contains(instance) <==> reachable(program, roots, instance) by {
        if reachable(program, roots, instance) {
            lemma_reachable_known(program, roots, instance);
        }
    }
    assert forall|r: int| 0 <= r < roots.len() && program.knows(
        #[trigger] roots[r],
    ) implies found.contains(roots[r]) by {
        lemma_roots_reachable(program, roots, r);
    }
    assert forall|from: Instance, to: Instance|
        found.contains(from) && #[trigger] calls(program, from, to) implies found.contains(to) by {
        lemma_reachable_closed(program, roots, from, to);
    }
}

/// The transitive closure of the roots under direct calls: every instance
/// that the roots reach, each listed once, in the order of the instance table.
/// The list holds the roots that the program knows and is closed under direct
/// calls; cycles of calls, through one function or several, are no obstacle.
pub fn discover(program: &Program, roots: &Vec<Instance>) -> (found: Vec<Instance>)
    ensures
        found@ == discovery(*program, roots@),
        found@.no_duplicates(),
        forall|instance: Instance|
            #[trigger] found@.contains(instance) <==> reachable(*program, roots@, instance),
        forall|r: int|
            0 <= r < roots@.len() && program.knows(#[trigger] roots@[r]) ==> found@.contains(
                roots@[r],
            ),
        forall|from: Instance, to: Instance|
            found@.contains(from) && #[trigger] calls(*program, from, to) ==> found@.contains(to),
{
    let visited = reach_marks(program, roots);
    let n = visited.len();
    let mut found: Vec<Instance> = Vec::new();
    let mut k: usize = 0;
    while k < n
        invariant
            k <= n,
            n == visited.len(),
            n == program.instances@.len(),
            forall|v: int|
                0 <= v < n ==> (#[trigger] visited@[v] <==> reachable(
                    *program,
                    roots@,
                    Instance { index: v as usize },
                )),
            found@ == reachable_below(*program, roots@, k as int),
        decreases n - k,
    {
        if visited[k] {
            found.push(Instance { index: k });
        }
        k += 1;
    }
    proof {
        lemma_discovery_closed(*program, roots@);
    }
    found
}

} // verus!
