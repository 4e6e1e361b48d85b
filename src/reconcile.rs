//! Reconciliation of desired identities against a backend's actual ones, and
//! the order in which the resulting operations are applied.
use vstd::prelude::*;

verus! {

/// Which desired entries to create, which actual entries to update (with the
/// desired entry for each) and which actual entries to delete, by position.
#[derive(Debug, Clone)]
pub struct ReconciliationPlan {
    pub to_create: Vec<usize>,
    pub to_update: Vec<(usize, usize)>,
    pub to_delete: Vec<usize>,
}

/// The characters of each identifier.
pub open spec fn ids_view(v: Seq<String>) -> Seq<Seq<char>> {
    v.map_values(|s: String| s@)
}

/// Position of the first identifier at or after `i` equal to `x`.
pub open spec fn id_position(s: Seq<Seq<char>>, x: Seq<char>, i: int) -> Option<int>
    decreases s.len() - i,
{
    if i < 0 || i >= s.len() {
        None
    } else if s[i] == x {
        Some(i)
    } else {
        id_position(s, x, i + 1)
    }
}

pub proof fn lemma_id_position(s: Seq<Seq<char>>, x: Seq<char>, i: int)
    requires
        0 <= i,
    ensures
        match id_position(s, x, i) {
            Some(k) => i <= k < s.len() && s[k] == x && forall|j: int| i <= j < k ==> s[j] != x,
            None => forall|j: int| i <= j < s.len() ==> s[j] != x,
        },
    decreases s.len() - i,
{
    if i < s.len() {
        lemma_id_position(s, x, i + 1);
    }
}

/// Positions `p` of `v` that are strictly increasing.
pub open spec fn increasing(p: Seq<usize>) -> bool {
    forall|i: int, j: int| 0 <= i < j < p.len() ==> p[i] < p[j]
}

/// `p` lists, in increasing order, exactly the positions of `v` whose
/// identifier does not occur in `other`.
pub open spec fn lists_absent(p: Seq<usize>, v: Seq<Seq<char>>, other: Seq<Seq<char>>) -> bool {
    &&& increasing(p)
    &&& forall|j: int| 0 <= j < p.len() ==> p[j] < v.len() && !other.contains(v[p[j] as int])
    &&& forall|k: int| 0 <= k < v.len() && !other.contains(v[k]) ==> exists|j: int| 0 <= j < p.len() && p[j] == k
}

/// `p` lists, in increasing order of actual position, each actual entry whose
/// identifier is desired, paired with the first desired entry of that identifier.
pub open spec fn lists_matched(p: Seq<(usize, usize)>, desired: Seq<Seq<char>>, actual: Seq<Seq<char>>) -> bool {
    &&& forall|i: int, j: int| 0 <= i < j < p.len() ==> p[i].0 < p[j].0
    &&& forall|j: int|
        0 <= j < p.len() ==> p[j].0 < actual.len() && id_position(desired, actual[p[j].0 as int], 0) == Some(
            p[j].1 as int,
        )
    &&& forall|k: int|
        0 <= k < actual.len() && desired.contains(actual[k]) ==> exists|j: int| 0 <= j < p.len() && p[j].0 == k
}

/// The plan is the reconciliation of `desired` against `actual`.
pub open spec fn is_plan(desired: Seq<Seq<char>>, actual: Seq<Seq<char>>, p: ReconciliationPlan) -> bool {
    &&& lists_absent(p.to_create@, desired, actual)
    &&& lists_matched(p.to_update@, desired, actual)
    &&& lists_absent(p.to_delete@, actual, desired)
}

/// Finds the first position of an identifier.
fn find_id(ids: &Vec<String>, x: &String) -> (r: Option<usize>)
    ensures
        match r {
            Some(k) => k < ids.len() && id_position(ids_view(ids@), x@, 0) == Some(k as int),
            None => id_position(ids_view(ids@), x@, 0) is None,
        },
{
    let mut i: usize = 0;
    while i < ids.len()
        invariant
            i <= ids.len(),
            id_position(ids_view(ids@), x@, 0) == id_position(ids_view(ids@), x@, i as int),
        decreases ids.len() - i,
    {
        if ids[i] == *x {
            return Some(i);
        }
        i = i + 1;
    }
    None
}

/// Whether an identifier occurs.
fn contains_id(ids: &Vec<String>, x: &String) -> (r: bool)
    ensures
        r == ids_view(ids@).contains(x@),
{
    let r = find_id(ids, x);
    proof {
        lemma_id_position(ids_view(ids@), x@, 0);
    }
    r.is_some()
}

/// Positions of `v` whose identifier does not occur in `other`.
fn absent_positions(v: &Vec<String>, other: &Vec<String>) -> (r: Vec<usize>)
    ensures
        lists_absent(r@, ids_view(v@), ids_view(other@)),
{
    let ghost vv = ids_view(v@);
    let ghost ov = ids_view(other@);
    let mut out: Vec<usize> = Vec::new();
    let mut i: usize = 0;
    while i < v.len()
        invariant
            i <= v.len(),
            vv == ids_view(v@),
            ov == ids_view(other@),
            forall|a: int, b: int| 0 <= a < b < out@.len() ==> out@[a] < out@[b],
            forall|j: int| 0 <= j < out@.len() ==> out@[j] < i && !ov.contains(vv[out@[j] as int]),
            forall|k: int| 0 <= k < i && !ov.contains(vv[k]) ==> exists|j: int| 0 <= j < out@.len() && out@[j] == k,
        decreases v.len() - i,
    {
        let ghost prev = out@;
        let present = contains_id(other, &v[i]);
        if !present {
            out.push(i);
        }
        proof {
            assert forall|k: int| 0 <= k < i + 1 && !ov.contains(vv[k]) implies exists|j: int|
                0 <= j < out@.len() && out@[j] == k by {
                if k < i {
                    let j = choose|j: int| 0 <= j < prev.len() && prev[j] == k;
                    assert(out@[j] == k);
                } else {
                    assert(out@[out@.len() - 1] == k);
                }
            }
        }
        i = i + 1;
    }
    out
}

/// Reconciles desired identifiers against actual ones: desired ones that are
/// not actual are created, actual ones that are desired are updated, and
/// actual ones that are not desired are deleted.
pub fn plan(desired: &Vec<String>, actual: &Vec<String>) -> (r: ReconciliationPlan)
    ensures
        is_plan(ids_view(desired@), ids_view(actual@), r),
{
    let to_create = absent_positions(desired, actual);
    let to_delete = absent_positions(actual, desired);
    let ghost dv = ids_view(desired@);
    let ghost av = ids_view(actual@);
    let mut to_update: Vec<(usize, usize)> = Vec::new();
    let mut i: usize = 0;
    while i < actual.len()
        invariant
            i <= actual.len(),
            dv == ids_view(desired@),
            av == ids_view(actual@),
            forall|a: int, b: int| 0 <= a < b < to_update@.len() ==> to_update@[a].0 < to_update@[b].0,
            forall|j: int|
                0 <= j < to_update@.len() ==> to_update@[j].0 < i && id_position(dv, av[to_update@[j].0 as int], 0)
                    == Some(to_update@[j].1 as int),
            forall|k: int| 0 <= k < i && dv.contains(av[k]) ==> exists|j: int| 0 <= j < to_update@.len() && to_update@[j].0 == k,
        decreases actual.len() - i,
    {
        let ghost prev = to_update@;
        let found = find_id(desired, &actual[i]);
        match found {
            Some(k) => {
                to_update.push((i, k));
            },
            None => {},
        }
        proof {
            lemma_id_position(dv, av[i as int], 0);
            assert forall|k: int| 0 <= k < i + 1 && dv.contains(av[k]) implies exists|j: int|
                0 <= j < to_update@.len() && to_update@[j].0 == k by {
                if k < i {
                    let j = choose|j: int| 0 <= j < prev.len() && prev[j].0 == k;
                    assert(to_update@[j].0 == k);
                } else {
                    assert(to_update@[to_update@.len() - 1].0 == k);
                }
            }
        }
        i = i + 1;
    }
    ReconciliationPlan { to_create, to_update, to_delete }
}

/// The identifiers that a plan creates.
pub open spec fn created_ids(desired: Seq<Seq<char>>, p: ReconciliationPlan) -> Set<Seq<char>> {
    Set::new(|x: Seq<char>| exists|j: int| 0 <= j < p.to_create@.len() && desired[p.to_create@[j] as int] == x)
}

/// The identifiers that a plan updates.
pub open spec fn updated_ids(actual: Seq<Seq<char>>, p: ReconciliationPlan) -> Set<Seq<char>> {
    Set::new(|x: Seq<char>| exists|j: int| 0 <= j < p.to_update@.len() && actual[p.to_update@[j].0 as int] == x)
}

/// The identifiers that a plan deletes.
pub open spec fn deleted_ids(actual: Seq<Seq<char>>, p: ReconciliationPlan) -> Set<Seq<char>> {
    Set::new(|x: Seq<char>| exists|j: int| 0 <= j < p.to_delete@.len() && actual[p.to_delete@[j] as int] == x)
}

/// The three parts of a plan are pairwise disjoint by identifier, and
/// together they hold exactly the identifiers that are desired or actual.
pub proof fn reconciliation_partition(desired: Seq<Seq<char>>, actual: Seq<Seq<char>>, p: ReconciliationPlan)
    requires
        is_plan(desired, actual, p),
    ensures
        created_ids(desired, p).disjoint(updated_ids(actual, p)),
        created_ids(desired, p).disjoint(deleted_ids(actual, p)),
        updated_ids(actual, p).disjoint(deleted_ids(actual, p)),
        created_ids(desired, p) + updated_ids(actual, p) + deleted_ids(actual, p) == desired.to_set()
            + actual.to_set(),
{
    let c = created_ids(desired, p);
    let u = updated_ids(actual, p);
    let d = deleted_ids(actual, p);
    assert forall|x: Seq<char>| u.contains(x) implies desired.contains(x) && actual.contains(x) by {
        let j = choose|j: int| 0 <= j < p.to_update@.len() && actual[p.to_update@[j].0 as int] == x;
        lemma_id_position(desired, x, 0);
        assert(actual[p.to_update@[j].0 as int] == x);
    }
    assert forall|x: Seq<char>| c.contains(x) implies desired.contains(x) && !actual.contains(x) by {
        let j = choose|j: int| 0 <= j < p.to_create@.len() && desired[p.to_create@[j] as int] == x;
        assert(desired[p.to_create@[j] as int] == x);
    }
    assert forall|x: Seq<char>| d.contains(x) implies actual.contains(x) && !desired.contains(x) by {
        let j = choose|j: int| 0 <= j < p.to_delete@.len() && actual[p.to_delete@[j] as int] == x;
        assert(actual[p.to_delete@[j] as int] == x);
    }
    assert forall|x: Seq<char>| #[trigger] desired.contains(x) && !actual.contains(x) implies c.contains(x) by {
        let k = choose|k: int| 0 <= k < desired.len() && desired[k] == x;
        let j = choose|j: int| 0 <= j < p.to_create@.len() && p.to_create@[j] == k;
        assert(desired[p.to_create@[j] as int] == x);
    }
    assert forall|x: Seq<char>| #[trigger] actual.contains(x) && desired.contains(x) implies u.contains(x) by {
        let k = choose|k: int| 0 <= k < actual.len() && actual[k] == x;
        let j = choose|j: int| 0 <= j < p.to_update@.len() && p.to_update@[j].0 == k;
        assert(actual[p.to_update@[j].0 as int] == x);
    }
    assert forall|x: Seq<char>| #[trigger] actual.contains(x) && !desired.contains(x) implies d.contains(x) by {
        let k = choose|k: int| 0 <= k < actual.len() && actual[k] == x;
        let j = choose|j: int| 0 <= j < p.to_delete@.len() && p.to_delete@[j] == k;
        assert(actual[p.to_delete@[j] as int] == x);
    }
    assert(c + u + d =~= desired.to_set() + actual.to_set());
}

/// One operation against a backend, by position in the desired and actual lists.
#[derive(Debug, Clone, Copy, PartialEq, Eq, Structural)]
pub enum Operation {
    Create(usize),
    Update(usize, usize),
    Delete(usize),
}

/// The phase an operation belongs to: creates, then updates, then deletes.
pub open spec fn phase(op: Operation) -> int {
    match op {
        Operation::Create(_) => 0,
        Operation::Update(_, _) => 1,
        Operation::Delete(_) => 2,
    }
}

/// The operations of a plan in the order they are applied: every create,
/// then every update, then every delete, each part in the plan's order.
pub open spec fn operations_spec(p: ReconciliationPlan) -> Seq<Operation> {
    p.to_create@.map_values(|k: usize| Operation::Create(k)) + p.to_update@.map_values(
        |u: (usize, usize)| Operation::Update(u.0, u.1),
    ) + p.to_delete@.map_values(|k: usize| Operation::Delete(k))
}

/// The operations of a plan in the order they are to be applied.
pub fn operations(p: &ReconciliationPlan) -> (r: Vec<Operation>)
    ensures
        r@ == operations_spec(*p),
{
    let mut out: Vec<Operation> = Vec::new();
    let mut i: usize = 0;
    while i < p.to_create.len()
        invariant
            i <= p.to_create.len(),
            out@ =~= p.to_create@.subrange(0, i as int).map_values(|k: usize| Operation::Create(k)),
        decreases p.to_create.len() - i,
    {
        out.push(Operation::Create(p.to_create[i]));
        i = i + 1;
    }
    let ghost creates = out@;
    let mut i: usize = 0;
    while i < p.to_update.len()
        invariant
            i <= p.to_update.len(),
            out@ =~= creates + p.to_update@.subrange(0, i as int).map_values(
                |u: (usize, usize)| Operation::Update(u.0, u.1),
            ),
        decreases p.to_update.len() - i,
    {
        let (a, d) = p.to_update[i];
        out.push(Operation::Update(a, d));
        i = i + 1;
    }
    let ghost updates = out@;
    let mut i: usize = 0;
    while i < p.to_delete.len()
        invariant
            i <= p.to_delete.len(),
            out@ =~= updates + p.to_delete@.subrange(0, i as int).map_values(|k: usize| Operation::Delete(k)),
        decreases p.to_delete.len() - i,
    {
        out.push(Operation::Delete(p.to_delete[i]));
        i = i + 1;
    }
    assert(p.to_create@.subrange(0, p.to_create@.len() as int) == p.to_create@);
    assert(p.to_update@.subrange(0, p.to_update@.len() as int) == p.to_update@);
    assert(p.to_delete@.subrange(0, p.to_delete@.len() as int) == p.to_delete@);
    out
}

/// Applied operations run in phase order: no update precedes a create and no
/// delete precedes an update or a create; and every operation of the plan is
/// applied exactly once.
pub proof fn apply_ordering(p: ReconciliationPlan)
    ensures
        forall|i: int, j: int|
            0 <= i < j < operations_spec(p).len() ==> phase(operations_spec(p)[i]) <= phase(
                operations_spec(p)[j],
            ),
        operations_spec(p).len() == p.to_create@.len() + p.to_update@.len() + p.to_delete@.len(),
        forall|i: int| 0 <= i < p.to_create@.len() ==> operations_spec(p)[i] == Operation::Create(p.to_create@[i]),
{
    let ops = operations_spec(p);
    let nc = p.to_create@.len() as int;
    let nu = p.to_update@.len() as int;
    assert forall|i: int| 0 <= i < ops.len() implies phase(#[trigger] ops[i]) == (if i < nc {
        0int
    } else if i < nc + nu {
        1int
    } else {
        2int
    }) by {}
}

} // verus!
