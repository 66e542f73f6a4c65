//! The table of rules that says, for each kind of operation on each kind of
//! container, how it is carried out: by one call, by a row of simpler
//! operations, or by a synthesized sequence.
use crate::ir::{
    is_mutating, spec_is_mutating, ContainerBinding, ContainerKind, Mutability, OperationKind,
    OperationNode,
};
use vstd::prelude::*;
use vstd::string::StringExecFns;

verus! {

/// How an operation is carried out.
#[derive(Clone, Copy, Debug, PartialEq, Eq, Structural)]
pub enum Strategy {
    /// One call does it.
    Direct,
    /// A row of simpler operations does it.
    Composite,
    /// Nothing does it as it stands: a sequence is synthesized.
    Unsupported,
}

/// One rule of the table.
#[derive(Clone, Copy, Debug, PartialEq, Eq, Structural)]
pub struct MappingRule {
    pub kind: OperationKind,
    pub container: ContainerKind,
    pub strategy: Strategy,
}

/// No rule says how this kind of operation is carried out on this kind of container.
#[derive(Clone, Copy, Debug, PartialEq, Eq, Structural)]
pub struct MappingGapError {
    pub kind: OperationKind,
    pub container: ContainerKind,
}

/// A difference between what the synthesized sequence does and what the
/// operation does at its origin, which can be observed: the operation, the
/// scope and place where it stands, and a note for the reader.
#[derive(Debug, PartialEq, Eq)]
pub struct DivergenceRecord {
    pub kind: OperationKind,
    pub scope: usize,
    pub location: usize,
    pub note: String,
}

/// The note on the one divergence there is.
pub open spec fn spec_popitem_note() -> Seq<char> {
    "which entry is removed is not fixed"@
}

/// The rule at `i` is for `kind` on `container`.
pub open spec fn spec_rule_at(
    table: Seq<MappingRule>,
    kind: OperationKind,
    container: ContainerKind,
    i: int,
) -> bool {
    0 <= i < table.len() && table[i].kind == kind && table[i].container == container
}

/// No kind of operation on a kind of container has two rules.
pub open spec fn spec_consistent(table: Seq<MappingRule>) -> bool {
    forall|i: int, j: int|
        0 <= i < j < table.len() ==> !(table[i].kind == table[j].kind && table[i].container
            == table[j].container)
}

/// Whether the synthesized sequence for this kind differs observably from the
/// operation at its origin. Only removal of some entry does: which entry
/// leaves is not fixed.
pub open spec fn spec_diverges(kind: OperationKind) -> bool {
    kind == OperationKind::PopItem
}

/// Looks up the rule for `kind` on `container`. Without a rule the operation
/// cannot be carried out, and the gap is reported.
pub fn find_rule(table: &Vec<MappingRule>, kind: OperationKind, container: ContainerKind) -> (r:
    Result<usize, MappingGapError>)
    ensures
        r is Err <==> forall|i: int| !spec_rule_at(table@, kind, container, i),
        r matches Err(e) ==> e.kind == kind && e.container == container,
        r matches Ok(i) ==> spec_rule_at(table@, kind, container, i as int) && forall|j: int|
            0 <= j < i ==> !spec_rule_at(table@, kind, container, j),
        r matches Ok(i) ==> (spec_consistent(table@) ==> forall|j: int|
            spec_rule_at(table@, kind, container, j) ==> j == i),
{
    let mut i: usize = 0;
    while i < table.len()
        invariant
            i <= table@.len(),
            forall|j: int| 0 <= j < i ==> !spec_rule_at(table@, kind, container, j),
        decreases table@.len() - i,
    {
        if table[i].kind == kind && table[i].container == container {
            assert(spec_rule_at(table@, kind, container, i as int));
            return Ok(i);
        }
        i = i + 1;
    }
    Err(MappingGapError { kind, container })
}

/// Whether no kind of operation on a kind of container has two rules.
pub fn is_consistent(table: &Vec<MappingRule>) -> (r: bool)
    ensures
        r == spec_consistent(table@),
{
    let mut j: usize = 0;
    while j < table.len()
        invariant
            j <= table@.len(),
            forall|a: int, b: int|
                0 <= a < b < j ==> !(table@[a].kind == table@[b].kind && table@[a].container
                    == table@[b].container),
        decreases table@.len() - j,
    {
        let mut i: usize = 0;
        while i < j
            invariant
                i <= j,
                j < table@.len(),
                forall|a: int|
                    0 <= a < i ==> !(table@[a].kind == table@[j as int].kind && table@[a].container
                        == table@[j as int].container),
            decreases j - i,
        {
            if table[i].kind == table[j].kind && table[i].container == table[j].container {
                return false;
            }
            i = i + 1;
        }
        j = j + 1;
    }
    true
}

/// The strategy for `kind` on `container`, as the table has it.
pub fn strategy_for(table: &Vec<MappingRule>, kind: OperationKind, container: ContainerKind) -> (r:
    Result<Strategy, MappingGapError>)
    ensures
        r is Err <==> forall|i: int| !spec_rule_at(table@, kind, container, i),
        r matches Err(e) ==> e.kind == kind && e.container == container,
        r matches Ok(s) ==> exists|i: int|
            spec_rule_at(table@, kind, container, i) && table@[i].strategy == s && forall|j: int|
                0 <= j < i ==> !spec_rule_at(table@, kind, container, j),
{
    match find_rule(table, kind, container) {
        Ok(i) => Ok(table[i].strategy),
        Err(e) => Err(e),
    }
}

/// The record of a divergence for a synthesized operation, where it has one.
/// An equivalence of pure algebra, such as an update in place computed as
/// operation and reassignment, has none.
pub fn divergence(kind: OperationKind, scope: usize, location: usize) -> (r: Option<
    DivergenceRecord,
>)
    ensures
        r is Some <==> spec_diverges(kind),
        r matches Some(d) ==> d.kind == kind && d.scope == scope && d.location == location && d.note@
            == spec_popitem_note(),
{
    match kind {
        OperationKind::PopItem => Some(
            DivergenceRecord {
                kind,
                scope,
                location,
                note: String::from_str("which entry is removed is not fixed"),
            },
        ),
        _ => None,
    }
}

/// Why an operation could not be mapped.
#[derive(Clone, Copy, Debug, PartialEq, Eq, Structural)]
pub enum MapError {
    /// The mutability of the binding has not been resolved yet.
    Unresolved,
    /// The operation changes a binding that was resolved as read-only.
    ReadOnlyMutation,
    /// The table has no rule for the operation.
    Gap(MappingGapError),
}

/// What `map_operation` answers for an operation of `kind` on a binding of
/// the given container kind and mutability, where the table has `rule` for it.
pub open spec fn spec_map_operation(
    kind: OperationKind,
    container: ContainerKind,
    mutability: Mutability,
    rule: Option<Strategy>,
) -> Result<Strategy, MapError> {
    if mutability == Mutability::Unknown {
        Err(MapError::Unresolved)
    } else if spec_is_mutating(kind) && mutability == Mutability::ReadOnly {
        Err(MapError::ReadOnlyMutation)
    } else {
        match rule {
            Some(s) => Ok(s),
            None => Err(MapError::Gap(MappingGapError { kind, container })),
        }
    }
}

/// The strategy of the first rule for `kind` on `container`, if the table has one.
pub open spec fn spec_rule(table: Seq<MappingRule>, kind: OperationKind, container: ContainerKind)
    -> Option<Strategy> {
    if exists|i: int| spec_rule_at(table, kind, container, i) {
        let first = choose|i: int|
            spec_rule_at(table, kind, container, i) && forall|j: int|
                0 <= j < i ==> !spec_rule_at(table, kind, container, j);
        Some(table[first].strategy)
    } else {
        None
    }
}

/// Maps one operation on a resolved binding to its strategy. The mutability
/// of the binding must have been resolved before; an operation that changes
/// the binding is mapped only where the binding is held exclusively.
pub fn map_operation(table: &Vec<MappingRule>, kind: OperationKind, binding: &ContainerBinding) -> (r:
    Result<Strategy, MapError>)
    ensures
        r == spec_map_operation(
            kind,
            binding.container,
            binding.mutability,
            spec_rule(table@, kind, binding.container),
        ),
{
    match binding.mutability {
        Mutability::Unknown => {
            return Err(MapError::Unresolved);
        },
        Mutability::ReadOnly => {
            if is_mutating(kind) {
                return Err(MapError::ReadOnlyMutation);
            }
        },
        Mutability::ExclusiveMutable => {},
    }
    match find_rule(table, kind, binding.container) {
        Ok(i) => {
            proof {
                let first = choose|k: int|
                    spec_rule_at(table@, kind, binding.container, k) && forall|j: int|
                        0 <= j < k ==> !spec_rule_at(table@, kind, binding.container, j);
                assert(first == i) by {
                    if first < i {
                        assert(!spec_rule_at(table@, kind, binding.container, first));
                    }
                    if i < first {
                        assert(!spec_rule_at(table@, kind, binding.container, i as int));
                    }
                }
            }
            Ok(table[i].strategy)
        },
        Err(e) => Err(MapError::Gap(e)),
    }
}

/// One way to carry an operation out: how often it walks the container, and
/// whether it does exactly what the operation does.
#[derive(Clone, Copy, Debug, PartialEq, Eq, Structural)]
pub struct Candidate {
    pub traversals: usize,
    pub exact: bool,
}

/// `i` is the exact candidate with the fewest traversals, the first of them
/// where several share that number.
pub open spec fn spec_is_best(candidates: Seq<Candidate>, i: int) -> bool {
    &&& 0 <= i < candidates.len()
    &&& candidates[i].exact
    &&& forall|j: int|
        0 <= j < candidates.len() && candidates[j].exact ==> candidates[i].traversals
            <= candidates[j].traversals
    &&& forall|j: int|
        0 <= j < i && candidates[j].exact ==> candidates[i].traversals < candidates[j].traversals
}

/// Picks among several ways to carry an operation out: the one with the
/// fewest traversals among those that do exactly what the operation does.
pub fn pick_candidate(candidates: &Vec<Candidate>) -> (r: Option<usize>)
    ensures
        r is None <==> forall|j: int| 0 <= j < candidates@.len() ==> !candidates@[j].exact,
        r matches Some(i) ==> spec_is_best(candidates@, i as int),
{
    let mut best: Option<usize> = None;
    let mut i: usize = 0;
    while i < candidates.len()
        invariant
            i <= candidates@.len(),
            best is None <==> forall|j: int| 0 <= j < i ==> !candidates@[j].exact,
            best matches Some(b) ==> b < i && spec_is_best(candidates@.take(i as int), b as int),
        decreases candidates@.len() - i,
    {
        let c = candidates[i];
        if c.exact {
            match best {
                Some(b) => {
                    if c.traversals < candidates[b].traversals {
                        best = Some(i);
                    }
                },
                None => {
                    best = Some(i);
                },
            }
        }
        i = i + 1;
    }
    assert(candidates@.take(i as int) =~= candidates@);
    best
}

/// The operation at `location` could not be mapped, and why.
#[derive(Clone, Copy, Debug, PartialEq, Eq, Structural)]
pub struct MapFailure {
    pub location: usize,
    pub error: MapError,
}

/// What mapping gives for the operation at `i`, on the binding it works on.
pub open spec fn spec_map_at(
    table: Seq<MappingRule>,
    bindings: Seq<ContainerBinding>,
    ops: Seq<OperationNode>,
    i: int,
) -> Result<Strategy, MapError> {
    let b = bindings[ops[i].target as int];
    spec_map_operation(ops[i].kind, b.container, b.mutability, spec_rule(table, ops[i].kind, b.container))
}

/// Maps the operations of one scope in order, each on its resolved binding.
/// The result holds the strategy of every operation, or the first operation
/// that could not be mapped.
pub fn map_scope(
    table: &Vec<MappingRule>,
    bindings: &Vec<ContainerBinding>,
    ops: &Vec<OperationNode>,
) -> (r: Result<Vec<Strategy>, MapFailure>)
    requires
        forall|i: int| 0 <= i < ops@.len() ==> (#[trigger] ops@[i]).target < bindings@.len(),
    ensures
        match r {
            Ok(v) => v@.len() == ops@.len() && forall|i: int|
                0 <= i < ops@.len() ==> spec_map_at(table@, bindings@, ops@, i) == Ok::<
                    Strategy,
                    MapError,
                >(#[trigger] v@[i]),
            Err(f) => f.location < ops@.len() && spec_map_at(
                table@,
                bindings@,
                ops@,
                f.location as int,
            ) == Err::<Strategy, MapError>(f.error) && forall|j: int|
                0 <= j < f.location ==> (#[trigger] spec_map_at(table@, bindings@, ops@, j)) is Ok,
        },
{
    let mut v: Vec<Strategy> = Vec::new();
    let mut i: usize = 0;
    while i < ops.len()
        invariant
            i <= ops@.len(),
            v@.len() == i,
            forall|k: int| 0 <= k < ops@.len() ==> (#[trigger] ops@[k]).target < bindings@.len(),
            forall|k: int|
                0 <= k < i ==> spec_map_at(table@, bindings@, ops@, k) == Ok::<Strategy, MapError>(
                    #[trigger] v@[k],
                ),
            forall|k: int| 0 <= k < i ==> (#[trigger] spec_map_at(table@, bindings@, ops@, k)) is Ok,
        decreases ops@.len() - i,
    {
        assert(ops@[i as int].target < bindings@.len());
        match map_operation(table, ops[i].kind, &bindings[ops[i].target]) {
            Ok(s) => {
                v.push(s);
            },
            Err(error) => {
                return Err(MapFailure { location: i, error });
            },
        }
        i = i + 1;
    }
    Ok(v)
}

/// The places of the operations that diverge, in rising order.
pub open spec fn spec_diverging(ops: Seq<OperationNode>) -> Seq<int>
    decreases ops.len(),
{
    if ops.len() == 0 {
        Seq::empty()
    } else if spec_diverges(ops.last().kind) {
        spec_diverging(ops.drop_last()).push(ops.len() - 1)
    } else {
        spec_diverging(ops.drop_last())
    }
}

/// The records of divergence of one scope: one for every operation that
/// diverges, in the order of the operations. None is left out.
pub fn divergences(ops: &Vec<OperationNode>, scope: usize) -> (r: Vec<DivergenceRecord>)
    ensures
        r@.len() == spec_diverging(ops@).len(),
        forall|k: int|
            0 <= k < r@.len() ==> {
                &&& (#[trigger] r@[k]).location == spec_diverging(ops@)[k]
                &&& r@[k].kind == ops@[spec_diverging(ops@)[k]].kind
                &&& r@[k].scope == scope
                &&& r@[k].note@ == spec_popitem_note()
            },
{
    let mut r: Vec<DivergenceRecord> = Vec::new();
    let mut i: usize = 0;
    assert(ops@.take(0) =~= Seq::<OperationNode>::empty());
    while i < ops.len()
        invariant
            i <= ops@.len(),
            r@.len() == spec_diverging(ops@.take(i as int)).len(),
            forall|k: int|
                0 <= k < r@.len() ==> {
                    &&& (#[trigger] r@[k]).location == spec_diverging(ops@.take(i as int))[k]
                    &&& 0 <= r@[k].location < i
                    &&& r@[k].kind == ops@[r@[k].location as int].kind
                    &&& r@[k].scope == scope
                    &&& r@[k].note@ == spec_popitem_note()
                },
        decreases ops@.len() - i,
    {
        proof {
            let next = ops@.take(i + 1);
            assert(next.drop_last() =~= ops@.take(i as int));
            assert(next.last() == ops@[i as int]);
        }
        match divergence(ops[i].kind, scope, i) {
            Some(d) => {
                r.push(d);
            },
            None => {},
        }
        i = i + 1;
    }
    assert(ops@.take(i as int) =~= ops@);
    r
}

} // verus!
