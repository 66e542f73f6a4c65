//! Decides, for a binding and the operations of its scope, whether it is only
//! read or must be held exclusively, and whether walking it needs a snapshot.
use crate::ir::{
    is_iterating, is_materializing, is_mutating, spec_is_iterating, spec_is_materializing,
    spec_is_mutating, ContainerBinding, ContainerKind, ElementType, Mutability, OperationNode,
};
use vstd::prelude::*;

verus! {

/// A binding that may only be read is changed by the operation at `location`.
#[derive(Clone, Copy, Debug, PartialEq, Eq, Structural)]
pub struct MutabilityConflictError {
    pub binding: usize,
    pub location: usize,
}

/// The operation at `i` works on `binding` and changes it.
pub open spec fn spec_mutates_at(ops: Seq<OperationNode>, binding: usize, i: int) -> bool {
    0 <= i < ops.len() && ops[i].target == binding && spec_is_mutating(ops[i].kind)
}

/// The operation at `i` works on `binding` and walks over it.
pub open spec fn spec_iterates_at(ops: Seq<OperationNode>, binding: usize, i: int) -> bool {
    0 <= i < ops.len() && ops[i].target == binding && spec_is_iterating(ops[i].kind)
}

/// The operation at `i` builds another container from `binding`.
pub open spec fn spec_materializes_at(ops: Seq<OperationNode>, binding: usize, i: int) -> bool {
    0 <= i < ops.len() && ops[i].target == binding && spec_is_materializing(ops[i].kind)
}

/// Some operation of the scope changes `binding`.
pub open spec fn spec_is_mutated(ops: Seq<OperationNode>, binding: usize) -> bool {
    exists|i: int| spec_mutates_at(ops, binding, i)
}

/// The mutability of `binding`: exclusive where some operation changes it,
/// read-only otherwise.
pub open spec fn spec_mutability(ops: Seq<OperationNode>, binding: usize) -> Mutability {
    if spec_is_mutated(ops, binding) {
        Mutability::ExclusiveMutable
    } else {
        Mutability::ReadOnly
    }
}

/// `binding` is walked over and then changed, or walked over in a scope that
/// also builds another container from it.
pub open spec fn spec_alias_risk(ops: Seq<OperationNode>, binding: usize) -> bool {
    ||| exists|i: int, j: int| spec_iterates_at(ops, binding, i) && i < j && spec_mutates_at(ops, binding, j)
    ||| exists|i: int, j: int| spec_iterates_at(ops, binding, i) && spec_materializes_at(ops, binding, j)
}

/// The place of the first operation that changes `binding`, if there is one.
pub fn first_mutation(ops: &Vec<OperationNode>, binding: usize) -> (r: Option<usize>)
    ensures
        match r {
            Some(i) => spec_mutates_at(ops@, binding, i as int) && forall|j: int|
                0 <= j < i ==> !spec_mutates_at(ops@, binding, j),
            None => !spec_is_mutated(ops@, binding),
        },
{
    let mut i: usize = 0;
    while i < ops.len()
        invariant
            i <= ops@.len(),
            forall|j: int| 0 <= j < i ==> !spec_mutates_at(ops@, binding, j),
        decreases ops@.len() - i,
    {
        if ops[i].target == binding && is_mutating(ops[i].kind) {
            return Some(i);
        }
        i = i + 1;
    }
    None
}

/// Resolves the mutability of `binding` from the operations of its scope.
pub fn resolve_mutability(ops: &Vec<OperationNode>, binding: usize) -> (r: Mutability)
    ensures
        r == spec_mutability(ops@, binding),
{
    match first_mutation(ops, binding) {
        Some(_) => Mutability::ExclusiveMutable,
        None => Mutability::ReadOnly,
    }
}

/// Resolves the mutability of a binding whose access is fixed from outside.
/// A binding that must stay read-only and is changed all the same is a
/// conflict, reported with the place of the first operation that changes it;
/// it is never promoted in silence.
pub fn check_binding(declared: Mutability, ops: &Vec<OperationNode>, binding: usize) -> (r: Result<
    Mutability,
    MutabilityConflictError,
>)
    ensures
        r is Err <==> declared == Mutability::ReadOnly && spec_is_mutated(ops@, binding),
        r matches Ok(m) ==> m == spec_mutability(ops@, binding),
        r matches Err(e) ==> e.binding == binding && spec_mutates_at(ops@, binding, e.location as int)
            && forall|j: int| 0 <= j < e.location ==> !spec_mutates_at(ops@, binding, j),
{
    let read_only = match declared {
        Mutability::ReadOnly => true,
        _ => false,
    };
    match first_mutation(ops, binding) {
        Some(location) => {
            if read_only {
                Err(MutabilityConflictError { binding, location })
            } else {
                Ok(Mutability::ExclusiveMutable)
            }
        },
        None => Ok(Mutability::ReadOnly),
    }
}

/// Whether walking `binding` needs an independent snapshot.
pub fn alias_risk(ops: &Vec<OperationNode>, binding: usize) -> (r: bool)
    ensures
        r == spec_alias_risk(ops@, binding),
{
    let mut walked = false;
    let mut changed_after_walk = false;
    let mut materialized = false;
    let mut i: usize = 0;
    while i < ops.len()
        invariant
            i <= ops@.len(),
            walked <==> exists|k: int| spec_iterates_at(ops@, binding, k) && k < i,
            materialized <==> exists|k: int| spec_materializes_at(ops@, binding, k) && k < i,
            changed_after_walk <==> exists|k: int, j: int|
                spec_iterates_at(ops@, binding, k) && k < j && j < i && spec_mutates_at(
                    ops@,
                    binding,
                    j,
                ),
        decreases ops@.len() - i,
    {
        if ops[i].target == binding {
            let kind = ops[i].kind;
            if walked && is_mutating(kind) {
                proof {
                    let k = choose|k: int| spec_iterates_at(ops@, binding, k) && k < i;
                    assert(spec_iterates_at(ops@, binding, k) && k < i && i < i + 1 && spec_mutates_at(
                        ops@,
                        binding,
                        i as int,
                    ));
                }
                changed_after_walk = true;
            }
            if is_iterating(kind) {
                assert(spec_iterates_at(ops@, binding, i as int) && i < i + 1);
                walked = true;
            }
            if is_materializing(kind) {
                assert(spec_materializes_at(ops@, binding, i as int) && i < i + 1);
                materialized = true;
            }
        }
        i = i + 1;
    }
    changed_after_walk || (walked && materialized)
}

/// A binding resolved as read-only is changed by no operation of its scope.
pub proof fn lemma_read_only_is_never_mutated(ops: Seq<OperationNode>, binding: usize, i: int)
    requires
        spec_mutability(ops, binding) == Mutability::ReadOnly,
        0 <= i < ops.len(),
        ops[i].target == binding,
    ensures
        !spec_is_mutating(ops[i].kind),
{
    if spec_is_mutating(ops[i].kind) {
        assert(spec_mutates_at(ops, binding, i));
    }
}

/// Every operation that changes a binding makes it exclusive, whatever else
/// the scope holds.
pub proof fn lemma_mutation_makes_exclusive(ops: Seq<OperationNode>, binding: usize, i: int)
    requires
        spec_mutates_at(ops, binding, i),
    ensures
        spec_mutability(ops, binding) == Mutability::ExclusiveMutable,
{
}

/// Resolves a binding once, from a scan of the operations of its scope: its
/// mutability, and whether walking it needs a snapshot. A binding that must
/// stay read-only and is changed all the same is reported as a conflict.
pub fn resolve_binding(
    container: ContainerKind,
    key_type: ElementType,
    value_type: ElementType,
    declared: Mutability,
    ops: &Vec<OperationNode>,
    binding: usize,
) -> (r: Result<ContainerBinding, MutabilityConflictError>)
    ensures
        r is Err <==> declared == Mutability::ReadOnly && spec_is_mutated(ops@, binding),
        r matches Ok(b) ==> b.container == container && b.key_type == key_type && b.value_type
            == value_type && b.mutability == spec_mutability(ops@, binding) && b.alias_risk
            == spec_alias_risk(ops@, binding),
        r matches Err(e) ==> e.binding == binding && spec_mutates_at(ops@, binding, e.location as int)
            && forall|j: int| 0 <= j < e.location ==> !spec_mutates_at(ops@, binding, j),
{
    match check_binding(declared, ops, binding) {
        Ok(mutability) => Ok(
            ContainerBinding {
                container,
                key_type,
                value_type,
                mutability,
                alias_risk: alias_risk(ops, binding),
            },
        ),
        Err(e) => Err(e),
    }
}

/// A binding must be walked by snapshot, and its elements cannot be copied.
#[derive(Clone, Copy, Debug, PartialEq, Eq, Structural)]
pub struct AliasingViolationError {
    pub binding: usize,
}

/// The types observed on one binding do not agree: the one at `location`
/// differs from one observed before it.
#[derive(Clone, Copy, Debug, PartialEq, Eq, Structural)]
pub struct TypeMismatchError {
    pub location: usize,
}

/// How a binding is walked.
#[derive(Clone, Copy, Debug, PartialEq, Eq, Structural)]
pub enum Walk {
    /// Over the container itself.
    Live,
    /// Over an independent copy of its elements.
    Snapshot,
}

/// Decides how a binding is walked. Without risk it is walked as it stands.
/// With risk it is walked by snapshot, which is done in silence where the
/// elements can be copied, and is a violation where they cannot.
pub fn walk_for(binding: usize, alias_risk: bool, copyable: bool) -> (r: Result<
    Walk,
    AliasingViolationError,
>)
    ensures
        r == (if !alias_risk {
            Ok::<Walk, AliasingViolationError>(Walk::Live)
        } else if copyable {
            Ok::<Walk, AliasingViolationError>(Walk::Snapshot)
        } else {
            Err::<Walk, AliasingViolationError>(AliasingViolationError { binding })
        }),
{
    if !alias_risk {
        Ok(Walk::Live)
    } else if copyable {
        Ok(Walk::Snapshot)
    } else {
        Err(AliasingViolationError { binding })
    }
}

/// The type observed at `i` is known and differs from a known type observed before it.
pub open spec fn spec_clashes_at(observed: Seq<ElementType>, i: int) -> bool {
    &&& 0 <= i < observed.len()
    &&& observed[i] != ElementType::Unknown
    &&& exists|j: int| 0 <= j < i && observed[j] != ElementType::Unknown && observed[j] != observed[i]
}

/// `t` is what the observed types have in common: the one known type among
/// them, or nothing known where none of them is.
pub open spec fn spec_unifies_to(observed: Seq<ElementType>, t: ElementType) -> bool {
    &&& forall|i: int|
        0 <= i < observed.len() ==> observed[i] == ElementType::Unknown || observed[i] == t
    &&& t != ElementType::Unknown ==> exists|i: int| 0 <= i < observed.len() && observed[i] == t
}

/// Unifies the types observed on one binding, over all its operations. Where
/// two known types differ, the mismatch is reported with the place of the
/// first observation that clashes with an earlier one.
pub fn unify_types(observed: &Vec<ElementType>) -> (r: Result<ElementType, TypeMismatchError>)
    ensures
        r is Err <==> exists|i: int| spec_clashes_at(observed@, i),
        r matches Ok(t) ==> spec_unifies_to(observed@, t),
        r matches Err(e) ==> spec_clashes_at(observed@, e.location as int) && forall|j: int|
            0 <= j < e.location ==> !spec_clashes_at(observed@, j),
{
    let mut common = ElementType::Unknown;
    let mut i: usize = 0;
    while i < observed.len()
        invariant
            i <= observed@.len(),
            spec_unifies_to(observed@.take(i as int), common),
            forall|j: int| 0 <= j < i ==> !spec_clashes_at(observed@, j),
        decreases observed@.len() - i,
    {
        let t = observed[i];
        let ghost before = observed@.take(i as int);
        let ghost next = observed@.take(i + 1);
        if t != ElementType::Unknown {
            if common == ElementType::Unknown {
                common = t;
                assert(next[i as int] == t);
            } else if common != t {
                proof {
                    let j = choose|j: int| 0 <= j < before.len() && before[j] == common;
                    assert(observed@[j] == common);
                    assert(spec_clashes_at(observed@, i as int));
                }
                return Err(TypeMismatchError { location: i });
            }
        }
        proof {
            assert forall|j: int| 0 <= j < next.len() implies next[j] == ElementType::Unknown
                || next[j] == common by {
                if j < i {
                    assert(before[j] == next[j]);
                }
            }
            if common != ElementType::Unknown && !(t != ElementType::Unknown && common == t) {
                let j = choose|j: int| 0 <= j < before.len() && before[j] == common;
                assert(next[j] == common);
            }
            if t != ElementType::Unknown && common == t {
                assert(next[i as int] == common);
            }
            assert(!spec_clashes_at(observed@, i as int)) by {
                if spec_clashes_at(observed@, i as int) {
                    let j = choose|j: int|
                        0 <= j < i && observed@[j] != ElementType::Unknown && observed@[j]
                            != observed@[i as int];
                    assert(before[j] == observed@[j]);
                }
            }
        }
        i = i + 1;
    }
    assert(observed@.take(i as int) =~= observed@);
    Ok(common)
}

} // verus!
