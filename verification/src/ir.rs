//! The canonical form of a container operation, free of any concrete syntax.
use vstd::prelude::*;

verus! {

/// The kind of a container.
#[derive(Clone, Copy, Debug, PartialEq, Eq, Structural)]
pub enum ContainerKind {
    /// A map from keys to values.
    Mapping,
    /// A set of elements.
    Collection,
    /// A list of elements in order.
    Sequence,
    /// A fixed row of components.
    Tuple,
}

/// How a binding is accessed within its scope.
#[derive(Clone, Copy, Debug, PartialEq, Eq, Structural)]
pub enum Mutability {
    /// Not resolved yet.
    Unknown,
    /// Only read.
    ReadOnly,
    /// Changed by at least one operation, so held exclusively.
    ExclusiveMutable,
}

/// The type of a key, a value or an element, as far as it is known.
#[derive(Clone, Copy, Debug, PartialEq, Eq, Structural)]
pub enum ElementType {
    /// Nothing has been observed yet.
    Unknown,
    Integer,
    Real,
    Text,
    Boolean,
}

/// The kind of a container operation.
#[derive(Clone, Copy, Debug, PartialEq, Eq, Structural)]
pub enum OperationKind {
    Get,
    Assign,
    Contains,
    Keys,
    Values,
    Items,
    Iterate,
    Copy,
    Clear,
    Update,
    Pop,
    PopItem,
    SetDefault,
    Len,
    Union,
    Intersection,
    Difference,
    SymmetricDifference,
    DifferenceUpdate,
    IntersectionUpdate,
    SymmetricDifferenceUpdate,
    IsSubset,
    IsSuperset,
    IsDisjoint,
    Append,
    Insert,
    Extend,
    Sort,
    Reverse,
    Min,
    Max,
    Remove,
    Index,
    Swap,
}

/// One container operation: its kind, the binding it works on, its operands
/// in order, and how many values it returns.
pub struct OperationNode {
    pub kind: OperationKind,
    pub target: usize,
    pub operands: Vec<String>,
    pub return_arity: u8,
}

/// A named container within one scope: its kind, the types of its keys and
/// values (for a container without keys, the second is the type of its
/// elements), and what was resolved about its access.
pub struct ContainerBinding {
    pub container: ContainerKind,
    pub key_type: ElementType,
    pub value_type: ElementType,
    pub mutability: Mutability,
    pub alias_risk: bool,
}

/// Whether an operation of this kind changes the container it works on.
pub open spec fn spec_is_mutating(kind: OperationKind) -> bool {
    match kind {
        OperationKind::Assign
        | OperationKind::Clear
        | OperationKind::Insert
        | OperationKind::Append
        | OperationKind::Extend
        | OperationKind::Remove
        | OperationKind::Update
        | OperationKind::Pop
        | OperationKind::PopItem
        | OperationKind::SetDefault
        | OperationKind::DifferenceUpdate
        | OperationKind::IntersectionUpdate
        | OperationKind::SymmetricDifferenceUpdate
        | OperationKind::Sort
        | OperationKind::Reverse
        | OperationKind::Swap => true,
        _ => false,
    }
}

/// Whether an operation of this kind walks over the container.
pub open spec fn spec_is_iterating(kind: OperationKind) -> bool {
    match kind {
        OperationKind::Keys | OperationKind::Values | OperationKind::Items | OperationKind::Iterate => true,
        _ => false,
    }
}

/// Whether an operation of this kind builds another container from this one.
pub open spec fn spec_is_materializing(kind: OperationKind) -> bool {
    kind == OperationKind::Copy
}

/// How many values an operation may return: none, one, or a pair. Removal of
/// some entry returns a pair, the key and the value.
pub open spec fn spec_arity_ok(kind: OperationKind, return_arity: u8) -> bool {
    &&& return_arity <= 2
    &&& kind == OperationKind::PopItem ==> return_arity == 2
}

/// Whether an operation of this kind changes the container it works on.
pub fn is_mutating(kind: OperationKind) -> (r: bool)
    ensures
        r == spec_is_mutating(kind),
{
    match kind {
        OperationKind::Assign
        | OperationKind::Clear
        | OperationKind::Insert
        | OperationKind::Append
        | OperationKind::Extend
        | OperationKind::Remove
        | OperationKind::Update
        | OperationKind::Pop
        | OperationKind::PopItem
        | OperationKind::SetDefault
        | OperationKind::DifferenceUpdate
        | OperationKind::IntersectionUpdate
        | OperationKind::SymmetricDifferenceUpdate
        | OperationKind::Sort
        | OperationKind::Reverse
        | OperationKind::Swap => true,
        _ => false,
    }
}

/// Whether an operation of this kind walks over the container.
pub fn is_iterating(kind: OperationKind) -> (r: bool)
    ensures
        r == spec_is_iterating(kind),
{
    match kind {
        OperationKind::Keys | OperationKind::Values | OperationKind::Items | OperationKind::Iterate => true,
        _ => false,
    }
}

/// Whether an operation of this kind builds another container from this one.
pub fn is_materializing(kind: OperationKind) -> (r: bool)
    ensures
        r == spec_is_materializing(kind),
{
    match kind {
        OperationKind::Copy => true,
        _ => false,
    }
}

impl OperationNode {
    /// An operation node, where the number of returned values suits the kind.
    pub fn new(kind: OperationKind, target: usize, operands: Vec<String>, return_arity: u8) -> (r:
        Option<OperationNode>)
        ensures
            r is Some <==> spec_arity_ok(kind, return_arity),
            r matches Some(node) ==> node.kind == kind && node.target == target && node.operands
                == operands && node.return_arity == return_arity,
    {
        let pair_needed = match kind {
            OperationKind::PopItem => true,
            _ => false,
        };
        if return_arity > 2 || (pair_needed && return_arity != 2) {
            None
        } else {
            Some(OperationNode { kind, target, operands, return_arity })
        }
    }
}

} // verus!
