//! Configuration errors. Each names the declarations at fault by their
//! position: groups by their place in the list of group declarations, fields
//! by their place in the data struct, attributes by their place in the list
//! of pass-through attributes.

use vstd::prelude::*;

verus! {

#[derive(Debug, Clone)]
pub enum GenError {
    /// A group declares an empty identity.
    EmptyNestId { nest: usize },
    /// Two groups declare one identity.
    DuplicateNestId { first: usize, second: usize },
    /// Two groups resolve to one struct name.
    DuplicateNestName { first: usize, second: usize },
    /// A group names as origin a group that is not declared before it.
    UnknownOrigin { nest: usize },
    /// A group declares no way to produce its values and inherits none.
    MissingStrategy { nest: usize },
    /// A group declares both a reused conversion and a transformer.
    ConflictingStrategy { nest: usize },
    /// A field names an undeclared group.
    UnknownNestInField { field: usize, id: String },
    /// A field's pass-through attribute names an undeclared group.
    UnknownNestInFieldAttr { field: usize, attr: usize, id: String },
    /// A struct pass-through attribute names an undeclared group.
    UnknownNestInStructAttr { attr: usize, id: String },
    /// A field is assigned to one group twice.
    DuplicateFieldInNest { field: usize, nest: usize },
    /// Two generated structs, or a generated struct and the data struct,
    /// share a name.
    StructNameCollision { name: String },
}

} // verus!
