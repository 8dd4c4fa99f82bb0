use vstd::prelude::*;

verus! {

/// Extension methods for syntax nodes (experimental).
///
/// It carries no operations: folding a tree is done by the constant folder.
pub struct SyntaxExtensions;

} // verus!
