use vstd::prelude::*;

verus! {

/// The extension methods for syntax trees (experimental).
///
/// Minifying and folding a tree walk and rewrite the syntax tree of the
/// outside parser through its visitor trait; the library supplies their
/// decisions (renaming, naming strategies, slot allocation).
pub struct LuaExtensions;

} // verus!
