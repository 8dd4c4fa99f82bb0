//! The renaming rewriter's state.
use vstd::prelude::*;

use crate::experimental::minifying::islotallocator::ISlotAllocator;
use crate::experimental::minifying::renametable::RenameTable;
use crate::scoping::Script;

verus! {

/// Renames the variables of a script: it holds the rename table that the
/// walk over the syntax tree asks for each identifier's new name.
pub struct RenamingRewriter<A: ISlotAllocator, F: Fn(i32, Vec<usize>) -> String> {
    pub rename_table: RenameTable<A, F>,
}

impl<A: ISlotAllocator, F: Fn(i32, Vec<usize>) -> String> RenamingRewriter<A, F> {
    /// Creates a rewriter with a fresh rename table for the script.
    pub fn new(script: Script, naming_strategy: F, slot_allocator: A) -> (r: Self)
        requires
            script.wf(),
        ensures
            r.rename_table.wf(),
            r.rename_table.script() == script,
            r.rename_table.naming_strategy() == naming_strategy,
            r.rename_table.allocator() == slot_allocator.model(),
            r.rename_table.locations() == Seq::<(u64, usize, usize)>::empty(),
            forall|i: int|
                0 <= i < r.rename_table.names().len() ==> #[trigger] r.rename_table.names()[i] is None,
            forall|i: int|
                0 <= i < r.rename_table.cached_last_use().len()
                    ==> #[trigger] r.rename_table.cached_last_use()[i] is None,
    {
        RenamingRewriter { rename_table: RenameTable::new(script, naming_strategy, slot_allocator) }
    }
}

} // verus!
