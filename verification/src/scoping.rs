//! Scopes and the variables they declare, as plain data.
use vstd::prelude::*;

verus! {

/// The kind of a variable.
#[derive(Debug, Clone, Copy, PartialEq, Eq, Hash, Structural)]
pub enum VariableKind {
    /// A local variable.
    Local,
    /// A global variable.
    Global,
    /// A function parameter.
    Parameter,
    /// A variable of a `for` loop.
    Iteration,
}

/// A variable: its name, its kind, and whether it has a declaration.
#[derive(Debug, Clone)]
pub struct Variable {
    pub name: String,
    pub kind: VariableKind,
    pub has_declaration: bool,
}

/// A scope: the index of its containing scope, if any, and the variables it
/// declares.
#[derive(Debug, Clone)]
pub struct Scope {
    pub containing_scope: Option<usize>,
    pub declared_variables: Vec<Variable>,
}

/// The scopes of a script; a scope's containing scope comes before it.
#[derive(Debug, Clone)]
pub struct ScopeTree {
    pub scopes: Vec<Scope>,
}

impl ScopeTree {
    /// Every containing scope comes before the scopes it contains.
    pub open spec fn wf(&self) -> bool {
        forall|i: int|
            0 <= i < self.scopes@.len() ==> match #[trigger] self.scopes@[i].containing_scope {
                Some(p) => p < i,
                None => true,
            }
    }
}

/// A variable of a script with the syntax nodes that use it: the nodes
/// that read it, those that write it, and its declaration.
#[derive(Debug, Clone)]
pub struct ScriptVariable {
    pub variable: Variable,
    pub read_locations: Vec<u64>,
    pub write_locations: Vec<u64>,
    pub declaration: Option<u64>,
}

/// The variables of a script, and for each identifier node the variable it
/// refers to (an index into `variables`).
#[derive(Debug, Clone)]
pub struct Script {
    pub variables: Vec<ScriptVariable>,
    pub identifiers: Vec<(u64, usize)>,
}

/// The variable that `node` refers to: that of the first entry for it.
pub open spec fn variable_of(identifiers: Seq<(u64, usize)>, node: u64) -> Option<usize>
    decreases identifiers.len(),
{
    if identifiers.len() == 0 {
        None
    } else if identifiers[0].0 == node {
        Some(identifiers[0].1)
    } else {
        variable_of(identifiers.drop_first(), node)
    }
}

/// The variable an identifier refers to is one of those given for it.
pub proof fn lemma_variable_of_listed(identifiers: Seq<(u64, usize)>, node: u64)
    ensures
        variable_of(identifiers, node) is Some ==> exists|i: int|
            0 <= i < identifiers.len() && #[trigger] identifiers[i].1 == variable_of(
                identifiers,
                node,
            )->0,
    decreases identifiers.len(),
{
    if identifiers.len() > 0 && identifiers[0].0 != node {
        lemma_variable_of_listed(identifiers.drop_first(), node);
        if variable_of(identifiers, node) is Some {
            let i = choose|i: int|
                0 <= i < identifiers.drop_first().len() && #[trigger] identifiers.drop_first()[i].1
                    == variable_of(identifiers, node)->0;
            assert(identifiers[i + 1].1 == variable_of(identifiers, node)->0);
        }
    } else if identifiers.len() > 0 {
        assert(identifiers[0].1 == variable_of(identifiers, node)->0);
    }
}

impl Script {
    /// Every identifier refers to one of the variables.
    pub open spec fn wf(&self) -> bool {
        forall|i: int|
            0 <= i < self.identifiers@.len() ==> #[trigger] self.identifiers@[i].1
                < self.variables@.len()
    }

    /// The variable that `node` refers to, if any.
    pub fn get_variable(&self, node: u64) -> (r: Option<usize>)
        ensures
            r == variable_of(self.identifiers@, node),
    {
        let mut i: usize = 0;
        proof {
            assert(self.identifiers@.skip(0) =~= self.identifiers@);
        }
        while i < self.identifiers.len()
            invariant
                i <= self.identifiers@.len(),
                variable_of(self.identifiers@, node) == variable_of(
                    self.identifiers@.skip(i as int),
                    node,
                ),
            decreases self.identifiers@.len() - i,
        {
            let (n, v) = self.identifiers[i];
            if n == node {
                return Some(v);
            }
            proof {
                assert(self.identifiers@.skip(i as int).drop_first() =~= self.identifiers@.skip(
                    i + 1,
                ));
            }
            i = i + 1;
        }
        None
    }
}

} // verus!
