//! Which variables the minifier may rename, and the names it must not use.
use vstd::prelude::*;

use crate::scoping::{Scope, ScopeTree, Variable, VariableKind};
use crate::text::str_eq;

verus! {

/// Helper methods for minifying.
pub struct MinifyingUtils;

/// Locals, parameters and loop variables with a declaration can be renamed.
pub open spec fn renamable(v: Variable) -> bool {
    (v.kind == VariableKind::Iteration || v.kind == VariableKind::Local || v.kind
        == VariableKind::Parameter) && v.has_declaration
}

/// The names of the variables of `s` that cannot be renamed.
pub open spec fn scope_unavailable(s: Scope) -> Set<Seq<char>> {
    Set::new(
        |n: Seq<char>|
            exists|j: int|
                0 <= j < s.declared_variables@.len() && !renamable(s.declared_variables@[j])
                    && s.declared_variables@[j].name@ == n,
    )
}

/// The names that cannot be renamed in scope `i` and the scopes containing it.
pub open spec fn chain_unavailable(t: ScopeTree, i: int) -> Set<Seq<char>>
    decreases i,
{
    if 0 <= i < t.scopes@.len() {
        let s = t.scopes@[i];
        match s.containing_scope {
            Some(p) => if p < i {
                scope_unavailable(s).union(chain_unavailable(t, p as int))
            } else {
                scope_unavailable(s)
            },
            None => scope_unavailable(s),
        }
    } else {
        Set::empty()
    }
}

/// The names that cannot be renamed in any of the given scopes or the scopes
/// containing them.
pub open spec fn scopes_unavailable(t: ScopeTree, scopes: Seq<usize>) -> Set<Seq<char>>
    decreases scopes.len(),
{
    if scopes.len() == 0 {
        Set::empty()
    } else {
        scopes_unavailable(t, scopes.drop_last()).union(chain_unavailable(t, scopes.last() as int))
    }
}

/// The names held by a list of strings.
pub open spec fn names_of(v: Seq<String>) -> Set<Seq<char>> {
    v.map_values(|s: String| s@).to_set()
}

/// No name occurs twice.
pub open spec fn distinct_names(v: Seq<String>) -> bool {
    forall|i: int, j: int| 0 <= i < j < v.len() ==> v[i]@ != v[j]@
}

proof fn lemma_names_push(v: Seq<String>, x: String)
    ensures
        names_of(v.push(x)) == names_of(v).insert(x@),
        forall|k: int| 0 <= k < v.len() ==> names_of(v).contains(#[trigger] v[k]@),
{
    let a = v.push(x).map_values(|s: String| s@);
    let b = v.map_values(|s: String| s@);
    assert(a =~= b.push(x@));
    assert forall|y: Seq<char>| #[trigger] a.to_set().contains(y) <==> b.to_set().insert(x@).contains(y) by {
        if a.to_set().contains(y) {
            let i = choose|i: int| 0 <= i < a.len() && a[i] == y;
            if i < b.len() {
                assert(b[i] == y);
            }
        }
        if b.to_set().contains(y) {
            let i = choose|i: int| 0 <= i < b.len() && b[i] == y;
            assert(a[i] == y);
        }
        if y == x@ {
            assert(a[b.len() as int] == y);
        }
    }
    assert(a.to_set() =~= b.to_set().insert(x@));
    assert forall|k: int| 0 <= k < v.len() implies names_of(v).contains(#[trigger] v[k]@) by {
        assert(b[k] == v[k]@);
    }
}

/// Whether `names` holds `n`.
pub fn contains_name(names: &Vec<String>, n: &str) -> (r: bool)
    ensures
        r == names_of(names@).contains(n@),
{
    let mut i: usize = 0;
    while i < names.len()
        invariant
            i <= names@.len(),
            forall|k: int| 0 <= k < i ==> names@[k]@ != n@,
        decreases names@.len() - i,
    {
        if str_eq(names[i].as_str(), n) {
            proof {
                assert(names@.map_values(|s: String| s@)[i as int] == n@);
            }
            return true;
        }
        i = i + 1;
    }
    proof {
        let mv = names@.map_values(|s: String| s@);
        if names_of(names@).contains(n@) {
            let k = choose|k: int| 0 <= k < mv.len() && #[trigger] mv[k] == n@;
            assert(names@[k]@ == n@);
        }
    }
    false
}

/// Adds `n` to `names` unless it is there already.
fn insert_name(names: &mut Vec<String>, n: &String)
    requires
        distinct_names(old(names)@),
    ensures
        distinct_names(final(names)@),
        names_of(final(names)@) == names_of(old(names)@).insert(n@),
{
    if !contains_name(names, n.as_str()) {
        let ghost before = names@;
        let c = n.clone();
        names.push(c);
        proof {
            lemma_names_push(before, c);
            assert(names@ == before.push(c));
        }
    } else {
        proof {
            assert(names_of(names@) =~= names_of(names@).insert(n@));
        }
    }
}

impl MinifyingUtils {
    /// Whether the variable can be renamed: a local, parameter or loop
    /// variable with a declaration.
    pub fn can_rename(variable: &Variable) -> (r: bool)
        ensures
            r == renamable(*variable),
    {
        match variable.kind {
            VariableKind::Iteration | VariableKind::Local | VariableKind::Parameter => {},
            _ => {
                return false;
            },
        }
        variable.has_declaration
    }

    /// The names of the variables that cannot be renamed in `scope` and the
    /// scopes containing it, each once.
    pub fn get_unavailable_names_in_scope(tree: &ScopeTree, scope: usize) -> (r: Vec<String>)
        requires
            tree.wf(),
        ensures
            names_of(r@) == chain_unavailable(*tree, scope as int),
            distinct_names(r@),
    {
        let mut result: Vec<String> = Vec::new();
        proof {
            assert(names_of(result@) =~= Set::<Seq<char>>::empty());
        }
        let mut current: Option<usize> = Some(scope);
        while current.is_some()
            invariant
                tree.wf(),
                distinct_names(result@),
                names_of(result@).union(match current {
                    Some(c) => chain_unavailable(*tree, c as int),
                    None => Set::empty(),
                }) == chain_unavailable(*tree, scope as int),
            decreases match current {
                Some(c) => c + 1,
                None => 0,
            },
        {
            let c = current.unwrap();
            if c >= tree.scopes.len() {
                proof {
                    assert(chain_unavailable(*tree, c as int) =~= Set::<Seq<char>>::empty());
                    assert(names_of(result@).union(Set::<Seq<char>>::empty()) =~= names_of(result@));
                }
                current = None;
            } else {
                let s = &tree.scopes[c];
                let ghost before = names_of(result@);
                let mut j: usize = 0;
                while j < s.declared_variables.len()
                    invariant
                        j <= s.declared_variables@.len(),
                        distinct_names(result@),
                        names_of(result@) == before.union(Set::new(
                            |n: Seq<char>|
                                exists|k: int|
                                    0 <= k < j && !renamable(s.declared_variables@[k])
                                        && s.declared_variables@[k].name@ == n,
                        )),
                    decreases s.declared_variables@.len() - j,
                {
                    let v = &s.declared_variables[j];
                    let ghost prev = names_of(result@);
                    if !Self::can_rename(v) {
                        insert_name(&mut result, &v.name);
                    }
                    proof {
                        assert(names_of(result@) =~= before.union(Set::new(
                            |n: Seq<char>|
                                exists|k: int|
                                    0 <= k < j + 1 && !renamable(s.declared_variables@[k])
                                        && s.declared_variables@[k].name@ == n,
                        )));
                    }
                    j = j + 1;
                }
                proof {
                    assert(Set::new(
                        |n: Seq<char>|
                            exists|k: int|
                                0 <= k < s.declared_variables@.len() && !renamable(
                                    s.declared_variables@[k],
                                ) && s.declared_variables@[k].name@ == n,
                    ) =~= scope_unavailable(*s));
                }
                let next = s.containing_scope;
                proof {
                    assert(tree.scopes@[c as int] == *s);
                    match next {
                        Some(p) => {
                            assert(p < c);
                        },
                        None => {},
                    }
                    assert(names_of(result@).union(match next {
                        Some(p) => chain_unavailable(*tree, p as int),
                        None => Set::empty(),
                    }) =~= before.union(chain_unavailable(*tree, c as int)));
                }
                current = next;
            }
        }
        proof {
            assert(names_of(result@).union(Set::<Seq<char>>::empty()) =~= names_of(result@));
        }
        result
    }

    /// The names of the variables that cannot be renamed in any of `scopes`
    /// or the scopes containing them, each once.
    pub fn get_unavailable_names(tree: &ScopeTree, scopes: &[usize]) -> (r: Vec<String>)
        requires
            tree.wf(),
        ensures
            names_of(r@) == scopes_unavailable(*tree, scopes@),
            distinct_names(r@),
    {
        let mut set: Vec<String> = Vec::new();
        proof {
            assert(names_of(set@) =~= Set::<Seq<char>>::empty());
            assert(scopes@.take(0) =~= Seq::<usize>::empty());
        }
        let mut i: usize = 0;
        while i < scopes.len()
            invariant
                tree.wf(),
                i <= scopes@.len(),
                distinct_names(set@),
                names_of(set@) == scopes_unavailable(*tree, scopes@.take(i as int)),
            decreases scopes@.len() - i,
        {
            let names = Self::get_unavailable_names_in_scope(tree, scopes[i]);
            let mut k: usize = 0;
            let ghost before = names_of(set@);
            while k < names.len()
                invariant
                    k <= names@.len(),
                    distinct_names(set@),
                    names_of(set@) == before.union(names_of(names@.take(k as int))),
                decreases names@.len() - k,
            {
                insert_name(&mut set, &names[k]);
                proof {
                    assert(names@.take(k + 1) =~= names@.take(k as int).push(names@[k as int]));
                    lemma_names_push(names@.take(k as int), names@[k as int]);
                    assert(names_of(set@) =~= before.union(names_of(names@.take(k + 1))));
                }
                k = k + 1;
            }
            proof {
                assert(names@.take(names@.len() as int) =~= names@);
                assert(scopes@.take(i + 1).drop_last() =~= scopes@.take(i as int));
                assert(scopes@.take(i + 1).last() == scopes@[i as int]);
            }
            i = i + 1;
        }
        proof {
            assert(scopes@.take(scopes@.len() as int) =~= scopes@);
        }
        set
    }
}

} // verus!
