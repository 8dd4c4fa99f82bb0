//! The rename table: the new name of each renamable variable, and the
//! moment its slot can be reused.
use vstd::prelude::*;

use crate::experimental::minifying::islotallocator::ISlotAllocator;
use crate::experimental::minifying::minifyingutils::{renamable, MinifyingUtils};
use crate::scoping::{lemma_variable_of_listed, variable_of, Script, ScriptVariable};

verus! {

/// The position and the scope of `node`, from the first entry for it.
pub open spec fn find_location(locations: Seq<(u64, usize, usize)>, node: u64) -> Option<
    (usize, usize),
>
    decreases locations.len(),
{
    if locations.len() == 0 {
        None
    } else if locations[0].0 == node {
        Some((locations[0].1, locations[0].2))
    } else {
        find_location(locations.drop_first(), node)
    }
}

/// `best` after looking at `node`: the node replaces it when the node's
/// position is known and higher.
pub open spec fn later_use(locations: Seq<(u64, usize, usize)>, node: u64, best: Option<(usize, u64)>) -> Option<
    (usize, u64),
> {
    match find_location(locations, node) {
        Some(l) => match best {
            Some(b) => if l.0 > b.0 {
                Some((l.0, node))
            } else {
                best
            },
            None => Some((l.0, node)),
        },
        None => best,
    }
}

/// The node of `nodes` with the highest known position (the first of equal
/// ones), with its position, starting from `best`.
pub open spec fn latest_use(
    nodes: Seq<u64>,
    locations: Seq<(u64, usize, usize)>,
    best: Option<(usize, u64)>,
) -> Option<(usize, u64)>
    decreases nodes.len(),
{
    if nodes.len() == 0 {
        best
    } else {
        latest_use(nodes.drop_first(), locations, later_use(locations, nodes[0], best))
    }
}

/// The node where the variable is used last: the read or write location
/// with the highest position (reads looked at first, the first of equal
/// ones kept), else its declaration.
pub open spec fn last_use(v: ScriptVariable, locations: Seq<(u64, usize, usize)>) -> Option<u64> {
    match latest_use(
        v.write_locations@,
        locations,
        latest_use(v.read_locations@, locations, None),
    ) {
        Some(b) => Some(b.1),
        None => v.declaration,
    }
}

/// The position recorded for `node`, when the locations list it.
pub open spec fn position_of(locations: Seq<(u64, usize, usize)>, node: u64) -> Option<usize> {
    match find_location(locations, node) {
        Some(l) => Some(l.0),
        None => None,
    }
}

/// What `latest_use` picks: a node of `nodes` with a known position, or
/// `best` itself, never behind `best` and never behind any node of `nodes`
/// whose position is known; nothing only when there was nothing to pick.
proof fn lemma_latest_use_is_latest(
    nodes: Seq<u64>,
    locations: Seq<(u64, usize, usize)>,
    best: Option<(usize, u64)>,
)
    ensures
        latest_use(nodes, locations, best) is None <==> (best is None && forall|i: int|
            0 <= i < nodes.len() ==> #[trigger] position_of(locations, nodes[i]) is None),
        latest_use(nodes, locations, best) matches Some(r) ==> {
            &&& (best == Some(r) || exists|i: int|
                0 <= i < nodes.len() && nodes[i] == r.1 && #[trigger] position_of(locations, nodes[i])
                    == Some(r.0))
            &&& (best matches Some(b) ==> b.0 <= r.0)
            &&& forall|i: int|
                0 <= i < nodes.len() && #[trigger] position_of(locations, nodes[i]) is Some
                    ==> position_of(locations, nodes[i])->0 <= r.0
        },
    decreases nodes.len(),
{
    if nodes.len() > 0 {
        let next = later_use(locations, nodes[0], best);
        let rest = nodes.drop_first();
        lemma_latest_use_is_latest(rest, locations, next);
        assert forall|i: int| 1 <= i < nodes.len() implies nodes[i] == rest[i - 1] by {}
        let r = latest_use(nodes, locations, best);
        if r is Some {
            let rv = r->0;
            if next == Some(rv) && best != Some(rv) {
                assert(nodes[0] == rv.1 && position_of(locations, nodes[0]) == Some(rv.0));
            }
            if exists|i: int|
                0 <= i < rest.len() && rest[i] == rv.1 && #[trigger] position_of(locations, rest[i])
                    == Some(rv.0) {
                let i = choose|i: int|
                    0 <= i < rest.len() && rest[i] == rv.1 && #[trigger] position_of(
                        locations,
                        rest[i],
                    ) == Some(rv.0);
                assert(nodes[i + 1] == rest[i]);
                assert(position_of(locations, nodes[i + 1]) == Some(rv.0));
            }
            assert forall|i: int|
                0 <= i < nodes.len() && #[trigger] position_of(locations, nodes[i]) is Some
                    implies position_of(locations, nodes[i])->0 <= rv.0 by {
                if i > 0 {
                    assert(position_of(locations, rest[i - 1]) is Some);
                }
            }
        } else {
            assert forall|i: int| 0 <= i < nodes.len() implies #[trigger] position_of(
                locations,
                nodes[i],
            ) is None by {
                if i > 0 {
                    assert(position_of(locations, rest[i - 1]) is None);
                }
            }
        }
    }
}

/// A variable's last use is a read or a write of it whose position is
/// known, and no read or write with a known position comes after it; only
/// when none of its reads and writes has a known position is it the
/// declaration.
pub proof fn law_last_use_is_the_latest_read_or_write(
    v: ScriptVariable,
    locations: Seq<(u64, usize, usize)>,
)
    ensures
        (exists|n: u64|
            (v.read_locations@.contains(n) || v.write_locations@.contains(n)) && #[trigger]
                position_of(locations, n) is Some) ==> {
            &&& last_use(v, locations) is Some
            &&& (v.read_locations@.contains(last_use(v, locations)->0)
                || v.write_locations@.contains(last_use(v, locations)->0))
            &&& position_of(locations, last_use(v, locations)->0) is Some
            &&& forall|n: u64|
                (v.read_locations@.contains(n) || v.write_locations@.contains(n)) && #[trigger]
                    position_of(locations, n) is Some ==> position_of(locations, n)->0
                    <= position_of(locations, last_use(v, locations)->0)->0
        },
        (forall|n: u64|
            (v.read_locations@.contains(n) || v.write_locations@.contains(n)) ==> #[trigger]
                position_of(locations, n) is None) ==> last_use(v, locations) == v.declaration,
{
    let reads = v.read_locations@;
    let writes = v.write_locations@;
    let rb = latest_use(reads, locations, None);
    lemma_latest_use_is_latest(reads, locations, None);
    lemma_latest_use_is_latest(writes, locations, rb);
    let r = latest_use(writes, locations, rb);
    if r is Some {
        let rv = r->0;
        // The chosen node carries the position it was chosen with.
        let from_writes = exists|i: int|
            0 <= i < writes.len() && writes[i] == rv.1 && #[trigger] position_of(locations, writes[i])
                == Some(rv.0);
        if from_writes {
            let i = choose|i: int|
                0 <= i < writes.len() && writes[i] == rv.1 && #[trigger] position_of(
                    locations,
                    writes[i],
                ) == Some(rv.0);
            assert(writes.contains(rv.1));
        } else {
            assert(rb == Some(rv));
            let i = choose|i: int|
                0 <= i < reads.len() && reads[i] == rv.1 && #[trigger] position_of(locations, reads[i])
                    == Some(rv.0);
            assert(reads.contains(rv.1));
        }
        assert(position_of(locations, rv.1) == Some(rv.0));
        assert forall|n: u64|
            (reads.contains(n) || writes.contains(n)) && #[trigger] position_of(locations, n) is Some
                implies position_of(locations, n)->0 <= position_of(locations, rv.1)->0 by {
            if reads.contains(n) {
                let i = choose|i: int| 0 <= i < reads.len() && reads[i] == n;
                assert(position_of(locations, reads[i]) is Some);
            } else {
                let i = choose|i: int| 0 <= i < writes.len() && writes[i] == n;
                assert(position_of(locations, writes[i]) is Some);
            }
        }
    } else {
        assert forall|n: u64|
            (reads.contains(n) || writes.contains(n)) implies #[trigger] position_of(locations, n)
                is None by {
            if reads.contains(n) {
                let i = choose|i: int| 0 <= i < reads.len() && reads[i] == n;
                assert(position_of(locations, reads[i]) is None);
            } else {
                let i = choose|i: int| 0 <= i < writes.len() && writes[i] == n;
                assert(position_of(locations, writes[i]) is None);
            }
        }
    }
}

/// `acc` followed by the scopes of `nodes` that it does not hold yet, each
/// once, in order of first appearance.
pub open spec fn collect_scopes(
    nodes: Seq<u64>,
    locations: Seq<(u64, usize, usize)>,
    acc: Seq<usize>,
) -> Seq<usize>
    decreases nodes.len(),
{
    if nodes.len() == 0 {
        acc
    } else {
        let next = match find_location(locations, nodes[0]) {
            Some(l) => if acc.contains(l.1) {
                acc
            } else {
                acc.push(l.1)
            },
            None => acc,
        };
        collect_scopes(nodes.drop_first(), locations, next)
    }
}

/// The scopes the variable is used in, each once: those of its reads, then
/// of its writes, then of its declaration.
pub open spec fn variable_scopes(v: ScriptVariable, locations: Seq<(u64, usize, usize)>) -> Seq<
    usize,
> {
    let r = collect_scopes(
        v.write_locations@,
        locations,
        collect_scopes(v.read_locations@, locations, seq![]),
    );
    match v.declaration {
        Some(d) => collect_scopes(seq![d], locations, r),
        None => r,
    }
}

/// The first entry for `node`: its position and its scope.
fn location_of(locations: &Vec<(u64, usize, usize)>, node: u64) -> (r: Option<(usize, usize)>)
    ensures
        r == find_location(locations@, node),
{
    let mut i: usize = 0;
    proof {
        assert(locations@.skip(0) =~= locations@);
    }
    while i < locations.len()
        invariant
            i <= locations@.len(),
            find_location(locations@, node) == find_location(locations@.skip(i as int), node),
        decreases locations@.len() - i,
    {
        let (n, pos, scope) = locations[i];
        if n == node {
            return Some((pos, scope));
        }
        proof {
            assert(locations@.skip(i as int).drop_first() =~= locations@.skip(i + 1));
        }
        i = i + 1;
    }
    None
}

/// The node of `nodes` with the highest known position, starting from `best`.
fn latest_of(nodes: &Vec<u64>, locations: &Vec<(u64, usize, usize)>, best: Option<(usize, u64)>) -> (r:
    Option<(usize, u64)>)
    ensures
        r == latest_use(nodes@, locations@, best),
{
    let mut acc = best;
    let mut i: usize = 0;
    proof {
        assert(nodes@.skip(0) =~= nodes@);
    }
    while i < nodes.len()
        invariant
            i <= nodes@.len(),
            latest_use(nodes@, locations@, best) == latest_use(nodes@.skip(i as int), locations@, acc),
        decreases nodes@.len() - i,
    {
        let node = nodes[i];
        let found = location_of(locations, node);
        match found {
            Some((pos, _)) => {
                match acc {
                    Some((b, _)) => {
                        if pos > b {
                            acc = Some((pos, node));
                        }
                    },
                    None => {
                        acc = Some((pos, node));
                    },
                }
            },
            None => {},
        }
        proof {
            assert(nodes@.skip(i as int).drop_first() =~= nodes@.skip(i + 1));
        }
        i = i + 1;
    }
    acc
}

/// Whether `v` holds `x`.
fn holds(v: &Vec<usize>, x: usize) -> (r: bool)
    ensures
        r == v@.contains(x),
{
    let mut i: usize = 0;
    while i < v.len()
        invariant
            i <= v@.len(),
            forall|k: int| 0 <= k < i ==> v@[k] != x,
        decreases v@.len() - i,
    {
        if v[i] == x {
            return true;
        }
        i = i + 1;
    }
    false
}

/// Appends to `acc` the scopes of `nodes` that it does not hold yet.
fn push_scopes(nodes: &Vec<u64>, locations: &Vec<(u64, usize, usize)>, acc: &mut Vec<usize>)
    ensures
        final(acc)@ == collect_scopes(nodes@, locations@, old(acc)@),
{
    let mut i: usize = 0;
    proof {
        assert(nodes@.skip(0) =~= nodes@);
    }
    while i < nodes.len()
        invariant
            i <= nodes@.len(),
            collect_scopes(nodes@, locations@, old(acc)@) == collect_scopes(
                nodes@.skip(i as int),
                locations@,
                acc@,
            ),
        decreases nodes@.len() - i,
    {
        let found = location_of(locations, nodes[i]);
        match found {
            Some((_, scope)) => {
                if !holds(acc, scope) {
                    acc.push(scope);
                }
            },
            None => {},
        }
        proof {
            assert(nodes@.skip(i as int).drop_first() =~= nodes@.skip(i + 1));
        }
        i = i + 1;
    }
}

/// The table of new names: it maps each renamable variable to a slot and a
/// name, hands out slots from the allocator and gives them back at the
/// variable's last use.
pub struct RenameTable<A: ISlotAllocator, F: Fn(i32, Vec<usize>) -> String> {
    script: Script,
    naming_strategy: F,
    last_use_cache: Vec<Option<Option<u64>>>,
    variable_map: Vec<Option<(i32, String)>>,
    slot_allocator: A,
    location_scopes: Vec<(u64, usize, usize)>,
}

/// The slot and the name of each mapped variable, the name as characters.
pub open spec fn names_view(m: Seq<Option<(i32, String)>>) -> Seq<Option<(i32, Seq<char>)>> {
    m.map_values(
        |e: Option<(i32, String)>|
            match e {
                Some(p) => Some((p.0, p.1@)),
                None => None,
            },
    )
}

impl<A: ISlotAllocator, F: Fn(i32, Vec<usize>) -> String> RenameTable<A, F> {
    /// The script whose variables are renamed.
    pub closed spec fn script(&self) -> Script {
        self.script
    }

    /// The naming strategy.
    pub closed spec fn naming_strategy(&self) -> F {
        self.naming_strategy
    }

    /// For each variable, its last use once it was looked up.
    pub closed spec fn cached_last_use(&self) -> Seq<Option<Option<u64>>> {
        self.last_use_cache@
    }

    /// For each variable, its slot and new name once it was given one.
    pub closed spec fn names(&self) -> Seq<Option<(i32, Seq<char>)>> {
        names_view(self.variable_map@)
    }

    /// The state of the slot allocator.
    pub closed spec fn allocator(&self) -> A::Model {
        self.slot_allocator.model()
    }

    /// Each node's position and scope.
    pub closed spec fn locations(&self) -> Seq<(u64, usize, usize)> {
        self.location_scopes@
    }

    /// The per-variable tables cover the script's variables.
    pub open spec fn wf(&self) -> bool {
        &&& self.script().wf()
        &&& self.cached_last_use().len() == self.script().variables@.len()
        &&& self.names().len() == self.script().variables@.len()
    }

    /// The variable that `node` refers to.
    pub open spec fn variable_at(&self, node: u64) -> int {
        variable_of(self.script().identifiers@, node)->0 as int
    }

    /// The last use of variable `v`, from the cache once looked up.
    pub open spec fn last_use_of(&self, v: int) -> Option<u64> {
        match self.cached_last_use()[v] {
            Some(c) => c,
            None => last_use(self.script().variables@[v], self.locations()),
        }
    }

    /// The slot of variable `v` when it is next named, and the allocator's
    /// state after that.
    pub open spec fn slot_for(&self, v: int) -> (i32, A::Model) {
        match self.names()[v] {
            Some(p) => (p.0, self.allocator()),
            None => A::allocate_spec(self.allocator()),
        }
    }

    /// The naming strategy accepts the slot and scopes with which naming
    /// `node` calls it: a variable that is renamed and not named yet is
    /// named from its next slot and the scopes of its locations.
    pub open spec fn naming_ok(&self, node: u64) -> bool {
        let v = self.variable_at(node);
        let var = self.script().variables@[v];
        renamable(var.variable) && self.names()[v] is None ==> forall|scopes: Vec<usize>|
            scopes@ == variable_scopes(var, self.locations()) ==> #[trigger] call_requires(
                self.naming_strategy(),
                (self.slot_for(v).0, scopes),
            )
    }

    /// Naming `node` frees its slot only when the allocator allows it.
    pub open spec fn release_ok(&self, node: u64) -> bool {
        let v = self.variable_at(node);
        renamable(self.script().variables@[v].variable) && self.last_use_of(v) == Some(node)
            ==> A::can_release(self.slot_for(v).1, self.slot_for(v).0)
    }

    /// Creates a table for the script's variables, with no location known yet.
    pub fn new(script: Script, naming_strategy: F, slot_allocator: A) -> (r: Self)
        requires
            script.wf(),
        ensures
            r.wf(),
            r.script() == script,
            r.naming_strategy() == naming_strategy,
            r.allocator() == slot_allocator.model(),
            r.locations() == Seq::<(u64, usize, usize)>::empty(),
            forall|i: int| 0 <= i < r.names().len() ==> #[trigger] r.names()[i] is None,
            forall|i: int|
                0 <= i < r.cached_last_use().len() ==> #[trigger] r.cached_last_use()[i] is None,
    {
        let n = script.variables.len();
        let mut last_use_cache: Vec<Option<Option<u64>>> = Vec::new();
        let mut variable_map: Vec<Option<(i32, String)>> = Vec::new();
        let mut i: usize = 0;
        while i < n
            invariant
                i <= n,
                last_use_cache@.len() == i,
                variable_map@.len() == i,
                forall|k: int| 0 <= k < i ==> #[trigger] last_use_cache@[k] is None,
                forall|k: int| 0 <= k < i ==> #[trigger] variable_map@[k] is None,
            decreases n - i,
        {
            last_use_cache.push(None);
            variable_map.push(None);
            i = i + 1;
        }
        RenameTable {
            script,
            naming_strategy,
            last_use_cache,
            variable_map,
            slot_allocator,
            location_scopes: Vec::new(),
        }
    }

    /// Sets each node's position and scope for the walk that follows.
    pub fn prepare(&mut self, location_scopes: &[(u64, usize, usize)])
        ensures
            final(self).locations() == location_scopes@,
            final(self).script() == old(self).script(),
            final(self).naming_strategy() == old(self).naming_strategy(),
            final(self).cached_last_use() == old(self).cached_last_use(),
            final(self).names() == old(self).names(),
            final(self).allocator() == old(self).allocator(),
    {
        let mut v: Vec<(u64, usize, usize)> = Vec::new();
        let mut i: usize = 0;
        while i < location_scopes.len()
            invariant
                i <= location_scopes@.len(),
                v@ == location_scopes@.take(i as int),
            decreases location_scopes@.len() - i,
        {
            v.push(location_scopes[i]);
            i = i + 1;
            proof {
                assert(v@ =~= location_scopes@.take(i as int));
            }
        }
        proof {
            assert(location_scopes@.take(location_scopes@.len() as int) =~= location_scopes@);
        }
        self.location_scopes = v;
    }

    /// The node where variable `variable` is used last: the read or write
    /// location with the highest position, else its declaration. The answer
    /// is kept and given again on later calls.
    pub fn get_last_use(&mut self, variable: usize) -> (r: Option<u64>)
        requires
            old(self).wf(),
            variable < old(self).script().variables@.len(),
        ensures
            r == old(self).last_use_of(variable as int),
            final(self).cached_last_use() == old(self).cached_last_use().update(
                variable as int,
                Some(r),
            ),
            final(self).wf(),
            final(self).script() == old(self).script(),
            final(self).naming_strategy() == old(self).naming_strategy(),
            final(self).names() == old(self).names(),
            final(self).allocator() == old(self).allocator(),
            final(self).locations() == old(self).locations(),
    {
        match self.last_use_cache[variable] {
            Some(c) => {
                return c;
            },
            None => {},
        }
        let v = &self.script.variables[variable];
        let reads = latest_of(&v.read_locations, &self.location_scopes, None);
        let best = latest_of(&v.write_locations, &self.location_scopes, reads);
        let use_node = match best {
            Some((_, id)) => Some(id),
            None => v.declaration,
        };
        self.last_use_cache.set(variable, Some(use_node));
        use_node
    }

    /// The scopes variable `variable` is used in, each once.
    fn scopes_of(&self, variable: usize) -> (r: Vec<usize>)
        requires
            variable < self.script().variables@.len(),
        ensures
            r@ == variable_scopes(self.script().variables@[variable as int], self.locations()),
    {
        let v = &self.script.variables[variable];
        let mut scopes: Vec<usize> = Vec::new();
        proof {
            assert(scopes@ =~= seq![]);
        }
        push_scopes(&v.read_locations, &self.location_scopes, &mut scopes);
        push_scopes(&v.write_locations, &self.location_scopes, &mut scopes);
        match v.declaration {
            Some(d) => {
                let one = vec![d];
                proof {
                    assert(one@ =~= seq![d]);
                }
                push_scopes(&one, &self.location_scopes, &mut scopes);
            },
            None => {},
        }
        scopes
    }

    /// What naming `node` does: a variable that cannot be renamed gives
    /// `None` and changes nothing; any other gets its kept name, or on its
    /// first naming a name the strategy gives for its next slot, and its
    /// slot is released at its last use.
    pub open spec fn naming_step(before: Self, node: u64, r: Option<String>, after: Self) -> bool {
        let v = before.variable_at(node);
        let var = before.script().variables@[v];
        if !renamable(var.variable) {
            r is None && after == before
        } else {
            let slot = before.slot_for(v).0;
            let m = before.slot_for(v).1;
            &&& r is Some
            &&& after.names() == before.names().update(v, Some((slot, r->0@)))
            &&& before.names()[v] is Some ==> (before.names()[v]->0).1 == r->0@
            &&& before.names()[v] is None ==> exists|scopes: Vec<usize>|
                scopes@ == variable_scopes(var, before.locations()) && #[trigger] call_ensures(
                    before.naming_strategy(),
                    (slot, scopes),
                    r->0,
                )
            &&& after.cached_last_use() == before.cached_last_use().update(
                v,
                Some(before.last_use_of(v)),
            )
            &&& after.allocator() == if before.last_use_of(v) == Some(node) {
                A::release_spec(m, slot)
            } else {
                m
            }
            &&& after.wf()
            &&& after.script() == before.script()
            &&& after.naming_strategy() == before.naming_strategy()
            &&& after.locations() == before.locations()
        }
    }

    /// A run of namings keeps every variable's name: once a variable has
    /// been given a name, each later naming of an identifier of the same
    /// variable gives that same name, and the script stays the same.
    pub proof fn law_names_are_stable(tables: Seq<Self>, nodes: Seq<u64>, results: Seq<Option<String>>)
        requires
            tables.len() == nodes.len() + 1,
            results.len() == nodes.len(),
            forall|q: int|
                #![trigger nodes[q]]
                0 <= q < nodes.len() ==> tables[q].wf() && variable_of(
                    tables[q].script().identifiers@,
                    nodes[q],
                ) is Some,
            forall|q: int|
                #![trigger results[q]]
                0 <= q < nodes.len() ==> Self::naming_step(
                    tables[q],
                    nodes[q],
                    results[q],
                    tables[q + 1],
                ),
        ensures
            forall|k: int| 0 <= k <= nodes.len() ==> #[trigger] tables[k].script() == tables[0].script(),
            forall|i: int, j: int|
                0 <= i < j < nodes.len() && tables[0].variable_at(nodes[i]) == tables[0].variable_at(
                    nodes[j],
                ) && #[trigger] results[i] is Some ==> #[trigger] results[j] is Some && results[j]->0@
                    == results[i]->0@,
    {
        Self::lemma_script_kept(tables, nodes, results, nodes.len() as int);
        assert forall|k: int| 0 <= k <= nodes.len() implies #[trigger] tables[k].script()
            == tables[0].script() by {
            Self::lemma_script_kept(tables, nodes, results, k);
        }
        assert forall|i: int, j: int|
            0 <= i < j < nodes.len() && tables[0].variable_at(nodes[i]) == tables[0].variable_at(
                nodes[j],
            ) && #[trigger] results[i] is Some implies #[trigger] results[j] is Some
            && results[j]->0@ == results[i]->0@ by {
            Self::lemma_script_kept(tables, nodes, results, i);
            Self::lemma_script_kept(tables, nodes, results, j);
            Self::lemma_name_kept(tables, nodes, results, i, j);
        }
    }

    /// Over a run of namings, a variable is given a slot only once: a later
    /// naming of an identifier of an already named variable allocates
    /// nothing, and frees the variable's slot exactly when that identifier
    /// is the variable's last use.
    pub proof fn law_slots_are_allocated_once(
        tables: Seq<Self>,
        nodes: Seq<u64>,
        results: Seq<Option<String>>,
        i: int,
        j: int,
    )
        requires
            tables.len() == nodes.len() + 1,
            results.len() == nodes.len(),
            forall|q: int|
                #![trigger nodes[q]]
                0 <= q < nodes.len() ==> tables[q].wf() && variable_of(
                    tables[q].script().identifiers@,
                    nodes[q],
                ) is Some,
            forall|q: int|
                #![trigger results[q]]
                0 <= q < nodes.len() ==> Self::naming_step(
                    tables[q],
                    nodes[q],
                    results[q],
                    tables[q + 1],
                ),
            0 <= i < j < nodes.len(),
            tables[0].variable_at(nodes[i]) == tables[0].variable_at(nodes[j]),
            results[i] is Some,
        ensures
            ({
                let v = tables[j].variable_at(nodes[j]);
                let slot = (tables[j].names()[v]->0).0;
                &&& tables[j].names()[v] is Some
                &&& tables[j + 1].allocator() == if tables[j].last_use_of(v) == Some(nodes[j]) {
                    A::release_spec(tables[j].allocator(), slot)
                } else {
                    tables[j].allocator()
                }
            }),
    {
        Self::lemma_script_kept(tables, nodes, results, i);
        Self::lemma_script_kept(tables, nodes, results, j);
        Self::lemma_name_kept(tables, nodes, results, i, j);
        assert(results[j] == results[j]);
        assert(Self::naming_step(tables[j], nodes[j], results[j], tables[j + 1]));
        assert(nodes[j] == nodes[j]);
        assert(tables[j].wf() && variable_of(tables[j].script().identifiers@, nodes[j]) is Some);
        assert(results[i] == results[i]);
        assert(Self::naming_step(tables[i], nodes[i], results[i], tables[i + 1]));
    }

    /// A variable's last use, once looked up, is kept: a table whose cache
    /// holds the same entry for it (as after a later `prepare`, whatever
    /// locations that sets) gives the same last use.
    pub proof fn law_last_use_is_kept(before: Self, after: Self, v: int)
        requires
            0 <= v < before.cached_last_use().len(),
            before.cached_last_use()[v] is Some,
            after.cached_last_use()[v] == before.cached_last_use()[v],
        ensures
            after.last_use_of(v) == before.last_use_of(v),
            after.last_use_of(v) == before.cached_last_use()[v]->0,
    {
    }

    proof fn lemma_script_kept(tables: Seq<Self>, nodes: Seq<u64>, results: Seq<Option<String>>, k: int)
        requires
            tables.len() == nodes.len() + 1,
            results.len() == nodes.len(),
            0 <= k <= nodes.len(),
            forall|q: int|
                #![trigger results[q]]
                0 <= q < nodes.len() ==> Self::naming_step(
                    tables[q],
                    nodes[q],
                    results[q],
                    tables[q + 1],
                ),
        ensures
            tables[k].script() == tables[0].script(),
        decreases k,
    {
        if k > 0 {
            Self::lemma_script_kept(tables, nodes, results, k - 1);
            assert(Self::naming_step(tables[k - 1], nodes[k - 1], results[k - 1], tables[k]));
        }
    }

    proof fn lemma_name_kept(
        tables: Seq<Self>,
        nodes: Seq<u64>,
        results: Seq<Option<String>>,
        i: int,
        k: int,
    )
        requires
            tables.len() == nodes.len() + 1,
            results.len() == nodes.len(),
            0 <= i < k <= nodes.len(),
            results[i] is Some,
            forall|q: int|
                #![trigger nodes[q]]
                0 <= q < nodes.len() ==> tables[q].wf() && variable_of(
                    tables[q].script().identifiers@,
                    nodes[q],
                ) is Some,
            forall|q: int|
                #![trigger results[q]]
                0 <= q < nodes.len() ==> Self::naming_step(
                    tables[q],
                    nodes[q],
                    results[q],
                    tables[q + 1],
                ),
        ensures
            tables[k].names()[tables[i].variable_at(nodes[i])] == Some(
                ((tables[i + 1].names()[tables[i].variable_at(nodes[i])]->0).0, results[i]->0@),
            ),
            k < nodes.len() && tables[k].variable_at(nodes[k]) == tables[i].variable_at(nodes[i])
                ==> results[k] is Some && results[k]->0@ == results[i]->0@,
        decreases k - i,
    {
        let v = tables[i].variable_at(nodes[i]);
        assert(tables[i].wf() && variable_of(tables[i].script().identifiers@, nodes[i]) is Some);
        assert(Self::naming_step(tables[i], nodes[i], results[i], tables[i + 1]));
        lemma_variable_of_listed(tables[i].script().identifiers@, nodes[i]);
        assert(0 <= v < tables[i].names().len());
        if k > i + 1 {
            Self::lemma_name_kept(tables, nodes, results, i, k - 1);
            let p = k - 1;
            assert(Self::naming_step(tables[p], nodes[p], results[p], tables[p + 1]));
            assert(tables[p].wf() && variable_of(tables[p].script().identifiers@, nodes[p]) is Some);
            Self::lemma_script_kept(tables, nodes, results, p);
            Self::lemma_script_kept(tables, nodes, results, i);
            lemma_variable_of_listed(tables[p].script().identifiers@, nodes[p]);
        }
        if k < nodes.len() && tables[k].variable_at(nodes[k]) == v {
            assert(Self::naming_step(tables[k], nodes[k], results[k], tables[k + 1]));
            assert(tables[k].wf() && variable_of(tables[k].script().identifiers@, nodes[k]) is Some);
            Self::lemma_script_kept(tables, nodes, results, k);
            Self::lemma_script_kept(tables, nodes, results, i);
        }
    }

    /// The new name of the variable that identifier `node` refers to, or
    /// `None` when that variable cannot be renamed. A variable gets its
    /// slot and name the first time; at its last use its slot is released.
    pub fn get_new_variable_name(&mut self, node: u64) -> (r: Option<String>)
        requires
            old(self).wf(),
            variable_of(old(self).script().identifiers@, node) is Some,
            old(self).naming_ok(node),
            old(self).release_ok(node),
        ensures
            Self::naming_step(*old(self), node, r, *final(self)),
    {
        let found = self.script.get_variable(node);
        let variable = match found {
            Some(v) => v,
            None => {
                return None;
            },
        };
        proof {
            lemma_variable_of_listed(self.script.identifiers@, node);
        }
        if !MinifyingUtils::can_rename(&self.script.variables[variable].variable) {
            return None;
        }
        let ghost names0 = self.names();
        let entry = match &self.variable_map[variable] {
            Some((slot, name)) => (*slot, name.clone()),
            None => {
                let slot = self.slot_allocator.allocate_slot();
                let scopes = self.scopes_of(variable);
                proof {
                    assert(variable as int == old(self).variable_at(node));
                    assert(old(self).names()[variable as int] is None);
                    assert(slot == old(self).slot_for(variable as int).0);
                    assert(scopes@ == variable_scopes(
                        old(self).script().variables@[variable as int],
                        old(self).locations(),
                    ));
                    assert(call_requires(old(self).naming_strategy(), (slot, scopes)));
                }
                let ghost passed = scopes;
                let name = (self.naming_strategy)(slot, scopes);
                proof {
                    assert(call_ensures(old(self).naming_strategy(), (slot, passed), name));
                }
                let kept = name.clone();
                self.variable_map.set(variable, Some((slot, kept)));
                (slot, name)
            },
        };
        let (slot, new_name) = entry;
        let last = self.get_last_use(variable);
        match last {
            Some(id) => {
                if id == node {
                    self.slot_allocator.release_slot(slot);
                }
            },
            None => {},
        }
        proof {
            assert(self.names() =~= old(self).names().update(
                variable as int,
                Some((slot, new_name@)),
            ));
        }
        Some(new_name)
    }
}

} // verus!
