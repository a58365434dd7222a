//! The environment variables of activated environments, each computed at most once.

use vstd::prelude::*;
use std::collections::HashMap;
use crate::manifest::{EnvironmentName, ManifestEnvironment};

verus! {

/// What becomes of the variables that are set already when an environment is activated.
#[derive(Clone, Copy, Debug, PartialEq, Eq, Structural)]
pub enum CurrentEnvVarBehavior {
    /// Start from a clean set of variables.
    Clean,
    /// Leave them out of the result.
    Exclude,
    /// Keep them in the result.
    Include,
}

/// What is in a cell after an attempt to fill it: what was in it before, or else what was computed.
pub open spec fn settled<E>(
    before: Option<HashMap<String, String>>,
    computed: Result<HashMap<String, String>, E>,
) -> Option<HashMap<String, String>> {
    match (before, computed) {
        (Some(vars), _) => Some(vars),
        (None, Ok(vars)) => Some(vars),
        (None, Err(_)) => None,
    }
}

/// Whether cells can come to hold `after` from holding `before`: cells may be added, and empty
/// cells be filled.
pub open spec fn evolves(
    before: Seq<Option<HashMap<String, String>>>,
    after: Seq<Option<HashMap<String, String>>>,
) -> bool {
    &&& before.len() <= after.len()
    &&& forall|c: int|
        0 <= c < before.len() && (#[trigger] before[c]) is Some ==> after[c] == before[c]
}

/// The cells that hold the variables of activated environments. Whoever knows the place of a cell
/// sees what is in it, so projects share what they have cached by sharing places.
pub struct VariableStore {
    cells: Vec<Option<HashMap<String, String>>>,
}

impl View for VariableStore {
    type V = Seq<Option<HashMap<String, String>>>;

    closed spec fn view(&self) -> Seq<Option<HashMap<String, String>>> {
        self.cells@
    }
}

impl VariableStore {
    /// The store without cells.
    pub fn new() -> (store: Self)
        ensures
            store@ == Seq::<Option<HashMap<String, String>>>::empty(),
    {
        VariableStore { cells: Vec::new() }
    }

    /// Adds an empty cell, and says where it is.
    fn add_cell(&mut self) -> (cell: usize)
        ensures
            cell == old(self)@.len(),
            final(self)@ == old(self)@.push(None),
    {
        let cell: usize = self.cells.len();
        self.cells.push(None);
        cell
    }

    /// What is in a cell.
    pub fn get(&self, cell: usize) -> (vars: &Option<HashMap<String, String>>)
        requires
            cell < self@.len(),
        ensures
            *vars == self@[cell as int],
    {
        &self.cells[cell]
    }

    /// What is in a cell. Where nothing is, `computed` fills it, and a failure to compute it is
    /// passed on and leaves the cell empty.
    pub fn get_or_try_init<E>(
        &mut self,
        cell: usize,
        computed: Result<HashMap<String, String>, E>,
    ) -> (vars: Result<&HashMap<String, String>, E>)
        requires
            cell < old(self)@.len(),
        ensures
            final(self)@ == old(self)@.update(
                cell as int,
                settled(old(self)@[cell as int], computed),
            ),
            match vars {
                Ok(vars) => settled(old(self)@[cell as int], computed) == Some(*vars),
                Err(error) => old(self)@[cell as int] is None && computed == Err::<
                    HashMap<String, String>,
                    E,
                >(error),
            },
    {
        if self.cells[cell].is_none() {
            match computed {
                Ok(vars) => {
                    self.cells.set(cell, Some(vars));
                },
                Err(error) => {
                    assert(self.cells@ =~= old(self)@.update(cell as int, None));
                    return Err(error);
                },
            }
        } else {
            assert(self.cells@ =~= old(self)@.update(cell as int, old(self)@[cell as int]));
        }
        Ok(self.cells[cell].as_ref().unwrap())
    }
}

/// Environment variable cache for different activations: the places of three cells.
#[derive(Clone, Copy, Debug, PartialEq, Eq, Structural)]
pub struct EnvironmentVars {
    clean: usize,
    pixi_only: usize,
    full: usize,
}

impl EnvironmentVars {
    /// The place of the cell for `behavior`.
    pub closed spec fn cell(self, behavior: CurrentEnvVarBehavior) -> usize {
        match behavior {
            CurrentEnvVarBehavior::Clean => self.clean,
            CurrentEnvVarBehavior::Exclude => self.pixi_only,
            CurrentEnvVarBehavior::Include => self.full,
        }
    }

    /// Create a new instance with three empty cells of its own.
    pub fn new(store: &mut VariableStore) -> (vars: Self)
        ensures
            final(store)@ == old(store)@.push(None).push(None).push(None),
            vars.cell(CurrentEnvVarBehavior::Clean) == old(store)@.len(),
            vars.cell(CurrentEnvVarBehavior::Exclude) == old(store)@.len() + 1,
            vars.cell(CurrentEnvVarBehavior::Include) == old(store)@.len() + 2,
    {
        let clean: usize = store.add_cell();
        let pixi_only: usize = store.add_cell();
        let full: usize = store.add_cell();
        EnvironmentVars { clean, pixi_only, full }
    }

    /// Get the cell of the clean environment variables.
    pub fn clean(&self) -> (cell: usize)
        ensures
            cell == self.cell(CurrentEnvVarBehavior::Clean),
    {
        self.clean
    }

    /// Get the cell of the environment variables that pixi itself sets.
    pub fn pixi_only(&self) -> (cell: usize)
        ensures
            cell == self.cell(CurrentEnvVarBehavior::Exclude),
    {
        self.pixi_only
    }

    /// Get the cell of the full environment variables.
    pub fn full(&self) -> (cell: usize)
        ensures
            cell == self.cell(CurrentEnvVarBehavior::Include),
    {
        self.full
    }

    /// Get the cell for `behavior`.
    pub fn cell_for(&self, behavior: CurrentEnvVarBehavior) -> (cell: usize)
        ensures
            cell == self.cell(behavior),
    {
        match behavior {
            CurrentEnvVarBehavior::Clean => self.clean(),
            CurrentEnvVarBehavior::Exclude => self.pixi_only(),
            CurrentEnvVarBehavior::Include => self.full(),
        }
    }
}

/// Whether no two environments, and no two behaviours, share a cell.
pub open spec fn distinct_cells(caches: Map<Option<Seq<char>>, EnvironmentVars>) -> bool {
    forall|n: Option<Seq<char>>, m: Option<Seq<char>>, b: CurrentEnvVarBehavior, c: CurrentEnvVarBehavior|
        caches.contains_key(n) && caches.contains_key(m) && #[trigger] caches[n].cell(b)
            == #[trigger] caches[m].cell(c) ==> n == m && b == c
}

/// Whether every cell of the caches is one of the first `len`.
pub open spec fn cells_below(caches: Map<Option<Seq<char>>, EnvironmentVars>, len: nat) -> bool {
    forall|n: Option<Seq<char>>, b: CurrentEnvVarBehavior|
        caches.contains_key(n) ==> #[trigger] caches[n].cell(b) < len
}

/// Whether no cell of the caches is one of the first `len`.
pub open spec fn cells_from(caches: Map<Option<Seq<char>>, EnvironmentVars>, len: nat) -> bool {
    forall|n: Option<Seq<char>>, b: CurrentEnvVarBehavior|
        caches.contains_key(n) ==> #[trigger] caches[n].cell(b) >= len
}

/// What is cached for an environment and a behaviour, where anything is.
pub open spec fn cached(
    caches: Map<Option<Seq<char>>, EnvironmentVars>,
    cells: Seq<Option<HashMap<String, String>>>,
    name: Option<Seq<char>>,
    behavior: CurrentEnvVarBehavior,
) -> Option<HashMap<String, String>> {
    if caches.contains_key(name) {
        cells[caches[name].cell(behavior) as int]
    } else {
        None
    }
}

/// The caches of all environments of a project.
pub struct ActivationCache {
    entries: Vec<(EnvironmentName, EnvironmentVars)>,
}

/// Whether the cache at place `i` belongs to the environment `name`.
pub open spec fn belongs_to(
    entries: Seq<(EnvironmentName, EnvironmentVars)>,
    i: int,
    name: Option<Seq<char>>,
) -> bool {
    0 <= i < entries.len() && entries[i].0@ == name
}

impl View for ActivationCache {
    type V = Map<Option<Seq<char>>, EnvironmentVars>;

    closed spec fn view(&self) -> Map<Option<Seq<char>>, EnvironmentVars> {
        Map::new(
            |name: Option<Seq<char>>| exists|i: int| belongs_to(self.entries@, i, name),
            |name: Option<Seq<char>>|
                self.entries@[choose|i: int| belongs_to(self.entries@, i, name)].1,
        )
    }
}

impl Clone for ActivationCache {
    fn clone(&self) -> (copy: Self)
        ensures
            copy@ == self@,
            self.well_formed() ==> copy.well_formed(),
    {
        let mut entries: Vec<(EnvironmentName, EnvironmentVars)> = Vec::new();
        let mut k: usize = 0;
        while k < self.entries.len()
            invariant
                k <= self.entries@.len(),
                entries@ == self.entries@.take(k as int),
            decreases self.entries.len() - k,
        {
            entries.push((self.entries[k].0.clone(), self.entries[k].1));
            k += 1;
        }
        assert(entries@ =~= self.entries@);
        let copy = ActivationCache { entries };
        assert(copy@ =~= self@);
        copy
    }
}

/// The activation of an environment that has no cache.
#[derive(Debug, PartialEq, Eq)]
pub struct UnknownEnvironment {
    /// The name of the environment as it is written.
    pub name: String,
}

impl UnknownEnvironment {
    /// The error as it is shown.
    pub fn message(&self) -> (text: String)
        ensures
            text@ == self.name@ + " environment should be already created during project creation"@,
    {
        let mut text: String = self.name.clone();
        text.append(" environment should be already created during project creation");
        text
    }
}

/// Why an activation gives no variables.
pub enum ActivationError<E> {
    /// The environment has no cache.
    Unknown(UnknownEnvironment),
    /// The variables could not be computed.
    Initialize(E),
}

impl ActivationCache {
    /// No environment has two caches, and no two share a cell.
    pub closed spec fn well_formed(&self) -> bool {
        &&& forall|i: int, j: int|
            0 <= i < j < self.entries@.len() ==> (#[trigger] self.entries@[i]).0@ != (
            #[trigger] self.entries@[j]).0@
        &&& distinct_cells(self@)
    }

    /// No two environments of a well-formed cache share a cell.
    pub proof fn lemma_distinct_cells(&self)
        requires
            self.well_formed(),
        ensures
            distinct_cells(self@),
    {
    }

    /// Three empty cells for every one of `environments`.
    pub fn init_env_vars(
        environments: &Vec<ManifestEnvironment>,
        store: &mut VariableStore,
    ) -> (cache: Self)
        requires
            forall|i: int, j: int|
                0 <= i < j < environments@.len() ==> (#[trigger] environments@[i]).name@ != (
                #[trigger] environments@[j]).name@,
        ensures
            cache.well_formed(),
            forall|name: Option<Seq<char>>| #[trigger]
                cache@.contains_key(name) <==> exists|i: int|
                    0 <= i < environments@.len() && (#[trigger] environments@[i]).name@ == name,
            distinct_cells(cache@),
            cells_from(cache@, old(store)@.len()),
            cells_below(cache@, final(store)@.len()),
            old(store)@.is_prefix_of(final(store)@),
            forall|c: int|
                old(store)@.len() <= c < final(store)@.len() ==> #[trigger] final(store)@[c] is None,
    {
        let ghost base = store@;
        let mut entries: Vec<(EnvironmentName, EnvironmentVars)> = Vec::new();
        let mut k: usize = 0;
        while k < environments.len()
            invariant
                k <= environments@.len(),
                entries@.len() == k,
                store@.len() == base.len() + 3 * k,
                base.is_prefix_of(store@),
                forall|c: int| base.len() <= c < store@.len() ==> #[trigger] store@[c] is None,
                forall|i: int| 0 <= i < k ==> (#[trigger] entries@[i]).0@ == environments@[i].name@,
                forall|i: int, b: CurrentEnvVarBehavior|
                    0 <= i < k ==> #[trigger] entries@[i].1.cell(b) == base.len() + 3 * i + offset(b),
            decreases environments.len() - k,
        {
            let ghost before = store@;
            let vars = EnvironmentVars::new(store);
            assert forall|b: CurrentEnvVarBehavior| #[trigger]
                vars.cell(b) == before.len() + offset(b) by {
                match b {
                    CurrentEnvVarBehavior::Clean => {},
                    CurrentEnvVarBehavior::Exclude => {},
                    CurrentEnvVarBehavior::Include => {},
                }
            }
            entries.push((environments[k].name.clone(), vars));
            k += 1;
        }
        let cache = ActivationCache { entries };
        proof {
            assert forall|i: int, j: int| 0 <= i < j < cache.entries@.len() implies (
            #[trigger] cache.entries@[i]).0@ != (#[trigger] cache.entries@[j]).0@ by {
                assert(environments@[i].name@ != environments@[j].name@);
            }
            assert forall|name: Option<Seq<char>>| #[trigger]
                cache@.contains_key(name) <==> exists|i: int|
                    0 <= i < environments@.len() && (#[trigger] environments@[i]).name@ == name by {
                if cache@.contains_key(name) {
                    let i = choose|i: int| belongs_to(cache.entries@, i, name);
                    assert(environments@[i].name@ == name);
                }
                if exists|i: int|
                    0 <= i < environments@.len() && (#[trigger] environments@[i]).name@ == name {
                    let i = choose|i: int|
                        0 <= i < environments@.len() && (#[trigger] environments@[i]).name@ == name;
                    assert(belongs_to(cache.entries@, i, name));
                }
            }
            assert forall|n: Option<Seq<char>>, b: CurrentEnvVarBehavior|
                cache@.contains_key(n) implies {
                let i = choose|i: int| belongs_to(cache.entries@, i, n);
                #[trigger] cache@[n].cell(b) == base.len() + 3 * i + offset(b) && belongs_to(
                    cache.entries@,
                    i,
                    n,
                )
            } by {
                let i = choose|i: int| belongs_to(cache.entries@, i, n);
                assert(cache.entries@[i].1.cell(b) == base.len() + 3 * i + offset(b));
            }
            assert forall|
                n: Option<Seq<char>>,
                m: Option<Seq<char>>,
                b: CurrentEnvVarBehavior,
                c: CurrentEnvVarBehavior,
            |
                cache@.contains_key(n) && cache@.contains_key(m) && #[trigger] cache@[n].cell(b)
                    == #[trigger] cache@[m].cell(c) implies n == m && b == c by {
                let i = choose|i: int| belongs_to(cache.entries@, i, n);
                let j = choose|j: int| belongs_to(cache.entries@, j, m);
                assert(3 * i + offset(b) == 3 * j + offset(c));
                assert(i == j);
            }
        }
        cache
    }

    fn find(&self, name: &EnvironmentName) -> (vars: Option<EnvironmentVars>)
        requires
            self.well_formed(),
        ensures
            match vars {
                Some(vars) => self@.contains_key(name@) && self@[name@] == vars,
                None => !self@.contains_key(name@),
            },
    {
        let mut i: usize = 0;
        while i < self.entries.len()
            invariant
                self.well_formed(),
                i <= self.entries@.len(),
                forall|j: int| 0 <= j < i ==> !belongs_to(self.entries@, j, name@),
            decreases self.entries.len() - i,
        {
            if self.entries[i].0.same(name) {
                assert(belongs_to(self.entries@, i as int, name@));
                return Some(self.entries[i].1);
            }
            i += 1;
        }
        None
    }

    /// The cache of an environment.
    pub fn lookup(&self, name: &EnvironmentName) -> (vars: Result<
        EnvironmentVars,
        UnknownEnvironment,
    >)
        requires
            self.well_formed(),
        ensures
            match vars {
                Ok(vars) => self@.contains_key(name@) && self@[name@] == vars,
                Err(error) => !self@.contains_key(name@) && error.name@ == name.text(),
            },
    {
        match self.find(name) {
            Some(vars) => Ok(vars),
            None => Err(UnknownEnvironment { name: name.as_str().to_owned() }),
        }
    }
}

/// Where the cell for a behaviour lies among the three of an environment.
spec fn offset(behavior: CurrentEnvVarBehavior) -> int {
    match behavior {
        CurrentEnvVarBehavior::Clean => 0,
        CurrentEnvVarBehavior::Exclude => 1,
        CurrentEnvVarBehavior::Include => 2,
    }
}

/// The first variables that could be computed are kept: later attempts give the same, whatever
/// they would compute. A failure leaves room for another attempt.
pub proof fn law_first_success_is_kept<E, F>(
    before: Option<HashMap<String, String>>,
    first: Result<HashMap<String, String>, E>,
    second: Result<HashMap<String, String>, F>,
)
    ensures
        settled(before, first) is Some ==> settled(settled(before, first), second) == settled(
            before,
            first,
        ),
        settled(before, first) is None ==> settled(settled(before, first), second) == settled(
            before,
            second,
        ),
{
}

/// What a cell holds it holds for good, however often cells are added and filled after that: a
/// later attempt to fill it gives the same.
pub proof fn law_cells_keep_what_they_hold<E>(
    first: Seq<Option<HashMap<String, String>>>,
    second: Seq<Option<HashMap<String, String>>>,
    third: Seq<Option<HashMap<String, String>>>,
    cell: int,
    computed: Result<HashMap<String, String>, E>,
)
    requires
        0 <= cell < first.len(),
        first[cell] is Some,
        evolves(first, second),
        evolves(second, third),
    ensures
        evolves(first, third),
        settled(third[cell], computed) == first[cell],
        evolves(third, third.update(cell, settled(third[cell], computed))),
{
    assert(second[cell] == first[cell]);
    assert forall|c: int| 0 <= c < first.len() && (#[trigger] first[c]) is Some implies third[c]
        == first[c] by {
        assert(second[c] == first[c]);
    }
}

/// What is in a cell stays in it. What is computed fills an empty cell, and a failure to compute it
/// leaves the cell empty.
pub proof fn law_settled<E>(
    held: HashMap<String, String>,
    computed: Result<HashMap<String, String>, E>,
    vars: HashMap<String, String>,
    error: E,
)
    ensures
        settled(Some(held), computed) == Some(held),
        settled(None, Ok::<HashMap<String, String>, E>(vars)) == Some(vars),
        settled(None, Err::<HashMap<String, String>, E>(error)) is None,
{
}

/// Cells that evolve are never taken away, and none is emptied or filled anew.
pub proof fn law_cells_evolve(
    before: Seq<Option<HashMap<String, String>>>,
    after: Seq<Option<HashMap<String, String>>>,
    c: int,
)
    requires
        evolves(before, after),
        0 <= c < before.len(),
    ensures
        c < after.len(),
        before[c] matches Some(vars) ==> after[c] == Some(vars),
{
}

/// The caches of a project that is created later share no cell with those of one that was there.
pub proof fn law_projects_do_not_share_cells(
    caches: Map<Option<Seq<char>>, EnvironmentVars>,
    later: Map<Option<Seq<char>>, EnvironmentVars>,
    len: nat,
    name: Option<Seq<char>>,
    behavior: CurrentEnvVarBehavior,
    other_name: Option<Seq<char>>,
    other_behavior: CurrentEnvVarBehavior,
)
    requires
        cells_below(caches, len),
        cells_from(later, len),
        caches.contains_key(name),
        later.contains_key(other_name),
    ensures
        caches[name].cell(behavior) < len <= later[other_name].cell(other_behavior),
{
}

/// Within a project no two environments share a cell, nor do two behaviours of one environment.
pub proof fn law_environments_do_not_share_cells(
    caches: Map<Option<Seq<char>>, EnvironmentVars>,
    name: Option<Seq<char>>,
    behavior: CurrentEnvVarBehavior,
    other_name: Option<Seq<char>>,
    other_behavior: CurrentEnvVarBehavior,
)
    requires
        distinct_cells(caches),
        caches.contains_key(name),
        caches.contains_key(other_name),
        name != other_name || behavior != other_behavior,
    ensures
        caches[name].cell(behavior) != caches[other_name].cell(other_behavior),
{
}

/// What is cached for an environment is what its own cell holds for the behaviour. Nothing is cached
/// for an environment that is not there.
pub proof fn law_cached(
    caches: Map<Option<Seq<char>>, EnvironmentVars>,
    cells: Seq<Option<HashMap<String, String>>>,
    name: Option<Seq<char>>,
    behavior: CurrentEnvVarBehavior,
)
    ensures
        caches.contains_key(name) ==> cached(caches, cells, name, behavior)
            == cells[caches[name].cell(behavior) as int],
        !caches.contains_key(name) ==> cached(caches, cells, name, behavior) is None,
{
}

/// The cache of an environment is its own, and its absence is reported with the name.
pub proof fn law_lookup(
    cache: ActivationCache,
    name: EnvironmentName,
    vars: Result<EnvironmentVars, UnknownEnvironment>,
)
    requires
        call_ensures(ActivationCache::lookup, (&cache, &name), vars),
    ensures
        vars is Ok <==> cache@.contains_key(name@),
        vars matches Ok(vars) ==> cache@[name@] == vars,
        vars matches Err(error) ==> error.name@ == name.text(),
{
}

/// Each behaviour has a cell, and that is the one which is handed out for it.
pub proof fn law_cell_for(
    vars: EnvironmentVars,
    behavior: CurrentEnvVarBehavior,
    cell: usize,
    clean: usize,
    pixi_only: usize,
    full: usize,
)
    requires
        call_ensures(EnvironmentVars::cell_for, (&vars, behavior), cell),
        call_ensures(EnvironmentVars::clean, (&vars,), clean),
        call_ensures(EnvironmentVars::pixi_only, (&vars,), pixi_only),
        call_ensures(EnvironmentVars::full, (&vars,), full),
    ensures
        cell == vars.cell(behavior),
        behavior is Clean ==> cell == clean,
        behavior is Exclude ==> cell == pixi_only,
        behavior is Include ==> cell == full,
{
}

} // verus!
