//! The project: a manifest, the configuration, and what follows from them.

use vstd::prelude::*;
use std::collections::HashMap;
use std::sync::Arc;
use crate::channel::ChannelConfig;
use crate::config::Config;
use crate::consts::{
    ACTIVATION_ENV_CACHE_DIR, ENVIRONMENTS_DIR, PIXI_DIR, PROJECT_LOCK_FILE,
    SOLVE_GROUP_ENVIRONMENTS_DIR, TASK_CACHE_DIR,
};
use crate::detached::{detached_directory_name, directory_name, hash_of_root, root_hash};
use crate::environment_vars::{
    cached, cells_below, cells_from, distinct_cells, evolves, settled, ActivationCache,
    ActivationError, CurrentEnvVarBehavior, EnvironmentVars, UnknownEnvironment, VariableStore,
};
use crate::manifest::{
    law_preview_features, EnvironmentName, KnownPreviewFeature, Manifest, Preview,
};
use crate::mapping::{
    build_pypi_name_mapping_source, is_mapping_source, MappingError, MappingSource,
};
use crate::path::{parent, ProjectPath};
use crate::text::text_eq;
use crate::update::{UpdateAction, UpdateFlow, UpdateRequest};

verus! {

/// An environment of a project, by its place in the manifest.
pub struct Environment<'p> {
    pub project: &'p Project,
    pub environment: usize,
}

/// A solve group of a project, by its place in the manifest.
pub struct SolveGroup<'p> {
    pub project: &'p Project,
    pub solve_group: usize,
}

/// The pixi project, the main struct to interact with the project. It holds the manifest and has
/// functions to request information from it.
pub struct Project {
    root: String,
    manifest: Arc<Manifest>,
    env_vars: ActivationCache,
    mapping_source: Option<Arc<MappingSource>>,
    config: Arc<Config>,
}

impl Clone for Project {
    /// A copy of the project. The copy and the project cache activated variables in the same
    /// cells.
    fn clone(&self) -> (copy: Self)
        ensures
            self.well_formed() ==> copy.well_formed(),
            copy.root_of() == self.root_of(),
            copy.manifest_of() == self.manifest_of(),
            copy.config_of() == self.config_of(),
            copy.env_vars_of() == self.env_vars_of(),
            copy.mapping_of() == self.mapping_of(),
    {
        Project {
            root: self.root.clone(),
            manifest: self.manifest.clone(),
            env_vars: self.env_vars.clone(),
            mapping_source: match &self.mapping_source {
                Some(source) => Some(source.clone()),
                None => None,
            },
            config: self.config.clone(),
        }
    }
}

/// The error where an environment is asked for that does not exist.
#[derive(Debug, PartialEq, Eq)]
pub struct NoSuchEnvironment {
    /// The name of the environment as it is written.
    pub name: String,
}

impl NoSuchEnvironment {
    /// The error as it is shown.
    pub fn message(&self) -> (text: String)
        ensures
            text@ == "unknown environment '"@ + self.name@ + "'"@,
    {
        let mut text: String = "unknown environment '".to_owned();
        text.append(self.name.as_str());
        text.append("'");
        text
    }
}

impl Project {
    /// The root directory of the project.
    pub closed spec fn root_of(&self) -> Seq<char> {
        self.root@
    }

    /// The manifest of the project.
    pub closed spec fn manifest_of(&self) -> Manifest {
        *self.manifest
    }

    /// The configuration.
    pub closed spec fn config_of(&self) -> Config {
        *self.config
    }

    /// The cells for the variables of activated environments.
    pub closed spec fn env_vars_of(&self) -> Map<Option<Seq<char>>, EnvironmentVars> {
        self.env_vars@
    }

    /// Where names are mapped from, once that is known.
    pub closed spec fn mapping_of(&self) -> Option<MappingSource> {
        match self.mapping_source {
            Some(source) => Some(*source),
            None => None,
        }
    }

    /// The manifest is well formed, its directory is the root of the project, and no two
    /// environments share a cell.
    pub closed spec fn well_formed(&self) -> bool {
        &&& self.manifest.well_formed()
        &&& self.manifest.path.directory@ == self.root@
        &&& self.env_vars.well_formed()
    }

    /// Whether the cells of the project are in the store.
    pub open spec fn lives_in(&self, store: VariableStore) -> bool {
        cells_below(self.env_vars_of(), store@.len())
    }

    /// What is cached of the activated variables of an environment, where anything is.
    pub open spec fn activated(
        &self,
        store: VariableStore,
        name: Option<Seq<char>>,
        behavior: CurrentEnvVarBehavior,
    ) -> Option<HashMap<String, String>> {
        cached(self.env_vars_of(), store@, name, behavior)
    }

    /// The path of the manifest file.
    pub open spec fn manifest_path_of(&self) -> (Seq<char>, Seq<Seq<char>>) {
        (self.manifest_of().path.directory@, seq![self.manifest_of().path.file_name@])
    }

    /// What channels of the project are resolved against: the global configuration, but relative
    /// to the project.
    pub open spec fn channels_of(&self, config: ChannelConfig) -> bool {
        &&& config.channel_alias == self.config_of().global_channel_config.channel_alias
        &&& config.root_dir@ == self.root_of()
    }

    /// The path below the root with these names.
    pub open spec fn below_root(&self, names: Seq<Seq<char>>) -> (Seq<char>, Seq<Seq<char>>) {
        (self.root_of(), names)
    }

    /// The directory of the project among detached environments, where these have one.
    pub open spec fn detached_of(&self) -> Option<(Seq<char>, Seq<Seq<char>>)> {
        match self.config_of().detached_environments.path {
            Some(path) => Some(
                (
                    path@,
                    seq![
                        directory_name(
                            self.manifest_of().workspace.name@,
                            root_hash(self.root_of()),
                        ),
                    ],
                ),
            ),
            None => None,
        }
    }

    /// The directory of the environments.
    pub open spec fn environments_dir_of(&self) -> (Seq<char>, Seq<Seq<char>>) {
        match self.detached_of() {
            Some(detached) if !self.config_of().detached_environments.is_false => (
                detached.0,
                detached.1.push(ENVIRONMENTS_DIR@),
            ),
            _ => self.below_root(seq![PIXI_DIR@, ENVIRONMENTS_DIR@]),
        }
    }

    /// The directory of the solve groups.
    pub open spec fn solve_group_dir_of(&self) -> (Seq<char>, Seq<Seq<char>>) {
        match self.detached_of() {
            Some(detached) => (detached.0, detached.1.push(SOLVE_GROUP_ENVIRONMENTS_DIR@)),
            None => self.below_root(seq![PIXI_DIR@, SOLVE_GROUP_ENVIRONMENTS_DIR@]),
        }
    }

    /// Constructs a new instance from a manifest and the configuration for the directory that it
    /// lies in. Every environment gets empty cells of its own.
    pub fn from_manifest(manifest: Manifest, config: Config, store: &mut VariableStore) -> (project:
        Self)
        requires
            manifest.well_formed(),
        ensures
            project.well_formed(),
            project.manifest_of() == manifest,
            project.root_of() == manifest.path.directory@,
            project.config_of() == config,
            project.mapping_of() is None,
            forall|name: Option<Seq<char>>| #[trigger]
                project.env_vars_of().contains_key(name) <==> exists|i: int|
                    manifest.is_named(i, name),
            distinct_cells(project.env_vars_of()),
            cells_from(project.env_vars_of(), old(store)@.len()),
            project.lives_in(*final(store)),
            forall|name: Option<Seq<char>>, behavior: CurrentEnvVarBehavior| #[trigger]
                project.activated(*final(store), name, behavior) is None,
            old(store)@.is_prefix_of(final(store)@),
            evolves(old(store)@, final(store)@),
    {
        let env_vars = ActivationCache::init_env_vars(&manifest.environments, store);
        proof {
            assert forall|name: Option<Seq<char>>| #[trigger]
                env_vars@.contains_key(name) <==> exists|i: int| manifest.is_named(i, name) by {
                if env_vars@.contains_key(name) {
                    let i = choose|i: int|
                        0 <= i < manifest.environments@.len() && (
                        #[trigger] manifest.environments@[i]).name@ == name;
                    assert(manifest.is_named(i, name));
                }
                if exists|i: int| manifest.is_named(i, name) {
                    let i = choose|i: int| manifest.is_named(i, name);
                    assert(manifest.environments@[i].name@ == name);
                }
            }
            assert forall|name: Option<Seq<char>>, behavior: CurrentEnvVarBehavior| #[trigger]
                cached(env_vars@, store@, name, behavior) is None by {
                if env_vars@.contains_key(name) {
                    let cell = env_vars@[name].cell(behavior);
                    assert(store@[cell as int] is None);
                }
            }
        }
        Project {
            root: manifest.path.directory.clone(),
            manifest: Arc::new(manifest),
            env_vars,
            mapping_source: None,
            config: Arc::new(config),
        }
    }

    /// The project with another configuration.
    pub fn with_cli_config(self, config: Config) -> (project: Self)
        requires
            self.well_formed(),
        ensures
            project.well_formed(),
            project.config_of() == config,
            project.manifest_of() == self.manifest_of(),
            project.root_of() == self.root_of(),
            project.env_vars_of() == self.env_vars_of(),
            project.mapping_of() == self.mapping_of(),
    {
        Project {
            root: self.root,
            manifest: self.manifest,
            env_vars: self.env_vars,
            mapping_source: self.mapping_source,
            config: Arc::new(config),
        }
    }

    /// Takes over the manifest as it is after an edit, which leaves it in its place. What is
    /// cached stays.
    pub fn set_manifest(&mut self, manifest: Manifest)
        requires
            old(self).well_formed(),
            manifest.well_formed(),
            manifest.path.directory@ == old(self).root_of(),
        ensures
            final(self).well_formed(),
            final(self).manifest_of() == manifest,
            final(self).root_of() == old(self).root_of(),
            final(self).config_of() == old(self).config_of(),
            final(self).env_vars_of() == old(self).env_vars_of(),
            final(self).mapping_of() == old(self).mapping_of(),
    {
        self.manifest = Arc::new(manifest);
    }

    /// Returns the name of the project.
    pub fn name(&self) -> (name: &str)
        ensures
            name@ == self.manifest_of().workspace.name@,
    {
        self.manifest.workspace.name.as_str()
    }

    /// Returns the version of the project.
    pub fn version(&self) -> (version: &Option<String>)
        ensures
            *version == self.manifest_of().workspace.version,
    {
        &self.manifest.workspace.version
    }

    /// Returns the description of the project.
    pub fn description(&self) -> (description: &Option<String>)
        ensures
            *description == self.manifest_of().workspace.description,
    {
        &self.manifest.workspace.description
    }

    /// Returns the root directory of the project.
    pub fn root(&self) -> (root: &str)
        ensures
            root@ == self.root_of(),
    {
        self.root.as_str()
    }

    /// Returns the pixi directory of the project.
    pub fn pixi_dir(&self) -> (path: ProjectPath)
        ensures
            path@ == self.below_root(seq![PIXI_DIR@]),
    {
        let path = ProjectPath::new(self.root.clone()).join(PIXI_DIR);
        assert(path@.1 =~= seq![PIXI_DIR@]);
        path
    }

    /// The directory of this project among detached environments, if the configuration gives them
    /// a directory.
    pub fn detached_environments_path(&self) -> (path: Option<ProjectPath>)
        ensures
            match path {
                Some(path) => self.detached_of() == Some(path@),
                None => self.detached_of() is None,
            },
    {
        match &self.config.detached_environments.path {
            Some(path) => {
                let directory: String = detached_directory_name(
                    self.name(),
                    hash_of_root(self.root()),
                );
                let path = ProjectPath::new(path.clone()).join(directory.as_str());
                assert(path@.1 =~= seq![directory@]);
                Some(path)
            },
            None => None,
        }
    }

    /// Returns the default environment directory without regard to the configuration.
    pub fn default_environments_dir(&self) -> (path: ProjectPath)
        ensures
            path@ == self.below_root(seq![PIXI_DIR@, ENVIRONMENTS_DIR@]),
    {
        let path = self.pixi_dir().join(ENVIRONMENTS_DIR);
        assert(path@.1 =~= seq![PIXI_DIR@, ENVIRONMENTS_DIR@]);
        path
    }

    /// Whether the environments of the project are detached from it.
    pub fn has_detached_environments(&self) -> (detached: bool)
        ensures
            detached == (!self.config_of().detached_environments.is_false && self.detached_of() is Some),
    {
        !self.config.detached_environments.is_false && self.config.detached_environments.path.is_some()
    }

    /// Returns the environment directory: the default one if detached environments are switched
    /// off or have no directory.
    pub fn environments_dir(&self) -> (path: ProjectPath)
        ensures
            path@ == self.environments_dir_of(),
    {
        if self.config.detached_environments.is_false {
            return self.default_environments_dir();
        }
        match self.detached_environments_path() {
            Some(path) => path.join(ENVIRONMENTS_DIR),
            None => self.default_environments_dir(),
        }
    }

    /// Returns the default solve group environments directory, without regard to the
    /// configuration.
    pub fn default_solve_group_environments_dir(&self) -> (path: ProjectPath)
        ensures
            path@ == self.below_root(seq![PIXI_DIR@, SOLVE_GROUP_ENVIRONMENTS_DIR@]),
    {
        let path = self.pixi_dir().join(SOLVE_GROUP_ENVIRONMENTS_DIR);
        assert(path@.1 =~= seq![PIXI_DIR@, SOLVE_GROUP_ENVIRONMENTS_DIR@]);
        path
    }

    /// Returns the solve group environments directory.
    pub fn solve_group_environments_dir(&self) -> (path: ProjectPath)
        ensures
            path@ == self.solve_group_dir_of(),
    {
        match self.detached_environments_path() {
            Some(path) => path.join(SOLVE_GROUP_ENVIRONMENTS_DIR),
            None => self.default_solve_group_environments_dir(),
        }
    }

    /// Returns the path to the manifest file.
    pub fn manifest_path(&self) -> (path: ProjectPath)
        ensures
            path@ == self.manifest_path_of(),
    {
        let path = ProjectPath::new(self.manifest.path.directory.clone()).join(
            self.manifest.path.file_name.as_str(),
        );
        assert(path@.1 =~= seq![self.manifest.path.file_name@]);
        path
    }

    /// Returns the path to the lock file of the project.
    pub fn lock_file_path(&self) -> (path: ProjectPath)
        ensures
            path@ == self.below_root(seq![PROJECT_LOCK_FILE@]),
    {
        let path = ProjectPath::new(self.root.clone()).join(PROJECT_LOCK_FILE);
        assert(path@.1 =~= seq![PROJECT_LOCK_FILE@]);
        path
    }

    /// Returns the directory that caches the outcome of tasks.
    pub fn task_cache_folder(&self) -> (path: ProjectPath)
        ensures
            path@ == self.below_root(seq![PIXI_DIR@, TASK_CACHE_DIR@]),
    {
        let path = self.pixi_dir().join(TASK_CACHE_DIR);
        assert(path@.1 =~= seq![PIXI_DIR@, TASK_CACHE_DIR@]);
        path
    }

    /// Returns the directory that caches activated environment variables.
    pub fn activation_env_cache_folder(&self) -> (path: ProjectPath)
        ensures
            path@ == self.below_root(seq![PIXI_DIR@, ACTIVATION_ENV_CACHE_DIR@]),
    {
        let path = self.pixi_dir().join(ACTIVATION_ENV_CACHE_DIR);
        assert(path@.1 =~= seq![PIXI_DIR@, ACTIVATION_ENV_CACHE_DIR@]);
        path
    }

    /// Returns the default environment of the project.
    pub fn default_environment(&self) -> (environment: Environment<'_>)
        requires
            self.well_formed(),
        ensures
            environment.project == self,
            self.manifest_of().is_named(environment.environment as int, None),
    {
        let environment: usize = self.manifest.environment(&EnvironmentName::Default).unwrap();
        Environment { project: self, environment }
    }

    /// Returns the environment with the given name or `None` if no such environment exists.
    pub fn environment(&self, name: &EnvironmentName) -> (environment: Option<Environment<'_>>)
        ensures
            match environment {
                Some(environment) => {
                    &&& environment.project == self
                    &&& self.manifest_of().is_named(environment.environment as int, name@)
                    &&& forall|i: int|
                        0 <= i < environment.environment ==> !self.manifest_of().is_named(i, name@)
                },
                None => forall|i: int| !self.manifest_of().is_named(i, name@),
            },
    {
        match self.manifest.environment(name) {
            Some(environment) => Some(Environment { project: self, environment }),
            None => None,
        }
    }

    /// Returns the environments in this project.
    pub fn environments(&self) -> (environments: Vec<Environment<'_>>)
        ensures
            environments@.len() == self.manifest_of().environments@.len(),
            forall|i: int|
                0 <= i < environments@.len() ==> (#[trigger] environments@[i]).project == self
                    && environments@[i].environment == i,
    {
        let mut environments: Vec<Environment<'_>> = Vec::new();
        let mut i: usize = 0;
        while i < self.manifest.environments.len()
            invariant
                i <= self.manifest.environments@.len(),
                environments@.len() == i,
                forall|k: int|
                    0 <= k < i ==> (#[trigger] environments@[k]).project == self
                        && environments@[k].environment == k,
            decreases self.manifest.environments.len() - i,
        {
            environments.push(Environment { project: self, environment: i });
            i += 1;
        }
        environments
    }

    /// Returns the environment in this project with the given name, which came from an argument or
    /// an environment variable.
    pub fn environment_from_name_or_env_var(&self, name: &EnvironmentName) -> (environment: Result<
        Environment<'_>,
        NoSuchEnvironment,
    >)
        ensures
            match environment {
                Ok(environment) => {
                    &&& environment.project == self
                    &&& self.manifest_of().is_named(environment.environment as int, name@)
                    &&& forall|i: int|
                        0 <= i < environment.environment ==> !self.manifest_of().is_named(i, name@)
                },
                Err(error) => {
                    &&& forall|i: int| !self.manifest_of().is_named(i, name@)
                    &&& error.name@ == name.text()
                },
            },
    {
        match self.environment(name) {
            Some(environment) => Ok(environment),
            None => Err(NoSuchEnvironment { name: name.as_str().to_owned() }),
        }
    }

    /// What is cached of the activated variables of an environment. Nothing means that they have
    /// yet to be computed.
    pub fn cached_environment_variables<'s>(
        &self,
        store: &'s VariableStore,
        environment: &EnvironmentName,
        behavior: CurrentEnvVarBehavior,
    ) -> (vars: Result<&'s Option<HashMap<String, String>>, UnknownEnvironment>)
        requires
            self.well_formed(),
            self.lives_in(*store),
        ensures
            match vars {
                Ok(vars) => {
                    &&& self.env_vars_of().contains_key(environment@)
                    &&& self.activated(*store, environment@, behavior) == *vars
                },
                Err(error) => {
                    &&& !self.env_vars_of().contains_key(environment@)
                    &&& error.name@ == environment.text()
                },
            },
    {
        match self.env_vars.lookup(environment) {
            Ok(vars) => {
                let cell: usize = vars.cell_for(behavior);
                assert(self.env_vars_of()[environment@].cell(behavior) == cell);
                Ok(store.get(cell))
            },
            Err(error) => Err(error),
        }
    }

    /// Get or initialize the activated environment variables. `computed` is what activating the
    /// environment gave; it counts where nothing is cached, so it need not be computed where
    /// something is.
    pub fn get_activated_environment_variables<'s, E>(
        &self,
        store: &'s mut VariableStore,
        environment: &EnvironmentName,
        behavior: CurrentEnvVarBehavior,
        computed: Result<HashMap<String, String>, E>,
    ) -> (vars: Result<&'s HashMap<String, String>, ActivationError<E>>)
        requires
            self.well_formed(),
            self.lives_in(*old(store)),
        ensures
            self.lives_in(*final(store)),
            evolves(old(store)@, final(store)@),
            final(store)@ == if self.env_vars_of().contains_key(environment@) {
                old(store)@.update(
                    self.env_vars_of()[environment@].cell(behavior) as int,
                    settled(self.activated(*old(store), environment@, behavior), computed),
                )
            } else {
                old(store)@
            },
            match vars {
                Ok(vars) => {
                    &&& self.env_vars_of().contains_key(environment@)
                    &&& settled(self.activated(*old(store), environment@, behavior), computed)
                        == Some(*vars)
                },
                Err(ActivationError::Unknown(error)) => {
                    &&& !self.env_vars_of().contains_key(environment@)
                    &&& error.name@ == environment.text()
                },
                Err(ActivationError::Initialize(error)) => {
                    &&& self.env_vars_of().contains_key(environment@)
                    &&& self.activated(*old(store), environment@, behavior) is None
                    &&& computed == Err::<HashMap<String, String>, E>(error)
                },
            },
    {
        match self.env_vars.lookup(environment) {
            Ok(vars) => {
                let cell: usize = vars.cell_for(behavior);
                assert(self.env_vars_of()[environment@].cell(behavior) == cell);
                match store.get_or_try_init(cell, computed) {
                    Ok(vars) => Ok(vars),
                    Err(error) => Err(ActivationError::Initialize(error)),
                }
            },
            Err(error) => Err(ActivationError::Unknown(error)),
        }
    }

    /// Returns all the solve groups in the project.
    pub fn solve_groups(&self) -> (groups: Vec<SolveGroup<'_>>)
        ensures
            groups@.len() == self.manifest_of().solve_groups@.len(),
            forall|g: int|
                0 <= g < groups@.len() ==> (#[trigger] groups@[g]).project == self
                    && groups@[g].solve_group == g,
    {
        let mut groups: Vec<SolveGroup<'_>> = Vec::new();
        let mut g: usize = 0;
        while g < self.manifest.solve_groups.len()
            invariant
                g <= self.manifest.solve_groups@.len(),
                groups@.len() == g,
                forall|k: int|
                    0 <= k < g ==> (#[trigger] groups@[k]).project == self
                        && groups@[k].solve_group == k,
            decreases self.manifest.solve_groups.len() - g,
        {
            groups.push(SolveGroup { project: self, solve_group: g });
            g += 1;
        }
        groups
    }

    /// Returns the solve group with the given name or `None` if no such group exists.
    pub fn solve_group(&self, name: &str) -> (group: Option<SolveGroup<'_>>)
        ensures
            match group {
                Some(group) => {
                    &&& group.project == self
                    &&& group.solve_group < self.manifest_of().solve_groups@.len()
                    &&& self.manifest_of().solve_groups@[group.solve_group as int].name@ == name@
                    &&& forall|k: int|
                        0 <= k < group.solve_group ==> (
                        #[trigger] self.manifest_of().solve_groups@[k]).name@ != name@
                },
                None => forall|k: int|
                    0 <= k < self.manifest_of().solve_groups@.len() ==> (
                    #[trigger] self.manifest_of().solve_groups@[k]).name@ != name@,
            },
    {
        let mut g: usize = 0;
        while g < self.manifest.solve_groups.len()
            invariant
                g <= self.manifest.solve_groups@.len(),
                forall|k: int|
                    0 <= k < g ==> (#[trigger] self.manifest.solve_groups@[k]).name@ != name@,
            decreases self.manifest.solve_groups.len() - g,
        {
            if text_eq(self.manifest.solve_groups[g].name.as_str(), name) {
                return Some(SolveGroup { project: self, solve_group: g });
            }
            g += 1;
        }
        None
    }

    /// Returns the configuration.
    pub fn config(&self) -> (config: &Config)
        ensures
            *config == self.config_of(),
    {
        &self.config
    }

    /// Construct a [`ChannelConfig`] that is specific to this project. This ensures that the root
    /// directory is set correctly.
    pub fn channel_config(&self) -> (config: ChannelConfig)
        ensures
            self.channels_of(config),
    {
        ChannelConfig {
            root_dir: self.root.clone(),
            channel_alias: self.config.global_channel_config.channel_alias.clone(),
        }
    }

    /// Returns what pypi mapping configuration we should use. It can be a custom one, or the one
    /// that prefix.dev hosts, or none. Once it is known it stays; an error does not.
    pub fn pypi_name_mapping_source(&mut self) -> (source: Result<&MappingSource, MappingError>)
        requires
            old(self).well_formed(),
        ensures
            final(self).well_formed(),
            final(self).manifest_of() == old(self).manifest_of(),
            final(self).root_of() == old(self).root_of(),
            final(self).config_of() == old(self).config_of(),
            final(self).env_vars_of() == old(self).env_vars_of(),
            match source {
                Ok(source) => final(self).mapping_of() == Some(*source),
                Err(_) => final(self).mapping_of() is None && old(self).mapping_of() is None,
            },
            match old(self).mapping_of() {
                Some(cached) => source == Ok::<&MappingSource, MappingError>(&cached),
                None => exists|config: ChannelConfig| #[trigger]
                    old(self).channels_of(config) && is_mapping_source(
                        old(self).manifest_of(),
                        config,
                        match source {
                            Ok(source) => Ok(*source),
                            Err(error) => Err(error),
                        },
                    ),
            },
    {
        if self.mapping_source.is_none() {
            let config: ChannelConfig = self.channel_config();
            match build_pypi_name_mapping_source(&self.manifest, &config) {
                Ok(source) => {
                    self.mapping_source = Some(Arc::new(source));
                },
                Err(error) => {
                    return Err(error);
                },
            }
        }
        Ok(self.mapping_source.as_ref().unwrap())
    }

    /// Returns the manifest of the project.
    pub fn manifest(&self) -> (manifest: &Manifest)
        ensures
            *manifest == self.manifest_of(),
    {
        &self.manifest
    }

    /// Starts to update the manifest with the given package specs, and to upgrade the packages if
    /// possible.
    ///
    /// 1. Modify the manifest with the given package specs
    /// 2. Update the lock file
    /// 3. Given packages without version restrictions will get one, made from what was locked
    pub fn update_dependencies(&self, request: UpdateRequest) -> (started: (
        UpdateFlow,
        UpdateAction,
    ))
        ensures
            started.0.well_formed(),
            started.0.request_of() == request,
            started.0.pinning_of() == self.config_of().pinning_strategy,
            (started.0@, started.1@) == request.start(),
    {
        UpdateFlow::new(request, self.config.pinning_strategy)
    }

    /// Returns true if all preview features are enabled.
    pub fn all_preview_features_enabled(&self) -> (enabled: bool)
        ensures
            enabled == self.manifest_of().workspace.preview.all_enabled,
    {
        self.manifest.workspace.preview.all_enabled
    }

    /// Returns true if the given preview feature is enabled.
    pub fn is_preview_feature_enabled(&self, feature: KnownPreviewFeature) -> (enabled: bool)
        ensures
            enabled == self.manifest_of().workspace.preview.enables(feature),
    {
        self.manifest.workspace.preview.is_enabled(feature)
    }
}

/// What a well-formed project promises: its manifest is well formed and lies in the root of the
/// project, and no two of its environments share a cell.
pub proof fn law_project_is_consistent(project: Project)
    requires
        project.well_formed(),
    ensures
        project.manifest_of().well_formed(),
        parent(project.manifest_path_of()) == project.below_root(Seq::empty()),
        distinct_cells(project.env_vars_of()),
{
    project.env_vars.lemma_distinct_cells();
    assert(parent(project.manifest_path_of()).1 =~= Seq::<Seq<char>>::empty());
}

/// An activation changes nothing of what a project has cached but for its own environment and
/// behaviour.
pub proof fn law_other_activations_are_left_alone(
    project: Project,
    store: VariableStore,
    after: VariableStore,
    name: Option<Seq<char>>,
    behavior: CurrentEnvVarBehavior,
    vars: Option<HashMap<String, String>>,
    other_name: Option<Seq<char>>,
    other_behavior: CurrentEnvVarBehavior,
)
    requires
        project.well_formed(),
        project.lives_in(store),
        project.env_vars_of().contains_key(name),
        after@ == store@.update(project.env_vars_of()[name].cell(behavior) as int, vars),
        other_name != name || other_behavior != behavior,
    ensures
        project.activated(after, other_name, other_behavior) == project.activated(
            store,
            other_name,
            other_behavior,
        ),
{
    law_project_is_consistent(project);
    if project.env_vars_of().contains_key(other_name) {
        assert(project.env_vars_of()[other_name].cell(other_behavior)
            != project.env_vars_of()[name].cell(behavior));
        assert(project.env_vars_of()[other_name].cell(other_behavior) < store@.len());
    }
}

/// A project and its copies share what they cache: what one of them has activated, every one of
/// them gets from then on, whatever else is activated in between and whatever it would compute.
pub proof fn law_copies_share_activations<E>(
    project: Project,
    copy: Project,
    store: VariableStore,
    later: VariableStore,
    name: Option<Seq<char>>,
    behavior: CurrentEnvVarBehavior,
    vars: HashMap<String, String>,
    computed: Result<HashMap<String, String>, E>,
)
    requires
        copy.env_vars_of() == project.env_vars_of(),
        project.lives_in(store),
        project.activated(store, name, behavior) == Some(vars),
        evolves(store@, later@),
    ensures
        copy.activated(later, name, behavior) == Some(vars),
        settled(copy.activated(later, name, behavior), computed) == Some(vars),
{
    let cell = project.env_vars_of()[name].cell(behavior);
    assert(cell < store@.len());
    assert(store@[cell as int] is Some);
}

/// Where all preview features are switched on, each of them is.
pub proof fn law_all_preview_features_are_each_enabled(
    preview: Preview,
    feature: KnownPreviewFeature,
)
    requires
        preview.all_enabled,
    ensures
        preview.enables(feature),
{
}

/// Where the files of a project are. Its environments are in its own directory, unless these are
/// detached: then they are in a directory that is called by the name of the project and the hash of
/// its root. Its solve groups go by the directory for detached environments alone.
pub proof fn law_project_directories(project: Project)
    ensures
        PIXI_DIR@ == ".pixi"@ && ENVIRONMENTS_DIR@ == "envs"@ && SOLVE_GROUP_ENVIRONMENTS_DIR@
            == "solve-group-envs"@ && PROJECT_LOCK_FILE@ == "pixi.lock"@ && TASK_CACHE_DIR@
            == "task-cache-v0"@ && ACTIVATION_ENV_CACHE_DIR@ == "activation-env-v0"@,
        forall|names: Seq<Seq<char>>| #[trigger]
            project.below_root(names) == (project.root_of(), names),
        ({
            let config = project.config_of().detached_environments;
            let own = directory_name(
                project.manifest_of().workspace.name@,
                root_hash(project.root_of()),
            );
            &&& project.environments_dir_of() == match config.path {
                Some(path) if !config.is_false => (path@, seq![own, "envs"@]),
                _ => (project.root_of(), seq![".pixi"@, "envs"@]),
            }
            &&& project.solve_group_dir_of() == match config.path {
                Some(path) => (path@, seq![own, "solve-group-envs"@]),
                None => (project.root_of(), seq![".pixi"@, "solve-group-envs"@]),
            }
            &&& project.detached_of() == match config.path {
                Some(path) => Some((path@, seq![own])),
                None => None,
            }
        }),
        project.manifest_path_of() == (
            project.manifest_of().path.directory@,
            seq![project.manifest_of().path.file_name@],
        ),
{
    let own = directory_name(project.manifest_of().workspace.name@, root_hash(project.root_of()));
    assert(seq![own].push("envs"@) =~= seq![own, "envs"@]);
    assert(seq![own].push("solve-group-envs"@) =~= seq![own, "solve-group-envs"@]);
}

/// Channels of a project are resolved against the alias of the configuration and the root of the
/// project, whatever directory the configuration was read for.
pub proof fn law_project_channels(project: Project, config: ChannelConfig)
    requires
        project.channels_of(config),
    ensures
        config.channel_alias@ == project.config_of().global_channel_config.channel_alias@,
        config.root_dir@ == project.root_of(),
{
}

/// What a project has cached of an environment is what the cell of that environment holds for the
/// behaviour, in the store that the project lives in.
pub proof fn law_activated(
    project: Project,
    store: VariableStore,
    name: Option<Seq<char>>,
    behavior: CurrentEnvVarBehavior,
)
    requires
        project.lives_in(store),
    ensures
        project.env_vars_of().contains_key(name) ==> {
            let cell = project.env_vars_of()[name].cell(behavior);
            &&& cell < store@.len()
            &&& project.activated(store, name, behavior) == store@[cell as int]
        },
        !project.env_vars_of().contains_key(name) ==> project.activated(
            store,
            name,
            behavior,
        ) is None,
{
}

/// The paths that a project hands out: its own directory, the lock file, the caches, and the
/// directories of its environments and solve groups.
pub proof fn law_project_paths(
    project: Project,
    pixi_dir: ProjectPath,
    lock_file: ProjectPath,
    task_cache: ProjectPath,
    activation_cache: ProjectPath,
    default_environments: ProjectPath,
    default_solve_groups: ProjectPath,
    manifest: ProjectPath,
)
    requires
        call_ensures(Project::pixi_dir, (&project,), pixi_dir),
        call_ensures(Project::lock_file_path, (&project,), lock_file),
        call_ensures(Project::task_cache_folder, (&project,), task_cache),
        call_ensures(Project::activation_env_cache_folder, (&project,), activation_cache),
        call_ensures(Project::default_environments_dir, (&project,), default_environments),
        call_ensures(
            Project::default_solve_group_environments_dir,
            (&project,),
            default_solve_groups,
        ),
        call_ensures(Project::manifest_path, (&project,), manifest),
    ensures
        pixi_dir@ == (project.root_of(), seq![".pixi"@]),
        lock_file@ == (project.root_of(), seq!["pixi.lock"@]),
        task_cache@ == (project.root_of(), seq![".pixi"@, "task-cache-v0"@]),
        activation_cache@ == (project.root_of(), seq![".pixi"@, "activation-env-v0"@]),
        default_environments@ == (project.root_of(), seq![".pixi"@, "envs"@]),
        default_solve_groups@ == (project.root_of(), seq![".pixi"@, "solve-group-envs"@]),
        manifest@ == (
            project.manifest_of().path.directory@,
            seq![project.manifest_of().path.file_name@],
        ),
{
}

/// Where the environments and the solve groups of a project are, as the configuration has it.
pub proof fn law_configured_directories(
    project: Project,
    detached: Option<ProjectPath>,
    is_detached: bool,
    environments: ProjectPath,
    solve_groups: ProjectPath,
)
    requires
        call_ensures(Project::detached_environments_path, (&project,), detached),
        call_ensures(Project::has_detached_environments, (&project,), is_detached),
        call_ensures(Project::environments_dir, (&project,), environments),
        call_ensures(Project::solve_group_environments_dir, (&project,), solve_groups),
    ensures
        ({
            let config = project.config_of().detached_environments;
            let own = directory_name(
                project.manifest_of().workspace.name@,
                root_hash(project.root_of()),
            );
            &&& detached is Some <==> config.path is Some
            &&& detached matches Some(path) ==> path@ == (config.path->Some_0@, seq![own])
            &&& is_detached <==> config.path is Some && !config.is_false
            &&& is_detached ==> environments@ == (config.path->Some_0@, seq![own, "envs"@])
            &&& !is_detached ==> environments@ == (project.root_of(), seq![".pixi"@, "envs"@])
            &&& config.path is Some ==> solve_groups@ == (
                config.path->Some_0@,
                seq![own, "solve-group-envs"@],
            )
            &&& config.path is None ==> solve_groups@ == (
                project.root_of(),
                seq![".pixi"@, "solve-group-envs"@],
            )
        }),
{
    law_project_directories(project);
}

/// What a project says of itself is what its manifest and its configuration say.
pub proof fn law_project_says_what_it_holds(
    project: Project,
    name: &str,
    version: &Option<String>,
    description: &Option<String>,
    root: &str,
    channels: ChannelConfig,
    all_previews: bool,
    feature: KnownPreviewFeature,
    preview: bool,
)
    requires
        call_ensures(Project::name, (&project,), name),
        call_ensures(Project::version, (&project,), version),
        call_ensures(Project::description, (&project,), description),
        call_ensures(Project::root, (&project,), root),
        call_ensures(Project::channel_config, (&project,), channels),
        call_ensures(Project::all_preview_features_enabled, (&project,), all_previews),
        call_ensures(Project::is_preview_feature_enabled, (&project, feature), preview),
    ensures
        name@ == project.manifest_of().workspace.name@,
        *version == project.manifest_of().workspace.version,
        *description == project.manifest_of().workspace.description,
        root@ == project.root_of(),
        channels.root_dir@ == project.root_of(),
        channels.channel_alias@ == project.config_of().global_channel_config.channel_alias@,
        all_previews <==> project.manifest_of().workspace.preview.all_enabled,
        preview <==> project.manifest_of().workspace.preview.all_enabled || exists|k: int|
            0 <= k < project.manifest_of().workspace.preview.enabled@.len()
                && #[trigger] project.manifest_of().workspace.preview.enabled@[k] == feature,
{
    law_preview_features(project.manifest_of().workspace.preview, feature);
}

/// An environment that is asked for by name is the first of that name, and its absence is reported
/// with the name.
pub proof fn law_environment_by_name(
    project: Project,
    name: EnvironmentName,
    environment: Option<Environment<'_>>,
    asked: Result<Environment<'_>, NoSuchEnvironment>,
)
    requires
        call_ensures(Project::environment, (&project, &name), environment),
        call_ensures(Project::environment_from_name_or_env_var, (&project, &name), asked),
    ensures
        ({
            let environments = project.manifest_of().environments@;
            &&& environment is Some <==> asked is Ok
            &&& environment matches Some(found) ==> {
                &&& found.environment < environments.len()
                &&& environments[found.environment as int].name@ == name@
                &&& asked->Ok_0.environment == found.environment
                &&& forall|j: int|
                    0 <= j < found.environment ==> (#[trigger] environments[j]).name@ != name@
            }
            &&& environment is None ==> forall|j: int|
                0 <= j < environments.len() ==> (#[trigger] environments[j]).name@ != name@
            &&& asked matches Err(error) ==> error.name@ == name.text()
        }),
{
    let manifest = project.manifest_of();
    assert forall|j: int|
        0 <= j < manifest.environments@.len() && !manifest.is_named(j, name@) implies (
    #[trigger] manifest.environments@[j]).name@ != name@ by {
    }
    if let Some(found) = environment {
        assert(manifest.is_named(found.environment as int, name@));
        assert forall|j: int|
            0 <= j < found.environment implies (#[trigger] manifest.environments@[j]).name@
            != name@ by {
            assert(!manifest.is_named(j, name@));
        }
    } else {
        assert forall|j: int|
            0 <= j < manifest.environments@.len() implies (
        #[trigger] manifest.environments@[j]).name@ != name@ by {
            assert(!manifest.is_named(j, name@));
        }
    }
}

/// The default environment is the one of that name. The environments and the solve groups of a
/// project are those of its manifest, each at its place, and a solve group that is asked for by name
/// is the first of that name.
pub proof fn law_environments_of_a_project(
    project: Project,
    default: Environment<'_>,
    environments: Vec<Environment<'_>>,
    solve_groups: Vec<SolveGroup<'_>>,
    name: &str,
    solve_group: Option<SolveGroup<'_>>,
)
    requires
        call_ensures(Project::default_environment, (&project,), default),
        call_ensures(Project::environments, (&project,), environments),
        call_ensures(Project::solve_groups, (&project,), solve_groups),
        call_ensures(Project::solve_group, (&project, name), solve_group),
    ensures
        ({
            let manifest = project.manifest_of();
            &&& default.environment < manifest.environments@.len()
            &&& manifest.environments@[default.environment as int].name is Default
            &&& environments@.len() == manifest.environments@.len()
            &&& forall|i: int|
                0 <= i < environments@.len() ==> (#[trigger] environments@[i]).environment == i
            &&& solve_groups@.len() == manifest.solve_groups@.len()
            &&& forall|g: int|
                0 <= g < solve_groups@.len() ==> (#[trigger] solve_groups@[g]).solve_group == g
            &&& match solve_group {
                Some(group) => {
                    &&& group.solve_group < manifest.solve_groups@.len()
                    &&& manifest.solve_groups@[group.solve_group as int].name@ == name@
                    &&& forall|k: int|
                        0 <= k < group.solve_group ==> (
                        #[trigger] manifest.solve_groups@[k]).name@ != name@
                },
                None => forall|k: int|
                    0 <= k < manifest.solve_groups@.len() ==> (
                    #[trigger] manifest.solve_groups@[k]).name@ != name@,
            }
        }),
{
}

/// Another configuration changes nothing else of a project, and an update goes by the strategy that
/// the project is configured with.
pub proof fn law_configured_project(
    project: Project,
    config: Config,
    configured: Project,
    request: UpdateRequest,
    started: (UpdateFlow, UpdateAction),
)
    requires
        call_ensures(Project::with_cli_config, (project, config), configured),
        call_ensures(Project::update_dependencies, (&configured, request), started),
    ensures
        configured.config_of() == config,
        configured.manifest_of() == project.manifest_of(),
        configured.root_of() == project.root_of(),
        configured.env_vars_of() == project.env_vars_of(),
        configured.mapping_of() == project.mapping_of(),
        started.0.request_of() == request,
        started.0.pinning_of() == config.pinning_strategy,
        (started.0@, started.1@) == request.start(),
{
}

/// What is handed out of the cache is what the cell of the environment holds for the behaviour, and
/// an environment without a cache is reported with its name.
pub proof fn law_cached_variables(
    project: Project,
    store: VariableStore,
    name: EnvironmentName,
    behavior: CurrentEnvVarBehavior,
    vars: Result<&Option<HashMap<String, String>>, UnknownEnvironment>,
)
    requires
        call_ensures(Project::cached_environment_variables, (&project, &store, &name, behavior), vars),
    ensures
        vars is Ok <==> project.env_vars_of().contains_key(name@),
        vars matches Ok(vars) ==> *vars == store@[project.env_vars_of()[name@].cell(
            behavior,
        ) as int],
        vars matches Err(error) ==> error.name@ == name.text(),
{
}

} // verus!
