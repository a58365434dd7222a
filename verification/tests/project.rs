//! Projects: their directories, environments and caches.

use std::collections::HashMap;

use pixi_project::channel::ChannelConfig;
use pixi_project::config::{Config, DetachedEnvironments};
use pixi_project::constraints::PinningStrategy;
use pixi_project::detached::{
    create_symlink, detached_directory_name, detached_notice, hash_of_root,
    ignored_environments_message, warning_message, write_warning_file, CreateError,
    DetachedNotice, LogEntry, LogLevel, PlacementAction, PlacementEvent,
};
use pixi_project::environment_vars::{
    ActivationError, CurrentEnvVarBehavior, EnvironmentVars, VariableStore,
};
use pixi_project::manifest::{
    DependencyType, EnvironmentName, FeatureName, KnownPreviewFeature, Manifest,
    ManifestEnvironment, ManifestPath, ManifestSolveGroup, Preview, SpecType, Workspace,
};
use pixi_project::path::ProjectPath;
use pixi_project::project::Project;

fn manifest(preview: Preview) -> Manifest {
    let environment = |name: EnvironmentName, solve_group: Option<usize>| ManifestEnvironment {
        name,
        features: vec![FeatureName::Default],
        platforms: vec![],
        solve_group,
    };
    Manifest {
        path: ManifestPath {
            directory: "/work/foo".to_string(),
            file_name: "pixi.toml".to_string(),
        },
        workspace: Workspace {
            name: "foo".to_string(),
            version: Some("0.1.0".to_string()),
            description: None,
            channels: vec![],
            conda_pypi_map: None,
            preview,
        },
        features: vec![],
        environments: vec![
            environment(EnvironmentName::Default, None),
            environment(EnvironmentName::Named("test".to_string()), Some(0)),
        ],
        solve_groups: vec![ManifestSolveGroup { name: "group".to_string(), environments: vec![1] }],
    }
}

fn config(is_false: bool, path: Option<&str>) -> Config {
    Config {
        pinning_strategy: Some(PinningStrategy::LatestUp),
        detached_environments: DetachedEnvironments {
            is_false,
            path: path.map(|path| path.to_string()),
        },
        global_channel_config: ChannelConfig {
            channel_alias: "https://conda.anaconda.org/".to_string(),
            root_dir: "/elsewhere".to_string(),
        },
    }
}

fn no_preview() -> Preview {
    Preview { all_enabled: false, enabled: vec![] }
}

fn project_in(is_false: bool, path: Option<&str>, store: &mut VariableStore) -> Project {
    let manifest = manifest(no_preview());
    assert!(manifest.is_well_formed());
    Project::from_manifest(manifest, config(is_false, path), store)
}

fn project(is_false: bool, path: Option<&str>) -> Project {
    project_in(is_false, path, &mut VariableStore::new())
}

fn path(base: &str, names: &[&str]) -> ProjectPath {
    ProjectPath {
        base: base.to_string(),
        names: names.iter().map(|name| name.to_string()).collect(),
    }
}

#[test]
fn a_project_tells_what_its_manifest_says() {
    let foo = project(true, None);
    assert_eq!(foo.name(), "foo");
    assert_eq!(foo.version(), &Some("0.1.0".to_string()));
    assert_eq!(foo.description(), &None);
    assert_eq!(foo.root(), "/work/foo");
    assert_eq!(foo.manifest_path(), path("/work/foo", &["pixi.toml"]));
    assert_eq!(foo.manifest(), &manifest(no_preview()));
    assert_eq!(foo.config(), &config(true, None));
}

#[test]
fn directories_lie_below_the_root() {
    let foo = project(true, None);
    assert_eq!(foo.pixi_dir(), path("/work/foo", &[".pixi"]));
    assert_eq!(foo.default_environments_dir(), path("/work/foo", &[".pixi", "envs"]));
    assert_eq!(foo.environments_dir(), path("/work/foo", &[".pixi", "envs"]));
    assert_eq!(
        foo.default_solve_group_environments_dir(),
        path("/work/foo", &[".pixi", "solve-group-envs"])
    );
    assert_eq!(
        foo.solve_group_environments_dir(),
        path("/work/foo", &[".pixi", "solve-group-envs"])
    );
    assert_eq!(foo.lock_file_path(), path("/work/foo", &["pixi.lock"]));
    assert_eq!(foo.task_cache_folder(), path("/work/foo", &[".pixi", "task-cache-v0"]));
    assert_eq!(
        foo.activation_env_cache_folder(),
        path("/work/foo", &[".pixi", "activation-env-v0"])
    );
    assert_eq!(foo.detached_environments_path(), None);
    assert!(!foo.has_detached_environments());
}

#[test]
fn environments_can_be_detached() {
    let foo = project(false, Some("/detached"));
    let hash = xxhash_rust::xxh3::xxh3_64(b"/work/foo");
    let directory = format!("foo-{hash}");
    assert!(foo.has_detached_environments());
    assert_eq!(foo.detached_environments_path(), Some(path("/detached", &[&directory])));
    assert_eq!(foo.environments_dir(), path("/detached", &[&directory, "envs"]));
    assert_eq!(
        foo.solve_group_environments_dir(),
        path("/detached", &[&directory, "solve-group-envs"])
    );
    assert_eq!(foo.default_environments_dir(), path("/work/foo", &[".pixi", "envs"]));
}

#[test]
fn detached_environments_can_be_switched_off() {
    let foo = project(true, Some("/detached"));
    assert!(!foo.has_detached_environments());
    assert_eq!(foo.environments_dir(), path("/work/foo", &[".pixi", "envs"]));
    // Solve groups go by the directory alone.
    assert_eq!(foo.solve_group_environments_dir().base, "/detached");

    let foo = project(false, None);
    assert!(!foo.has_detached_environments());
    assert_eq!(foo.environments_dir(), path("/work/foo", &[".pixi", "envs"]));
}

#[test]
fn the_root_is_hashed() {
    assert_eq!(hash_of_root(""), 3244421341483603138);
    assert_ne!(hash_of_root("/work/foo"), hash_of_root("/work/bar"));
    assert_eq!(detached_directory_name("foo", 7), "foo-7");
    assert_ne!(detached_directory_name("foo", 7), detached_directory_name("foo", 70));
}

#[test]
fn another_configuration_leaves_the_rest_alone() {
    let foo = project(true, None).with_cli_config(config(false, Some("/detached")));
    assert_eq!(foo.config(), &config(false, Some("/detached")));
    assert_eq!(foo.root(), "/work/foo");
    assert_eq!(foo.default_environments_dir(), path("/work/foo", &[".pixi", "envs"]));
    assert_eq!(foo.environments_dir().base, "/detached");
}

#[test]
fn channels_are_resolved_relative_to_the_project() {
    assert_eq!(
        project(true, None).channel_config(),
        ChannelConfig {
            channel_alias: "https://conda.anaconda.org/".to_string(),
            root_dir: "/work/foo".to_string(),
        }
    );
}

#[test]
fn environments_are_found_by_name() {
    let foo = project(true, None);
    let test = EnvironmentName::Named("test".to_string());
    let other = EnvironmentName::Named("other".to_string());
    assert_eq!(foo.default_environment().environment, 0);
    assert_eq!(foo.environment(&EnvironmentName::Default).unwrap().environment, 0);
    assert_eq!(foo.environment(&test).unwrap().environment, 1);
    assert!(foo.environment(&other).is_none());
    // An environment by the name of the default one is not the default one.
    assert!(foo.environment(&EnvironmentName::Named("default".to_string())).is_none());
    let places: Vec<usize> = foo.environments().iter().map(|env| env.environment).collect();
    assert_eq!(places, vec![0, 1]);

    assert_eq!(foo.environment_from_name_or_env_var(&test).ok().unwrap().environment, 1);
    let error = foo.environment_from_name_or_env_var(&other).err().unwrap();
    assert_eq!(error.message(), "unknown environment 'other'");
}

#[test]
fn solve_groups_are_found_by_name() {
    let foo = project(true, None);
    assert_eq!(foo.solve_group("group").unwrap().solve_group, 0);
    assert!(foo.solve_group("other").is_none());
    assert_eq!(foo.solve_groups().len(), 1);
}

#[test]
fn preview_features_are_told() {
    let with = |all_enabled: bool, enabled: Vec<KnownPreviewFeature>| {
        let preview = Preview { all_enabled, enabled };
        Project::from_manifest(manifest(preview), config(true, None), &mut VariableStore::new())
    };
    let all = with(true, vec![KnownPreviewFeature::PixiBuild]);
    assert!(all.all_preview_features_enabled());
    assert!(all.is_preview_feature_enabled(KnownPreviewFeature::PixiBuild));
    // All of them includes those that are not listed.
    let unlisted = with(true, vec![]);
    assert!(unlisted.all_preview_features_enabled());
    assert!(unlisted.is_preview_feature_enabled(KnownPreviewFeature::PixiBuild));
    let none = with(false, vec![]);
    assert!(!none.all_preview_features_enabled());
    assert!(!none.is_preview_feature_enabled(KnownPreviewFeature::PixiBuild));
    let listed = with(false, vec![KnownPreviewFeature::PixiBuild]);
    assert!(!listed.all_preview_features_enabled());
    assert!(listed.is_preview_feature_enabled(KnownPreviewFeature::PixiBuild));
}

#[test]
fn dependency_types_are_named_like_their_tables() {
    assert_eq!(DependencyType::CondaDependency(SpecType::Run).name(), "dependencies");
    assert_eq!(DependencyType::CondaDependency(SpecType::Host).name(), "host-dependencies");
    assert_eq!(DependencyType::CondaDependency(SpecType::Build).name(), "build-dependencies");
    assert_eq!(DependencyType::PypiDependency.name(), "pypi-dependencies");
}

fn vars(value: &str) -> HashMap<String, String> {
    HashMap::from([("KEY".to_string(), value.to_string())])
}

type Computed = Result<HashMap<String, String>, String>;

#[test]
fn activated_variables_are_computed_once() {
    let mut store = VariableStore::new();
    let foo = project_in(true, None, &mut store);
    let default = EnvironmentName::Default;
    let clean = CurrentEnvVarBehavior::Clean;
    assert_eq!(foo.cached_environment_variables(&store, &default, clean), Ok(&None));

    // A failure is passed on and not kept.
    let failed: Computed = Err("failed".to_string());
    assert!(matches!(
        foo.get_activated_environment_variables(&mut store, &default, clean, failed),
        Err(ActivationError::Initialize(error)) if error == "failed"
    ));
    assert_eq!(foo.cached_environment_variables(&store, &default, clean), Ok(&None));

    // The first success is.
    let computed: Computed = Ok(vars("first"));
    let first = foo.get_activated_environment_variables(&mut store, &default, clean, computed);
    assert_eq!(first.ok().unwrap(), &vars("first"));
    for computed in [Ok(vars("second")), Err("failed".to_string())] {
        let again = foo.get_activated_environment_variables(&mut store, &default, clean, computed);
        assert_eq!(again.ok().unwrap(), &vars("first"));
    }
    assert_eq!(
        foo.cached_environment_variables(&store, &default, clean),
        Ok(&Some(vars("first")))
    );

    // Other behaviours and environments are not affected.
    let test = EnvironmentName::Named("test".to_string());
    assert_eq!(foo.cached_environment_variables(&store, &test, clean), Ok(&None));
    for behavior in [CurrentEnvVarBehavior::Exclude, CurrentEnvVarBehavior::Include] {
        assert_eq!(foo.cached_environment_variables(&store, &default, behavior), Ok(&None));
    }
}

#[test]
fn copies_share_activated_variables() {
    let mut store = VariableStore::new();
    let foo = project_in(true, None, &mut store);
    let copy = foo.clone();
    let other = project_in(true, None, &mut store);
    let default = EnvironmentName::Default;
    let full = CurrentEnvVarBehavior::Include;

    let computed: Computed = Ok(vars("first"));
    assert!(copy.get_activated_environment_variables(&mut store, &default, full, computed).is_ok());
    let computed: Computed = Ok(vars("second"));
    let again = foo.get_activated_environment_variables(&mut store, &default, full, computed);
    assert_eq!(again.ok().unwrap(), &vars("first"));

    // Another project has cells of its own.
    assert_eq!(other.cached_environment_variables(&store, &default, full), Ok(&None));
    assert_eq!(copy.root(), foo.root());
    assert_eq!(copy.manifest(), foo.manifest());
    assert_eq!(copy.config(), foo.config());
}

#[test]
fn a_manifest_can_be_edited() {
    let mut store = VariableStore::new();
    let mut foo = project_in(true, None, &mut store);
    let copy = foo.clone();
    let mut edited = manifest(no_preview());
    edited.workspace.name = "bar".to_string();
    foo.set_manifest(edited);
    assert_eq!(foo.name(), "bar");
    assert_eq!(copy.name(), "foo");
    assert_eq!(foo.manifest_path(), copy.manifest_path());
}

#[test]
fn an_environment_without_a_cache_is_an_error() {
    let mut store = VariableStore::new();
    let foo = project_in(true, None, &mut store);
    let other = EnvironmentName::Named("other".to_string());
    let clean = CurrentEnvVarBehavior::Clean;
    let error = foo.cached_environment_variables(&store, &other, clean).err().unwrap();
    assert_eq!(
        error.message(),
        "other environment should be already created during project creation"
    );
    let computed: Computed = Ok(vars("x"));
    assert!(matches!(
        foo.get_activated_environment_variables(&mut store, &other, clean, computed),
        Err(ActivationError::Unknown(error)) if error.name == "other"
    ));
}

#[test]
fn a_cache_has_a_cell_per_behaviour() {
    let mut store = VariableStore::new();
    let first = EnvironmentVars::new(&mut store);
    let second = EnvironmentVars::new(&mut store);
    assert_eq!((first.clean(), first.pixi_only(), first.full()), (0, 1, 2));
    assert_eq!((second.clean(), second.pixi_only(), second.full()), (3, 4, 5));
    assert_eq!(first.cell_for(CurrentEnvVarBehavior::Clean), first.clean());
    assert_eq!(first.cell_for(CurrentEnvVarBehavior::Exclude), first.pixi_only());
    assert_eq!(first.cell_for(CurrentEnvVarBehavior::Include), first.full());
    let computed: Computed = Ok(vars("pixi"));
    assert_eq!(store.get_or_try_init(first.pixi_only(), computed), Ok(&vars("pixi")));
    assert_eq!(store.get(first.pixi_only()), &Some(vars("pixi")));
    assert!(store.get(first.clean()).is_none() && store.get(second.pixi_only()).is_none());
}

#[test]
fn detached_environments_are_pointed_to() {
    assert_eq!(detached_notice(true, true, false), DetachedNotice::Warn);
    assert_eq!(detached_notice(true, true, true), DetachedNotice::CreateSymlink);
    assert_eq!(detached_notice(true, false, false), DetachedNotice::CreateSymlink);
    assert_eq!(detached_notice(false, true, false), DetachedNotice::WriteWarningFile);
    assert_eq!(
        ignored_environments_message("/work/.pixi/envs", "/detached/foo-1"),
        "Environments found in '/work/.pixi/envs', this will be ignored and the environment will be installed in the 'detached-environments' directory: '/detached/foo-1'. It's advised to remove the .pixi/envs folder from the default directory to avoid confusion as a symlink can be made, please re-install after removal.."
    );
}

fn log(level: LogLevel, text: &str) -> Option<LogEntry> {
    Some(LogEntry { level, text: text.to_string() })
}

fn failure(already_exists: bool) -> PlacementEvent {
    PlacementEvent::Created(Some(CreateError { already_exists, message: "denied".to_string() }))
}

#[test]
fn a_symlink_is_made_where_there_is_none() {
    let step = |event: PlacementEvent| create_symlink("/target", "/p/link", "/p", event);
    assert_eq!(
        step(PlacementEvent::Exists(true)),
        (
            PlacementAction::Nothing,
            log(
                LogLevel::Debug,
                "Symlink already exists at '/p/link', skipping creating symlink."
            )
        )
    );
    assert_eq!(step(PlacementEvent::Exists(false)), (PlacementAction::CreateDirectory, None));
    assert_eq!(step(PlacementEvent::DirectoryCreated(None)), (PlacementAction::Create, None));
    assert_eq!(
        step(PlacementEvent::DirectoryCreated(Some("denied".to_string()))),
        (
            PlacementAction::Create,
            log(LogLevel::Error, "Failed to create directory '/p': denied")
        )
    );
    assert_eq!(step(PlacementEvent::Created(None)), (PlacementAction::Nothing, None));
    assert_eq!(step(failure(true)), (PlacementAction::Nothing, None));
    assert_eq!(
        step(failure(false)),
        (
            PlacementAction::Nothing,
            log(
                LogLevel::Error,
                "Failed to create symlink from '/target' to '/p/link': denied"
            )
        )
    );
}

#[test]
fn a_warning_file_is_written_where_there_is_none() {
    let step =
        |event: PlacementEvent| write_warning_file("/envs", "/envs/README.txt", "/target", event);
    let message = "Environments are installed in a custom detached-environments directory: /target.\nSymlinks are not supported on this platform so environments will not be reachable from the default ('.pixi/envs') directory.";
    assert_eq!(warning_message("/target"), message);
    assert_eq!(
        step(PlacementEvent::Exists(true)),
        (
            PlacementAction::Nothing,
            log(
                LogLevel::Debug,
                "Symlink warning file already exists at '/envs/README.txt', skipping writing warning file."
            )
        )
    );
    assert_eq!(step(PlacementEvent::Exists(false)), (PlacementAction::CreateDirectory, None));
    assert_eq!(step(PlacementEvent::DirectoryCreated(None)), (PlacementAction::Create, None));
    assert_eq!(
        step(PlacementEvent::DirectoryCreated(Some("denied".to_string()))),
        (
            PlacementAction::Nothing,
            log(LogLevel::Error, "Failed to create directory '/envs': denied")
        )
    );
    assert_eq!(
        step(PlacementEvent::Created(None)),
        (
            PlacementAction::Nothing,
            log(
                LogLevel::Info,
                &format!("Symlink warning file written to '/envs/README.txt': {message}")
            )
        )
    );
    for already_exists in [false, true] {
        assert_eq!(
            step(failure(already_exists)),
            (
                PlacementAction::Nothing,
                log(
                    LogLevel::Error,
                    "Failed to write symlink warning file to '/envs/README.txt': denied"
                )
            )
        );
    }
}
