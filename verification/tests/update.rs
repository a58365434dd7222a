//! The course of a dependency update.

use pixi_project::constraints::PinningStrategy;
use pixi_project::lock::{PackageKind, Record};
use pixi_project::manifest::{
    EnvironmentName, FeatureName, Manifest, ManifestEnvironment, ManifestPath, Platform, Preview,
    Workspace,
};
use pixi_project::update::{
    CondaSpec, LockFileUsage, PackageName, PypiSpec, UpdateAction, UpdateDeps, UpdateEvent,
    UpdateFlow, UpdateRequest,
};

fn environment(name: EnvironmentName, feature: FeatureName) -> ManifestEnvironment {
    ManifestEnvironment {
        name,
        features: vec![feature],
        platforms: vec![Platform::Linux64, Platform::Win64],
        solve_group: None,
    }
}

fn manifest(environments: Vec<ManifestEnvironment>) -> Manifest {
    let manifest = Manifest {
        path: ManifestPath { directory: String::new(), file_name: "pixi.toml".to_string() },
        workspace: Workspace {
            name: "foo".to_string(),
            version: None,
            description: None,
            channels: vec![],
            conda_pypi_map: None,
            preview: Preview { all_enabled: false, enabled: vec![] },
        },
        features: vec![],
        environments,
        solve_groups: vec![],
    };
    assert!(manifest.is_well_formed());
    manifest
}

fn sole() -> Manifest {
    manifest(vec![environment(EnvironmentName::Default, FeatureName::Default)])
}

fn name(source: &str) -> PackageName {
    PackageName { source: source.to_string(), normalized: source.to_lowercase() }
}

fn conda(source: &str, has_version: bool) -> CondaSpec {
    CondaSpec { name: name(source), has_version }
}

fn pypi(source: &str, has_version_or_url: bool) -> PypiSpec {
    PypiSpec { name: name(source), has_version_or_url }
}

fn request() -> UpdateRequest {
    UpdateRequest {
        conda: vec![conda("Python", false), conda("zlib", true), conda("numpy", false)],
        pypi: vec![pypi("Flask", false), pypi("click", true)],
        feature: FeatureName::Default,
        platforms: vec![Platform::Linux64],
        lock_file_usage: LockFileUsage::Update,
        no_install: false,
        no_lockfile_update: false,
        dry_run: false,
    }
}

fn record(name: &str, version: &str) -> Record {
    Record { name: name.to_string(), version: version.to_string() }
}

fn solved() -> UpdateEvent {
    UpdateEvent::Solved {
        conda: vec![
            record("python", "3.12.1"),
            record("zlib", "1.3"),
            record("numpy", "1.26.0"),
            record("python", "3.12.1"),
        ],
        pypi: vec![record("flask", "3.0.1"), record("flask", "1-a_b"), record("click", "8")],
    }
}

fn add_conda(place: usize, version: Option<&str>) -> UpdateAction {
    UpdateAction::AddConda { place, version: version.map(|version| version.to_string()) }
}

fn add_pypi(place: usize, version: Option<&str>) -> UpdateAction {
    UpdateAction::AddPypi { place, version: version.map(|version| version.to_string()) }
}

fn determine(strategy: PinningStrategy, versions: &[&str]) -> UpdateAction {
    UpdateAction::DetermineConstraint {
        strategy,
        versions: versions.iter().map(|version| version.to_string()).collect(),
    }
}

fn constraint(text: &str) -> UpdateEvent {
    UpdateEvent::Constraint(Some(text.to_string()))
}

/// Feeds the flow and collects what it asks for, from the first action on.
fn drive(
    request: UpdateRequest,
    pinning: Option<PinningStrategy>,
    manifest: &Manifest,
    events: Vec<UpdateEvent>,
) -> (UpdateFlow, Vec<UpdateAction>) {
    let (mut flow, action) = UpdateFlow::new(request, pinning);
    let mut actions = vec![action];
    for event in events {
        actions.push(flow.step(manifest, event));
    }
    (flow, actions)
}

fn constraint_of<'d, D>(outcome: &'d UpdateDeps<D>, name: &str) -> Option<&'d String> {
    outcome.implicit_constraints.get(name)
}

#[test]
fn an_update_takes_its_course() {
    let (flow, actions) = drive(
        request(),
        None,
        &sole(),
        vec![
            UpdateEvent::Added(true),
            UpdateEvent::Added(true),
            UpdateEvent::Added(true),
            UpdateEvent::Added(true),
            UpdateEvent::Added(true),
            UpdateEvent::Done,
            UpdateEvent::Done,
            solved(),
            constraint(">=3.12.1,<3.13"),
            UpdateEvent::Added(false),
            constraint(">=1.26.0,<2"),
            UpdateEvent::Added(true),
            constraint("<4, >=3.0.1"),
            UpdateEvent::Added(true),
            UpdateEvent::Done,
            UpdateEvent::Done,
            UpdateEvent::Done,
        ],
    );
    assert_eq!(
        actions,
        vec![
            add_conda(0, None),
            add_conda(1, None),
            add_conda(2, None),
            add_pypi(0, None),
            add_pypi(1, None),
            UpdateAction::SaveManifest,
            UpdateAction::LoadLockFile,
            UpdateAction::Solve { no_install: false },
            determine(PinningStrategy::Minor, &["3.12.1", "3.12.1"]),
            add_conda(0, Some(">=3.12.1,<3.13")),
            determine(PinningStrategy::Semver, &["1.26.0"]),
            add_conda(2, Some(">=1.26.0,<2")),
            determine(PinningStrategy::Semver, &["3.0.1"]),
            add_pypi(0, Some(">=3.0.1, <4")),
            UpdateAction::SaveManifest,
            UpdateAction::WriteLockFile,
            UpdateAction::InstallDefault,
            UpdateAction::ReturnUpdate,
        ]
    );
    let outcome = flow.finish("diff").unwrap();
    assert_eq!(outcome.lock_file_diff, "diff");
    assert_eq!(constraint_of(&outcome, "Python"), Some(&">=3.12.1,<3.13".to_string()));
    assert_eq!(constraint_of(&outcome, "numpy"), Some(&">=1.26.0,<2".to_string()));
    assert_eq!(constraint_of(&outcome, "Flask"), Some(&">=3.0.1, <4".to_string()));
    assert_eq!(constraint_of(&outcome, "python"), None);
    assert_eq!(constraint_of(&outcome, "zlib"), None);
    assert_eq!(constraint_of(&outcome, "click"), None);
}

#[test]
fn a_dry_run_leaves_the_disk_alone() {
    let (flow, actions) = drive(
        UpdateRequest { dry_run: true, ..request() },
        Some(PinningStrategy::ExactVersion),
        &sole(),
        vec![
            UpdateEvent::Added(true),
            UpdateEvent::Added(true),
            UpdateEvent::Added(true),
            UpdateEvent::Added(true),
            UpdateEvent::Added(true),
            UpdateEvent::Done,
            solved(),
            UpdateEvent::Constraint(None),
            UpdateEvent::Constraint(None),
            constraint("==3.0.1"),
            UpdateEvent::Added(true),
        ],
    );
    assert_eq!(
        actions[5..],
        vec![
            UpdateAction::LoadLockFile,
            UpdateAction::Solve { no_install: true },
            determine(PinningStrategy::ExactVersion, &["3.12.1", "3.12.1"]),
            determine(PinningStrategy::ExactVersion, &["1.26.0"]),
            determine(PinningStrategy::ExactVersion, &["3.0.1"]),
            add_pypi(0, Some("==3.0.1")),
            UpdateAction::ReturnUpdate,
        ]
    );
    let outcome = flow.finish(()).unwrap();
    assert_eq!(outcome.implicit_constraints.entries().len(), 1);
}

#[test]
fn only_what_the_manifest_took_is_released_and_constrained() {
    let (flow, actions) = drive(
        request(),
        None,
        &sole(),
        vec![
            UpdateEvent::Added(false),
            UpdateEvent::Added(true),
            UpdateEvent::Added(true),
            UpdateEvent::Added(false),
            UpdateEvent::Added(true),
            UpdateEvent::Done,
            UpdateEvent::Done,
            solved(),
        ],
    );
    assert_eq!(actions.last(), Some(&determine(PinningStrategy::Semver, &["1.26.0"])));
    let release = flow.release();
    assert_eq!(release.conda_packages, vec!["zlib", "numpy"]);
    assert_eq!(release.pypi_packages, vec!["click"]);
    assert!(!release.keeps("default", Platform::Linux64, PackageKind::Conda, "zlib"));
    assert!(release.keeps("default", Platform::Win64, PackageKind::Conda, "zlib"));
    assert!(release.keeps("default", Platform::Linux64, PackageKind::Conda, "python"));
    assert!(release.keeps("default", Platform::Linux64, PackageKind::Pypi, "flask"));
}

#[test]
fn the_lock_file_is_left_alone_unless_it_may_be_updated() {
    for usage in [LockFileUsage::Locked, LockFileUsage::Frozen] {
        let empty = || UpdateRequest {
            conda: vec![],
            pypi: vec![pypi("flask", false)],
            lock_file_usage: usage,
            ..request()
        };
        let (flow, actions) =
            drive(empty(), None, &sole(), vec![UpdateEvent::Added(true), UpdateEvent::Done]);
        assert_eq!(
            actions,
            vec![add_pypi(0, None), UpdateAction::SaveManifest, UpdateAction::ReturnNothing]
        );
        assert!(flow.finish(()).is_none());

        let dry_run = UpdateRequest { dry_run: true, ..empty() };
        let (_, actions) = drive(dry_run, None, &sole(), vec![UpdateEvent::Added(true)]);
        assert_eq!(actions, vec![add_pypi(0, None), UpdateAction::ReturnNothing]);
    }
}

#[test]
fn a_request_without_specs_goes_straight_to_saving() {
    let nothing = UpdateRequest { conda: vec![], pypi: vec![], ..request() };
    let (_, actions) = drive(
        nothing,
        None,
        &sole(),
        vec![UpdateEvent::Done, UpdateEvent::Done, solved(), UpdateEvent::Done, UpdateEvent::Done],
    );
    assert_eq!(
        actions,
        vec![
            UpdateAction::SaveManifest,
            UpdateAction::LoadLockFile,
            UpdateAction::Solve { no_install: false },
            UpdateAction::SaveManifest,
            UpdateAction::WriteLockFile,
            UpdateAction::InstallDefault,
        ]
    );
}

fn bare(no_install: bool, no_lockfile_update: bool, feature: FeatureName) -> UpdateRequest {
    UpdateRequest { conda: vec![], pypi: vec![], no_install, no_lockfile_update, feature, ..request() }
}

fn after_saving(request: UpdateRequest, manifest: &Manifest) -> Vec<UpdateAction> {
    let (mut flow, _) = UpdateFlow::new(request, None);
    let mut actions = vec![];
    for event in [UpdateEvent::Done, UpdateEvent::Done, solved(), UpdateEvent::Done] {
        actions.push(flow.step(manifest, event));
    }
    loop {
        match actions.last() {
            Some(UpdateAction::ReturnUpdate) => return actions,
            _ => actions.push(flow.step(manifest, UpdateEvent::Done)),
        }
    }
}

#[test]
fn installing_and_writing_can_be_switched_off() {
    let actions = after_saving(bare(true, false, FeatureName::Default), &sole());
    assert_eq!(
        actions[1..],
        vec![
            UpdateAction::Solve { no_install: true },
            UpdateAction::SaveManifest,
            UpdateAction::WriteLockFile,
            UpdateAction::ReturnUpdate,
        ]
    );
    let actions = after_saving(bare(false, true, FeatureName::Default), &sole());
    assert_eq!(
        actions[1..],
        vec![
            UpdateAction::Solve { no_install: false },
            UpdateAction::SaveManifest,
            UpdateAction::InstallDefault,
            UpdateAction::ReturnUpdate,
        ]
    );
}

#[test]
fn only_a_sole_default_environment_is_installed() {
    let other = FeatureName::Named("other".to_string());
    // The default environment is not touched.
    let actions = after_saving(bare(false, true, other), &sole());
    assert!(!actions.contains(&UpdateAction::InstallDefault));
    // It is not the only one.
    let two = manifest(vec![
        environment(EnvironmentName::Default, FeatureName::Default),
        environment(EnvironmentName::Named("docs".to_string()), FeatureName::Default),
    ]);
    let actions = after_saving(bare(false, true, FeatureName::Default), &two);
    assert!(!actions.contains(&UpdateAction::InstallDefault));
}

#[test]
fn a_failure_ends_the_update() {
    let events = || {
        vec![
            UpdateEvent::Added(true),
            UpdateEvent::Added(true),
            UpdateEvent::Added(true),
            UpdateEvent::Added(true),
            UpdateEvent::Added(true),
            UpdateEvent::Done,
            UpdateEvent::Done,
            solved(),
            constraint(">=3.12.1,<3.13"),
            UpdateEvent::Added(true),
            UpdateEvent::Constraint(None),
            constraint("<4, >=3.0.1"),
            UpdateEvent::Added(true),
            UpdateEvent::Done,
            UpdateEvent::Done,
        ]
    };
    for n in 0..events().len() {
        let mut events = events();
        events.truncate(n);
        events.push(UpdateEvent::Failed);
        let (flow, actions) = drive(request(), None, &sole(), events);
        assert_eq!(actions.last(), Some(&UpdateAction::Abort));
        assert!(flow.finish(()).is_none());
    }
}

#[test]
fn a_constraint_that_is_no_version_specifier_is_dropped() {
    let one = UpdateRequest { conda: vec![], pypi: vec![pypi("Flask", false)], ..request() };
    let (flow, actions) = drive(
        one,
        None,
        &sole(),
        vec![
            UpdateEvent::Added(true),
            UpdateEvent::Done,
            UpdateEvent::Done,
            solved(),
            constraint("3.0.1.*"),
        ],
    );
    assert_eq!(actions.last(), Some(&UpdateAction::SaveManifest));
    assert!(flow.finish(()).is_none());
}

#[test]
fn specifiers_can_be_given_ready_made() {
    let one = UpdateRequest { conda: vec![], pypi: vec![pypi("Flask", false)], ..request() };
    let (mut flow, _) = UpdateFlow::new(one, None);
    let manifest = sole();
    for event in [UpdateEvent::Added(true), UpdateEvent::Done, UpdateEvent::Done, solved()] {
        flow.advance(&manifest, event);
    }
    assert_eq!(flow.advance(&manifest, constraint("anything")), add_pypi(0, Some("anything")));
}

#[test]
fn a_requirement_takes_over_the_constraint_of_a_conda_spec_of_the_same_name() {
    let both = UpdateRequest {
        conda: vec![conda("flask", false)],
        pypi: vec![pypi("flask", false)],
        ..request()
    };
    let (flow, actions) = drive(
        both,
        None,
        &sole(),
        vec![
            UpdateEvent::Added(true),
            UpdateEvent::Added(true),
            UpdateEvent::Done,
            UpdateEvent::Done,
            solved(),
            constraint(">=2"),
            UpdateEvent::Added(true),
            constraint(">=3"),
            UpdateEvent::Added(true),
            UpdateEvent::Done,
            UpdateEvent::Done,
            UpdateEvent::Done,
        ],
    );
    assert_eq!(actions.last(), Some(&UpdateAction::ReturnUpdate));
    let outcome = flow.finish(()).unwrap();
    assert_eq!(constraint_of(&outcome, "flask"), Some(&">=3".to_string()));
}
