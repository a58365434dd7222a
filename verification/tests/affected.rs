//! Which environments and platforms an edit touches.

use pixi_project::affected::{
    affected_environment_platforms, affected_environments, contains_platform, EnvironmentPlatform,
};
use pixi_project::manifest::{
    EnvironmentName, FeatureName, Manifest, ManifestEnvironment, ManifestPath, ManifestSolveGroup,
    Platform, Preview, Workspace,
};

fn feature(name: &str) -> FeatureName {
    if name == "default" {
        FeatureName::Default
    } else {
        FeatureName::Named(name.to_string())
    }
}

fn environment(
    name: &str,
    features: &[&str],
    platforms: &[Platform],
    solve_group: Option<usize>,
) -> ManifestEnvironment {
    ManifestEnvironment {
        name: if name == "default" {
            EnvironmentName::Default
        } else {
            EnvironmentName::Named(name.to_string())
        },
        features: features.iter().map(|name| feature(name)).collect(),
        platforms: platforms.to_vec(),
        solve_group,
    }
}

fn manifest(
    environments: Vec<ManifestEnvironment>,
    solve_groups: Vec<ManifestSolveGroup>,
) -> Manifest {
    Manifest {
        path: ManifestPath { directory: String::new(), file_name: "pixi.toml".to_string() },
        workspace: Workspace {
            name: "foo".to_string(),
            version: None,
            description: None,
            channels: vec![],
            conda_pypi_map: None,
            preview: Preview { all_enabled: false, enabled: vec![] },
        },
        features: vec![],
        environments,
        solve_groups,
    }
}

fn group(name: &str, environments: Vec<usize>) -> ManifestSolveGroup {
    ManifestSolveGroup { name: name.to_string(), environments }
}

const BOTH: [Platform; 2] = [Platform::Linux64, Platform::Win64];

fn example() -> Manifest {
    let manifest = manifest(
        vec![
            environment("default", &["default"], &BOTH, None),
            environment("test", &["test", "default"], &BOTH, Some(0)),
            environment("prod", &["default"], &[Platform::Linux64], Some(0)),
            environment("docs", &["docs"], &BOTH, None),
        ],
        vec![group("shared", vec![1, 2])],
    );
    assert!(manifest.is_well_formed());
    manifest
}

#[test]
fn environments_with_the_feature_are_touched_and_those_solved_with_them() {
    let manifest = example();
    assert_eq!(affected_environments(&manifest, &feature("test")), vec![1, 2]);
    assert_eq!(affected_environments(&manifest, &feature("docs")), vec![3]);
    assert_eq!(affected_environments(&manifest, &feature("default")), vec![0, 1, 2]);
    assert_eq!(affected_environments(&manifest, &feature("other")), Vec::<usize>::new());
}

#[test]
fn solve_groups_come_in_their_own_order() {
    let manifest = manifest(
        vec![
            environment("default", &["default"], &BOTH, Some(0)),
            environment("test", &["test"], &BOTH, Some(0)),
        ],
        vec![group("all", vec![1, 0])],
    );
    assert!(manifest.is_well_formed());
    assert_eq!(affected_environments(&manifest, &feature("default")), vec![1, 0]);
    assert_eq!(affected_environments(&manifest, &feature("test")), vec![1, 0]);
}

fn pair(environment: &str, platform: Platform) -> EnvironmentPlatform {
    EnvironmentPlatform { environment: environment.to_string(), platform }
}

#[test]
fn only_selected_platforms_are_touched() {
    let manifest = example();
    assert_eq!(
        affected_environment_platforms(&manifest, &vec![1, 2], &vec![]),
        vec![
            pair("test", Platform::Linux64),
            pair("test", Platform::Win64),
            pair("prod", Platform::Linux64),
        ]
    );
    assert_eq!(
        affected_environment_platforms(&manifest, &vec![0, 2], &vec![Platform::Win64]),
        vec![pair("default", Platform::Win64)]
    );
    assert_eq!(
        affected_environment_platforms(&manifest, &vec![0], &vec![Platform::Osx64]),
        vec![]
    );
    assert!(contains_platform(&BOTH.to_vec(), Platform::Win64));
    assert!(!contains_platform(&BOTH.to_vec(), Platform::Osx64));
}

#[test]
fn a_manifest_is_tested_for_being_well_formed() {
    assert!(!manifest(vec![], vec![]).is_well_formed());
    assert!(!manifest(vec![environment("test", &[], &[], None)], vec![]).is_well_formed());
    assert!(!manifest(
        vec![environment("default", &[], &[], None), environment("default", &[], &[], None)],
        vec![],
    )
    .is_well_formed());
    // A solve group that does not exist, does not list its environment, or lists another.
    assert!(!manifest(vec![environment("default", &[], &[], Some(0))], vec![]).is_well_formed());
    assert!(!manifest(vec![environment("default", &[], &[], Some(0))], vec![group("g", vec![])])
        .is_well_formed());
    assert!(!manifest(vec![environment("default", &[], &[], None)], vec![group("g", vec![0])])
        .is_well_formed());
    assert!(!manifest(
        vec![environment("default", &[], &[], Some(0))],
        vec![group("g", vec![0, 1])]
    )
    .is_well_formed());
    assert!(manifest(vec![environment("default", &[], &[], Some(0))], vec![group("g", vec![0])])
        .is_well_formed());
}
