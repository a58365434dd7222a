//! Which strategy and which versions a constraint is made from.

use pixi_project::constraints::{
    conda_candidates, conda_pinning_strategy, is_non_semver_package, keep_flagged,
    pypi_candidates, pypi_pinning_strategy, PinningStrategy,
};
use pixi_project::lock::Record;

fn record(name: &str, version: &str) -> Record {
    Record { name: name.to_string(), version: version.to_string() }
}

fn strings(texts: &[&str]) -> Vec<String> {
    texts.iter().map(|text| text.to_string()).collect()
}

#[test]
fn packages_without_semantic_versions_are_pinned_to_the_minor_version() {
    for name in [
        "python", "rust", "julia", "gcc", "gxx", "gfortran", "nodejs", "deno", "r", "r-base", "perl",
    ] {
        assert!(is_non_semver_package(name));
        assert_eq!(conda_pinning_strategy(None, name), PinningStrategy::Minor);
    }
    for name in ["numpy", "Python", "r-", "", "pythonx"] {
        assert!(!is_non_semver_package(name));
        assert_eq!(conda_pinning_strategy(None, name), PinningStrategy::Semver);
    }
}

#[test]
fn a_configured_strategy_goes_first() {
    for strategy in [
        PinningStrategy::Semver,
        PinningStrategy::Minor,
        PinningStrategy::Major,
        PinningStrategy::LatestUp,
        PinningStrategy::ExactVersion,
        PinningStrategy::NoPin,
    ] {
        assert_eq!(conda_pinning_strategy(Some(strategy), "python"), strategy);
        assert_eq!(conda_pinning_strategy(Some(strategy), "numpy"), strategy);
        assert_eq!(pypi_pinning_strategy(Some(strategy)), strategy);
    }
    assert_eq!(pypi_pinning_strategy(None), PinningStrategy::Semver);
}

#[test]
fn candidates_are_the_versions_of_the_package() {
    let records = vec![
        record("python", "3.12.1"),
        record("numpy", "1.26"),
        record("python", "3.11.0"),
        record("python", "3.12.1"),
    ];
    assert_eq!(
        conda_candidates(&records, "python"),
        strings(&["3.12.1", "3.11.0", "3.12.1"])
    );
    assert_eq!(conda_candidates(&records, "pyth"), strings(&[]));
}

#[test]
fn versions_that_conda_cannot_hold_are_no_candidates() {
    let records = vec![
        record("numpy", "1.26"),
        record("numpy", "1.0-a_b"),
        record("numpy", ""),
        record("numpy", "2.0rc1"),
        record("scipy", "1.0"),
        record("numpy", "99999999999999999999999"),
    ];
    assert_eq!(pypi_candidates(&records, "numpy"), strings(&["1.26", "2.0rc1"]));
}

#[test]
fn flagged_texts_are_kept() {
    let texts = strings(&["a", "b", "c"]);
    assert_eq!(keep_flagged(&texts, &vec![true, false, true]), strings(&["a", "c"]));
    assert_eq!(keep_flagged(&vec![], &vec![]), strings(&[]));
}
