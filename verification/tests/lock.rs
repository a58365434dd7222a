//! Reading a lock file, and releasing packages from it.

use std::str::FromStr;

use pixi_project::affected::EnvironmentPlatform;
use pixi_project::lock::{
    collect_conda_packages, collect_pypi_packages, contains_name, unlock_packages, LockedPackage,
    PackageKind, Record, Release,
};
use pixi_project::manifest::Platform;
use pixi_project::update::{solved_event, UpdateEvent};

const LOCK_FILE: &str = r#"
version: 6
environments:
  default:
    channels:
    - url: https://conda.anaconda.org/conda-forge/
    indexes:
    - https://pypi.org/simple
    packages:
      linux-64:
      - conda: https://conda.anaconda.org/conda-forge/linux-64/python-3.12.1-hab00c5b_0.conda
      - conda: https://conda.anaconda.org/conda-forge/linux-64/zlib-1.3-h4_0.conda
      - pypi: https://files.pythonhosted.org/packages/Flask_Cors-1.10-py3-none-any.whl
      win-64:
      - conda: https://conda.anaconda.org/conda-forge/win-64/python-3.11.0-hab00c5b_0.conda
  docs:
    channels:
    - url: https://conda.anaconda.org/conda-forge/
    packages:
      linux-64: []
packages:
- conda: https://conda.anaconda.org/conda-forge/linux-64/python-3.12.1-hab00c5b_0.conda
  sha256: 0000000000000000000000000000000000000000000000000000000000000000
- conda: https://conda.anaconda.org/conda-forge/linux-64/zlib-1.3-h4_0.conda
  sha256: 0000000000000000000000000000000000000000000000000000000000000001
- conda: https://conda.anaconda.org/conda-forge/win-64/python-3.11.0-hab00c5b_0.conda
  sha256: 0000000000000000000000000000000000000000000000000000000000000002
- pypi: https://files.pythonhosted.org/packages/Flask_Cors-1.10-py3-none-any.whl
  name: flask-cors
  version: '1.10'
  sha256: 0000000000000000000000000000000000000000000000000000000000000003
"#;

fn pair(environment: &str, platform: Platform) -> EnvironmentPlatform {
    EnvironmentPlatform { environment: environment.to_string(), platform }
}

fn record(name: &str, version: &str) -> Record {
    Record { name: name.to_string(), version: version.to_string() }
}

#[test]
fn conda_packages_are_read_from_a_lock_file() {
    let lock_file = rattler_lock::LockFile::from_str(LOCK_FILE).unwrap();
    assert_eq!(
        collect_conda_packages(&lock_file, &vec![pair("default", Platform::Linux64)]),
        vec![record("python", "3.12.1"), record("zlib", "1.3")]
    );
    assert_eq!(
        collect_conda_packages(
            &lock_file,
            &vec![
                pair("default", Platform::Win64),
                pair("missing", Platform::Linux64),
                pair("docs", Platform::Linux64),
                pair("default", Platform::Osx64),
                pair("default", Platform::Linux64),
            ]
        ),
        vec![record("python", "3.11.0"), record("python", "3.12.1"), record("zlib", "1.3")]
    );
    assert_eq!(collect_conda_packages(&lock_file, &vec![]), vec![]);
}

#[test]
fn pypi_packages_are_read_from_a_lock_file() {
    let lock_file = rattler_lock::LockFile::from_str(LOCK_FILE).unwrap();
    assert_eq!(
        collect_pypi_packages(
            &lock_file,
            &vec![pair("default", Platform::Win64), pair("default", Platform::Linux64)]
        ),
        vec![record("flask-cors", "1.10")]
    );
    assert_eq!(
        collect_pypi_packages(&lock_file, &vec![pair("missing", Platform::Linux64)]),
        vec![]
    );
}

#[test]
fn a_solve_reports_the_packages_of_what_it_touches() {
    let lock_file = rattler_lock::LockFile::from_str(LOCK_FILE).unwrap();
    let release = Release {
        conda_packages: vec![],
        pypi_packages: vec![],
        affected: vec![pair("default", Platform::Linux64)],
    };
    assert_eq!(
        solved_event(&lock_file, &release),
        UpdateEvent::Solved {
            conda: vec![record("python", "3.12.1"), record("zlib", "1.3")],
            pypi: vec![record("flask-cors", "1.10")],
        }
    );
}

#[test]
fn every_platform_is_written_as_elsewhere() {
    for platform in [
        Platform::NoArch,
        Platform::Linux32,
        Platform::Linux64,
        Platform::LinuxAarch64,
        Platform::LinuxArmV6l,
        Platform::LinuxArmV7l,
        Platform::LinuxPpc64le,
        Platform::LinuxPpc64,
        Platform::LinuxPpc,
        Platform::LinuxS390X,
        Platform::LinuxRiscv32,
        Platform::LinuxRiscv64,
        Platform::Osx64,
        Platform::OsxArm64,
        Platform::Win32,
        Platform::Win64,
        Platform::WinArm64,
        Platform::EmscriptenWasm32,
        Platform::WasiWasm32,
        Platform::ZosZ,
    ] {
        let other = rattler_conda_types::Platform::from_str(platform.as_str()).unwrap();
        assert_eq!(other.as_str(), platform.as_str());
        assert_eq!(format!("{other:?}"), format!("{platform:?}"));
    }
    assert_eq!(Platform::Unknown.as_str(), rattler_conda_types::Platform::Unknown.as_str());
}

fn release() -> Release {
    Release {
        conda_packages: vec!["python".to_string()],
        pypi_packages: vec!["flask".to_string()],
        affected: vec![pair("default", Platform::Linux64), pair("docs", Platform::Win64)],
    }
}

#[test]
fn released_packages_are_dropped() {
    let release = release();
    let keeps = |environment: &str, platform: Platform, kind: PackageKind, name: &str| {
        release.keeps(environment, platform, kind, name)
    };
    assert!(!keeps("default", Platform::Linux64, PackageKind::Conda, "python"));
    assert!(!keeps("docs", Platform::Win64, PackageKind::Pypi, "flask"));
    // The other kind, another package, another platform, another environment.
    assert!(keeps("default", Platform::Linux64, PackageKind::Pypi, "python"));
    assert!(keeps("default", Platform::Linux64, PackageKind::Conda, "flask"));
    assert!(keeps("default", Platform::Linux64, PackageKind::Conda, "zlib"));
    assert!(keeps("default", Platform::Win64, PackageKind::Conda, "python"));
    assert!(keeps("test", Platform::Linux64, PackageKind::Conda, "python"));
}

fn locked(environment: &str, kind: PackageKind, name: &str) -> LockedPackage {
    LockedPackage {
        environment: environment.to_string(),
        platform: Platform::Linux64,
        kind,
        name: name.to_string(),
    }
}

#[test]
fn releasing_keeps_the_order_and_is_idempotent() {
    let packages = || {
        vec![
            locked("default", PackageKind::Conda, "zlib"),
            locked("default", PackageKind::Conda, "python"),
            locked("docs", PackageKind::Conda, "python"),
            locked("default", PackageKind::Pypi, "flask"),
            locked("default", PackageKind::Pypi, "numpy"),
        ]
    };
    let expected = vec![
        locked("default", PackageKind::Conda, "zlib"),
        locked("docs", PackageKind::Conda, "python"),
        locked("default", PackageKind::Pypi, "numpy"),
    ];
    let once = unlock_packages(packages(), &release());
    assert_eq!(once, expected);
    assert_eq!(unlock_packages(once, &release()), expected);
    let nothing = Release { conda_packages: vec![], pypi_packages: vec![], affected: vec![] };
    assert_eq!(unlock_packages(packages(), &nothing), packages());
}

#[test]
fn names_are_found() {
    let names = vec!["a".to_string(), "b".to_string()];
    assert!(contains_name(&names, "b"));
    assert!(!contains_name(&names, "c"));
    assert!(!contains_name(&vec![], ""));
}
