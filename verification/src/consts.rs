//! Names of the files and directories that make up a project.

use vstd::prelude::*;

verus! {

/// The manifest that is specific to pixi.
pub const PROJECT_MANIFEST: &'static str = "pixi.toml";

/// The Python manifest, which may hold a pixi section.
pub const PYPROJECT_MANIFEST: &'static str = "pyproject.toml";

/// What a Python manifest has to contain to count as a pixi manifest.
pub const PYPROJECT_PIXI_MARKER: &'static str = "[tool.pixi";

/// The lock file, next to the manifest.
pub const PROJECT_LOCK_FILE: &'static str = "pixi.lock";

/// The directory below the project root that belongs to pixi.
pub const PIXI_DIR: &'static str = ".pixi";

/// The directory with one prefix per environment.
pub const ENVIRONMENTS_DIR: &'static str = "envs";

/// The directory with one prefix per solve group.
pub const SOLVE_GROUP_ENVIRONMENTS_DIR: &'static str = "solve-group-envs";

/// The directory that caches the outcome of tasks.
pub const TASK_CACHE_DIR: &'static str = "task-cache-v0";

/// The directory that caches activated environment variables.
pub const ACTIVATION_ENV_CACHE_DIR: &'static str = "activation-env-v0";

/// The name of the environment that every project has.
pub const DEFAULT_ENVIRONMENT_NAME: &'static str = "default";

/// The manifest table of PyPI dependencies.
pub const PYPI_DEPENDENCIES: &'static str = "pypi-dependencies";

/// The file that stands in for a symlink where symlinks are not to be had.
pub const WARNING_FILE: &'static str = "README.txt";

} // verus!
