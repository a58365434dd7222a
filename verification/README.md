# pixi_project

The decisions behind a pixi project, verified with Verus.

`src/` is the library. It takes and returns plain values, and every function states in its contract
what it computes.

- `manifest`, `config`, `path`: what a project reads of its manifest and configuration.
- `project`: the project with its directories, environments and caches.
- `discovery`: which manifest a project is loaded from.
- `affected`: which environments and platforms an edit of a feature touches.
- `channel`, `mapping`: channels, and where names of conda packages are mapped to names on PyPI.
- `lock`, `constraints`, `pending`: what an update releases from the lock file, and which constraints
  it asks for afterwards.
- `update`, `update_laws`: the course of a dependency update, and what holds of every one.
- `environment_vars`: the variables of activated environments.
- `detached`: environments that live outside of their project.
- `text`, `text_map`, `consts`: what the others are built on.

`app/` is the ordinary Rust around it: files, environment variables, HTTP clients, logging, and the
loop that carries out an update. `tests/` runs the library.

Where the library calls another crate, a small function makes the call, and its doc comment says what
is taken for granted about it.
