//! Finding the manifest of a project.

use pixi_project::consts::{PROJECT_MANIFEST, PYPROJECT_MANIFEST};
use pixi_project::discovery::{
    discover, find_project_manifest, not_found_message, warn_on_discovered_from_env,
    DirectoryFiles, Discovery, ManifestKind, ManifestSearch, SearchAction, SearchEvent,
};

fn empty() -> DirectoryFiles {
    DirectoryFiles { has_pixi: false, has_pyproject: false, pyproject: None }
}

fn pixi() -> DirectoryFiles {
    DirectoryFiles { has_pixi: true, has_pyproject: false, pyproject: None }
}

fn pyproject(content: &str) -> DirectoryFiles {
    DirectoryFiles { has_pixi: false, has_pyproject: true, pyproject: Some(content.to_string()) }
}

#[test]
fn test_find_project_manifest_in_current_dir() {
    let cases = [
        (PROJECT_MANIFEST, pixi()),
        (PYPROJECT_MANIFEST, pyproject("[project]\n[tool.pixi.project]\n")),
    ];
    for (manifest, files) in cases {
        let (directory, kind) = find_project_manifest(&vec![files, empty()]).unwrap();
        assert_eq!(directory, 0);
        assert_eq!(kind.file_name(), manifest);
    }
}

#[test]
fn test_find_project_manifest_with_multiple() {
    let files = DirectoryFiles {
        has_pixi: true,
        has_pyproject: true,
        pyproject: Some("[project]\n[tool.pixi.project]\n".to_string()),
    };
    assert_eq!(find_project_manifest(&vec![files]), Some((0, ManifestKind::Pixi)));
}

#[test]
fn test_find_manifest_closest_to_current_dir() {
    // In root use root manifest
    assert_eq!(find_project_manifest(&vec![pixi(), empty()]), Some((0, ManifestKind::Pixi)));

    // In pixi child use pixi child manifest
    let child = pyproject("[project]\n[tool.pixi.project]\n");
    assert_eq!(
        find_project_manifest(&vec![child, pixi(), empty()]),
        Some((0, ManifestKind::Pyproject))
    );

    // In non pixi child use root manifest
    let non_pixi_child = pyproject("[project]\n");
    assert_eq!(
        find_project_manifest(&vec![non_pixi_child, pixi(), empty()]),
        Some((1, ManifestKind::Pixi))
    );
}

#[test]
fn a_pixi_manifest_goes_before_a_python_manifest_of_the_same_directory() {
    let both = |content: Option<&str>| DirectoryFiles {
        has_pixi: true,
        has_pyproject: true,
        pyproject: content.map(|content| content.to_string()),
    };
    for content in [None, Some(""), Some("[tool.pixi")] {
        assert_eq!(
            find_project_manifest(&vec![empty(), both(content), pixi()]),
            Some((1, ManifestKind::Pixi))
        );
    }
}

#[test]
fn a_python_manifest_needs_a_pixi_section() {
    for (content, is_manifest) in [
        ("[tool.pixi", true),
        ("x[tool.pixi]y", true),
        ("[tool.pixi.project]", true),
        ("[tool.pix", false),
        ("tool.pixi]", false),
        ("[[tool.pixi", true),
        ("", false),
    ] {
        let found = find_project_manifest(&vec![pyproject(content)]);
        assert_eq!(found.is_some(), is_manifest, "{content}");
    }
}

#[test]
fn an_unreadable_python_manifest_is_passed_over() {
    let unreadable = DirectoryFiles { has_pixi: false, has_pyproject: true, pyproject: None };
    assert_eq!(find_project_manifest(&vec![unreadable]), None);
}

#[test]
fn without_directories_nothing_is_found() {
    assert_eq!(find_project_manifest(&vec![]), None);
    assert_eq!(find_project_manifest(&vec![empty(), empty()]), None);
}

#[test]
fn a_search_asks_for_one_file_at_a_time() {
    let mut search = ManifestSearch::new(2);
    assert_eq!(search.action(), SearchAction::IsFile { directory: 0, kind: ManifestKind::Pixi });
    search.step(SearchEvent::IsFile(false));
    assert_eq!(
        search.action(),
        SearchAction::IsFile { directory: 0, kind: ManifestKind::Pyproject }
    );
    search.step(SearchEvent::IsFile(true));
    assert_eq!(search.action(), SearchAction::Read { directory: 0, kind: ManifestKind::Pyproject });
    search.step(SearchEvent::Content(Some("[project]".to_string())));
    assert_eq!(search.action(), SearchAction::IsFile { directory: 1, kind: ManifestKind::Pixi });
    search.step(SearchEvent::IsFile(true));
    assert_eq!(search.action(), SearchAction::Found { directory: 1, kind: ManifestKind::Pixi });
}

#[test]
fn a_search_gives_up_after_the_last_directory() {
    let mut search = ManifestSearch::new(1);
    search.step(SearchEvent::IsFile(false));
    search.step(SearchEvent::IsFile(true));
    search.step(SearchEvent::Content(None));
    assert_eq!(search.action(), SearchAction::NotFound);
    assert_eq!(ManifestSearch::new(0).action(), SearchAction::NotFound);
}

#[test]
fn a_local_manifest_goes_before_the_environment() {
    let found = Some("/work/pixi.toml".to_string());
    assert_eq!(
        discover(&found, true, Some("/other/pixi.toml".to_string())),
        Discovery::Local {
            warning: Some(
                "Using local manifest /work/pixi.toml rather than /other/pixi.toml from environment variable `PIXI_PROJECT_MANIFEST`"
                    .to_string()
            )
        }
    );
    for (in_shell, named) in [
        (false, Some("/other/pixi.toml".to_string())),
        (true, Some("/work/pixi.toml".to_string())),
        (true, None),
        (false, None),
    ] {
        assert_eq!(discover(&found, in_shell, named), Discovery::Local { warning: None });
    }
}

#[test]
fn the_environment_goes_before_nothing() {
    for in_shell in [false, true] {
        assert_eq!(
            discover(&None, in_shell, Some("/other/pixi.toml".to_string())),
            Discovery::Environment("/other/pixi.toml".to_string())
        );
        assert_eq!(discover(&None, in_shell, None), Discovery::NotFound);
    }
    assert_eq!(
        not_found_message(),
        "could not find pixi.toml or pyproject.toml which is configured to use pixi"
    );
}

#[test]
fn the_use_of_another_manifest_is_warned_of() {
    let found = Some("/work/pixi.toml".to_string());
    let named = Some("/other/pixi.toml".to_string());
    assert_eq!(
        warn_on_discovered_from_env(false, true, &found, &named),
        Some(
            "Used local manifest /work/pixi.toml rather than /other/pixi.toml from environment variable `PIXI_PROJECT_MANIFEST`"
                .to_string()
        )
    );
    assert_eq!(warn_on_discovered_from_env(true, true, &found, &named), None);
    assert_eq!(warn_on_discovered_from_env(false, false, &found, &named), None);
    assert_eq!(warn_on_discovered_from_env(false, true, &found, &found), None);
    assert_eq!(warn_on_discovered_from_env(false, true, &None, &named), None);
    assert_eq!(warn_on_discovered_from_env(false, true, &found, &None), None);
}
