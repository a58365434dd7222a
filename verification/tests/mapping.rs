//! Where the mapping of conda names to PyPI names is found.

use pixi_project::channel::{Channel, ChannelConfig, ParseChannelError, UrlError};
use pixi_project::config::{Config, DetachedEnvironments};
use pixi_project::environment_vars::VariableStore;
use pixi_project::manifest::{
    EnvironmentName, Feature, FeatureName, Manifest, ManifestEnvironment, ManifestPath,
    NamedChannelOrUrl, Preview, Workspace,
};
use pixi_project::mapping::{
    build_pypi_name_mapping_source, mapping_location, mapping_source, MapEntry, MappingError,
    MappingLocation, MappingSource,
};
use pixi_project::project::Project;

const PARSELMOUTH: &str =
    "https://github.com/prefix-dev/parselmouth/blob/main/files/compressed_mapping.json";

fn name(text: &str) -> NamedChannelOrUrl {
    NamedChannelOrUrl::Name(text.to_string())
}

fn url(text: &str) -> NamedChannelOrUrl {
    NamedChannelOrUrl::Url(text.to_string())
}

fn manifest(
    channels: Vec<NamedChannelOrUrl>,
    map: Option<Vec<(NamedChannelOrUrl, String)>>,
    features: Vec<Feature>,
) -> Manifest {
    Manifest {
        path: ManifestPath { directory: String::new(), file_name: "pixi.toml".to_string() },
        workspace: Workspace {
            name: "foo".to_string(),
            version: None,
            description: None,
            channels,
            conda_pypi_map: map,
            preview: Preview { all_enabled: false, enabled: vec![] },
        },
        features,
        environments: vec![ManifestEnvironment {
            name: EnvironmentName::Default,
            features: vec![FeatureName::Default],
            platforms: vec![],
            solve_group: None,
        }],
        solve_groups: vec![],
    }
}

fn config() -> Config {
    Config {
        pinning_strategy: None,
        detached_environments: DetachedEnvironments { is_false: true, path: None },
        global_channel_config: ChannelConfig {
            channel_alias: "https://conda.anaconda.org/".to_string(),
            root_dir: "/elsewhere".to_string(),
        },
    }
}

fn project(manifest: Manifest) -> Project {
    assert!(manifest.is_well_formed());
    Project::from_manifest(manifest, config(), &mut VariableStore::new())
}

fn canonical_name(project: &Project, channel: &str) -> String {
    let config = project.channel_config();
    let config = rattler_conda_types::ChannelConfig {
        channel_alias: url::Url::parse(&config.channel_alias).unwrap(),
        root_dir: config.root_dir.into(),
    };
    let channel = rattler_conda_types::Channel::from_str(channel, &config).unwrap();
    channel.canonical_name().trim_end_matches('/').to_string()
}

#[test]
fn test_mapping_location() {
    let mut foo = project(manifest(
        vec![name("conda-forge"), name("pytorch")],
        Some(vec![
            (name("conda-forge"), PARSELMOUTH.to_string()),
            (name("pytorch"), String::new()),
        ]),
        vec![],
    ));
    let canonical_channel_name = canonical_name(&foo, "conda-forge");
    let mapping = foo.pypi_name_mapping_source().ok().unwrap();
    assert_eq!(
        mapping.custom().unwrap().mapping.get(&canonical_channel_name).unwrap(),
        &MappingLocation::Url(url::Url::parse(PARSELMOUTH).unwrap().to_string())
    );

    // Check url channel as map key
    let mut foo = project(manifest(
        vec![url("https://prefix.dev/test-channel")],
        Some(vec![(url("https://prefix.dev/test-channel"), "mapping.json".to_string())]),
        vec![],
    ));
    let canonical_channel_name = canonical_name(&foo, "https://prefix.dev/test-channel");
    let mapping = foo.pypi_name_mapping_source().ok().unwrap();
    assert_eq!(
        mapping.custom().unwrap().mapping.get(&canonical_channel_name).unwrap(),
        &MappingLocation::Path("mapping.json".to_string())
    );
}

#[test]
fn test_mapping_ensure_feature_channels_also_checked() {
    let mut foo = project(manifest(
        vec![name("conda-forge"), name("pytorch")],
        Some(vec![(name("custom-feature-channel"), PARSELMOUTH.to_string())]),
        vec![Feature {
            name: FeatureName::Named("a".to_string()),
            channels: Some(vec![name("custom-feature-channel")]),
        }],
    ));
    assert!(foo.pypi_name_mapping_source().is_ok());

    let mut foo = project(manifest(
        vec![name("conda-forge"), name("pytorch")],
        Some(vec![(name("non-existing-channel"), PARSELMOUTH.to_string())]),
        vec![],
    ));
    let error = foo.pypi_name_mapping_source().err().unwrap();
    let missing = match &error {
        MappingError::MissingChannel { channel, .. } => channel.clone(),
        _ => panic!("expected a missing channel"),
    };
    assert_eq!(
        error.message(&missing),
        "conda-pypi-map is defined: the non-existing-channel is missing from the channels array, which currently are: conda-forge, pytorch"
    );
}

#[test]
fn without_a_map_the_hosted_mapping_is_used() {
    let mut foo = project(manifest(vec![name("conda-forge")], None, vec![]));
    let source = foo.pypi_name_mapping_source().ok().unwrap();
    assert!(matches!(source, MappingSource::Prefix));
    assert!(source.custom().is_none());
}

#[test]
fn an_empty_map_switches_the_mapping_off() {
    // The channels of the manifest do not matter then.
    let mut foo = project(manifest(vec![url("nonsense")], Some(vec![]), vec![]));
    assert!(matches!(foo.pypi_name_mapping_source(), Ok(MappingSource::Disabled)));
}

#[test]
fn a_location_is_a_url_a_path_or_an_error() {
    let parsed = Ok("https://example.com/a".to_string());
    assert!(matches!(
        mapping_location(&"HTTPS://example.com/a".to_string(), &parsed),
        Ok(MappingLocation::Url(url)) if url == "https://example.com/a"
    ));
    assert!(matches!(
        mapping_location(&"a/b.json".to_string(), &Err(UrlError::RelativeUrlWithoutBase)),
        Ok(MappingLocation::Path(path)) if path == "a/b.json"
    ));
    let error = mapping_location(&"http://[".to_string(), &Err(UrlError::Malformed)).err().unwrap();
    assert_eq!(error.message("x"), "Could not convert http://[ to neither URL or Path");
}

#[test]
fn a_malformed_location_is_an_error() {
    let mut foo = project(manifest(
        vec![name("conda-forge")],
        Some(vec![(name("conda-forge"), "http://[".to_string())]),
        vec![],
    ));
    let error = foo.pypi_name_mapping_source().err().unwrap();
    assert!(matches!(&error, MappingError::Location(location) if location == "http://["));
    // An error is not kept: the next call fails anew.
    assert!(foo.pypi_name_mapping_source().is_err());
}

#[test]
fn a_url_is_normalised() {
    let mut foo = project(manifest(
        vec![name("conda-forge")],
        Some(vec![(name("conda-forge"), "HTTPS://Example.COM/a/../b".to_string())]),
        vec![],
    ));
    let source = foo.pypi_name_mapping_source().ok().unwrap();
    assert_eq!(
        source.custom().unwrap().mapping.get("https://conda.anaconda.org/conda-forge"),
        Some(&MappingLocation::Url("https://example.com/b".to_string()))
    );
}

#[test]
fn a_channel_without_a_url_is_an_error() {
    let mut foo = project(manifest(
        vec![url("nonsense")],
        Some(vec![(name("conda-forge"), "mapping.json".to_string())]),
        vec![],
    ));
    let error = foo.pypi_name_mapping_source().err().unwrap();
    assert!(matches!(&error, MappingError::Channel(ParseChannelError::InvalidUrl)));
    assert_eq!(error.message(""), "could not parse url");
}

#[test]
fn a_channel_can_be_given_by_path() {
    let mut foo = project(manifest(
        vec![NamedChannelOrUrl::Path("/channels/mine".to_string())],
        Some(vec![(NamedChannelOrUrl::Path("/channels/mine".to_string()), "m.json".to_string())]),
        vec![],
    ));
    let source = foo.pypi_name_mapping_source().ok().unwrap();
    assert_eq!(
        source.custom().unwrap().mapping.get("file:///channels/mine"),
        Some(&MappingLocation::Path("m.json".to_string()))
    );
}

fn path(text: &str) -> NamedChannelOrUrl {
    NamedChannelOrUrl::Path(text.to_string())
}

fn location_of(mapped: &str, used: &str, root_dir: &str, key: &str) -> Option<MappingLocation> {
    let manifest =
        manifest(vec![path(used)], Some(vec![(path(mapped), "m.json".to_string())]), vec![]);
    let config = ChannelConfig {
        channel_alias: "https://conda.anaconda.org/".to_string(),
        root_dir: root_dir.to_string(),
    };
    let source = build_pypi_name_mapping_source(&manifest, &config).ok()?;
    source.custom().unwrap().mapping.get(key).map(|location| match location {
        MappingLocation::Path(path) => MappingLocation::Path(path.clone()),
        MappingLocation::Url(url) => MappingLocation::Url(url.clone()),
    })
}

#[test]
fn an_absolute_path_resolves_whatever_the_root_directory() {
    let expected = Some(MappingLocation::Path("m.json".to_string()));
    for root_dir in ["", "relative", "/work/foo"] {
        assert_eq!(
            location_of("/channels/mine", "/channels/mine", root_dir, "file:///channels/mine"),
            expected
        );
        assert_eq!(
            location_of("C:/channels/a b", "C:/channels/a b", root_dir, "file:///C:/channels/a%20b"),
            expected
        );
        assert_eq!(location_of("/:", "/:", root_dir, "file:///:"), expected);
    }
    // Paths are told apart by what they resolve to.
    assert_eq!(
        location_of("/channels/./x/../mine", "/channels/mine", "", "file:///channels/mine"),
        expected
    );
    assert_eq!(location_of("/channels/mine", "/elsewhere", "", "file:///channels/mine"), None);
}

#[test]
fn a_relative_path_is_taken_from_the_root_directory() {
    let expected = Some(MappingLocation::Path("m.json".to_string()));
    for mapped in ["mine", "./mine", "x/../mine"] {
        assert_eq!(location_of(mapped, "mine", "/work/foo", "file:///work/foo/mine"), expected);
    }
    assert_eq!(location_of("../mine", "../mine", "/work/foo", "file:///work/mine"), expected);
    assert_eq!(location_of("./~/a", "~/a", "/work/foo", "file:///work/foo/~/a"), None);
    assert_eq!(location_of("mine", "mine", "/work/bar", "file:///work/foo/mine"), None);
}

#[test]
fn a_relative_path_needs_an_absolute_root_directory() {
    let manifest =
        manifest(vec![path("mine")], Some(vec![(path("mine"), "m.json".to_string())]), vec![]);
    for root_dir in ["", "relative"] {
        let config = ChannelConfig {
            channel_alias: "https://conda.anaconda.org/".to_string(),
            root_dir: root_dir.to_string(),
        };
        match build_pypi_name_mapping_source(&manifest, &config) {
            Err(error) => assert_eq!(
                error.message(""),
                format!("root directory: '{root_dir}' from channel config is not an absolute path")
            ),
            Ok(_) => panic!("expected an invalid path"),
        }
    }
}

#[test]
fn the_first_channel_that_fails_is_reported() {
    let config = ChannelConfig {
        channel_alias: "https://conda.anaconda.org/".to_string(),
        root_dir: "relative".to_string(),
    };
    let error_of = |mapped: NamedChannelOrUrl, channels: Vec<NamedChannelOrUrl>, featured: NamedChannelOrUrl| {
        let manifest = manifest(
            channels,
            Some(vec![(mapped, "m.json".to_string())]),
            vec![
                Feature { name: FeatureName::Default, channels: None },
                Feature {
                    name: FeatureName::Named("a".to_string()),
                    channels: Some(vec![featured]),
                },
            ],
        );
        match build_pypi_name_mapping_source(&manifest, &config) {
            Err(MappingError::Channel(error)) => error,
            _ => panic!("expected a channel that fails"),
        }
    };
    let is_path = |error: ParseChannelError| matches!(error, ParseChannelError::InvalidPath(_));
    // The map goes before the channels in use.
    assert!(is_path(error_of(path("mine"), vec![url("nonsense")], url("nonsense"))));
    assert!(!is_path(error_of(url("nonsense"), vec![path("mine")], path("mine"))));
    // The channels of the project go before those of features, each in their order.
    assert!(is_path(error_of(name("a"), vec![path("mine")], url("nonsense"))));
    assert!(!is_path(error_of(name("a"), vec![name("b"), url("nonsense")], path("mine"))));
    assert!(is_path(error_of(name("a"), vec![path("mine"), url("nonsense")], name("b"))));
    assert!(is_path(error_of(name("a"), vec![name("b")], path("mine"))));
}

#[test]
fn a_channel_by_url_below_the_alias_is_the_channel_by_name() {
    // The URL resolves to the same name and base URL.
    let mut foo = project(manifest(
        vec![url("https://conda.anaconda.org/conda-forge/")],
        Some(vec![(name("conda-forge"), "m.json".to_string())]),
        vec![],
    ));
    assert!(foo.pypi_name_mapping_source().is_ok());
}

#[test]
fn a_mapping_source_is_computed_once() {
    let mut foo = project(manifest(vec![], Some(vec![]), vec![]));
    assert!(matches!(foo.pypi_name_mapping_source(), Ok(MappingSource::Disabled)));
    assert!(matches!(foo.pypi_name_mapping_source(), Ok(MappingSource::Disabled)));
}

fn channel(base_url: &str, name: Option<&str>) -> Channel {
    Channel {
        base_url: base_url.to_string(),
        name: name.map(|name| name.to_string()),
        canonical_name: base_url.to_string(),
    }
}

fn entry(channel: Channel, location: &str) -> MapEntry {
    MapEntry {
        channel,
        location: location.to_string(),
        parsed: Err(UrlError::RelativeUrlWithoutBase),
    }
}

#[test]
fn the_list_of_channels_is_sorted_and_names_each_once() {
    let used = vec![
        channel("https://b.org/", None),
        channel("https://a.org/b/", Some("zeta")),
        channel("https://a.org/a/", Some("alpha")),
        channel("https://a.org/b/", Some("zeta")),
    ];
    let entries = vec![entry(channel("https://c.org/", None), "x")];
    match mapping_source(&entries, &used) {
        Err(error) => assert_eq!(
            error.message("https://c.org/"),
            "conda-pypi-map is defined: the https://c.org/ is missing from the channels array, which currently are: alpha, https://b.org/, zeta"
        ),
        Ok(_) => panic!("expected a missing channel"),
    }
}

#[test]
fn of_entries_for_the_same_channel_the_last_counts() {
    let used = vec![channel("https://a.org/a//", Some("a"))];
    let entries = vec![
        entry(channel("https://a.org/a//", Some("a")), "first"),
        entry(channel("https://a.org/a//", Some("a")), "second"),
    ];
    let source = mapping_source(&entries, &used).ok().unwrap();
    let mapping = &source.custom().unwrap().mapping;
    assert_eq!(mapping.get("https://a.org/a"), Some(&MappingLocation::Path("second".to_string())));
    assert_eq!(mapping.get("https://a.org/a//"), None);
}

#[test]
fn a_missing_channel_goes_before_a_malformed_location() {
    let mut malformed = entry(channel("https://a.org/", None), "http://[");
    malformed.parsed = Err(UrlError::Malformed);
    let entries = vec![malformed, entry(channel("https://b.org/", None), "x")];
    let used = vec![channel("https://a.org/", None)];
    assert!(matches!(
        mapping_source(&entries, &used),
        Err(MappingError::MissingChannel { channel, .. }) if channel == "https://b.org/"
    ));
    let used = vec![channel("https://a.org/", None), channel("https://b.org/", None)];
    assert!(matches!(
        mapping_source(&entries, &used),
        Err(MappingError::Location(location)) if location == "http://["
    ));
}

#[test]
fn a_mapping_can_be_built_without_a_project() {
    let manifest = manifest(
        vec![name("conda-forge")],
        Some(vec![(name("conda-forge"), "mapping.json".to_string())]),
        vec![],
    );
    let config = ChannelConfig {
        channel_alias: "https://repo.example.org/".to_string(),
        root_dir: "/".to_string(),
    };
    let source = build_pypi_name_mapping_source(&manifest, &config).ok().unwrap();
    assert_eq!(
        source.custom().unwrap().mapping.get("https://repo.example.org/conda-forge"),
        Some(&MappingLocation::Path("mapping.json".to_string()))
    );

    let config =
        ChannelConfig { channel_alias: "nonsense".to_string(), root_dir: "/".to_string() };
    assert!(matches!(
        build_pypi_name_mapping_source(&manifest, &config),
        Err(MappingError::Channel(ParseChannelError::InvalidUrl))
    ));
}
