//! What a project reads of its manifest, as plain values.

use vstd::prelude::*;
use crate::consts::{DEFAULT_ENVIRONMENT_NAME, PYPI_DEPENDENCIES};
use crate::text::text_eq;

verus! {

/// A platform that packages are built for.
#[derive(Clone, Copy, Debug, PartialEq, Eq, Structural)]
pub enum Platform {
    NoArch,
    Unknown,
    Linux32,
    Linux64,
    LinuxAarch64,
    LinuxArmV6l,
    LinuxArmV7l,
    LinuxPpc64le,
    LinuxPpc64,
    LinuxPpc,
    LinuxS390X,
    LinuxRiscv32,
    LinuxRiscv64,
    Osx64,
    OsxArm64,
    Win32,
    Win64,
    WinArm64,
    EmscriptenWasm32,
    WasiWasm32,
    ZosZ,
}

impl Platform {
    /// The platform as it is written.
    pub open spec fn text(self) -> Seq<char> {
        match self {
            Platform::NoArch => "noarch"@,
            Platform::Unknown => "unknown"@,
            Platform::Linux32 => "linux-32"@,
            Platform::Linux64 => "linux-64"@,
            Platform::LinuxAarch64 => "linux-aarch64"@,
            Platform::LinuxArmV6l => "linux-armv6l"@,
            Platform::LinuxArmV7l => "linux-armv7l"@,
            Platform::LinuxPpc64le => "linux-ppc64le"@,
            Platform::LinuxPpc64 => "linux-ppc64"@,
            Platform::LinuxPpc => "linux-ppc"@,
            Platform::LinuxS390X => "linux-s390x"@,
            Platform::LinuxRiscv32 => "linux-riscv32"@,
            Platform::LinuxRiscv64 => "linux-riscv64"@,
            Platform::Osx64 => "osx-64"@,
            Platform::OsxArm64 => "osx-arm64"@,
            Platform::Win32 => "win-32"@,
            Platform::Win64 => "win-64"@,
            Platform::WinArm64 => "win-arm64"@,
            Platform::EmscriptenWasm32 => "emscripten-wasm32"@,
            Platform::WasiWasm32 => "wasi-wasm32"@,
            Platform::ZosZ => "zos-z"@,
        }
    }

    /// The platform as it is written.
    pub fn as_str(&self) -> (text: &'static str)
        ensures
            text@ == self.text(),
    {
        match self {
            Platform::NoArch => "noarch",
            Platform::Unknown => "unknown",
            Platform::Linux32 => "linux-32",
            Platform::Linux64 => "linux-64",
            Platform::LinuxAarch64 => "linux-aarch64",
            Platform::LinuxArmV6l => "linux-armv6l",
            Platform::LinuxArmV7l => "linux-armv7l",
            Platform::LinuxPpc64le => "linux-ppc64le",
            Platform::LinuxPpc64 => "linux-ppc64",
            Platform::LinuxPpc => "linux-ppc",
            Platform::LinuxS390X => "linux-s390x",
            Platform::LinuxRiscv32 => "linux-riscv32",
            Platform::LinuxRiscv64 => "linux-riscv64",
            Platform::Osx64 => "osx-64",
            Platform::OsxArm64 => "osx-arm64",
            Platform::Win32 => "win-32",
            Platform::Win64 => "win-64",
            Platform::WinArm64 => "win-arm64",
            Platform::EmscriptenWasm32 => "emscripten-wasm32",
            Platform::WasiWasm32 => "wasi-wasm32",
            Platform::ZosZ => "zos-z",
        }
    }
}

/// The three tables of conda dependencies.
#[derive(Clone, Copy, Debug, PartialEq, Eq, Structural)]
pub enum SpecType {
    Host,
    Build,
    Run,
}

impl SpecType {
    /// The manifest table that holds dependencies of this kind.
    pub open spec fn spec_name(self) -> Seq<char> {
        match self {
            SpecType::Host => "host-dependencies"@,
            SpecType::Build => "build-dependencies"@,
            SpecType::Run => "dependencies"@,
        }
    }

    /// The manifest table that holds dependencies of this kind.
    pub fn name(&self) -> (name: &'static str)
        ensures
            name@ == self.spec_name(),
    {
        match self {
            SpecType::Host => "host-dependencies",
            SpecType::Build => "build-dependencies",
            SpecType::Run => "dependencies",
        }
    }
}

/// The dependency types we support.
#[derive(Clone, Copy, Debug, PartialEq, Eq, Structural)]
pub enum DependencyType {
    CondaDependency(SpecType),
    PypiDependency,
}

impl DependencyType {
    /// Convert to a name used in the manifest.
    pub fn name(&self) -> (name: &'static str)
        ensures
            name@ == match *self {
                DependencyType::CondaDependency(dep) => dep.spec_name(),
                DependencyType::PypiDependency => PYPI_DEPENDENCIES@,
            },
    {
        match self {
            DependencyType::CondaDependency(dep) => dep.name(),
            DependencyType::PypiDependency => PYPI_DEPENDENCIES,
        }
    }
}

/// The name of an environment. Its view is `None` for the default environment.
#[derive(Debug, PartialEq, Eq)]
pub enum EnvironmentName {
    Default,
    Named(String),
}

impl View for EnvironmentName {
    type V = Option<Seq<char>>;

    open spec fn view(&self) -> Option<Seq<char>> {
        match self {
            EnvironmentName::Default => None,
            EnvironmentName::Named(name) => Some(name@),
        }
    }
}

impl Clone for EnvironmentName {
    fn clone(&self) -> (copy: Self)
        ensures
            copy == *self,
    {
        match self {
            EnvironmentName::Default => EnvironmentName::Default,
            EnvironmentName::Named(name) => EnvironmentName::Named(name.clone()),
        }
    }
}

impl EnvironmentName {
    /// The name as it is written.
    pub open spec fn text(self) -> Seq<char> {
        match self {
            EnvironmentName::Default => DEFAULT_ENVIRONMENT_NAME@,
            EnvironmentName::Named(name) => name@,
        }
    }

    /// The name as it is written.
    pub fn as_str(&self) -> (text: &str)
        ensures
            text@ == self.text(),
    {
        match self {
            EnvironmentName::Default => DEFAULT_ENVIRONMENT_NAME,
            EnvironmentName::Named(name) => name.as_str(),
        }
    }

    /// Whether this names the same environment as `other`.
    pub fn same(&self, other: &EnvironmentName) -> (equal: bool)
        ensures
            equal == (self@ == other@),
    {
        match (self, other) {
            (EnvironmentName::Default, EnvironmentName::Default) => true,
            (EnvironmentName::Named(a), EnvironmentName::Named(b)) => text_eq(
                a.as_str(),
                b.as_str(),
            ),
            _ => false,
        }
    }
}

/// The name of a feature. Its view is `None` for the default feature.
#[derive(Debug, PartialEq, Eq)]
pub enum FeatureName {
    Default,
    Named(String),
}

impl View for FeatureName {
    type V = Option<Seq<char>>;

    open spec fn view(&self) -> Option<Seq<char>> {
        match self {
            FeatureName::Default => None,
            FeatureName::Named(name) => Some(name@),
        }
    }
}

impl FeatureName {
    /// Whether this names the same feature as `other`.
    pub fn same(&self, other: &FeatureName) -> (equal: bool)
        ensures
            equal == (self@ == other@),
    {
        match (self, other) {
            (FeatureName::Default, FeatureName::Default) => true,
            (FeatureName::Named(a), FeatureName::Named(b)) => text_eq(a.as_str(), b.as_str()),
            _ => false,
        }
    }
}

/// A preview feature that is known by name.
#[derive(Clone, Copy, Debug, PartialEq, Eq, Structural)]
pub enum KnownPreviewFeature {
    PixiBuild,
}

/// Which preview features a manifest switches on.
#[derive(Debug, PartialEq, Eq)]
pub struct Preview {
    /// Whether every preview feature is switched on.
    pub all_enabled: bool,
    /// The known features that are switched on by name.
    pub enabled: Vec<KnownPreviewFeature>,
}

impl Preview {
    /// Whether `feature` is switched on: with all the others, or by name.
    pub open spec fn enables(self, feature: KnownPreviewFeature) -> bool {
        self.all_enabled || self.enabled@.contains(feature)
    }

    /// Whether `feature` is switched on.
    pub fn is_enabled(&self, feature: KnownPreviewFeature) -> (enabled: bool)
        ensures
            enabled == self.enables(feature),
    {
        if self.all_enabled {
            return true;
        }
        let mut i: usize = 0;
        while i < self.enabled.len()
            invariant
                !self.all_enabled,
                i <= self.enabled@.len(),
                forall|j: int| 0 <= j < i ==> self.enabled@[j] != feature,
            decreases self.enabled.len() - i,
        {
            if self.enabled[i] == feature {
                assert(self.enabled@[i as int] == feature);
                return true;
            }
            i += 1;
        }
        false
    }
}

/// A channel as a manifest writes it: by name, by URL or by path.
#[derive(Debug, PartialEq, Eq)]
pub enum NamedChannelOrUrl {
    Name(String),
    Url(String),
    Path(String),
}

/// The project-wide part of a manifest.
#[derive(Debug, PartialEq, Eq)]
pub struct Workspace {
    pub name: String,
    pub version: Option<String>,
    pub description: Option<String>,
    pub channels: Vec<NamedChannelOrUrl>,
    /// Where the mapping of each listed channel is found. An empty list switches the mapping off.
    pub conda_pypi_map: Option<Vec<(NamedChannelOrUrl, String)>>,
    pub preview: Preview,
}

/// A feature of a manifest.
#[derive(Debug, PartialEq, Eq)]
pub struct Feature {
    pub name: FeatureName,
    pub channels: Option<Vec<NamedChannelOrUrl>>,
}

/// An environment of a manifest.
#[derive(Debug, PartialEq, Eq)]
pub struct ManifestEnvironment {
    pub name: EnvironmentName,
    /// The features that make up the environment.
    pub features: Vec<FeatureName>,
    /// The platforms that the environment supports.
    pub platforms: Vec<Platform>,
    /// The place of its solve group in the manifest.
    pub solve_group: Option<usize>,
}

/// Environments of a manifest that are solved together.
#[derive(Debug, PartialEq, Eq)]
pub struct ManifestSolveGroup {
    pub name: String,
    /// The places of its environments in the manifest.
    pub environments: Vec<usize>,
}

/// The file of a manifest: the directory that it lies in, and its name there.
#[derive(Debug, PartialEq, Eq)]
pub struct ManifestPath {
    pub directory: String,
    pub file_name: String,
}

/// A manifest.
#[derive(Debug, PartialEq, Eq)]
pub struct Manifest {
    pub path: ManifestPath,
    pub workspace: Workspace,
    pub features: Vec<Feature>,
    pub environments: Vec<ManifestEnvironment>,
    pub solve_groups: Vec<ManifestSolveGroup>,
}

impl Manifest {
    /// Whether the environment at place `i` has the name `name`.
    pub open spec fn is_named(self, i: int, name: Option<Seq<char>>) -> bool {
        0 <= i < self.environments@.len() && self.environments@[i].name@ == name
    }

    /// The solve group that the environment at place `i` refers to exists and lists it.
    pub open spec fn group_lists(self, i: int) -> bool {
        self.environments@[i].solve_group matches Some(g) ==> {
            &&& g < self.solve_groups@.len()
            &&& self.solve_groups@[g as int].environments@.contains(i as usize)
        }
    }

    /// The environments that the solve group at place `g` lists exist and refer to it.
    pub open spec fn members_refer(self, g: int) -> bool {
        forall|k: int|
            0 <= k < self.solve_groups@[g].environments@.len() ==> {
                let i = #[trigger] self.solve_groups@[g].environments@[k];
                i < self.environments@.len() && self.environments@[i as int].solve_group == Some(
                    g as usize,
                )
            }
    }

    /// Every manifest has a default environment, names no environment twice, and its environments
    /// and solve groups agree on who belongs to whom.
    pub open spec fn well_formed(self) -> bool {
        &&& exists|i: int| self.is_named(i, None)
        &&& forall|i: int, j: int|
            0 <= i < j < self.environments@.len() ==> (#[trigger] self.environments@[i]).name@ != (
            #[trigger] self.environments@[j]).name@
        &&& forall|i: int| 0 <= i < self.environments@.len() ==> #[trigger] self.group_lists(i)
        &&& forall|g: int| 0 <= g < self.solve_groups@.len() ==> #[trigger] self.members_refer(g)
    }

    /// The place of the environment with the name `name`, where there is one.
    pub fn environment(&self, name: &EnvironmentName) -> (place: Option<usize>)
        ensures
            match place {
                Some(i) => self.is_named(i as int, name@) && forall|j: int|
                    0 <= j < i ==> !self.is_named(j, name@),
                None => forall|i: int| !self.is_named(i, name@),
            },
    {
        let mut i: usize = 0;
        while i < self.environments.len()
            invariant
                i <= self.environments@.len(),
                forall|j: int| 0 <= j < i ==> !self.is_named(j, name@),
            decreases self.environments.len() - i,
        {
            if self.environments[i].name.same(name) {
                return Some(i);
            }
            i += 1;
        }
        None
    }

    #[verifier::loop_isolation(false)]
    fn lists_environment(&self, g: usize, i: usize) -> (listed: bool)
        requires
            g < self.solve_groups@.len(),
        ensures
            listed == self.solve_groups@[g as int].environments@.contains(i),
    {
        let members: &Vec<usize> = &self.solve_groups[g].environments;
        let mut k: usize = 0;
        while k < members.len()
            invariant
                k <= members@.len(),
                forall|j: int| 0 <= j < k ==> members@[j] != i,
            decreases members.len() - k,
        {
            if members[k] == i {
                assert(members@[k as int] == i);
                return true;
            }
            k += 1;
        }
        false
    }

    /// Tests whether the manifest is well formed.
    pub fn is_well_formed(&self) -> (valid: bool)
        ensures
            valid == self.well_formed(),
    {
        if self.environment(&EnvironmentName::Default).is_none() {
            assert(forall|i: int| !self.is_named(i, None));
            return false;
        }
        let mut i: usize = 0;
        while i < self.environments.len()
            invariant
                i <= self.environments@.len(),
                forall|a: int, b: int|
                    0 <= a < b < i ==> (#[trigger] self.environments@[a]).name@ != (
                    #[trigger] self.environments@[b]).name@,
                forall|a: int| 0 <= a < i ==> #[trigger] self.group_lists(a),
            decreases self.environments.len() - i,
        {
            let mut j: usize = 0;
            while j < i
                invariant
                    j <= i < self.environments@.len(),
                    forall|a: int|
                        0 <= a < j ==> (#[trigger] self.environments@[a]).name@
                            != self.environments@[i as int].name@,
                decreases i - j,
            {
                if self.environments[j].name.same(&self.environments[i].name) {
                    return false;
                }
                j += 1;
            }
            match self.environments[i].solve_group {
                Some(g) => {
                    if g >= self.solve_groups.len() || !self.lists_environment(g, i) {
                        assert(!self.group_lists(i as int));
                        return false;
                    }
                },
                None => {},
            }
            i += 1;
        }
        let mut g: usize = 0;
        while g < self.solve_groups.len()
            invariant
                g <= self.solve_groups@.len(),
                forall|h: int| 0 <= h < g ==> #[trigger] self.members_refer(h),
            decreases self.solve_groups.len() - g,
        {
            let members: &Vec<usize> = &self.solve_groups[g].environments;
            let mut k: usize = 0;
            while k < members.len()
                invariant
                    g < self.solve_groups@.len(),
                    *members == self.solve_groups@[g as int].environments,
                    k <= members@.len(),
                    forall|h: int|
                        0 <= h < k ==> {
                            let m = #[trigger] members@[h];
                            m < self.environments@.len()
                                && self.environments@[m as int].solve_group == Some(g)
                        },
                decreases members.len() - k,
            {
                let m: usize = members[k];
                let refers: bool = m < self.environments.len() && match self.environments[m].solve_group {
                    Some(h) => h == g,
                    None => false,
                };
                if !refers {
                    assert(!self.members_refer(g as int)) by {
                        assert(self.solve_groups@[g as int].environments@[k as int] == m);
                    }
                    return false;
                }
                k += 1;
            }
            assert(self.members_refer(g as int));
            g += 1;
        }
        true
    }
}

/// A platform is written by its system and its architecture, and no two are written alike.
pub proof fn law_platforms_are_written_apart(platform: Platform, other: Platform)
    ensures
        platform.text() == match platform {
            Platform::NoArch => "noarch"@,
            Platform::Unknown => "unknown"@,
            Platform::Linux32 => "linux-32"@,
            Platform::Linux64 => "linux-64"@,
            Platform::LinuxAarch64 => "linux-aarch64"@,
            Platform::LinuxArmV6l => "linux-armv6l"@,
            Platform::LinuxArmV7l => "linux-armv7l"@,
            Platform::LinuxPpc64le => "linux-ppc64le"@,
            Platform::LinuxPpc64 => "linux-ppc64"@,
            Platform::LinuxPpc => "linux-ppc"@,
            Platform::LinuxS390X => "linux-s390x"@,
            Platform::LinuxRiscv32 => "linux-riscv32"@,
            Platform::LinuxRiscv64 => "linux-riscv64"@,
            Platform::Osx64 => "osx-64"@,
            Platform::OsxArm64 => "osx-arm64"@,
            Platform::Win32 => "win-32"@,
            Platform::Win64 => "win-64"@,
            Platform::WinArm64 => "win-arm64"@,
            Platform::EmscriptenWasm32 => "emscripten-wasm32"@,
            Platform::WasiWasm32 => "wasi-wasm32"@,
            Platform::ZosZ => "zos-z"@,
        },
        platform.text() == other.text() ==> platform == other,
{
    reveal_strlit("noarch");
    reveal_strlit("unknown");
    reveal_strlit("linux-32");
    reveal_strlit("linux-64");
    reveal_strlit("linux-aarch64");
    reveal_strlit("linux-armv6l");
    reveal_strlit("linux-armv7l");
    reveal_strlit("linux-ppc64le");
    reveal_strlit("linux-ppc64");
    reveal_strlit("linux-ppc");
    reveal_strlit("linux-s390x");
    reveal_strlit("linux-riscv32");
    reveal_strlit("linux-riscv64");
    reveal_strlit("osx-64");
    reveal_strlit("osx-arm64");
    reveal_strlit("win-32");
    reveal_strlit("win-64");
    reveal_strlit("win-arm64");
    reveal_strlit("emscripten-wasm32");
    reveal_strlit("wasi-wasm32");
    reveal_strlit("zos-z");
    if platform.text() == other.text() {
        let a = platform.text();
        let b = other.text();
        assert(a.len() == b.len());
        assert(a[0] == b[0]);
        assert(a[1] == b[1]);
        assert(a.len() > 6 ==> a[6] == b[6]);
        assert(a.len() > 4 ==> a[4] == b[4]);
        assert(a.len() > 10 ==> a[10] == b[10]);
        assert(a.len() > 11 ==> a[11] == b[11]);
    }
}

/// Each kind of conda dependency has a table of its own.
pub proof fn law_tables_differ(spec_type: SpecType, other: SpecType)
    ensures
        SpecType::Host.spec_name() == "host-dependencies"@,
        SpecType::Build.spec_name() == "build-dependencies"@,
        SpecType::Run.spec_name() == "dependencies"@,
        PYPI_DEPENDENCIES@ == "pypi-dependencies"@,
        spec_type.spec_name() == other.spec_name() ==> spec_type == other,
        spec_type.spec_name() != PYPI_DEPENDENCIES@,
{
    reveal_strlit("host-dependencies");
    reveal_strlit("build-dependencies");
    reveal_strlit("dependencies");
    reveal_strlit("pypi-dependencies");
    let a = spec_type.spec_name();
    let b = other.spec_name();
    if a == b {
        assert(a[0] == b[0]);
        assert(a.len() == b.len());
    }
    if a == PYPI_DEPENDENCIES@ {
        assert(a[0] == PYPI_DEPENDENCIES@[0]);
    }
}

/// Two names are those of the same environment exactly if both are the default, or both the same
/// text. The default environment is written as such.
pub proof fn law_environment_names(a: EnvironmentName, b: EnvironmentName)
    ensures
        a@ == b@ <==> match (a, b) {
            (EnvironmentName::Default, EnvironmentName::Default) => true,
            (EnvironmentName::Named(x), EnvironmentName::Named(y)) => x@ == y@,
            _ => false,
        },
        a@ is None <==> a is Default,
        a@ matches Some(name) ==> a.text() == name,
        a matches EnvironmentName::Named(name) ==> a.text() == name@,
        a is Default ==> a.text() == "default"@,
{
}

/// Two names are those of the same feature exactly if both are the default, or both the same text.
pub proof fn law_feature_names(a: FeatureName, b: FeatureName)
    ensures
        a@ == b@ <==> match (a, b) {
            (FeatureName::Default, FeatureName::Default) => true,
            (FeatureName::Named(x), FeatureName::Named(y)) => x@ == y@,
            _ => false,
        },
        a@ is None <==> a is Default,
        a matches FeatureName::Named(name) ==> a@ == Some(name@),
{
}

/// A preview feature is switched on exactly if all are, or if it is anywhere among those named.
pub proof fn law_preview_features(preview: Preview, feature: KnownPreviewFeature)
    ensures
        preview.enables(feature) <==> preview.all_enabled || exists|k: int|
            0 <= k < preview.enabled@.len() && #[trigger] preview.enabled@[k] == feature,
{
    if preview.enabled@.contains(feature) {
        let k = preview.enabled@.index_of(feature);
        assert(preview.enabled@[k] == feature);
    }
}

/// An environment has a name exactly if it is there and is called so.
pub proof fn law_named_environment(manifest: Manifest, i: int, name: EnvironmentName)
    ensures
        manifest.is_named(i, name@) <==> 0 <= i < manifest.environments@.len() && match (
            manifest.environments@[i].name,
            name,
        ) {
            (EnvironmentName::Default, EnvironmentName::Default) => true,
            (EnvironmentName::Named(x), EnvironmentName::Named(y)) => x@ == y@,
            _ => false,
        },
{
}

/// Whether the environment at place `i` and the solve group at place `g` know of each other: the
/// environment refers to the group, and the group lists it.
pub open spec fn belongs(manifest: Manifest, i: int, g: int) -> bool {
    &&& 0 <= i < manifest.environments@.len()
    &&& 0 <= g < manifest.solve_groups@.len()
    &&& manifest.environments@[i].solve_group matches Some(place) && place == g
    &&& exists|k: int|
        0 <= k < manifest.solve_groups@[g].environments@.len()
            && #[trigger] manifest.solve_groups@[g].environments@[k] == i
}

/// What a well-formed manifest promises, and nothing else does: it has a default environment, no
/// two of its environments are called alike, every environment that refers to a solve group belongs
/// to it, and every environment that a solve group lists does.
pub proof fn law_well_formed_manifest(manifest: Manifest)
    ensures
        manifest.well_formed() <==> {
            &&& exists|i: int|
                0 <= i < manifest.environments@.len() && (
                #[trigger] manifest.environments@[i]).name is Default
            &&& forall|i: int, j: int|
                0 <= i < j < manifest.environments@.len() ==> (
                #[trigger] manifest.environments@[i]).name@ != (
                #[trigger] manifest.environments@[j]).name@
            &&& forall|i: int|
                0 <= i < manifest.environments@.len() ==> ((
                #[trigger] manifest.environments@[i]).solve_group matches Some(g) ==> belongs(
                    manifest,
                    i,
                    g as int,
                ))
            &&& forall|g: int, k: int|
                0 <= g < manifest.solve_groups@.len() && 0 <= k
                    < manifest.solve_groups@[g].environments@.len() ==> belongs(
                    manifest,
                    #[trigger] manifest.solve_groups@[g].environments@[k] as int,
                    g,
                )
        },
{
    assert(manifest.environments@.len() == manifest.environments.len());
    assert(manifest.solve_groups@.len() == manifest.solve_groups.len());
    if manifest.well_formed() {
        let d = choose|i: int| manifest.is_named(i, None);
        assert(manifest.environments@[d].name is Default);
        assert forall|i: int| 0 <= i < manifest.environments@.len() implies ((
        #[trigger] manifest.environments@[i]).solve_group matches Some(g) ==> belongs(
            manifest,
            i,
            g as int,
        )) by {
            assert(manifest.group_lists(i));
            if let Some(g) = manifest.environments@[i].solve_group {
                let k = manifest.solve_groups@[g as int].environments@.index_of(i as usize);
                assert(manifest.solve_groups@[g as int].environments@[k] == i);
            }
        }
        assert forall|g: int, k: int|
            0 <= g < manifest.solve_groups@.len() && 0 <= k
                < manifest.solve_groups@[g].environments@.len() implies belongs(
            manifest,
            #[trigger] manifest.solve_groups@[g].environments@[k] as int,
            g,
        ) by {
            assert(manifest.members_refer(g));
        }
    }
    if {
        &&& exists|i: int|
            0 <= i < manifest.environments@.len() && (
            #[trigger] manifest.environments@[i]).name is Default
        &&& forall|i: int, j: int|
            0 <= i < j < manifest.environments@.len() ==> (
            #[trigger] manifest.environments@[i]).name@ != (
            #[trigger] manifest.environments@[j]).name@
        &&& forall|i: int|
            0 <= i < manifest.environments@.len() ==> ((
            #[trigger] manifest.environments@[i]).solve_group matches Some(g) ==> belongs(
                manifest,
                i,
                g as int,
            ))
        &&& forall|g: int, k: int|
            0 <= g < manifest.solve_groups@.len() && 0 <= k
                < manifest.solve_groups@[g].environments@.len() ==> belongs(
                manifest,
                #[trigger] manifest.solve_groups@[g].environments@[k] as int,
                g,
            )
    } {
        let d = choose|i: int|
            0 <= i < manifest.environments@.len() && (
            #[trigger] manifest.environments@[i]).name is Default;
        assert(manifest.is_named(d, None));
        assert forall|i: int| 0 <= i < manifest.environments@.len() implies
            #[trigger] manifest.group_lists(i) by {
            if let Some(g) = manifest.environments@[i].solve_group {
                assert(belongs(manifest, i, g as int));
                let members = manifest.solve_groups@[g as int].environments@;
                let k = choose|k: int|
                    0 <= k < members.len()
                        && #[trigger] manifest.solve_groups@[g as int].environments@[k] == i;
                assert(members[k] == i as usize);
            }
        }
        assert forall|g: int| 0 <= g < manifest.solve_groups@.len() implies
            #[trigger] manifest.members_refer(g) by {
            assert forall|k: int|
                0 <= k < manifest.solve_groups@[g].environments@.len() implies ({
                let i = #[trigger] manifest.solve_groups@[g].environments@[k];
                i < manifest.environments@.len() && manifest.environments@[i as int].solve_group
                    == Some(g as usize)
            }) by {
                assert(belongs(manifest, manifest.solve_groups@[g].environments@[k] as int, g));
            }
        }
    }
}

/// The place of an environment is the first that has the name, and there is none exactly if no
/// environment has it.
pub proof fn law_place_of_an_environment(
    manifest: Manifest,
    name: EnvironmentName,
    place: Option<usize>,
)
    requires
        call_ensures(Manifest::environment, (&manifest, &name), place),
    ensures
        match place {
            Some(i) => i < manifest.environments@.len() && manifest.environments@[i as int].name@
                == name@ && forall|j: int|
                0 <= j < i ==> (#[trigger] manifest.environments@[j]).name@ != name@,
            None => forall|j: int|
                0 <= j < manifest.environments@.len() ==> (
                #[trigger] manifest.environments@[j]).name@ != name@,
        },
{
    match place {
        Some(i) => {
            assert(manifest.is_named(i as int, name@));
            assert forall|j: int| 0 <= j < i implies (#[trigger] manifest.environments@[j]).name@
                != name@ by {
                assert(!manifest.is_named(j, name@));
            }
        },
        None => {
            assert forall|j: int| 0 <= j < manifest.environments@.len() implies (
            #[trigger] manifest.environments@[j]).name@ != name@ by {
                assert(!manifest.is_named(j, name@));
            }
        },
    }
}

/// A manifest that is tested to be well formed is, and no other.
pub proof fn law_test_of_a_manifest(manifest: Manifest, valid: bool)
    requires
        call_ensures(Manifest::is_well_formed, (&manifest,), valid),
    ensures
        valid <==> manifest.well_formed(),
{
}

/// Names are compared by what they name.
pub proof fn law_names_are_compared(
    a: EnvironmentName,
    b: EnvironmentName,
    same_environment: bool,
    c: FeatureName,
    d: FeatureName,
    same_feature: bool,
)
    requires
        call_ensures(EnvironmentName::same, (&a, &b), same_environment),
        call_ensures(FeatureName::same, (&c, &d), same_feature),
    ensures
        same_environment <==> match (a, b) {
            (EnvironmentName::Default, EnvironmentName::Default) => true,
            (EnvironmentName::Named(x), EnvironmentName::Named(y)) => x@ == y@,
            _ => false,
        },
        same_feature <==> match (c, d) {
            (FeatureName::Default, FeatureName::Default) => true,
            (FeatureName::Named(x), FeatureName::Named(y)) => x@ == y@,
            _ => false,
        },
{
}

/// How names, platforms and tables are written.
pub proof fn law_written_names(
    name: EnvironmentName,
    text: &str,
    platform: Platform,
    platform_text: &'static str,
    dependency: DependencyType,
    table: &'static str,
)
    requires
        call_ensures(EnvironmentName::as_str, (&name,), text),
        call_ensures(Platform::as_str, (&platform,), platform_text),
        call_ensures(DependencyType::name, (&dependency,), table),
    ensures
        name is Default ==> text@ == "default"@,
        name matches EnvironmentName::Named(given) ==> text@ == given@,
        platform_text@ == platform.text(),
        table@ == match dependency {
            DependencyType::CondaDependency(SpecType::Host) => "host-dependencies"@,
            DependencyType::CondaDependency(SpecType::Build) => "build-dependencies"@,
            DependencyType::CondaDependency(SpecType::Run) => "dependencies"@,
            DependencyType::PypiDependency => "pypi-dependencies"@,
        },
{
}

/// A preview feature is found to be switched on exactly if all are, or if it is named.
pub proof fn law_enabled_preview(preview: Preview, feature: KnownPreviewFeature, enabled: bool)
    requires
        call_ensures(Preview::is_enabled, (&preview, feature), enabled),
    ensures
        enabled <==> preview.all_enabled || exists|k: int|
            0 <= k < preview.enabled@.len() && #[trigger] preview.enabled@[k] == feature,
{
    law_preview_features(preview, feature);
}

} // verus!
