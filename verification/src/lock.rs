//! What an update reads of a lock file, and which packages it releases from it.

use vstd::prelude::*;
use std::str::FromStr;
use crate::affected::{pairs, EnvironmentPlatform};
use crate::manifest::Platform;
use crate::text::{text_eq, texts};

verus! {

/// The lock file of `rattler_lock`: the locked packages of every environment on every platform.
#[verifier::external_type_specification]
#[verifier::external_body]
pub struct ExLockFile(rattler_lock::LockFile);

/// A locked package: its normalised name and its version.
#[derive(Debug, PartialEq, Eq)]
pub struct Record {
    pub name: String,
    pub version: String,
}

impl View for Record {
    type V = (Seq<char>, Seq<char>);

    open spec fn view(&self) -> (Seq<char>, Seq<char>) {
        (self.name@, self.version@)
    }
}

impl Clone for Record {
    fn clone(&self) -> (copy: Self)
        ensures
            copy == *self,
    {
        Record { name: self.name.clone(), version: self.version.clone() }
    }
}

/// The names and versions of a list of packages.
pub open spec fn records(list: Seq<Record>) -> Seq<(Seq<char>, Seq<char>)> {
    list.map_values(|record: Record| record@)
}

/// The conda packages that a lock file holds, by environment and platform, without those built
/// from source. A key is there if the packages can all be read as records of a package index.
pub uninterp spec fn conda_packages_in(lock_file: rattler_lock::LockFile) -> Map<
    (Seq<char>, Platform),
    Seq<(Seq<char>, Seq<char>)>,
>;

/// The PyPI packages that a lock file holds, by environment and platform.
pub uninterp spec fn pypi_packages_in(lock_file: rattler_lock::LockFile) -> Map<
    (Seq<char>, Platform),
    Seq<(Seq<char>, Seq<char>)>,
>;

/// Reads the conda packages of an environment on a platform with `LockFile::environment` and
/// `Environment::conda_repodata_records` of `rattler_lock`. The claim: they are what the lock file
/// holds under that environment and platform, in its order, and nothing comes back exactly if it
/// holds nothing there.
#[verifier::external_body]
pub(crate) fn conda_packages(
    lock_file: &rattler_lock::LockFile,
    environment: &str,
    platform: Platform,
) -> (list: Option<Vec<Record>>)
    ensures
        match list {
            Some(list) => conda_packages_in(*lock_file).contains_key((environment@, platform))
                && records(list@) == conda_packages_in(*lock_file)[(environment@, platform)],
            None => !conda_packages_in(*lock_file).contains_key((environment@, platform)),
        },
{
    let platform = rattler_conda_types::Platform::from_str(platform.as_str())
        .unwrap_or(rattler_conda_types::Platform::Unknown);
    let list = lock_file.environment(environment)?.conda_repodata_records(platform).ok()??;
    Some(list.into_iter().map(|record| Record {
        name: record.package_record.name.as_normalized().to_owned(),
        version: record.package_record.version.version().to_string(),
    }).collect())
}

/// Reads the PyPI packages of an environment on a platform with `LockFile::environment` and
/// `Environment::pypi_packages` of `rattler_lock`. The claim: they are what the lock file holds
/// under that environment and platform, in its order, and nothing comes back exactly if it holds
/// nothing there.
#[verifier::external_body]
pub(crate) fn pypi_packages(
    lock_file: &rattler_lock::LockFile,
    environment: &str,
    platform: Platform,
) -> (list: Option<Vec<Record>>)
    ensures
        match list {
            Some(list) => pypi_packages_in(*lock_file).contains_key((environment@, platform))
                && records(list@) == pypi_packages_in(*lock_file)[(environment@, platform)],
            None => !pypi_packages_in(*lock_file).contains_key((environment@, platform)),
        },
{
    let platform = rattler_conda_types::Platform::from_str(platform.as_str())
        .unwrap_or(rattler_conda_types::Platform::Unknown);
    let environment = lock_file.environment(environment)?;
    let list = environment.pypi_packages(platform)?.map(|(data, _)| Record {
        name: data.name.to_string(),
        version: data.version.to_string(),
    });
    Some(list.collect())
}

/// The packages of the given environments and platforms, one pair after the other.
pub open spec fn collected(
    packages: Map<(Seq<char>, Platform), Seq<(Seq<char>, Seq<char>)>>,
    from: Seq<(Seq<char>, Platform)>,
) -> Seq<(Seq<char>, Seq<char>)>
    decreases from.len(),
{
    if from.len() == 0 {
        Seq::empty()
    } else {
        let front = collected(packages, from.drop_last());
        if packages.contains_key(from.last()) {
            front + packages[from.last()]
        } else {
            front
        }
    }
}

proof fn lemma_collect_step(
    packages: Map<(Seq<char>, Platform), Seq<(Seq<char>, Seq<char>)>>,
    from: Seq<EnvironmentPlatform>,
    k: int,
)
    requires
        0 <= k < from.len(),
    ensures
        collected(packages, pairs(from).take(k + 1)) == if packages.contains_key(from[k]@) {
            collected(packages, pairs(from).take(k)) + packages[from[k]@]
        } else {
            collected(packages, pairs(from).take(k))
        },
{
    assert(pairs(from).take(k + 1).drop_last() =~= pairs(from).take(k));
}

/// The conda packages of the given environments and platforms.
pub fn collect_conda_packages(
    lock_file: &rattler_lock::LockFile,
    from: &Vec<EnvironmentPlatform>,
) -> (list: Vec<Record>)
    ensures
        records(list@) == collected(conda_packages_in(*lock_file), pairs(from@)),
{
    let mut list: Vec<Record> = Vec::new();
    let mut k: usize = 0;
    assert(records(list@) =~= collected(conda_packages_in(*lock_file), pairs(from@).take(0)));
    while k < from.len()
        invariant
            k <= from@.len(),
            records(list@) == collected(conda_packages_in(*lock_file), pairs(from@).take(k as int)),
        decreases from.len() - k,
    {
        proof {
            lemma_collect_step(conda_packages_in(*lock_file), from@, k as int);
        }
        match conda_packages(lock_file, from[k].environment.as_str(), from[k].platform) {
            Some(mut more) => {
                let ghost before = list@;
                let ghost appended = more@;
                list.append(&mut more);
                assert(records(list@) =~= records(before) + records(appended));
            },
            None => {},
        }
        k += 1;
    }
    assert(pairs(from@).take(k as int) =~= pairs(from@));
    list
}

/// The PyPI packages of the given environments and platforms.
pub fn collect_pypi_packages(
    lock_file: &rattler_lock::LockFile,
    from: &Vec<EnvironmentPlatform>,
) -> (list: Vec<Record>)
    ensures
        records(list@) == collected(pypi_packages_in(*lock_file), pairs(from@)),
{
    let mut list: Vec<Record> = Vec::new();
    let mut k: usize = 0;
    assert(records(list@) =~= collected(pypi_packages_in(*lock_file), pairs(from@).take(0)));
    while k < from.len()
        invariant
            k <= from@.len(),
            records(list@) == collected(pypi_packages_in(*lock_file), pairs(from@).take(k as int)),
        decreases from.len() - k,
    {
        proof {
            lemma_collect_step(pypi_packages_in(*lock_file), from@, k as int);
        }
        match pypi_packages(lock_file, from[k].environment.as_str(), from[k].platform) {
            Some(mut more) => {
                let ghost before = list@;
                let ghost appended = more@;
                list.append(&mut more);
                assert(records(list@) =~= records(before) + records(appended));
            },
            None => {},
        }
        k += 1;
    }
    assert(pairs(from@).take(k as int) =~= pairs(from@));
    list
}

/// The kind of a locked package.
#[derive(Clone, Copy, Debug, PartialEq, Eq, Structural)]
pub enum PackageKind {
    Conda,
    Pypi,
}

/// A package of a lock file, with the environment and the platform that it is locked for.
#[derive(Debug, PartialEq, Eq)]
pub struct LockedPackage {
    pub environment: String,
    pub platform: Platform,
    pub kind: PackageKind,
    /// The normalised name of the package.
    pub name: String,
}

/// What an update releases from the lock file: the packages with these normalised names, in these
/// environments on these platforms.
pub struct Release {
    pub conda_packages: Vec<String>,
    pub pypi_packages: Vec<String>,
    pub affected: Vec<EnvironmentPlatform>,
}

impl Release {
    /// The names of the kind `kind`.
    pub open spec fn names(self, kind: PackageKind) -> Seq<Seq<char>> {
        match kind {
            PackageKind::Conda => texts(self.conda_packages@),
            PackageKind::Pypi => texts(self.pypi_packages@),
        }
    }

    /// Whether `package` stays locked.
    pub open spec fn retains(self, package: LockedPackage) -> bool {
        !(pairs(self.affected@).contains((package.environment@, package.platform)) && self.names(
            package.kind,
        ).contains(package.name@))
    }

    /// Whether a package stays locked: it is not affected, or it is not among those released.
    pub fn keeps(
        &self,
        environment: &str,
        platform: Platform,
        kind: PackageKind,
        name: &str,
    ) -> (kept: bool)
        ensures
            kept == !(pairs(self.affected@).contains((environment@, platform)) && self.names(
                kind,
            ).contains(name@)),
    {
        if contains_pair(&self.affected, environment, platform) {
            match kind {
                PackageKind::Conda => !contains_name(&self.conda_packages, name),
                PackageKind::Pypi => !contains_name(&self.pypi_packages, name),
            }
        } else {
            true
        }
    }
}

/// Whether `name` is among `names`.
pub fn contains_name(names: &Vec<String>, name: &str) -> (found: bool)
    ensures
        found == texts(names@).contains(name@),
{
    let mut k: usize = 0;
    while k < names.len()
        invariant
            k <= names@.len(),
            forall|j: int| 0 <= j < k ==> #[trigger] texts(names@)[j] != name@,
        decreases names.len() - k,
    {
        if text_eq(names[k].as_str(), name) {
            assert(texts(names@)[k as int] == name@);
            return true;
        }
        assert(texts(names@)[k as int] != name@);
        k += 1;
    }
    false
}

fn contains_pair(list: &Vec<EnvironmentPlatform>, environment: &str, platform: Platform) -> (found: bool)
    ensures
        found == pairs(list@).contains((environment@, platform)),
{
    let mut k: usize = 0;
    while k < list.len()
        invariant
            k <= list@.len(),
            forall|j: int| 0 <= j < k ==> #[trigger] pairs(list@)[j] != (environment@, platform),
        decreases list.len() - k,
    {
        if list[k].platform == platform && text_eq(list[k].environment.as_str(), environment) {
            assert(pairs(list@)[k as int] == (environment@, platform));
            return true;
        }
        assert(pairs(list@)[k as int] != (environment@, platform));
        k += 1;
    }
    false
}

/// The packages that stay locked, in their order.
pub fn unlock_packages(packages: Vec<LockedPackage>, release: &Release) -> (kept: Vec<LockedPackage>)
    ensures
        kept@ == packages@.filter(|package: LockedPackage| release.retains(package)),
{
    let ghost all = packages@;
    let ghost stays = |package: LockedPackage| release.retains(package);
    let mut kept: Vec<LockedPackage> = Vec::new();
    assert(all.take(0).filter(stays) =~= Seq::<LockedPackage>::empty()) by {
        reveal(Seq::filter);
    }
    for package in iter: packages
        invariant
            iter.seq() == all,
            stays == |package: LockedPackage| release.retains(package),
            kept@ == all.take(iter.index()).filter(stays),
    {
        proof {
            let front = all.take(iter.index());
            assert(all.take(iter.index() + 1) =~= front.push(package));
            front.lemma_filter_push(package, stays);
        }
        if release.keeps(
            package.environment.as_str(),
            package.platform,
            package.kind,
            package.name.as_str(),
        ) {
            assert(stays(package));
            kept.push(package);
        } else {
            assert(!stays(package));
        }
    }
    assert(all.take(all.len() as int) =~= all);
    kept
}

/// Releasing the same packages again changes nothing.
pub proof fn law_release_is_idempotent(packages: Seq<LockedPackage>, release: Release)
    ensures
        ({
            let stays = |package: LockedPackage| release.retains(package);
            packages.filter(stays).filter(stays) == packages.filter(stays)
        }),
{
    let stays = |package: LockedPackage| release.retains(package);
    lemma_filter_twice(packages, stays);
}

proof fn lemma_filter_twice(packages: Seq<LockedPackage>, stays: spec_fn(LockedPackage) -> bool)
    ensures
        packages.filter(stays).filter(stays) == packages.filter(stays),
    decreases packages.len(),
{
    reveal(Seq::filter);
    if packages.len() > 0 {
        lemma_filter_twice(packages.drop_last(), stays);
        let front = packages.drop_last().filter(stays);
        if stays(packages.last()) {
            front.lemma_filter_push(packages.last(), stays);
        }
    }
}

/// A package is released exactly if its environment and platform are anywhere among those that are
/// affected, and its name anywhere among the names of its kind.
pub proof fn law_released_packages_are_named(release: Release, package: LockedPackage)
    ensures
        release.retains(package) <==> !((exists|a: int|
            0 <= a < release.affected@.len() && (#[trigger] release.affected@[a]).environment@
                == package.environment@ && release.affected@[a].platform == package.platform)
            && match package.kind {
            PackageKind::Conda => exists|k: int|
                0 <= k < release.conda_packages@.len() && (#[trigger] release.conda_packages@[k])@
                    == package.name@,
            PackageKind::Pypi => exists|k: int|
                0 <= k < release.pypi_packages@.len() && (#[trigger] release.pypi_packages@[k])@
                    == package.name@,
        }),
{
    let places = pairs(release.affected@);
    let pair = (package.environment@, package.platform);
    if places.contains(pair) {
        let a = places.index_of(pair);
        assert(release.affected@[a].environment@ == package.environment@);
    }
    assert forall|a: int|
        0 <= a < release.affected@.len() && (#[trigger] release.affected@[a]).environment@
            == package.environment@ && release.affected@[a].platform
            == package.platform implies places.contains(pair) by {
        assert(places[a] == pair);
    }
    match package.kind {
        PackageKind::Conda => lemma_names(release.conda_packages@, package.name@),
        PackageKind::Pypi => lemma_names(release.pypi_packages@, package.name@),
    }
}

proof fn lemma_names(names: Seq<String>, name: Seq<char>)
    ensures
        texts(names).contains(name) <==> exists|k: int|
            0 <= k < names.len() && (#[trigger] names[k])@ == name,
{
    if texts(names).contains(name) {
        let k = texts(names).index_of(name);
        assert(names[k]@ == name);
    }
    assert forall|k: int| 0 <= k < names.len() && (#[trigger] names[k])@ == name implies texts(
        names,
    ).contains(name) by {
        assert(texts(names)[k] == name);
    }
}

/// What an update leaves alone: a package stays locked if its environment and platform are not
/// affected, or if it is not among the packages of its kind that the update is about.
pub proof fn law_release_leaves_others(
    packages: Seq<LockedPackage>,
    release: Release,
    package: LockedPackage,
)
    requires
        packages.contains(package),
        (forall|a: int|
            0 <= a < release.affected@.len() ==> (#[trigger] release.affected@[a]).environment@
                != package.environment@ || release.affected@[a].platform != package.platform)
            || match package.kind {
            PackageKind::Conda => forall|k: int|
                0 <= k < release.conda_packages@.len() ==> (
                #[trigger] release.conda_packages@[k])@ != package.name@,
            PackageKind::Pypi => forall|k: int|
                0 <= k < release.pypi_packages@.len() ==> (#[trigger] release.pypi_packages@[k])@
                    != package.name@,
        },
    ensures
        packages.filter(|package: LockedPackage| release.retains(package)).contains(package),
{
    broadcast use vstd::seq_lib::group_filter_ensures;

    let stays = |package: LockedPackage| release.retains(package);
    law_released_packages_are_named(release, package);
    let k = packages.index_of(package);
    assert(stays(packages[k]));
    assert(packages.filter(stays).contains(packages[k]));
}

/// What an update releases: in no affected environment and platform does a package stay locked that
/// is of one of the names of its kind, and nothing is locked that was not.
pub proof fn law_release_frees(
    packages: Seq<LockedPackage>,
    release: Release,
    package: LockedPackage,
)
    requires
        packages.filter(|package: LockedPackage| release.retains(package)).contains(package),
    ensures
        packages.contains(package),
        forall|a: int, k: int|
            {
                &&& 0 <= a < release.affected@.len()
                &&& 0 <= k < release.conda_packages@.len()
                &&& (#[trigger] release.affected@[a]).environment@ == package.environment@
                &&& release.affected@[a].platform == package.platform
                &&& (#[trigger] release.conda_packages@[k])@ == package.name@
            } ==> package.kind == PackageKind::Pypi,
        forall|a: int, k: int|
            {
                &&& 0 <= a < release.affected@.len()
                &&& 0 <= k < release.pypi_packages@.len()
                &&& (#[trigger] release.affected@[a]).environment@ == package.environment@
                &&& release.affected@[a].platform == package.platform
                &&& (#[trigger] release.pypi_packages@[k])@ == package.name@
            } ==> package.kind == PackageKind::Conda,
{
    let stays = |package: LockedPackage| release.retains(package);
    packages.lemma_filter_contains_rev(stays, package);
    assert(stays(package));
    law_released_packages_are_named(release, package);
}

/// What is left locked is what is not released, in its order.
pub proof fn law_what_stays_locked(packages: Seq<LockedPackage>, release: Release)
    ensures
        packages.filter(|package: LockedPackage| release.retains(package)) == packages.filter(
            |package: LockedPackage|
                !(release.affected@.map_values(
                    |pair: EnvironmentPlatform| (pair.environment@, pair.platform),
                ).contains((package.environment@, package.platform)) && match package.kind {
                    PackageKind::Conda => release.conda_packages@,
                    PackageKind::Pypi => release.pypi_packages@,
                }.map_values(|name: String| name@).contains(package.name@)),
        ),
{
    let stays = |package: LockedPackage| release.retains(package);
    let left = |package: LockedPackage|
        !(release.affected@.map_values(
            |pair: EnvironmentPlatform| (pair.environment@, pair.platform),
        ).contains((package.environment@, package.platform)) && match package.kind {
            PackageKind::Conda => release.conda_packages@,
            PackageKind::Pypi => release.pypi_packages@,
        }.map_values(|name: String| name@).contains(package.name@));
    assert forall|package: LockedPackage| #[trigger] stays(package) == left(package) by {
        assert(pairs(release.affected@) =~= release.affected@.map_values(
            |pair: EnvironmentPlatform| (pair.environment@, pair.platform),
        ));
        assert(texts(release.conda_packages@) =~= release.conda_packages@.map_values(
            |name: String| name@,
        ));
        assert(texts(release.pypi_packages@) =~= release.pypi_packages@.map_values(
            |name: String| name@,
        ));
    }
    assert(stays =~= left);
}

/// The packages of several environments and platforms are those of the first, then those of the
/// second, and so on. One that the lock file does not hold adds nothing.
pub proof fn law_collected(
    packages: Map<(Seq<char>, Platform), Seq<(Seq<char>, Seq<char>)>>,
    from: Seq<(Seq<char>, Platform)>,
)
    ensures
        collected(packages, from) == from.map_values(
            |pair: (Seq<char>, Platform)|
                if packages.contains_key(pair) {
                    packages[pair]
                } else {
                    Seq::empty()
                },
        ).flatten(),
    decreases from.len(),
{
    let of_pair = |pair: (Seq<char>, Platform)|
        if packages.contains_key(pair) {
            packages[pair]
        } else {
            Seq::<(Seq<char>, Seq<char>)>::empty()
        };
    if from.len() == 0 {
        assert(from.map_values(of_pair) =~= Seq::<Seq<(Seq<char>, Seq<char>)>>::empty());
    } else {
        let front = from.drop_last();
        law_collected(packages, front);
        assert(from.map_values(of_pair) =~= front.map_values(of_pair).push(of_pair(from.last())));
        front.map_values(of_pair).lemma_flatten_push(of_pair(from.last()));
    }
}

/// What a list of packages holds is the names and the versions of its entries.
pub proof fn law_records(list: Seq<Record>)
    ensures
        records(list).len() == list.len(),
        forall|i: int|
            0 <= i < list.len() ==> #[trigger] records(list)[i] == (
                list[i].name@,
                list[i].version@,
            ),
{
}

/// Whether a package stays locked, asked of a release by its names: it does not exactly if its
/// environment and platform are affected and its name is among those of its kind.
pub proof fn law_keeps(
    release: Release,
    environment: &str,
    platform: Platform,
    kind: PackageKind,
    name: &str,
    kept: bool,
)
    requires
        call_ensures(Release::keeps, (&release, environment, platform, kind, name), kept),
    ensures
        kept <==> !((exists|a: int|
            0 <= a < release.affected@.len() && (#[trigger] release.affected@[a]).environment@
                == environment@ && release.affected@[a].platform == platform) && match kind {
            PackageKind::Conda => exists|k: int|
                0 <= k < release.conda_packages@.len() && (#[trigger] release.conda_packages@[k])@
                    == name@,
            PackageKind::Pypi => exists|k: int|
                0 <= k < release.pypi_packages@.len() && (#[trigger] release.pypi_packages@[k])@
                    == name@,
        }),
{
    let places = pairs(release.affected@);
    let pair = (environment@, platform);
    if places.contains(pair) {
        let a = places.index_of(pair);
        assert(release.affected@[a].environment@ == environment@);
    }
    assert forall|a: int|
        0 <= a < release.affected@.len() && (#[trigger] release.affected@[a]).environment@
            == environment@ && release.affected@[a].platform == platform implies places.contains(
        pair,
    ) by {
        assert(places[a] == pair);
    }
    lemma_names(release.conda_packages@, name@);
    lemma_names(release.pypi_packages@, name@);
}

/// What is unlocked: a package is left exactly if it was there, and either is not in an affected
/// environment and platform or has none of the names of its kind. Those that are left keep their
/// order.
pub proof fn law_unlocked_packages(
    packages: Vec<LockedPackage>,
    release: Release,
    kept: Vec<LockedPackage>,
    package: LockedPackage,
)
    requires
        call_ensures(unlock_packages, (packages, &release), kept),
    ensures
        kept@.contains(package) <==> packages@.contains(package) && !((exists|a: int|
            0 <= a < release.affected@.len() && (#[trigger] release.affected@[a]).environment@
                == package.environment@ && release.affected@[a].platform == package.platform)
            && match package.kind {
            PackageKind::Conda => exists|k: int|
                0 <= k < release.conda_packages@.len() && (#[trigger] release.conda_packages@[k])@
                    == package.name@,
            PackageKind::Pypi => exists|k: int|
                0 <= k < release.pypi_packages@.len() && (#[trigger] release.pypi_packages@[k])@
                    == package.name@,
        }),
        kept@ == packages@.filter(
            |package: LockedPackage|
                !(release.affected@.map_values(
                    |pair: EnvironmentPlatform| (pair.environment@, pair.platform),
                ).contains((package.environment@, package.platform)) && match package.kind {
                    PackageKind::Conda => release.conda_packages@,
                    PackageKind::Pypi => release.pypi_packages@,
                }.map_values(|name: String| name@).contains(package.name@)),
        ),
{
    law_what_stays_locked(packages@, release);
    law_released_packages_are_named(release, package);
    if kept@.contains(package) {
        law_release_frees(packages@, release, package);
        let stays = |package: LockedPackage| release.retains(package);
        packages@.lemma_filter_contains_rev(stays, package);
        assert(stays(package));
    }
    if packages@.contains(package) && release.retains(package) {
        law_release_leaves_others(packages@, release, package);
    }
}

/// The packages that are read of a lock file are those of the given environments and platforms, one
/// after the other, of each kind by itself.
pub proof fn law_collected_packages(
    lock_file: rattler_lock::LockFile,
    from: Vec<EnvironmentPlatform>,
    conda: Vec<Record>,
    pypi: Vec<Record>,
)
    requires
        call_ensures(collect_conda_packages, (&lock_file, &from), conda),
        call_ensures(collect_pypi_packages, (&lock_file, &from), pypi),
    ensures
        conda@.map_values(|record: Record| (record.name@, record.version@)) == collected(
            conda_packages_in(lock_file),
            from@.map_values(|pair: EnvironmentPlatform| (pair.environment@, pair.platform)),
        ),
        pypi@.map_values(|record: Record| (record.name@, record.version@)) == collected(
            pypi_packages_in(lock_file),
            from@.map_values(|pair: EnvironmentPlatform| (pair.environment@, pair.platform)),
        ),
{
    assert(pairs(from@) =~= from@.map_values(
        |pair: EnvironmentPlatform| (pair.environment@, pair.platform),
    ));
    assert(records(conda@) =~= conda@.map_values(
        |record: Record| (record.name@, record.version@),
    ));
    assert(records(pypi@) =~= pypi@.map_values(|record: Record| (record.name@, record.version@)));
}

} // verus!
