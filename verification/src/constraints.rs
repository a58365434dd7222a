//! How a dependency without a version of its own is pinned to what was locked.

use vstd::prelude::*;
use std::str::FromStr;
use crate::lock::{records, Record};
use crate::text::{text_eq, texts};

verus! {

/// How a constraint is made from locked versions.
#[derive(Clone, Copy, Debug, PartialEq, Eq, Structural)]
pub enum PinningStrategy {
    /// Up to the next version that semantic versioning allows to break.
    Semver,
    /// Up to the next minor version.
    Minor,
    /// Up to the next major version.
    Major,
    /// Any version from the locked one on.
    LatestUp,
    /// Exactly the locked version.
    ExactVersion,
    /// Any version.
    NoPin,
}

/// Packages that are known not to follow semantic versioning. They are pinned to their minor
/// version unless a strategy is configured.
pub open spec fn non_semver_packages() -> Seq<Seq<char>> {
    seq![
        "python"@,
        "rust"@,
        "julia"@,
        "gcc"@,
        "gxx"@,
        "gfortran"@,
        "nodejs"@,
        "deno"@,
        "r"@,
        "r-base"@,
        "perl"@,
    ]
}

/// Whether the package is known not to follow semantic versioning.
pub fn is_non_semver_package(name: &str) -> (found: bool)
    ensures
        found == non_semver_packages().contains(name@),
{
    let found: bool = text_eq(name, "python") || text_eq(name, "rust") || text_eq(name, "julia")
        || text_eq(name, "gcc") || text_eq(name, "gxx") || text_eq(name, "gfortran") || text_eq(
        name,
        "nodejs",
    ) || text_eq(name, "deno") || text_eq(name, "r") || text_eq(name, "r-base") || text_eq(
        name,
        "perl",
    );
    proof {
        let all = non_semver_packages();
        assert(all[0] == "python"@ && all[1] == "rust"@ && all[2] == "julia"@ && all[3] == "gcc"@
            && all[4] == "gxx"@ && all[5] == "gfortran"@ && all[6] == "nodejs"@ && all[7]
            == "deno"@ && all[8] == "r"@ && all[9] == "r-base"@ && all[10] == "perl"@);
        if all.contains(name@) {
            let k = all.index_of(name@);
            assert(all[k] == name@);
        }
    }
    found
}

/// The strategy for a conda package: the configured one; else by minor version for packages that
/// do not follow semantic versioning, and by semantic versioning for the others.
pub open spec fn conda_strategy(
    configured: Option<PinningStrategy>,
    name: Seq<char>,
) -> PinningStrategy {
    match configured {
        Some(strategy) => strategy,
        None => if non_semver_packages().contains(name) {
            PinningStrategy::Minor
        } else {
            PinningStrategy::Semver
        },
    }
}

/// The strategy for the conda package with the normalised name `name`.
pub fn conda_pinning_strategy(configured: Option<PinningStrategy>, name: &str) -> (strategy:
    PinningStrategy)
    ensures
        strategy == conda_strategy(configured, name@),
{
    match configured {
        Some(strategy) => strategy,
        None => if is_non_semver_package(name) {
            PinningStrategy::Minor
        } else {
            PinningStrategy::Semver
        },
    }
}

/// The strategy for a PyPI package: the configured one, or by semantic versioning.
pub open spec fn pypi_strategy(configured: Option<PinningStrategy>) -> PinningStrategy {
    match configured {
        Some(strategy) => strategy,
        None => PinningStrategy::Semver,
    }
}

/// The strategy for a PyPI package.
pub fn pypi_pinning_strategy(configured: Option<PinningStrategy>) -> (strategy: PinningStrategy)
    ensures
        strategy == pypi_strategy(configured),
{
    match configured {
        Some(strategy) => strategy,
        None => PinningStrategy::Semver,
    }
}

/// The versions of the packages with the name `name`, in their order.
pub open spec fn versions_of(
    packages: Seq<(Seq<char>, Seq<char>)>,
    name: Seq<char>,
) -> Seq<Seq<char>> {
    packages.filter(|package: (Seq<char>, Seq<char>)| package.0 == name).map_values(
        |package: (Seq<char>, Seq<char>)| package.1,
    )
}

/// Whether `text` is a version in the notation of conda packages.
pub uninterp spec fn is_conda_version_text(text: Seq<char>) -> bool;

/// The version specifiers that `text` parses to, as they are written, where it does.
pub uninterp spec fn specifiers_text(text: Seq<char>) -> Option<Seq<char>>;

/// Tests with `Version::from_str` of `rattler_conda_types` whether a text is a version of a conda
/// package. The claim: the answer is a function of the text.
#[verifier::external_body]
pub(crate) fn is_conda_version(text: &str) -> (valid: bool)
    ensures
        valid == is_conda_version_text(text@),
{
    rattler_conda_types::Version::from_str(text).is_ok()
}

/// Parses version specifiers with `VersionSpecifiers::from_str` of `pep440_rs`, and writes them
/// with their `Display`. The claim: the outcome is a function of the text.
#[verifier::external_body]
pub(crate) fn version_specifiers(text: &str) -> (specifiers: Option<String>)
    ensures
        match specifiers {
            Some(specifiers) => specifiers_text(text@) == Some(specifiers@),
            None => specifiers_text(text@) is None,
        },
{
    Some(pep440_rs::VersionSpecifiers::from_str(text).ok()?.to_string())
}

/// Of `texts`, those that are versions of conda packages.
pub open spec fn conda_versions(texts: Seq<Seq<char>>) -> Seq<Seq<char>> {
    texts.filter(|text: Seq<char>| is_conda_version_text(text))
}

/// The texts at the places where `flags` is set, in their order.
pub open spec fn flagged(texts: Seq<Seq<char>>, flags: Seq<bool>) -> Seq<Seq<char>>
    decreases texts.len(),
{
    if texts.len() == 0 {
        Seq::empty()
    } else {
        let front = flagged(texts.drop_last(), flags);
        if flags[texts.len() - 1] {
            front.push(texts.last())
        } else {
            front
        }
    }
}

/// The versions of the packages with the name `name`.
pub fn conda_candidates(list: &Vec<Record>, name: &str) -> (versions: Vec<String>)
    ensures
        texts(versions@) == versions_of(records(list@), name@),
{
    let ghost named = |package: (Seq<char>, Seq<char>)| package.0 == name@;
    let ghost version = |package: (Seq<char>, Seq<char>)| package.1;
    let mut versions: Vec<String> = Vec::new();
    let mut k: usize = 0;
    assert(records(list@).take(0).filter(named).map_values(version) =~= texts(versions@)) by {
        reveal(Seq::filter);
    }
    while k < list.len()
        invariant
            k <= list@.len(),
            named == |package: (Seq<char>, Seq<char>)| package.0 == name@,
            version == |package: (Seq<char>, Seq<char>)| package.1,
            texts(versions@) == records(list@).take(k as int).filter(named).map_values(version),
        decreases list.len() - k,
    {
        let ghost front = records(list@).take(k as int);
        let ghost package = list@[k as int]@;
        proof {
            assert(records(list@).take(k + 1) =~= front.push(package));
            front.lemma_filter_push(package, named);
        }
        if text_eq(list[k].name.as_str(), name) {
            let ghost before = versions@;
            assert(named(package));
            versions.push(list[k].version.clone());
            assert(texts(versions@) =~= texts(before).push(version(package)));
            assert(front.push(package).filter(named).map_values(version) =~= front.filter(
                named,
            ).map_values(version).push(version(package)));
        } else {
            assert(!named(package));
        }
        k += 1;
    }
    assert(records(list@).take(k as int) =~= records(list@));
    versions
}

/// The texts at the places where `flags` is set.
pub fn keep_flagged(list: &Vec<String>, flags: &Vec<bool>) -> (kept: Vec<String>)
    requires
        flags.len() == list.len(),
    ensures
        texts(kept@) == flagged(texts(list@), flags@),
{
    let mut kept: Vec<String> = Vec::new();
    let mut k: usize = 0;
    assert(texts(kept@) =~= flagged(texts(list@).take(0), flags@));
    while k < list.len()
        invariant
            k <= list@.len(),
            flags@.len() == list@.len(),
            texts(kept@) == flagged(texts(list@).take(k as int), flags@),
        decreases list.len() - k,
    {
        assert(texts(list@).take(k + 1).drop_last() =~= texts(list@).take(k as int));
        if flags[k] {
            let ghost before = kept@;
            kept.push(list[k].clone());
            assert(texts(kept@) =~= texts(before).push(list@[k as int]@));
        }
        k += 1;
    }
    assert(texts(list@).take(k as int) =~= texts(list@));
    kept
}

proof fn lemma_flagged_is_filter(texts: Seq<Seq<char>>, flags: Seq<bool>)
    requires
        flags.len() >= texts.len(),
        forall|k: int| 0 <= k < texts.len() ==> #[trigger] flags[k] == is_conda_version_text(texts[k]),
    ensures
        flagged(texts, flags) == conda_versions(texts),
    decreases texts.len(),
{
    reveal(Seq::filter);
    if texts.len() > 0 {
        lemma_flagged_is_filter(texts.drop_last(), flags);
        assert(flags[texts.len() - 1] == is_conda_version_text(texts.last()));
    }
}

/// The versions of the packages with the name `name` that conda could hold too.
pub fn pypi_candidates(list: &Vec<Record>, name: &str) -> (versions: Vec<String>)
    ensures
        texts(versions@) == conda_versions(versions_of(records(list@), name@)),
{
    let all: Vec<String> = conda_candidates(list, name);
    let mut flags: Vec<bool> = Vec::new();
    let mut k: usize = 0;
    while k < all.len()
        invariant
            k <= all@.len(),
            flags@.len() == k,
            forall|j: int| 0 <= j < k ==> #[trigger] flags@[j] == is_conda_version_text(all@[j]@),
        decreases all.len() - k,
    {
        flags.push(is_conda_version(all[k].as_str()));
        k += 1;
    }
    proof {
        lemma_flagged_is_filter(texts(all@), flags@);
    }
    keep_flagged(&all, &flags)
}

/// A configured strategy is the one that is used. Without one, a constraint goes by semantic
/// versioning, but for the conda packages that are known not to follow it: those are pinned to their
/// minor version.
pub proof fn law_strategies(configured: PinningStrategy, name: Seq<char>)
    ensures
        conda_strategy(Some(configured), name) == configured,
        pypi_strategy(Some(configured)) == configured,
        pypi_strategy(None) == PinningStrategy::Semver,
        conda_strategy(None, name) == (if name == "python"@ || name == "rust"@ || name == "julia"@
            || name == "gcc"@ || name == "gxx"@ || name == "gfortran"@ || name == "nodejs"@ || name
            == "deno"@ || name == "r"@ || name == "r-base"@ || name == "perl"@ {
            PinningStrategy::Minor
        } else {
            PinningStrategy::Semver
        }),
        non_semver_packages().contains(name) <==> conda_strategy(None, name)
            == PinningStrategy::Minor,
{
    let all = non_semver_packages();
    assert(all[0] == "python"@ && all[1] == "rust"@ && all[2] == "julia"@ && all[3] == "gcc"@
        && all[4] == "gxx"@ && all[5] == "gfortran"@ && all[6] == "nodejs"@ && all[7] == "deno"@
        && all[8] == "r"@ && all[9] == "r-base"@ && all[10] == "perl"@);
    if all.contains(name) {
        let k = all.index_of(name);
        assert(all[k] == name);
    }
}

/// The versions of a package are those of the packages with its name, and only those: one more
/// package adds its version at the end, if it has the name.
pub proof fn law_versions_of(
    packages: Seq<(Seq<char>, Seq<char>)>,
    added: (Seq<char>, Seq<char>),
    name: Seq<char>,
)
    ensures
        versions_of(Seq::empty(), name) == Seq::<Seq<char>>::empty(),
        added.0 == name ==> versions_of(packages.push(added), name) == versions_of(
            packages,
            name,
        ).push(added.1),
        added.0 != name ==> versions_of(packages.push(added), name) == versions_of(
            packages,
            name,
        ),
        forall|k: int|
            0 <= k < packages.len() && (#[trigger] packages[k]).0 == name ==> versions_of(
                packages,
                name,
            ).contains(packages[k].1),
{
    reveal(Seq::filter);
    assert(versions_of(Seq::empty(), name) =~= Seq::<Seq<char>>::empty());
    assert(packages.push(added).drop_last() =~= packages);
    assert(packages.push(added).last() == added);
    if added.0 == name {
        assert(versions_of(packages.push(added), name) =~= versions_of(packages, name).push(
            added.1,
        ));
    }
    assert forall|k: int|
        0 <= k < packages.len() && (#[trigger] packages[k]).0 == name implies versions_of(
        packages,
        name,
    ).contains(packages[k].1) by {
        lemma_version_is_there(packages, name, k);
    }
}

proof fn lemma_version_is_there(
    packages: Seq<(Seq<char>, Seq<char>)>,
    name: Seq<char>,
    k: int,
)
    requires
        0 <= k < packages.len(),
        packages[k].0 == name,
    ensures
        versions_of(packages, name).contains(packages[k].1),
    decreases packages.len(),
{
    reveal(Seq::filter);
    let front = packages.drop_last();
    let before = versions_of(front, name);
    let all = versions_of(packages, name);
    if packages.last().0 == name {
        assert(all =~= before.push(packages.last().1));
    } else {
        assert(all =~= before);
    }
    if k < front.len() {
        lemma_version_is_there(front, name, k);
        let i = before.index_of(packages[k].1);
        assert(all[i] == packages[k].1);
    } else {
        assert(all[before.len() as int] == packages[k].1);
    }
}

/// Of some texts those stay that are versions of conda packages: one more stays, at the end, if it
/// is one.
pub proof fn law_conda_versions(texts: Seq<Seq<char>>, text: Seq<char>)
    ensures
        conda_versions(Seq::empty()) == Seq::<Seq<char>>::empty(),
        is_conda_version_text(text) ==> conda_versions(texts.push(text)) == conda_versions(
            texts,
        ).push(text),
        !is_conda_version_text(text) ==> conda_versions(texts.push(text)) == conda_versions(texts),
{
    let valid = |text: Seq<char>| is_conda_version_text(text);
    assert(Seq::<Seq<char>>::empty().filter(valid) =~= Seq::empty()) by {
        reveal(Seq::filter);
    }
    texts.lemma_filter_push(text, valid);
}

/// A text stays exactly if the flag at its own place is set, and those that stay keep their order.
pub proof fn law_flagged(texts: Seq<Seq<char>>, flags: Seq<bool>)
    requires
        flags.len() == texts.len(),
    ensures
        flagged(texts, flags) == Seq::new(texts.len(), |k: int| k).filter(
            |k: int| flags[k],
        ).map_values(|k: int| texts[k]),
{
    lemma_flagged(texts, flags, texts.len());
    assert(texts.take(texts.len() as int) =~= texts);
}

proof fn lemma_flagged(texts: Seq<Seq<char>>, flags: Seq<bool>, n: nat)
    requires
        flags.len() == texts.len(),
        n <= texts.len(),
    ensures
        flagged(texts.take(n as int), flags) == Seq::new(n, |k: int| k).filter(
            |k: int| flags[k],
        ).map_values(|k: int| texts[k]),
    decreases n,
{
    reveal(Seq::filter);
    let set = |k: int| flags[k];
    if n == 0 {
        assert(Seq::new(0, |k: int| k).filter(set).map_values(|k: int| texts[k]) =~= Seq::<
            Seq<char>,
        >::empty());
    } else {
        let m = (n - 1) as nat;
        lemma_flagged(texts, flags, m);
        assert(texts.take(n as int).drop_last() =~= texts.take(m as int));
        let places = Seq::new(m, |k: int| k);
        assert(Seq::new(n, |k: int| k) =~= places.push(m as int));
        places.lemma_filter_push(m as int, set);
        if flags[m as int] {
            assert(places.filter(set).push(m as int).map_values(|k: int| texts[k])
                =~= places.filter(set).map_values(|k: int| texts[k]).push(texts[m as int]));
        }
    }
}

/// What is asked for a constraint of a conda package: a configured strategy, or the one that the
/// package calls for, and the versions that are locked under its name.
pub proof fn law_conda_question(
    configured: Option<PinningStrategy>,
    list: Vec<Record>,
    name: &str,
    strategy: PinningStrategy,
    versions: Vec<String>,
)
    requires
        call_ensures(conda_pinning_strategy, (configured, name), strategy),
        call_ensures(conda_candidates, (&list, name), versions),
    ensures
        configured matches Some(given) ==> strategy == given,
        configured is None ==> strategy == (if name@ == "python"@ || name@ == "rust"@ || name@
            == "julia"@ || name@ == "gcc"@ || name@ == "gxx"@ || name@ == "gfortran"@ || name@
            == "nodejs"@ || name@ == "deno"@ || name@ == "r"@ || name@ == "r-base"@ || name@
            == "perl"@ {
            PinningStrategy::Minor
        } else {
            PinningStrategy::Semver
        }),
        forall|k: int|
            0 <= k < list@.len() && (#[trigger] list@[k]).name@ == name@ ==> texts(
                versions@,
            ).contains(list@[k].version@),
        texts(versions@) == versions_of(records(list@), name@),
{
    law_strategies(PinningStrategy::Semver, name@);
    law_versions_of(records(list@), (name@, name@), name@);
    assert forall|k: int| 0 <= k < list@.len() && (#[trigger] list@[k]).name@ == name@ implies texts(
        versions@,
    ).contains(list@[k].version@) by {
        assert(records(list@)[k] == (list@[k].name@, list@[k].version@));
    }
}

/// What is asked for a constraint of a PyPI package: a configured strategy, or semantic versioning,
/// and of the versions that are locked under its name those that conda could hold too.
pub proof fn law_pypi_question(
    configured: Option<PinningStrategy>,
    list: Vec<Record>,
    name: &str,
    strategy: PinningStrategy,
    versions: Vec<String>,
)
    requires
        call_ensures(pypi_pinning_strategy, (configured,), strategy),
        call_ensures(pypi_candidates, (&list, name), versions),
    ensures
        configured matches Some(given) ==> strategy == given,
        configured is None ==> strategy == PinningStrategy::Semver,
        forall|k: int|
            0 <= k < versions@.len() ==> is_conda_version_text((#[trigger] versions@[k])@),
        texts(versions@) == conda_versions(versions_of(records(list@), name@)),
{
    assert forall|k: int| 0 <= k < versions@.len() implies is_conda_version_text(
        (#[trigger] versions@[k])@,
    ) by {
        let all = versions_of(records(list@), name@);
        assert(texts(versions@)[k] == versions@[k]@);
        assert(conda_versions(all).contains(versions@[k]@));
        lemma_conda_versions_are_such(all, versions@[k]@);
    }
}

proof fn lemma_conda_versions_are_such(texts: Seq<Seq<char>>, text: Seq<char>)
    requires
        conda_versions(texts).contains(text),
    ensures
        is_conda_version_text(text),
    decreases texts.len(),
{
    reveal(Seq::filter);
    if texts.len() > 0 {
        let front = texts.drop_last();
        if conda_versions(front).contains(text) {
            lemma_conda_versions_are_such(front, text);
        }
    }
}

} // verus!
