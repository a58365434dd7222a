//! Which environments, and which of their platforms, an edit of a feature touches.

use vstd::prelude::*;
use itertools::Itertools;
use crate::manifest::{EnvironmentName, FeatureName, Manifest, ManifestEnvironment, Platform};

verus! {

/// An environment, by the text of its name, on one platform.
#[derive(Debug, PartialEq, Eq)]
pub struct EnvironmentPlatform {
    pub environment: String,
    pub platform: Platform,
}

impl View for EnvironmentPlatform {
    type V = (Seq<char>, Platform);

    open spec fn view(&self) -> (Seq<char>, Platform) {
        (self.environment@, self.platform)
    }
}

/// The environments and platforms of a list.
pub open spec fn pairs(list: Seq<EnvironmentPlatform>) -> Seq<(Seq<char>, Platform)> {
    list.map_values(|pair: EnvironmentPlatform| pair@)
}

/// Whether `environment` contains the feature with the name `feature`.
pub open spec fn has_feature(environment: ManifestEnvironment, feature: Option<Seq<char>>) -> bool {
    exists|k: int|
        0 <= k < environment.features@.len() && (#[trigger] environment.features@[k])@ == feature
}

/// The environments that are solved together with the one at place `i`: those of its solve group,
/// or it alone.
pub open spec fn solved_with(manifest: Manifest, i: int) -> Seq<usize> {
    match manifest.environments@[i].solve_group {
        Some(g) => manifest.solve_groups@[g as int].environments@,
        None => seq![i as usize],
    }
}

/// For each of the first `n` environments that contains `feature`, the environments solved with
/// it, one after the other.
pub open spec fn touched(manifest: Manifest, feature: Option<Seq<char>>, n: nat) -> Seq<usize>
    decreases n,
{
    if n == 0 {
        Seq::empty()
    } else {
        let front = touched(manifest, feature, (n - 1) as nat);
        if has_feature(manifest.environments@[n - 1], feature) {
            front + solved_with(manifest, n - 1)
        } else {
            front
        }
    }
}

/// The items of `items`, each at the place where it first occurs.
pub open spec fn first_occurrences(items: Seq<usize>) -> Seq<usize>
    decreases items.len(),
{
    if items.len() == 0 {
        Seq::empty()
    } else {
        let front = first_occurrences(items.drop_last());
        if front.contains(items.last()) {
            front
        } else {
            front.push(items.last())
        }
    }
}

/// The places of the environments that an edit of `feature` touches.
pub open spec fn affected(manifest: Manifest, feature: Option<Seq<char>>) -> Seq<usize> {
    first_occurrences(touched(manifest, feature, manifest.environments@.len()))
}

/// Whether `platform` is meant where `selected` are asked for: nothing selected means all.
pub open spec fn selects(selected: Seq<Platform>, platform: Platform) -> bool {
    selected.len() == 0 || selected.contains(platform)
}

/// The selected platforms of `environment`, in its own order.
pub open spec fn selected_platforms(
    environment: ManifestEnvironment,
    selected: Seq<Platform>,
) -> Seq<(Seq<char>, Platform)> {
    environment.platforms@.filter(|p: Platform| selects(selected, p)).map_values(
        |p: Platform| (environment.name.text(), p),
    )
}

/// The selected platforms of the environments at the places `places`, one environment after the
/// other.
pub open spec fn affected_pairs(
    manifest: Manifest,
    places: Seq<usize>,
    selected: Seq<Platform>,
) -> Seq<(Seq<char>, Platform)>
    decreases places.len(),
{
    if places.len() == 0 {
        Seq::empty()
    } else {
        affected_pairs(manifest, places.drop_last(), selected) + selected_platforms(
            manifest.environments@[places.last() as int],
            selected,
        )
    }
}

/// Drops repeated items with `Itertools::unique`, which keeps the first of equal items and the
/// order of those it keeps.
#[verifier::external_body]
fn unique(items: Vec<usize>) -> (kept: Vec<usize>)
    ensures
        kept@ == first_occurrences(items@),
{
    items.into_iter().unique().collect_vec()
}

/// Whether `environment` contains `feature`.
fn contains_feature(environment: &ManifestEnvironment, feature: &FeatureName) -> (found: bool)
    ensures
        found == has_feature(*environment, feature@),
{
    let mut k: usize = 0;
    while k < environment.features.len()
        invariant
            k <= environment.features@.len(),
            forall|j: int| 0 <= j < k ==> (#[trigger] environment.features@[j])@ != feature@,
        decreases environment.features.len() - k,
    {
        if environment.features[k].same(feature) {
            return true;
        }
        k += 1;
    }
    false
}

/// Whether `platform` is among `platforms`.
pub fn contains_platform(platforms: &Vec<Platform>, platform: Platform) -> (found: bool)
    ensures
        found == platforms@.contains(platform),
{
    let mut k: usize = 0;
    while k < platforms.len()
        invariant
            k <= platforms@.len(),
            forall|j: int| 0 <= j < k ==> platforms@[j] != platform,
        decreases platforms.len() - k,
    {
        if platforms[k] == platform {
            assert(platforms@[k as int] == platform);
            return true;
        }
        k += 1;
    }
    false
}

/// The places of the environments that an edit of `feature` touches: those that contain it, and
/// those that share a solve group with one that does.
pub fn affected_environments(manifest: &Manifest, feature: &FeatureName) -> (places: Vec<usize>)
    requires
        manifest.well_formed(),
    ensures
        places@ == affected(*manifest, feature@),
        forall|k: int| 0 <= k < places@.len() ==> #[trigger] places@[k] < manifest.environments@.len(),
{
    let mut all: Vec<usize> = Vec::new();
    let mut i: usize = 0;
    while i < manifest.environments.len()
        invariant
            manifest.well_formed(),
            i <= manifest.environments@.len(),
            all@ == touched(*manifest, feature@, i as nat),
        decreases manifest.environments.len() - i,
    {
        if contains_feature(&manifest.environments[i], feature) {
            match manifest.environments[i].solve_group {
                Some(g) => {
                    assert(manifest.group_lists(i as int));
                    let mut members: Vec<usize> = manifest.solve_groups[g].environments.clone();
                    assert(members@ =~= manifest.solve_groups@[g as int].environments@);
                    all.append(&mut members);
                },
                None => {
                    all.push(i);
                    assert(all@ =~= touched(*manifest, feature@, i as nat) + seq![i]);
                },
            }
        }
        i += 1;
    }
    proof {
        lemma_affected_in_range(*manifest, feature@);
    }
    let places: Vec<usize> = unique(all);
    assert(places@ == affected(*manifest, feature@));
    places
}

/// Every selected platform of the environments at the places `places`.
pub fn affected_environment_platforms(
    manifest: &Manifest,
    places: &Vec<usize>,
    selected: &Vec<Platform>,
) -> (list: Vec<EnvironmentPlatform>)
    requires
        forall|k: int| 0 <= k < places@.len() ==> #[trigger] places@[k] < manifest.environments@.len(),
    ensures
        pairs(list@) == affected_pairs(*manifest, places@, selected@),
{
    broadcast use vstd::seq_lib::group_filter_ensures;

    let mut list: Vec<EnvironmentPlatform> = Vec::new();
    let mut k: usize = 0;
    assert(pairs(list@) =~= affected_pairs(*manifest, places@.take(0), selected@));
    while k < places.len()
        invariant
            forall|k: int|
                0 <= k < places@.len() ==> #[trigger] places@[k] < manifest.environments@.len(),
            k <= places@.len(),
            pairs(list@) == affected_pairs(*manifest, places@.take(k as int), selected@),
        decreases places.len() - k,
    {
        let environment: &ManifestEnvironment = &manifest.environments[places[k]];
        let ghost before = pairs(list@);
        let ghost keeps = |p: Platform| selects(selected@, p);
        let ghost named = |p: Platform| (environment.name.text(), p);
        let mut j: usize = 0;
        assert(environment.platforms@.take(0).filter(keeps).map_values(named)
            =~= Seq::<(Seq<char>, Platform)>::empty()) by {
            reveal(Seq::filter);
        }
        while j < environment.platforms.len()
            invariant
                j <= environment.platforms@.len(),
                keeps == |p: Platform| selects(selected@, p),
                named == |p: Platform| (environment.name.text(), p),
                pairs(list@) =~= before + environment.platforms@.take(j as int).filter(
                    keeps,
                ).map_values(named),
            decreases environment.platforms.len() - j,
        {
            let platform: Platform = environment.platforms[j];
            let ghost front = environment.platforms@.take(j as int);
            proof {
                assert(environment.platforms@.take(j + 1) =~= front.push(platform));
                front.lemma_filter_push(platform, keeps);
            }
            if selected.len() == 0 || contains_platform(selected, platform) {
                let ghost listed = pairs(list@);
                list.push(
                    EnvironmentPlatform {
                        environment: environment.name.as_str().to_owned(),
                        platform,
                    },
                );
                assert(keeps(platform));
                assert(pairs(list@) =~= listed.push(named(platform)));
                assert(front.filter(keeps).push(platform).map_values(named) =~= front.filter(
                    keeps,
                ).map_values(named).push(named(platform)));
            } else {
                assert(!keeps(platform));
            }
            j += 1;
        }
        assert(environment.platforms@.take(j as int) =~= environment.platforms@);
        assert(places@.take(k + 1).drop_last() =~= places@.take(k as int));
        k += 1;
    }
    assert(places@.take(k as int) =~= places@);
    list
}

proof fn lemma_first_occurrences(items: Seq<usize>)
    ensures
        first_occurrences(items).no_duplicates(),
        forall|x: usize| #[trigger] first_occurrences(items).contains(x) == items.contains(x),
    decreases items.len(),
{
    if items.len() > 0 {
        let front = items.drop_last();
        let last = items.last();
        lemma_first_occurrences(front);
        let kept = first_occurrences(front);
        assert forall|x: usize| #[trigger] first_occurrences(items).contains(x) == items.contains(
            x,
        ) by {
            assert(items =~= front.push(last));
            if items.contains(x) && x != last {
                let p = items.index_of(x);
                assert(front[p] == x);
                assert(front.contains(x));
            }
            if front.contains(x) {
                let p = front.index_of(x);
                assert(items[p] == x);
            }
            assert(items[items.len() - 1] == last);
            if kept.contains(x) && !kept.contains(last) {
                let p = kept.index_of(x);
                assert(kept.push(last)[p] == x);
            }
            if !kept.contains(last) {
                assert(kept.push(last)[kept.len() as int] == last);
            }
        }
    }
}

/// What `touched` lists: an environment is listed exactly if it is solved together with one of the
/// first `n` that contains the feature.
proof fn lemma_touched(manifest: Manifest, feature: Option<Seq<char>>, n: nat)
    requires
        manifest.well_formed(),
        n <= manifest.environments@.len(),
    ensures
        forall|x: usize|
            #![trigger touched(manifest, feature, n).contains(x)]
            touched(manifest, feature, n).contains(x) <==> exists|i: int|
                0 <= i < n && has_feature(manifest.environments@[i], feature) && (
                #[trigger] solved_with(manifest, i)).contains(x),
    decreases n,
{
    if n > 0 {
        lemma_touched(manifest, feature, (n - 1) as nat);
        let front = touched(manifest, feature, (n - 1) as nat);
        let more = solved_with(manifest, n - 1);
        let all = touched(manifest, feature, n);
        assert forall|x: usize| #![trigger all.contains(x)] all.contains(x) <==> exists|i: int|
            0 <= i < n && has_feature(manifest.environments@[i], feature) && (
            #[trigger] solved_with(manifest, i)).contains(x) by {
            if has_feature(manifest.environments@[n - 1], feature) {
                assert(all == front + more);
                if front.contains(x) {
                    let p = front.index_of(x);
                    assert(all[p] == x);
                }
                if more.contains(x) {
                    let p = more.index_of(x);
                    assert(all[front.len() + p] == x);
                }
                if all.contains(x) {
                    let p = all.index_of(x);
                    if p < front.len() {
                        assert(front[p] == x);
                    } else {
                        assert(more[p - front.len()] == x);
                    }
                }
            }
        }
    }
}

proof fn lemma_affected_in_range(manifest: Manifest, feature: Option<Seq<char>>)
    requires
        manifest.well_formed(),
    ensures
        forall|k: int|
            0 <= k < affected(manifest, feature).len() ==> #[trigger] affected(
                manifest,
                feature,
            )[k] < manifest.environments@.len(),
{
    let n = manifest.environments@.len();
    let list = affected(manifest, feature);
    lemma_touched(manifest, feature, n);
    lemma_first_occurrences(touched(manifest, feature, n));
    assert forall|k: int| 0 <= k < list.len() implies #[trigger] list[k] < n by {
        let x = list[k];
        assert(list.contains(x));
        assert(touched(manifest, feature, n).contains(x));
        let i = choose|i: int|
            0 <= i < n && has_feature(manifest.environments@[i], feature) && (
            #[trigger] solved_with(manifest, i)).contains(x);
        assert(manifest.group_lists(i));
        assert(i < manifest.environments.len());
        if let Some(g) = manifest.environments@[i].solve_group {
            assert(manifest.members_refer(g as int));
        }
    }
}

/// Whether the environments at the places `i` and `j` are the same or share a solve group.
pub open spec fn solved_together(manifest: Manifest, i: int, j: int) -> bool {
    ||| i == j
    ||| manifest.environments@[i].solve_group is Some && manifest.environments@[i].solve_group
        == manifest.environments@[j].solve_group
}

proof fn lemma_affected_environments(manifest: Manifest, feature: Option<Seq<char>>)
    requires
        manifest.well_formed(),
    ensures
        affected(manifest, feature).no_duplicates(),
        forall|j: int|
            0 <= j < manifest.environments@.len() ==> (#[trigger] affected(
                manifest,
                feature,
            ).contains(j as usize) <==> exists|i: int|
                0 <= i < manifest.environments@.len() && #[trigger] has_feature(
                    manifest.environments@[i],
                    feature,
                ) && solved_together(manifest, i, j)),
{
    let n = manifest.environments@.len();
    assert(n == manifest.environments.len());
    lemma_touched(manifest, feature, n);
    lemma_first_occurrences(touched(manifest, feature, n));
    assert forall|j: int| 0 <= j < n implies (#[trigger] affected(manifest, feature).contains(
        j as usize,
    ) <==> exists|i: int|
        0 <= i < n && #[trigger] has_feature(manifest.environments@[i], feature)
            && solved_together(manifest, i, j)) by {
        let x = j as usize;
        if touched(manifest, feature, n).contains(x) {
            let i = choose|i: int|
                0 <= i < n && has_feature(manifest.environments@[i], feature) && (
                #[trigger] solved_with(manifest, i)).contains(x);
            assert(manifest.group_lists(i));
            if let Some(g) = manifest.environments@[i].solve_group {
                assert(manifest.members_refer(g as int));
            }
            assert(solved_together(manifest, i, j));
        }
        if exists|i: int|
            0 <= i < n && #[trigger] has_feature(manifest.environments@[i], feature)
                && solved_together(manifest, i, j) {
            let i = choose|i: int|
                0 <= i < n && #[trigger] has_feature(manifest.environments@[i], feature)
                    && solved_together(manifest, i, j);
            assert(manifest.group_lists(i));
            assert(manifest.group_lists(j));
            if manifest.environments@[i].solve_group is None {
                assert(solved_with(manifest, i)[0] == x);
            }
            assert(solved_with(manifest, i).contains(x));
        }
    }
}

/// An edit of a feature touches an environment exactly if the feature is anywhere among the features
/// of that environment, or of one that shares its solve group. Every place that is listed is that of
/// an environment, and none is listed twice.
pub proof fn law_affected_environments(manifest: Manifest, feature: Option<Seq<char>>)
    requires
        manifest.well_formed(),
    ensures
        affected(manifest, feature).no_duplicates(),
        forall|p: int|
            0 <= p < affected(manifest, feature).len() ==> #[trigger] affected(
                manifest,
                feature,
            )[p] < manifest.environments@.len(),
        forall|j: int|
            0 <= j < manifest.environments@.len() ==> (#[trigger] affected(
                manifest,
                feature,
            ).contains(j as usize) <==> exists|i: int, k: int|
                {
                    &&& 0 <= i < manifest.environments@.len()
                    &&& 0 <= k < manifest.environments@[i].features@.len()
                    &&& (#[trigger] manifest.environments@[i].features@[k])@ == feature
                    &&& i == j || manifest.environments@[i].solve_group is Some
                        && manifest.environments@[i].solve_group
                        == manifest.environments@[j].solve_group
                }),
{
    let n = manifest.environments@.len();
    lemma_affected_environments(manifest, feature);
    lemma_affected_in_range(manifest, feature);
    assert forall|j: int| 0 <= j < n implies (#[trigger] affected(manifest, feature).contains(
        j as usize,
    ) <==> exists|i: int, k: int|
        {
            &&& 0 <= i < manifest.environments@.len()
            &&& 0 <= k < manifest.environments@[i].features@.len()
            &&& (#[trigger] manifest.environments@[i].features@[k])@ == feature
            &&& i == j || manifest.environments@[i].solve_group is Some
                && manifest.environments@[i].solve_group == manifest.environments@[j].solve_group
        }) by {
        if affected(manifest, feature).contains(j as usize) {
            let i = choose|i: int|
                0 <= i < n && #[trigger] has_feature(manifest.environments@[i], feature)
                    && solved_together(manifest, i, j);
            let k = choose|k: int|
                0 <= k < manifest.environments@[i].features@.len() && (
                #[trigger] manifest.environments@[i].features@[k])@ == feature;
            assert(manifest.environments@[i].features@[k]@ == feature);
        }
        if exists|i: int, k: int|
            {
                &&& 0 <= i < manifest.environments@.len()
                &&& 0 <= k < manifest.environments@[i].features@.len()
                &&& (#[trigger] manifest.environments@[i].features@[k])@ == feature
                &&& i == j || manifest.environments@[i].solve_group is Some
                    && manifest.environments@[i].solve_group
                    == manifest.environments@[j].solve_group
            } {
            let (i, k) = choose|i: int, k: int|
                {
                    &&& 0 <= i < manifest.environments@.len()
                    &&& 0 <= k < manifest.environments@[i].features@.len()
                    &&& (#[trigger] manifest.environments@[i].features@[k])@ == feature
                    &&& i == j || manifest.environments@[i].solve_group is Some
                        && manifest.environments@[i].solve_group
                        == manifest.environments@[j].solve_group
                };
            assert(has_feature(manifest.environments@[i], feature));
            assert(solved_together(manifest, i, j));
        }
    }
}

/// Of equal items one stays: nothing is lost, and nothing comes twice.
pub proof fn law_first_occurrences(items: Seq<usize>)
    ensures
        first_occurrences(items).no_duplicates(),
        forall|x: usize| #[trigger] first_occurrences(items).contains(x) <==> items.contains(x),
{
    lemma_first_occurrences(items);
}

/// Of equal items the first stays, and those that stay keep their order: what comes first in the
/// result came first before.
pub proof fn law_first_occurrences_in_order(items: Seq<usize>, p: int, q: int)
    requires
        0 <= p < q < first_occurrences(items).len(),
    ensures
        exists|a: int|
            {
                &&& 0 <= a < items.len()
                &&& #[trigger] items[a] == first_occurrences(items)[p]
                &&& forall|b: int|
                    0 <= b < items.len() && #[trigger] items[b] == first_occurrences(items)[q]
                        ==> a < b
            },
{
    lemma_first_occurrences_order(items, p, q);
}

/// Whether `x` occurs among `items` before any `y`.
spec fn comes_first(items: Seq<usize>, x: usize, y: usize) -> bool {
    exists|a: int|
        {
            &&& 0 <= a < items.len()
            &&& #[trigger] items[a] == x
            &&& forall|b: int| 0 <= b < items.len() && #[trigger] items[b] == y ==> a < b
        }
}

proof fn lemma_first_occurrences_order(items: Seq<usize>, p: int, q: int)
    requires
        0 <= p < q < first_occurrences(items).len(),
    ensures
        comes_first(items, first_occurrences(items)[p], first_occurrences(items)[q]),
    decreases items.len(),
{
    let front = items.drop_last();
    let kept = first_occurrences(front);
    let all = first_occurrences(items);
    lemma_first_occurrences(front);
    lemma_first_occurrences(items);
    let x = all[p];
    let y = all[q];
    if q < kept.len() {
        lemma_first_occurrences_order(front, p, q);
        assert(kept[p] == x && kept[q] == y);
        let a = choose|a: int|
            {
                &&& 0 <= a < front.len()
                &&& #[trigger] front[a] == x
                &&& forall|b: int| 0 <= b < front.len() && #[trigger] front[b] == y ==> a < b
            };
        assert(items[a] == x);
        assert forall|b: int| 0 <= b < items.len() && #[trigger] items[b] == y implies a < b by {
            if b < front.len() {
                assert(front[b] == y);
            }
        }
    } else {
        // `y` is the last item, and did not occur before.
        assert(kept[p] == x);
        assert(kept.contains(x));
        let a = front.index_of(x);
        assert(items[a] == x);
        assert forall|b: int| 0 <= b < items.len() && #[trigger] items[b] == y implies a < b by {
            if b < front.len() {
                assert(front[b] == y);
                assert(front.contains(y));
                assert(kept.contains(y));
            }
        }
    }
}

proof fn lemma_touched_prefix(manifest: Manifest, feature: Option<Seq<char>>, m: nat, n: nat)
    requires
        m <= n,
    ensures
        touched(manifest, feature, m).is_prefix_of(touched(manifest, feature, n)),
    decreases n,
{
    if m < n {
        lemma_touched_prefix(manifest, feature, m, (n - 1) as nat);
    }
}

/// The order in which touched environments are listed: first come those that the first environment
/// with the feature touches, and so on; and those of one solve group in the order of the group.
pub proof fn law_affected_environments_in_order(
    manifest: Manifest,
    feature: Option<Seq<char>>,
    p: int,
    q: int,
)
    requires
        manifest.well_formed(),
        0 <= p < q < affected(manifest, feature).len(),
    ensures
        ({
            let x = affected(manifest, feature)[p];
            let y = affected(manifest, feature)[q];
            let environments = manifest.environments@;
            &&& forall|i: int, k: int|
                {
                    &&& 0 <= i < environments.len()
                    &&& 0 <= k < environments[i].features@.len()
                    &&& (#[trigger] environments[i].features@[k])@ == feature
                    &&& i == y || environments[i].solve_group is Some && environments[i].solve_group
                        == environments[y as int].solve_group
                } ==> exists|h: int, l: int|
                    {
                        &&& 0 <= h <= i
                        &&& 0 <= l < environments[h].features@.len()
                        &&& (#[trigger] environments[h].features@[l])@ == feature
                        &&& h == x || environments[h].solve_group is Some
                            && environments[h].solve_group == environments[x as int].solve_group
                    }
            &&& (environments[x as int].solve_group matches Some(g)
                ==> environments[y as int].solve_group == Some(g) ==> exists|a: int|
                {
                    let members = manifest.solve_groups@[g as int].environments@;
                    &&& 0 <= a < members.len()
                    &&& #[trigger] manifest.solve_groups@[g as int].environments@[a] == x
                    &&& forall|b: int|
                        0 <= b < members.len() && #[trigger] members[b] == y ==> a < b
                })
        }),
{
    let environments = manifest.environments@;
    let n = environments.len();
    let all = touched(manifest, feature, n);
    let x = affected(manifest, feature)[p];
    let y = affected(manifest, feature)[q];
    assert(n == manifest.environments.len());
    lemma_affected_in_range(manifest, feature);
    lemma_affected_environments(manifest, feature);
    lemma_first_occurrences_order(all, p, q);
    let a = choose|a: int|
        {
            &&& 0 <= a < all.len()
            &&& #[trigger] all[a] == x
            &&& forall|b: int| 0 <= b < all.len() && #[trigger] all[b] == y ==> a < b
        };
    assert forall|i: int, k: int|
        {
            &&& 0 <= i < environments.len()
            &&& 0 <= k < environments[i].features@.len()
            &&& (#[trigger] environments[i].features@[k])@ == feature
            &&& i == y || environments[i].solve_group is Some && environments[i].solve_group
                == environments[y as int].solve_group
        } implies exists|h: int, l: int|
        {
            &&& 0 <= h <= i
            &&& 0 <= l < environments[h].features@.len()
            &&& (#[trigger] environments[h].features@[l])@ == feature
            &&& h == x || environments[h].solve_group is Some && environments[h].solve_group
                == environments[x as int].solve_group
        } by {
        assert(has_feature(environments[i], feature));
        let before = touched(manifest, feature, i as nat);
        let upto = touched(manifest, feature, (i + 1) as nat);
        let block = solved_with(manifest, i);
        assert(manifest.group_lists(i));
        assert(manifest.group_lists(y as int));
        if environments[i].solve_group is None {
            assert(block[0] == y);
        }
        assert(block.contains(y));
        let o = block.index_of(y);
        lemma_touched_prefix(manifest, feature, (i + 1) as nat, n);
        assert(upto[before.len() + o] == y);
        assert(all[before.len() + o] == y);
        assert(a < upto.len());
        assert(upto[a] == x);
        assert(upto.contains(x));
        lemma_touched(manifest, feature, (i + 1) as nat);
        let h = choose|h: int|
            0 <= h < i + 1 && has_feature(environments[h], feature) && (
            #[trigger] solved_with(manifest, h)).contains(x);
        let l = choose|l: int|
            0 <= l < environments[h].features@.len() && (#[trigger] environments[h].features@[l])@
                == feature;
        assert(manifest.group_lists(h));
        if let Some(g) = environments[h].solve_group {
            assert(manifest.members_refer(g as int));
            let m = manifest.solve_groups@[g as int].environments@.index_of(x);
            assert(manifest.solve_groups@[g as int].environments@[m] == x);
        }
        assert(environments[h].features@[l]@ == feature);
    }
    if let Some(g) = environments[x as int].solve_group {
        if environments[y as int].solve_group == Some(g) {
            lemma_group_order(manifest, feature, x, y, g, a);
        }
    }
}

/// The first environment below `n` that has the feature and belongs to the solve group `g`.
spec fn is_first_of_group(
    manifest: Manifest,
    feature: Option<Seq<char>>,
    g: usize,
    i: int,
) -> bool {
    &&& 0 <= i < manifest.environments@.len()
    &&& has_feature(manifest.environments@[i], feature)
    &&& manifest.environments@[i].solve_group == Some(g)
    &&& forall|h: int|
        0 <= h < i && has_feature(#[trigger] manifest.environments@[h], feature)
            ==> manifest.environments@[h].solve_group != Some(g)
}

proof fn lemma_first_of_group(
    manifest: Manifest,
    feature: Option<Seq<char>>,
    g: usize,
    i: int,
) -> (first: int)
    requires
        0 <= i < manifest.environments@.len(),
        has_feature(manifest.environments@[i], feature),
        manifest.environments@[i].solve_group == Some(g),
    ensures
        is_first_of_group(manifest, feature, g, first),
    decreases i,
{
    if is_first_of_group(manifest, feature, g, i) {
        i
    } else {
        let h = choose|h: int|
            0 <= h < i && has_feature(#[trigger] manifest.environments@[h], feature)
                && manifest.environments@[h].solve_group == Some(g);
        lemma_first_of_group(manifest, feature, g, h)
    }
}

proof fn lemma_group_order(
    manifest: Manifest,
    feature: Option<Seq<char>>,
    x: usize,
    y: usize,
    g: usize,
    a: int,
)
    requires
        manifest.well_formed(),
        x < manifest.environments@.len(),
        y < manifest.environments@.len(),
        manifest.environments@[x as int].solve_group == Some(g),
        manifest.environments@[y as int].solve_group == Some(g),
        ({
            let all = touched(manifest, feature, manifest.environments@.len());
            &&& 0 <= a < all.len()
            &&& all[a] == x
            &&& forall|b: int| 0 <= b < all.len() && #[trigger] all[b] == y ==> a < b
        }),
    ensures
        ({
            let members = manifest.solve_groups@[g as int].environments@;
            exists|c: int|
                {
                    &&& 0 <= c < members.len()
                    &&& #[trigger] manifest.solve_groups@[g as int].environments@[c] == x
                    &&& forall|b: int|
                        0 <= b < members.len() && #[trigger] members[b] == y ==> c < b
                }
        }),
{
    let environments = manifest.environments@;
    let n = environments.len();
    let all = touched(manifest, feature, n);
    assert(n == manifest.environments.len());
    assert(all.contains(x)) by {
        assert(all[a] == x);
    }
    lemma_touched(manifest, feature, n);
    let i = choose|i: int|
        0 <= i < n && has_feature(environments[i], feature) && (
        #[trigger] solved_with(manifest, i)).contains(x);
    lemma_group_of_member(manifest, i, x, g);
    let first = lemma_first_of_group(manifest, feature, g, i);
    let before = touched(manifest, feature, first as nat);
    let upto = touched(manifest, feature, (first + 1) as nat);
    let members = manifest.solve_groups@[g as int].environments@;
    lemma_touched_prefix(manifest, feature, (first + 1) as nat, n);
    lemma_touched_prefix(manifest, feature, first as nat, n);
    assert(upto == before + members);
    // `x` does not occur before the block of the group.
    if a < before.len() {
        assert(before[a] == x);
        assert(before.contains(x));
        lemma_touched(manifest, feature, first as nat);
        let h = choose|h: int|
            0 <= h < first && has_feature(environments[h], feature) && (
            #[trigger] solved_with(manifest, h)).contains(x);
        lemma_group_of_member(manifest, h, x, g);
        assert(false);
    }
    assert(manifest.group_lists(y as int));
    let o = members.index_of(y);
    assert(upto[before.len() + o] == y);
    assert(all[before.len() + o] == y);
    let c = a - before.len();
    assert(upto[a] == x);
    assert(members[c] == x);
    assert forall|b: int| 0 <= b < members.len() && #[trigger] members[b] == y implies c < b by {
        assert(upto[before.len() + b] == y);
        assert(all[before.len() + b] == y);
    }
    assert(manifest.solve_groups@[g as int].environments@[c] == x);
}

proof fn lemma_group_of_member(manifest: Manifest, h: int, x: usize, g: usize)
    requires
        manifest.well_formed(),
        0 <= h < manifest.environments@.len(),
        x < manifest.environments@.len(),
        manifest.environments@[x as int].solve_group == Some(g),
        solved_with(manifest, h).contains(x),
    ensures
        manifest.environments@[h].solve_group == Some(g),
{
    assert(manifest.environments@.len() == manifest.environments.len());
    assert(manifest.group_lists(h));
    if let Some(k) = manifest.environments@[h].solve_group {
        assert(manifest.members_refer(k as int));
        let m = manifest.solve_groups@[k as int].environments@.index_of(x);
        assert(manifest.solve_groups@[k as int].environments@[m] == x);
    }
}

/// The touched environments are closed under solve groups: with an environment, every environment
/// that shares its solve group is touched.
pub proof fn law_affected_closed_under_solve_groups(
    manifest: Manifest,
    feature: Option<Seq<char>>,
    i: int,
    j: int,
)
    requires
        manifest.well_formed(),
        0 <= i < manifest.environments@.len(),
        0 <= j < manifest.environments@.len(),
        solved_together(manifest, i, j),
    ensures
        affected(manifest, feature).contains(i as usize) == affected(manifest, feature).contains(
            j as usize,
        ),
{
    lemma_affected_environments(manifest, feature);
}

proof fn lemma_affected_pairs_contains(
    manifest: Manifest,
    places: Seq<usize>,
    selected: Seq<Platform>,
    pair: (Seq<char>, Platform),
)
    ensures
        affected_pairs(manifest, places, selected).contains(pair) <==> exists|k: int|
            0 <= k < places.len() && {
                let environment = manifest.environments@[(#[trigger] places[k]) as int];
                environment.name.text() == pair.0 && environment.platforms@.contains(pair.1)
                    && selects(selected, pair.1)
            },
    decreases places.len(),
{
    if places.len() > 0 {
        let front = places.drop_last();
        lemma_affected_pairs_contains(manifest, front, selected, pair);
        let environment = manifest.environments@[places.last() as int];
        let keeps = |p: Platform| selects(selected, p);
        let named = |p: Platform| (environment.name.text(), p);
        let kept = environment.platforms@.filter(keeps);
        let more = selected_platforms(environment, selected);
        let older = affected_pairs(manifest, front, selected);
        let all = affected_pairs(manifest, places, selected);
        assert(more == kept.map_values(named));
        assert(more.contains(pair) <==> (environment.name.text() == pair.0
            && environment.platforms@.contains(pair.1) && selects(selected, pair.1))) by {
            broadcast use vstd::seq_lib::group_filter_ensures;
            if more.contains(pair) {
                let p = more.index_of(pair);
                assert(kept.contains(kept[p]));
                environment.platforms@.lemma_filter_contains_rev(keeps, kept[p]);
                assert(keeps(kept[p]));
                assert(environment.platforms@.contains(kept[p]));
            }
            if environment.name.text() == pair.0 && environment.platforms@.contains(pair.1)
                && selects(selected, pair.1) {
                let q = environment.platforms@.index_of(pair.1);
                assert(keeps(environment.platforms@[q]));
                assert(kept.contains(pair.1));
                let p = kept.index_of(pair.1);
                assert(more[p] == pair);
            }
        }
        assert(all.contains(pair) == (older.contains(pair) || more.contains(pair))) by {
            if older.contains(pair) {
                let p = older.index_of(pair);
                assert(all[p] == pair);
            }
            if more.contains(pair) {
                let p = more.index_of(pair);
                assert(all[older.len() + p] == pair);
            }
            if all.contains(pair) {
                let p = all.index_of(pair);
                if p < older.len() {
                    assert(older[p] == pair);
                } else {
                    assert(more[p - older.len()] == pair);
                }
            }
        }
        if more.contains(pair) {
            assert(places[places.len() - 1] == places.last());
        }
        assert(forall|k: int| 0 <= k < front.len() ==> #[trigger] front[k] == places[k]);
        if exists|k: int|
            0 <= k < places.len() && {
                let environment = manifest.environments@[(#[trigger] places[k]) as int];
                environment.name.text() == pair.0 && environment.platforms@.contains(pair.1)
                    && selects(selected, pair.1)
            } {
            let k = choose|k: int|
                0 <= k < places.len() && {
                    let environment = manifest.environments@[(#[trigger] places[k]) as int];
                    environment.name.text() == pair.0 && environment.platforms@.contains(pair.1)
                        && selects(selected, pair.1)
                };
            if k < front.len() {
                assert(front[k] == places[k]);
            }
        }
        if older.contains(pair) {
            let k = choose|k: int|
                0 <= k < front.len() && {
                    let environment = manifest.environments@[(#[trigger] front[k]) as int];
                    environment.name.text() == pair.0 && environment.platforms@.contains(pair.1)
                        && selects(selected, pair.1)
                };
            assert(places[k] == front[k]);
        }
    }
}

/// A pair of environment and platform is touched exactly if the environment is, supports the
/// platform, and the platform was asked for; asking for none asks for all.
pub proof fn law_affected_pairs(
    manifest: Manifest,
    feature: Option<Seq<char>>,
    selected: Seq<Platform>,
    pair: (Seq<char>, Platform),
)
    requires
        manifest.well_formed(),
    ensures
        affected_pairs(manifest, affected(manifest, feature), selected).contains(pair)
            <==> exists|i: int|
            0 <= i < manifest.environments@.len() && affected(manifest, feature).contains(
                i as usize,
            ) && pair.0 == match (#[trigger] manifest.environments@[i]).name {
                EnvironmentName::Default => "default"@,
                EnvironmentName::Named(name) => name@,
            } && manifest.environments@[i].platforms@.contains(pair.1) && (selected.len() == 0
                || selected.contains(pair.1)),
{
    let places = affected(manifest, feature);
    lemma_affected_pairs_contains(manifest, places, selected, pair);
    lemma_affected_in_range(manifest, feature);
    if affected_pairs(manifest, places, selected).contains(pair) {
        let k = choose|k: int|
            0 <= k < places.len() && {
                let environment = manifest.environments@[(#[trigger] places[k]) as int];
                environment.name.text() == pair.0 && environment.platforms@.contains(pair.1)
                    && selects(selected, pair.1)
            };
        let i = places[k] as int;
        assert(places.contains(i as usize));
        assert(manifest.environments@[i].name.text() == pair.0);
    }
    if exists|i: int|
        0 <= i < manifest.environments@.len() && places.contains(i as usize) && (
        #[trigger] manifest.environments@[i]).name.text() == pair.0
            && manifest.environments@[i].platforms@.contains(pair.1) && selects(selected, pair.1) {
        let i = choose|i: int|
            0 <= i < manifest.environments@.len() && places.contains(i as usize) && (
            #[trigger] manifest.environments@[i]).name.text() == pair.0
                && manifest.environments@[i].platforms@.contains(pair.1) && selects(
                selected,
                pair.1,
            );
        assert(i < manifest.environments.len());
        let k = places.index_of(i as usize);
        assert(places[k] == i);
    }
}

/// The touched pairs are those of one environment after the other, in their order: of each, the
/// platforms that it supports and that were asked for, under the name of the environment. Asking
/// for none asks for all.
pub proof fn law_affected_pairs_in_order(
    manifest: Manifest,
    places: Seq<usize>,
    selected: Seq<Platform>,
)
    ensures
        affected_pairs(manifest, places, selected) == places.map_values(
            |place: usize|
                manifest.environments@[place as int].platforms@.filter(
                    |p: Platform| selected.len() == 0 || selected.contains(p),
                ).map_values(
                    |p: Platform|
                        (
                            match manifest.environments@[place as int].name {
                                EnvironmentName::Default => "default"@,
                                EnvironmentName::Named(name) => name@,
                            },
                            p,
                        ),
                ),
        ).flatten(),
    decreases places.len(),
{
    let of_place = |place: usize|
        manifest.environments@[place as int].platforms@.filter(
            |p: Platform| selected.len() == 0 || selected.contains(p),
        ).map_values(
            |p: Platform|
                (
                    match manifest.environments@[place as int].name {
                        EnvironmentName::Default => "default"@,
                        EnvironmentName::Named(name) => name@,
                    },
                    p,
                ),
        );
    if places.len() == 0 {
        assert(places.map_values(of_place) =~= Seq::<Seq<(Seq<char>, Platform)>>::empty());
    } else {
        let front = places.drop_last();
        let last = places.last();
        law_affected_pairs_in_order(manifest, front, selected);
        let environment = manifest.environments@[last as int];
        let keeps = |p: Platform| selects(selected, p);
        assert(keeps =~= |p: Platform| selected.len() == 0 || selected.contains(p));
        assert(selected_platforms(environment, selected) =~= of_place(last));
        assert(places.map_values(of_place) =~= front.map_values(of_place).push(of_place(last)));
        front.map_values(of_place).lemma_flatten_push(of_place(last));
    }
}

/// What a list of pairs holds is what its entries hold.
pub proof fn law_pairs(list: Seq<EnvironmentPlatform>)
    ensures
        pairs(list).len() == list.len(),
        forall|i: int|
            0 <= i < list.len() ==> #[trigger] pairs(list)[i] == (
                list[i].environment@,
                list[i].platform,
            ),
{
}

/// The environments that are found to be touched: one is among them exactly if the feature is
/// anywhere among its own features, or among those of an environment that shares its solve group.
pub proof fn law_touched_environments(
    manifest: Manifest,
    feature: FeatureName,
    places: Vec<usize>,
    j: int,
)
    requires
        manifest.well_formed(),
        call_ensures(affected_environments, (&manifest, &feature), places),
        0 <= j < manifest.environments@.len(),
    ensures
        places@.no_duplicates(),
        places@.contains(j as usize) <==> exists|i: int, k: int|
            {
                &&& 0 <= i < manifest.environments@.len()
                &&& 0 <= k < manifest.environments@[i].features@.len()
                &&& (#[trigger] manifest.environments@[i].features@[k])@ == feature@
                &&& i == j || manifest.environments@[i].solve_group is Some
                    && manifest.environments@[i].solve_group == manifest.environments@[j].solve_group
            },
{
    law_affected_environments(manifest, feature@);
}

/// The platforms that are found to be touched: of each environment, in order, those that it supports
/// and that were asked for. Asking for none asks for all.
pub proof fn law_touched_platforms(
    manifest: Manifest,
    places: Vec<usize>,
    selected: Vec<Platform>,
    list: Vec<EnvironmentPlatform>,
)
    requires
        call_ensures(
            affected_environment_platforms,
            (&manifest, &places, &selected),
            list,
        ),
    ensures
        list@.map_values(|pair: EnvironmentPlatform| (pair.environment@, pair.platform))
            == places@.map_values(
            |place: usize|
                manifest.environments@[place as int].platforms@.filter(
                    |p: Platform| selected@.len() == 0 || selected@.contains(p),
                ).map_values(
                    |p: Platform|
                        (
                            match manifest.environments@[place as int].name {
                                EnvironmentName::Default => "default"@,
                                EnvironmentName::Named(name) => name@,
                            },
                            p,
                        ),
                ),
        ).flatten(),
{
    law_affected_pairs_in_order(manifest, places@, selected@);
    assert(pairs(list@) =~= list@.map_values(
        |pair: EnvironmentPlatform| (pair.environment@, pair.platform),
    ));
}

} // verus!
