//! Where the mapping of conda names to PyPI names is found.

use vstd::prelude::*;
use crate::channel::{
    can_resolve, canonical_channel_name, channel_base_url, fails_first_at, into_channel, is_absolute, is_portable, is_relative,
    never_resolves, parse_url, parsed_url, resolves_to, Channel, ChannelConfig, ParseChannelError,
    UrlError,
};
use crate::manifest::{Feature, Manifest, NamedChannelOrUrl};
use crate::text::{
    join_texts, joined, sorted_texts, text_le, texts, trim_trailing_slashes,
    without_trailing_slashes,
};
use crate::text_map::TextMap;

verus! {

/// Where the mapping of one channel is found.
#[derive(Debug, PartialEq, Eq)]
pub enum MappingLocation {
    Url(String),
    Path(String),
}

/// A location, by the text that it holds.
pub enum LocationView {
    Url(Seq<char>),
    Path(Seq<char>),
}

impl View for MappingLocation {
    type V = LocationView;

    open spec fn view(&self) -> LocationView {
        match self {
            MappingLocation::Url(url) => LocationView::Url(url@),
            MappingLocation::Path(path) => LocationView::Path(path@),
        }
    }
}

/// The locations of the channels with a mapping of their own, by the canonical name of the channel
/// without the slashes it ends in.
pub struct CustomMapping {
    pub mapping: TextMap<MappingLocation>,
}

/// The locations of a custom mapping.
pub open spec fn locations(mapping: Map<Seq<char>, MappingLocation>) -> Map<Seq<char>, LocationView> {
    mapping.map_values(|location: MappingLocation| location@)
}

/// Where names are mapped from.
pub enum MappingSource {
    /// The manifest names locations of its own.
    Custom(CustomMapping),
    /// The mapping that prefix.dev hosts.
    Prefix,
    /// Names are not mapped.
    Disabled,
}

impl MappingSource {
    /// The custom mapping, where this is one.
    pub fn custom(&self) -> (mapping: Option<&CustomMapping>)
        ensures
            mapping == match self {
                MappingSource::Custom(custom) => Some(custom),
                _ => None,
            },
    {
        match self {
            MappingSource::Custom(custom) => Some(custom),
            _ => None,
        }
    }
}

/// Why a manifest gives no mapping.
pub enum MappingError {
    /// A channel could not be resolved.
    Channel(ParseChannelError),
    /// A mapped channel is not among those that the manifest uses, which are listed in order.
    MissingChannel { channel: String, channels: Vec<String> },
    /// A location is neither a URL nor a path.
    Location(String),
}

impl MappingError {
    /// The error as it is shown, where `missing` stands for the missing channel.
    pub open spec fn shown(self, missing: Seq<char>) -> Seq<char> {
        match self {
            MappingError::Channel(ParseChannelError::InvalidUrl) => "could not parse url"@,
            MappingError::Channel(ParseChannelError::InvalidPath(message)) => message@,
            MappingError::MissingChannel { channel: _, channels } => "conda-pypi-map is defined: the "@
                + missing + " is missing from the channels array, which currently are: "@ + joined(
                texts(channels@),
                ", "@,
            ),
            MappingError::Location(location) => "Could not convert "@ + location@
                + " to neither URL or Path"@,
        }
    }

    /// The error as it is shown. `missing` is the missing channel as it is to appear in the text;
    /// other errors have no use for it.
    pub fn message(&self, missing: &str) -> (text: String)
        ensures
            text@ == self.shown(missing@),
    {
        match self {
            MappingError::Channel(ParseChannelError::InvalidUrl) => "could not parse url".to_owned(),
            MappingError::Channel(ParseChannelError::InvalidPath(message)) => message.clone(),
            MappingError::MissingChannel { channel: _, channels } => {
                let mut text: String = "conda-pypi-map is defined: the ".to_owned();
                text.append(missing);
                text.append(" is missing from the channels array, which currently are: ");
                let list: String = join_texts(channels, ", ");
                text.append(list.as_str());
                text
            },
            MappingError::Location(location) => {
                let mut text: String = "Could not convert ".to_owned();
                text.append(location.as_str());
                text.append(" to neither URL or Path");
                text
            },
        }
    }
}

/// A resolved channel of the map, with the location that the map gives it and what that location
/// parses to as a URL.
pub struct MapEntry {
    pub channel: Channel,
    pub location: String,
    pub parsed: Result<String, UrlError>,
}

/// Whether `channel` is one of `channels`.
pub open spec fn is_listed(channels: Seq<Channel>, channel: Channel) -> bool {
    exists|k: int| 0 <= k < channels.len() && (#[trigger] channels[k]).is_same(channel)
}

/// Whether the channel of the entry at place `i` is not among `used`.
pub open spec fn is_missing(entries: Seq<MapEntry>, used: Seq<Channel>, i: int) -> bool {
    0 <= i < entries.len() && !is_listed(used, entries[i].channel)
}

/// Whether the entry at place `i` counts: of entries for the same channel the last one does.
pub open spec fn counts(entries: Seq<MapEntry>, i: int) -> bool {
    forall|j: int| i < j < entries.len() ==> !(#[trigger] entries[j]).channel.is_same(entries[i].channel)
}

/// Whether the entry at place `i` counts and has a location that is neither a URL nor a path.
pub open spec fn is_malformed(entries: Seq<MapEntry>, i: int) -> bool {
    0 <= i < entries.len() && counts(entries, i) && entries[i].parsed == Err::<String, UrlError>(
        UrlError::Malformed,
    )
}

/// The location of an entry: a URL if it parses to one, a path otherwise.
pub open spec fn location_of(entry: MapEntry) -> LocationView {
    match entry.parsed {
        Ok(url) => LocationView::Url(url@),
        Err(_) => LocationView::Path(entry.location@),
    }
}

/// The key of a channel in the mapping.
pub open spec fn mapping_key(channel: Channel) -> Seq<char> {
    without_trailing_slashes(channel.canonical_name@)
}

/// The mapping that the first `n` entries make up, as far as they count.
pub open spec fn mapping_table(entries: Seq<MapEntry>, n: nat) -> Map<Seq<char>, LocationView>
    decreases n,
{
    if n == 0 {
        Map::empty()
    } else {
        let front = mapping_table(entries, (n - 1) as nat);
        if counts(entries, n - 1) {
            front.insert(mapping_key(entries[n - 1].channel), location_of(entries[n - 1]))
        } else {
            front
        }
    }
}

/// The channels, each at the place where it first occurs.
pub open spec fn distinct(channels: Seq<Channel>) -> Seq<Channel>
    decreases channels.len(),
{
    if channels.len() == 0 {
        Seq::empty()
    } else {
        let front = distinct(channels.drop_last());
        if is_listed(front, channels.last()) {
            front
        } else {
            front.push(channels.last())
        }
    }
}

/// How the channels are shown.
pub open spec fn shown_channels(channels: Seq<Channel>) -> Seq<Seq<char>> {
    channels.map_values(|channel: Channel| channel.shown())
}

/// Whether `channels` lists every one of the channels `used` once, as it is shown, in order.
pub open spec fn is_channel_list(used: Seq<Channel>, channels: Seq<String>) -> bool {
    &&& texts(channels).to_multiset() == shown_channels(distinct(used)).to_multiset()
    &&& forall|i: int, j: int|
        0 <= i <= j < channels.len() ==> text_le(#[trigger] channels[i]@, #[trigger] channels[j]@)
}

/// Whether the entry at place `i` is the first whose channel is not among `used`.
pub open spec fn is_first_missing(entries: Seq<MapEntry>, used: Seq<Channel>, i: int) -> bool {
    is_missing(entries, used, i) && forall|j: int|
        0 <= j < i ==> !#[trigger] is_missing(entries, used, j)
}

/// Whether the entry at place `i` is the first that counts and is malformed.
pub open spec fn is_first_malformed(entries: Seq<MapEntry>, i: int) -> bool {
    is_malformed(entries, i) && forall|j: int| 0 <= j < i ==> !#[trigger] is_malformed(entries, j)
}

/// Whether `source` is what the map `entries` gives a manifest that uses the channels `used`.
pub open spec fn is_source_of(
    entries: Seq<MapEntry>,
    used: Seq<Channel>,
    source: Result<MappingSource, MappingError>,
) -> bool {
    if entries.len() == 0 {
        source == Ok::<MappingSource, MappingError>(MappingSource::Disabled)
    } else if exists|i: int| is_missing(entries, used, i) {
        source matches Err(MappingError::MissingChannel { channel, channels }) && exists|i: int| #[trigger]
            is_first_missing(entries, used, i) && channel@ == entries[i].channel.shown() && is_channel_list(
                used,
                channels@,
            )
    } else if exists|i: int| is_malformed(entries, i) {
        source matches Err(MappingError::Location(location)) && exists|i: int| #[trigger]
            is_first_malformed(entries, i) && location@ == entries[i].location@
    } else {
        source matches Ok(MappingSource::Custom(custom)) && custom.mapping.well_formed()
            && locations(custom.mapping@) == mapping_table(entries, entries.len())
    }
}

fn list_contains(channels: &Vec<Channel>, channel: &Channel) -> (found: bool)
    ensures
        found == is_listed(channels@, *channel),
{
    let mut k: usize = 0;
    while k < channels.len()
        invariant
            k <= channels@.len(),
            forall|j: int| 0 <= j < k ==> !(#[trigger] channels@[j]).is_same(*channel),
        decreases channels.len() - k,
    {
        if channels[k].same(channel) {
            return true;
        }
        k += 1;
    }
    false
}

/// Every one of the channels `used` once, as it is shown, in order.
fn channel_list(used: &Vec<Channel>) -> (channels: Vec<String>)
    ensures
        is_channel_list(used@, channels@),
{
    let mut kept: Vec<Channel> = Vec::new();
    let mut shown: Vec<String> = Vec::new();
    let mut k: usize = 0;
    assert(texts(shown@) =~= shown_channels(kept@));
    while k < used.len()
        invariant
            k <= used@.len(),
            kept@ == distinct(used@.take(k as int)),
            texts(shown@) =~= shown_channels(kept@),
        decreases used.len() - k,
    {
        assert(used@.take(k + 1).drop_last() =~= used@.take(k as int));
        if !list_contains(&kept, &used[k]) {
            let ghost before = kept@;
            let ghost listed = shown@;
            kept.push(used[k].clone());
            shown.push(used[k].display());
            assert(shown_channels(kept@) =~= shown_channels(before).push(used@[k as int].shown()));
            assert(texts(shown@) =~= texts(listed).push(used@[k as int].shown()));
        }
        k += 1;
    }
    assert(used@.take(k as int) =~= used@);
    sorted_texts(shown)
}

fn entry_counts(entries: &Vec<MapEntry>, i: usize) -> (last: bool)
    requires
        i < entries.len(),
    ensures
        last == counts(entries@, i as int),
{
    let mut j: usize = i + 1;
    while j < entries.len()
        invariant
            i < j <= entries@.len(),
            forall|k: int|
                i < k < j ==> !(#[trigger] entries@[k]).channel.is_same(entries@[i as int].channel),
        decreases entries.len() - j,
    {
        if entries[j].channel.same(&entries[i].channel) {
            return false;
        }
        j += 1;
    }
    true
}

/// The location of an entry: a URL if it parses to one, a path if it is a relative reference.
pub fn mapping_location(location: &String, parsed: &Result<String, UrlError>) -> (result: Result<
    MappingLocation,
    MappingError,
>)
    ensures
        match parsed {
            Ok(url) => result == Ok::<MappingLocation, MappingError>(MappingLocation::Url(*url)),
            Err(UrlError::RelativeUrlWithoutBase) => result == Ok::<MappingLocation, MappingError>(
                MappingLocation::Path(*location),
            ),
            Err(UrlError::Malformed) => result == Err::<MappingLocation, MappingError>(
                MappingError::Location(*location),
            ),
        },
{
    match parsed {
        Ok(url) => Ok(MappingLocation::Url(url.clone())),
        Err(UrlError::RelativeUrlWithoutBase) => Ok(MappingLocation::Path(location.clone())),
        Err(UrlError::Malformed) => Err(MappingError::Location(location.clone())),
    }
}

/// What the map `entries` gives a manifest that uses the channels `used`.
///
/// An empty map switches the mapping off. Every mapped channel has to be among those used, and
/// every location has to be a URL or a path.
pub fn mapping_source(entries: &Vec<MapEntry>, used: &Vec<Channel>) -> (source: Result<
    MappingSource,
    MappingError,
>)
    ensures
        is_source_of(entries@, used@, source),
{
    if entries.len() == 0 {
        return Ok(MappingSource::Disabled);
    }
    let mut i: usize = 0;
    while i < entries.len()
        invariant
            entries@.len() > 0,
            i <= entries@.len(),
            forall|j: int| 0 <= j < i ==> !#[trigger] is_missing(entries@, used@, j),
        decreases entries.len() - i,
    {
        if !list_contains(used, &entries[i].channel) {
            let channel: String = entries[i].channel.display();
            let channels: Vec<String> = channel_list(used);
            assert(is_first_missing(entries@, used@, i as int));
            return Err(MappingError::MissingChannel { channel, channels });
        }
        i += 1;
    }
    assert(!exists|i: int| is_missing(entries@, used@, i)) by {
        assert forall|j: int| !is_missing(entries@, used@, j) by {
            if 0 <= j < entries@.len() {
                assert(!is_missing(entries@, used@, j));
            }
        }
    }
    let mut mapping: TextMap<MappingLocation> = TextMap::new();
    let mut n: usize = 0;
    assert(locations(mapping@) =~= mapping_table(entries@, 0));
    while n < entries.len()
        invariant
            entries@.len() > 0,
            !exists|i: int| is_missing(entries@, used@, i),
            n <= entries@.len(),
            forall|j: int| 0 <= j < n ==> !#[trigger] is_malformed(entries@, j),
            mapping.well_formed(),
            locations(mapping@) == mapping_table(entries@, n as nat),
        decreases entries.len() - n,
    {
        if entry_counts(entries, n) {
            match mapping_location(&entries[n].location, &entries[n].parsed) {
                Ok(location) => {
                    let key: String = trim_trailing_slashes(
                        entries[n].channel.canonical_name.as_str(),
                    );
                    let ghost before = mapping@;
                    mapping.insert(key, location);
                    assert(locations(mapping@) =~= locations(before).insert(key@, location@));
                    assert(location@ == location_of(entries@[n as int]));
                },
                Err(error) => {
                    assert(is_first_malformed(entries@, n as int));
                    return Err(error);
                },
            }
        }
        assert(!is_malformed(entries@, n as int));
        n += 1;
    }
    assert(!exists|i: int| is_malformed(entries@, i)) by {
        assert forall|j: int| !is_malformed(entries@, j) by {
            if 0 <= j < entries@.len() {
                assert(!is_malformed(entries@, j));
            }
        }
    }
    Ok(MappingSource::Custom(CustomMapping { mapping }))
}

/// The channels of the first `n` features, one feature after the other.
pub open spec fn feature_channels(features: Seq<Feature>, n: nat) -> Seq<NamedChannelOrUrl>
    decreases n,
{
    if n == 0 {
        Seq::empty()
    } else {
        let front = feature_channels(features, (n - 1) as nat);
        match features[n - 1].channels {
            Some(channels) => front + channels@,
            None => front,
        }
    }
}

/// The channels that a manifest uses: those of the project, then those of its features.
pub open spec fn used_channels(manifest: Manifest) -> Seq<NamedChannelOrUrl> {
    manifest.workspace.channels@ + feature_channels(manifest.features@, manifest.features@.len())
}

/// The channels of a map.
pub open spec fn mapped_channels(map: Seq<(NamedChannelOrUrl, String)>) -> Seq<NamedChannelOrUrl> {
    map.map_values(|entry: (NamedChannelOrUrl, String)| entry.0)
}

/// The channels that have to be resolved to read the map `map`, in the order in which they are:
/// those of the map, those of the project, and those of its features. An empty map needs none.
pub open spec fn channels_to_resolve(
    manifest: Manifest,
    map: Seq<(NamedChannelOrUrl, String)>,
) -> Seq<NamedChannelOrUrl> {
    if map.len() == 0 {
        Seq::empty()
    } else {
        mapped_channels(map) + used_channels(manifest)
    }
}

/// Whether `channels` resolve to `resolved`, one by one.
pub open spec fn all_resolve(
    channels: Seq<NamedChannelOrUrl>,
    config: ChannelConfig,
    resolved: Seq<Channel>,
) -> bool {
    &&& resolved.len() == channels.len()
    &&& forall|k: int|
        0 <= k < channels.len() ==> resolves_to(#[trigger] channels[k], config, resolved[k])
}

/// Whether `parsed` is what `location` parses to as a URL.
pub open spec fn is_parsed(location: Seq<char>, parsed: Result<String, UrlError>) -> bool {
    match parsed {
        Ok(url) => parsed_url(location) == Ok::<Seq<char>, UrlError>(url@),
        Err(error) => parsed_url(location) == Err::<Seq<char>, UrlError>(error),
    }
}

/// Whether `entries` are what the entries of `map` resolve to, one by one.
pub open spec fn map_resolves(
    map: Seq<(NamedChannelOrUrl, String)>,
    config: ChannelConfig,
    entries: Seq<MapEntry>,
) -> bool {
    &&& entries.len() == map.len()
    &&& forall|k: int|
        0 <= k < map.len() ==> {
            &&& resolves_to((#[trigger] map[k]).0, config, entries[k].channel)
            &&& entries[k].location == map[k].1
            &&& is_parsed(map[k].1@, entries[k].parsed)
        }
}

/// Whether `source` is where `manifest` has its names mapped from. Without a map, that is the
/// mapping of prefix.dev. With one, all channels are resolved first, up to the first that fails,
/// and the map is read with what they resolve to.
pub open spec fn is_mapping_source(
    manifest: Manifest,
    config: ChannelConfig,
    source: Result<MappingSource, MappingError>,
) -> bool {
    match manifest.workspace.conda_pypi_map {
        None => source == Ok::<MappingSource, MappingError>(MappingSource::Prefix),
        Some(map) => match source {
            Err(MappingError::Channel(error)) => exists|k: int|
                fails_first_at(channels_to_resolve(manifest, map@), config, error, k),
            _ => exists|entries: Seq<MapEntry>, used: Seq<Channel>|
                {
                    &&& map_resolves(map@, config, entries)
                    &&& map@.len() > 0 ==> all_resolve(used_channels(manifest), config, used)
                    &&& #[trigger] is_source_of(entries, used, source)
                },
        },
    }
}

/// Resolves `channels` and appends what they resolve to.
fn resolve_channels(
    channels: &Vec<NamedChannelOrUrl>,
    config: &ChannelConfig,
    resolved: &mut Vec<Channel>,
) -> (result: Result<(), ParseChannelError>)
    ensures
        match result {
            Ok(_) => {
                &&& final(resolved)@.len() == old(resolved)@.len() + channels@.len()
                &&& forall|k: int|
                    0 <= k < old(resolved)@.len() ==> #[trigger] final(resolved)@[k] == old(
                        resolved,
                    )@[k]
                &&& forall|k: int|
                    0 <= k < channels@.len() ==> resolves_to(
                        #[trigger] channels@[k],
                        *config,
                        final(resolved)@[old(resolved)@.len() + k],
                    )
            },
            Err(error) => exists|k: int| fails_first_at(channels@, *config, error, k),
        },
{
    let ghost before = resolved@;
    let mut k: usize = 0;
    while k < channels.len()
        invariant
            k <= channels@.len(),
            before == old(resolved)@,
            resolved@.len() == before.len() + k,
            forall|j: int| 0 <= j < before.len() ==> #[trigger] resolved@[j] == before[j],
            forall|j: int|
                0 <= j < k ==> resolves_to(
                    #[trigger] channels@[j],
                    *config,
                    resolved@[before.len() + j],
                ),
        decreases channels.len() - k,
    {
        match into_channel(&channels[k], config) {
            Ok(channel) => resolved.push(channel),
            Err(error) => {
                assert(fails_first_at(channels@, *config, error, k as int)) by {
                    assert forall|i: int| 0 <= i < k implies can_resolve(
                        #[trigger] channels@[i],
                        *config,
                    ) by {
                        assert(resolves_to(channels@[i], *config, resolved@[before.len() + i]));
                    }
                }
                return Err(error);
            },
        }
        k += 1;
    }
    Ok(())
}

/// Resolves every channel that `manifest` uses.
fn resolve_used_channels(manifest: &Manifest, config: &ChannelConfig) -> (result: Result<
    Vec<Channel>,
    ParseChannelError,
>)
    ensures
        match result {
            Ok(used) => all_resolve(used_channels(*manifest), *config, used@),
            Err(error) => exists|k: int|
                fails_first_at(used_channels(*manifest), *config, error, k),
        },
{
    let ghost all = used_channels(*manifest);
    let ghost base = manifest.workspace.channels@;
    let mut used: Vec<Channel> = Vec::new();
    match resolve_channels(&manifest.workspace.channels, config, &mut used) {
        Ok(_) => {},
        Err(error) => {
            proof {
                let k = choose|k: int| fails_first_at(base, *config, error, k);
                lemma_fails_first_in_longer(base, all, *config, error, k);
            }
            return Err(error);
        },
    }
    let mut i: usize = 0;
    assert(base + feature_channels(manifest.features@, 0) =~= base);
    while i < manifest.features.len()
        invariant
            i <= manifest.features@.len(),
            base == manifest.workspace.channels@,
            all == used_channels(*manifest),
            all_resolve(base + feature_channels(manifest.features@, i as nat), *config, used@),
        decreases manifest.features.len() - i,
    {
        match &manifest.features[i].channels {
            Some(channels) => {
                let ghost front = base + feature_channels(manifest.features@, i as nat);
                let ghost next = base + feature_channels(manifest.features@, (i + 1) as nat);
                assert(next =~= front + channels@);
                let ghost before = used@;
                match resolve_channels(channels, config, &mut used) {
                    Ok(_) => {
                        assert forall|k: int| 0 <= k < next.len() implies resolves_to(
                            #[trigger] next[k],
                            *config,
                            used@[k],
                        ) by {
                            if k < front.len() {
                                assert(next[k] == front[k]);
                                assert(used@[k] == before[k]);
                            } else {
                                assert(next[k] == channels@[k - front.len()]);
                            }
                        }
                    },
                    Err(error) => {
                        proof {
                            let k = choose|k: int| fails_first_at(channels@, *config, error, k);
                            lemma_feature_channels_prefix(
                                manifest.features@,
                                (i + 1) as nat,
                                manifest.features@.len(),
                            );
                            lemma_fails_first_behind(front, before, channels@, *config, error, k);
                            lemma_fails_first_in_longer(
                                front + channels@,
                                all,
                                *config,
                                error,
                                front.len() + k,
                            );
                        }
                        return Err(error);
                    },
                }
            },
            None => {},
        }
        i += 1;
    }
    Ok(used)
}

proof fn lemma_feature_channels_prefix(features: Seq<Feature>, m: nat, n: nat)
    requires
        m <= n,
    ensures
        feature_channels(features, m).is_prefix_of(feature_channels(features, n)),
    decreases n,
{
    if m < n {
        lemma_feature_channels_prefix(features, m, (n - 1) as nat);
    }
}

/// The first failure among some channels is the first among more, where these only follow.
proof fn lemma_fails_first_in_longer(
    channels: Seq<NamedChannelOrUrl>,
    longer: Seq<NamedChannelOrUrl>,
    config: ChannelConfig,
    error: ParseChannelError,
    k: int,
)
    requires
        channels.is_prefix_of(longer),
        fails_first_at(channels, config, error, k),
    ensures
        fails_first_at(longer, config, error, k),
{
    assert(longer[k] == channels[k]);
    assert forall|i: int| 0 <= i < k implies can_resolve(#[trigger] longer[i], config) by {
        assert(longer[i] == channels[i]);
    }
}

/// Behind channels that all resolve, the first failure stays the first.
proof fn lemma_fails_first_behind(
    front: Seq<NamedChannelOrUrl>,
    resolved: Seq<Channel>,
    channels: Seq<NamedChannelOrUrl>,
    config: ChannelConfig,
    error: ParseChannelError,
    k: int,
)
    requires
        all_resolve(front, config, resolved),
        fails_first_at(channels, config, error, k),
    ensures
        fails_first_at(front + channels, config, error, front.len() + k),
{
    let all = front + channels;
    assert forall|i: int| 0 <= i < front.len() + k implies can_resolve(#[trigger] all[i], config) by {
        if i < front.len() {
            assert(resolves_to(front[i], config, resolved[i]));
        } else {
            assert(all[i] == channels[i - front.len()]);
        }
    }
}

/// Resolves the entries of `map`.
fn resolve_map(map: &Vec<(NamedChannelOrUrl, String)>, config: &ChannelConfig) -> (result: Result<
    Vec<MapEntry>,
    ParseChannelError,
>)
    ensures
        match result {
            Ok(entries) => map_resolves(map@, *config, entries@),
            Err(error) => exists|k: int| fails_first_at(mapped_channels(map@), *config, error, k),
        },
{
    let mut entries: Vec<MapEntry> = Vec::new();
    let mut k: usize = 0;
    while k < map.len()
        invariant
            k <= map@.len(),
            entries@.len() == k,
            forall|j: int|
                0 <= j < k ==> {
                    &&& resolves_to((#[trigger] map@[j]).0, *config, entries@[j].channel)
                    &&& entries@[j].location == map@[j].1
                    &&& is_parsed(map@[j].1@, entries@[j].parsed)
                },
        decreases map.len() - k,
    {
        match into_channel(&map[k].0, config) {
            Ok(channel) => {
                let parsed: Result<String, UrlError> = parse_url(map[k].1.as_str());
                let location: String = map[k].1.clone();
                entries.push(MapEntry { channel, location, parsed });
            },
            Err(error) => {
                assert(fails_first_at(mapped_channels(map@), *config, error, k as int)) by {
                    assert forall|i: int| 0 <= i < k implies can_resolve(
                        #[trigger] mapped_channels(map@)[i],
                        *config,
                    ) by {
                        assert(resolves_to(map@[i].0, *config, entries@[i].channel));
                    }
                }
                return Err(error);
            },
        }
        k += 1;
    }
    Ok(entries)
}

/// Where `manifest` has its names mapped from: the map that it holds, with its channels resolved
/// against `config`, or the mapping of prefix.dev.
pub fn build_pypi_name_mapping_source(manifest: &Manifest, config: &ChannelConfig) -> (source: Result<
    MappingSource,
    MappingError,
>)
    ensures
        is_mapping_source(*manifest, *config, source),
{
    match &manifest.workspace.conda_pypi_map {
        Some(map) => {
            let ghost all = channels_to_resolve(*manifest, map@);
            let entries: Vec<MapEntry> = match resolve_map(map, config) {
                Ok(entries) => entries,
                Err(error) => {
                    proof {
                        let keys = mapped_channels(map@);
                        let k = choose|k: int| fails_first_at(keys, *config, error, k);
                        lemma_fails_first_in_longer(keys, all, *config, error, k);
                    }
                    return Err(MappingError::Channel(error));
                },
            };
            if entries.len() == 0 {
                let none: Vec<Channel> = Vec::new();
                return mapping_source(&entries, &none);
            }
            let used: Vec<Channel> = match resolve_used_channels(manifest, config) {
                Ok(used) => used,
                Err(error) => {
                    proof {
                        let keys = mapped_channels(map@);
                        let channels = entries@.map_values(|entry: MapEntry| entry.channel);
                        assert forall|i: int| 0 <= i < keys.len() implies resolves_to(
                            #[trigger] keys[i],
                            *config,
                            channels[i],
                        ) by {
                            assert(resolves_to(map@[i].0, *config, entries@[i].channel));
                        }
                        let used = used_channels(*manifest);
                        let k = choose|k: int| fails_first_at(used, *config, error, k);
                        lemma_fails_first_behind(keys, channels, used, *config, error, k);
                    }
                    return Err(MappingError::Channel(error));
                },
            };
            mapping_source(&entries, &used)
        },
        None => Ok(MappingSource::Prefix),
    }
}

proof fn lemma_mapping_table(entries: Seq<MapEntry>, n: nat)
    requires
        n <= entries.len(),
    ensures
        forall|key: Seq<char>|
            #![trigger mapping_table(entries, n).contains_key(key)]
            mapping_table(entries, n).contains_key(key) <==> exists|i: int|
                0 <= i < n && #[trigger] counts(entries, i) && mapping_key(entries[i].channel) == key,
        forall|i: int|
            0 <= i < n && #[trigger] counts(entries, i) && !(exists|j: int|
                i < j < n && #[trigger] counts(entries, j) && mapping_key(entries[j].channel)
                    == mapping_key(entries[i].channel)) ==> mapping_table(
                entries,
                n,
            )[mapping_key(entries[i].channel)] == location_of(entries[i]),
    decreases n,
{
    if n > 0 {
        let m = (n - 1) as nat;
        lemma_mapping_table(entries, m);
        assert forall|key: Seq<char>|
            #![trigger mapping_table(entries, n).contains_key(key)]
            mapping_table(entries, n).contains_key(key) <==> exists|i: int|
                0 <= i < n && #[trigger] counts(entries, i) && mapping_key(entries[i].channel)
                    == key by {
            if mapping_table(entries, m).contains_key(key) {
                let i = choose|i: int|
                    0 <= i < m && #[trigger] counts(entries, i) && mapping_key(entries[i].channel)
                        == key;
                assert(counts(entries, i));
            }
            assert(counts(entries, m as int) == counts(entries, n - 1));
        }
        assert forall|i: int|
            0 <= i < n && #[trigger] counts(entries, i) && !(exists|j: int|
                i < j < n && #[trigger] counts(entries, j) && mapping_key(entries[j].channel)
                    == mapping_key(entries[i].channel)) implies mapping_table(
            entries,
            n,
        )[mapping_key(entries[i].channel)] == location_of(entries[i]) by {
            if i < m {
                assert(!(exists|j: int|
                    i < j < m && #[trigger] counts(entries, j) && mapping_key(entries[j].channel)
                        == mapping_key(entries[i].channel)));
                assert(counts(entries, n - 1) ==> mapping_key(entries[n - 1].channel)
                    != mapping_key(entries[i].channel));
            }
        }
    }
}

/// A custom mapping has a key for every channel of the map and no other: the canonical name without
/// the slashes it ends in. Of several entries for a channel the last one counts, and the location
/// under a key is that of the last entry that counts for it: the URL that it parses to, or a path.
/// Every channel of the map is one that the manifest uses.
pub proof fn law_custom_mapping(
    entries: Seq<MapEntry>,
    used: Seq<Channel>,
    custom: CustomMapping,
)
    requires
        is_source_of(entries, used, Ok(MappingSource::Custom(custom))),
    ensures
        entries.len() > 0,
        forall|i: int|
            0 <= i < entries.len() ==> exists|k: int|
                0 <= k < used.len() && (#[trigger] used[k]).is_same(
                    (#[trigger] entries[i]).channel,
                ),
        forall|key: Seq<char>|
            #![trigger custom.mapping@.contains_key(key)]
            custom.mapping@.contains_key(key) <==> exists|i: int|
                {
                    &&& 0 <= i < entries.len()
                    &&& without_trailing_slashes((#[trigger] entries[i]).channel.canonical_name@)
                        == key
                    &&& forall|j: int|
                        i < j < entries.len() ==> !(#[trigger] entries[j]).channel.is_same(
                            entries[i].channel,
                        )
                },
        forall|i: int|
            {
                &&& 0 <= i < entries.len()
                &&& forall|j: int|
                    i < j < entries.len() ==> {
                        &&& !(#[trigger] entries[j]).channel.is_same(entries[i].channel)
                        &&& without_trailing_slashes(entries[j].channel.canonical_name@)
                            == without_trailing_slashes(entries[i].channel.canonical_name@)
                            ==> exists|l: int|
                            j < l < entries.len() && (#[trigger] entries[l]).channel.is_same(
                                entries[j].channel,
                            )
                    }
            } ==> {
                let location = custom.mapping@[without_trailing_slashes(
                    (#[trigger] entries[i]).channel.canonical_name@,
                )];
                match entries[i].parsed {
                    Ok(url) => location matches MappingLocation::Url(text) && text@ == url@,
                    Err(error) => error == UrlError::RelativeUrlWithoutBase && (
                    location matches MappingLocation::Path(text) && text@ == entries[i].location@),
                }
            },
{
    lemma_mapping_table(entries, entries.len());
    let table = mapping_table(entries, entries.len());
    assert forall|i: int| 0 <= i < entries.len() implies exists|k: int|
        0 <= k < used.len() && (#[trigger] used[k]).is_same((#[trigger] entries[i]).channel) by {
        assert(!is_missing(entries, used, i));
    }
    assert forall|key: Seq<char>|
        #![trigger custom.mapping@.contains_key(key)]
        custom.mapping@.contains_key(key) <==> exists|i: int|
            {
                &&& 0 <= i < entries.len()
                &&& without_trailing_slashes((#[trigger] entries[i]).channel.canonical_name@)
                    == key
                &&& forall|j: int|
                    i < j < entries.len() ==> !(#[trigger] entries[j]).channel.is_same(
                        entries[i].channel,
                    )
            } by {
        assert(locations(custom.mapping@).contains_key(key) == custom.mapping@.contains_key(key));
        assert(table.contains_key(key) == custom.mapping@.contains_key(key));
        if table.contains_key(key) {
            let i = choose|i: int|
                0 <= i < entries.len() && #[trigger] counts(entries, i) && mapping_key(
                    entries[i].channel,
                ) == key;
            assert(without_trailing_slashes(entries[i].channel.canonical_name@) == key);
        }
        if exists|i: int|
            {
                &&& 0 <= i < entries.len()
                &&& without_trailing_slashes((#[trigger] entries[i]).channel.canonical_name@)
                    == key
                &&& forall|j: int|
                    i < j < entries.len() ==> !(#[trigger] entries[j]).channel.is_same(
                        entries[i].channel,
                    )
            } {
            let i = choose|i: int|
                {
                    &&& 0 <= i < entries.len()
                    &&& without_trailing_slashes((#[trigger] entries[i]).channel.canonical_name@)
                        == key
                    &&& forall|j: int|
                        i < j < entries.len() ==> !(#[trigger] entries[j]).channel.is_same(
                            entries[i].channel,
                        )
                };
            assert(counts(entries, i));
        }
    }
    assert forall|i: int|
        {
            &&& 0 <= i < entries.len()
            &&& forall|j: int|
                i < j < entries.len() ==> {
                    &&& !(#[trigger] entries[j]).channel.is_same(entries[i].channel)
                    &&& without_trailing_slashes(entries[j].channel.canonical_name@)
                        == without_trailing_slashes(entries[i].channel.canonical_name@)
                        ==> exists|l: int|
                        j < l < entries.len() && (#[trigger] entries[l]).channel.is_same(
                            entries[j].channel,
                        )
                }
        } implies ({
        let location = custom.mapping@[without_trailing_slashes(
            (#[trigger] entries[i]).channel.canonical_name@,
        )];
        match entries[i].parsed {
            Ok(url) => location matches MappingLocation::Url(text) && text@ == url@,
            Err(error) => error == UrlError::RelativeUrlWithoutBase && (
            location matches MappingLocation::Path(text) && text@ == entries[i].location@),
        }
    }) by {
        let key = mapping_key(entries[i].channel);
        assert(counts(entries, i));
        assert(!is_malformed(entries, i));
        assert(table.contains_key(key));
        assert(locations(custom.mapping@).contains_key(key));
        assert(locations(custom.mapping@)[key] == custom.mapping@[key]@);
        assert(!(exists|j: int|
            i < j < entries.len() && #[trigger] counts(entries, j) && mapping_key(
                entries[j].channel,
            ) == key)) by {
            assert forall|j: int| i < j < entries.len() && #[trigger] counts(entries, j) implies
                mapping_key(entries[j].channel) != key by {
                assert(!entries[j].channel.is_same(entries[i].channel));
            }
        }
        assert(custom.mapping@[key]@ == location_of(entries[i]));
    }
}

/// Nothing but an empty map switches the mapping off. Of a map with entries, a channel is reported
/// as missing exactly if one of the entries has a channel that is nowhere among those used. It is
/// the first such channel, as it is shown.
pub proof fn law_missing_channel(
    entries: Seq<MapEntry>,
    used: Seq<Channel>,
    source: Result<MappingSource, MappingError>,
)
    requires
        is_source_of(entries, used, source),
    ensures
        source matches Ok(MappingSource::Disabled) <==> entries.len() == 0,
        source matches Err(MappingError::MissingChannel { .. }) <==> exists|i: int|
            {
                &&& 0 <= i < entries.len()
                &&& forall|k: int|
                    0 <= k < used.len() ==> !(#[trigger] used[k]).is_same(
                        (#[trigger] entries[i]).channel,
                    )
            },
        source matches Err(MappingError::MissingChannel { channel, channels }) ==> exists|i: int|
            {
                &&& 0 <= i < entries.len()
                &&& forall|k: int|
                    0 <= k < used.len() ==> !(#[trigger] used[k]).is_same(entries[i].channel)
                &&& forall|j: int|
                    0 <= j < i ==> exists|k: int|
                        0 <= k < used.len() && (#[trigger] used[k]).is_same(
                            (#[trigger] entries[j]).channel,
                        )
                &&& channel@ == (#[trigger] entries[i]).channel.shown()
            },
{
    if exists|i: int| is_missing(entries, used, i) {
        let i = choose|i: int| is_missing(entries, used, i);
        assert(forall|k: int|
            0 <= k < used.len() ==> !(#[trigger] used[k]).is_same(entries[i].channel));
        if let Err(MappingError::MissingChannel { channel, channels }) = source {
            let i = choose|i: int| #[trigger]
                is_first_missing(entries, used, i) && channel@ == entries[i].channel.shown()
                    && is_channel_list(used, channels@);
            assert forall|j: int| 0 <= j < i implies exists|k: int|
                0 <= k < used.len() && (#[trigger] used[k]).is_same(
                    (#[trigger] entries[j]).channel,
                ) by {
                assert(!is_missing(entries, used, j));
            }
            assert(channel@ == entries[i].channel.shown());
        }
    } else {
        assert forall|i: int| 0 <= i < entries.len() implies !(forall|k: int|
            0 <= k < used.len() ==> !(#[trigger] used[k]).is_same(
                (#[trigger] entries[i]).channel,
            )) by {
            assert(!is_missing(entries, used, i));
        }
    }
}

/// Where no channel is missing, a location is reported exactly if one of the entries that count is
/// malformed. It is the first such location. All other maps with entries make a custom mapping.
pub proof fn law_malformed_location(
    entries: Seq<MapEntry>,
    used: Seq<Channel>,
    source: Result<MappingSource, MappingError>,
)
    requires
        is_source_of(entries, used, source),
        entries.len() > 0,
        !(source matches Err(MappingError::MissingChannel { .. })),
    ensures
        source matches Err(MappingError::Location(_)) || source matches Ok(MappingSource::Custom(_)),
        source matches Err(MappingError::Location(_)) <==> exists|i: int|
            {
                &&& 0 <= i < entries.len()
                &&& (#[trigger] entries[i]).parsed matches Err(UrlError::Malformed)
                &&& forall|j: int|
                    i < j < entries.len() ==> !(#[trigger] entries[j]).channel.is_same(
                        entries[i].channel,
                    )
            },
        source matches Err(MappingError::Location(location)) ==> exists|i: int|
            {
                &&& 0 <= i < entries.len()
                &&& location@ == (#[trigger] entries[i]).location@
                &&& entries[i].parsed matches Err(UrlError::Malformed)
                &&& forall|j: int|
                    i < j < entries.len() ==> !(#[trigger] entries[j]).channel.is_same(
                        entries[i].channel,
                    )
                &&& forall|h: int|
                    0 <= h < i && (#[trigger] entries[h]).parsed == entries[i].parsed
                        ==> exists|j: int|
                        h < j < entries.len() && (#[trigger] entries[j]).channel.is_same(
                            entries[h].channel,
                        )
            },
{
    if exists|i: int| is_malformed(entries, i) {
        let i = choose|i: int| is_malformed(entries, i);
        assert(entries[i].parsed matches Err(UrlError::Malformed));
        if let Err(MappingError::Location(location)) = source {
            let i = choose|i: int| #[trigger]
                is_first_malformed(entries, i) && location@ == entries[i].location@;
            assert forall|h: int|
                0 <= h < i && (#[trigger] entries[h]).parsed
                    == entries[i].parsed implies exists|j: int|
                h < j < entries.len() && (#[trigger] entries[j]).channel.is_same(
                    entries[h].channel,
                ) by {
                assert(!is_malformed(entries, h));
            }
            assert(location@ == entries[i].location@);
        }
    } else {
        assert forall|i: int|
            0 <= i < entries.len() && ((#[trigger] entries[i]).parsed matches Err(
                UrlError::Malformed,
            )) implies !(forall|j: int|
            i < j < entries.len() ==> !(#[trigger] entries[j]).channel.is_same(
                entries[i].channel,
            )) by {
            assert(!is_malformed(entries, i));
        }
    }
}

proof fn lemma_distinct(channels: Seq<Channel>, n: nat)
    requires
        n <= channels.len(),
    ensures
        distinct(channels.take(n as int)) == Seq::new(n, |i: int| i).filter(
            |i: int|
                forall|j: int| 0 <= j < i ==> !(#[trigger] channels[j]).is_same(channels[i]),
        ).map_values(|i: int| channels[i]),
        forall|x: Channel|
            #[trigger] is_listed(distinct(channels.take(n as int)), x) <==> exists|j: int|
                0 <= j < n && (#[trigger] channels[j]).is_same(x),
    decreases n,
{
    reveal(Seq::filter);
    let first = |i: int|
        forall|j: int| 0 <= j < i ==> !(#[trigger] channels[j]).is_same(channels[i]);
    let all = channels.take(n as int);
    if n == 0 {
        assert(Seq::new(0, |i: int| i).filter(first).map_values(|i: int| channels[i])
            =~= Seq::<Channel>::empty());
        assert(distinct(all) =~= Seq::<Channel>::empty());
    } else {
        let m = (n - 1) as nat;
        lemma_distinct(channels, m);
        assert(all.drop_last() =~= channels.take(m as int));
        let kept = distinct(channels.take(m as int));
        let places = Seq::new(m, |i: int| i);
        assert(Seq::new(n, |i: int| i) =~= places.push(m as int));
        places.lemma_filter_push(m as int, first);
        assert(first(m as int) == !is_listed(kept, channels[m as int]));
        if first(m as int) {
            assert(places.push(m as int).filter(first).map_values(|i: int| channels[i])
                =~= places.filter(first).map_values(|i: int| channels[i]).push(
                channels[m as int],
            ));
        }
        assert forall|x: Channel| #[trigger] is_listed(distinct(all), x) <==> exists|j: int|
            0 <= j < n && (#[trigger] channels[j]).is_same(x) by {
            let grown = distinct(all);
            assert(channels[m as int] == all.last());
            if is_listed(grown, x) {
                let k = choose|k: int|
                    0 <= k < grown.len() && (#[trigger] grown[k]).is_same(x);
                if k < kept.len() {
                    assert(kept[k].is_same(x));
                    assert(is_listed(kept, x));
                    let j = choose|j: int| 0 <= j < m && (#[trigger] channels[j]).is_same(x);
                    assert(channels[j].is_same(x));
                } else {
                    assert(channels[m as int].is_same(x));
                }
            }
            if exists|j: int| 0 <= j < n && (#[trigger] channels[j]).is_same(x) {
                let j = choose|j: int| 0 <= j < n && (#[trigger] channels[j]).is_same(x);
                if j < m {
                    assert(is_listed(kept, x));
                    let k = choose|k: int|
                        0 <= k < kept.len() && (#[trigger] kept[k]).is_same(x);
                    assert(grown[k].is_same(x));
                } else if is_listed(kept, all.last()) {
                    let k = choose|k: int|
                        0 <= k < kept.len() && (#[trigger] kept[k]).is_same(all.last());
                    assert(grown[k].is_same(x));
                } else {
                    assert(grown[kept.len() as int].is_same(x));
                }
            }
        }
    }
}

/// The list of channels that goes with a missing one holds what the channels in use are shown as,
/// each channel once, in the order of the texts.
pub proof fn law_channel_list(used: Seq<Channel>, channels: Seq<String>)
    requires
        is_channel_list(used, channels),
    ensures
        channels.map_values(|text: String| text@).to_multiset() == Seq::new(
            used.len(),
            |i: int| i,
        ).filter(
            |i: int| forall|j: int| 0 <= j < i ==> !(#[trigger] used[j]).is_same(used[i]),
        ).map_values(
            |i: int|
                match used[i].name {
                    Some(name) => name@,
                    None => used[i].base_url@,
                },
        ).to_multiset(),
        forall|i: int, j: int|
            0 <= i <= j < channels.len() ==> text_le(
                #[trigger] channels[i]@,
                #[trigger] channels[j]@,
            ),
{
    lemma_distinct(used, used.len());
    assert(used.take(used.len() as int) =~= used);
    let firsts = Seq::new(used.len(), |i: int| i).filter(
        |i: int| forall|j: int| 0 <= j < i ==> !(#[trigger] used[j]).is_same(used[i]),
    );
    assert(shown_channels(distinct(used)) =~= firsts.map_values(
        |i: int|
            match used[i].name {
                Some(name) => name@,
                None => used[i].base_url@,
            },
    ));
    assert(texts(channels) =~= channels.map_values(|text: String| text@));
}

/// A list of missing channels comes with every error that reports one.
pub proof fn law_missing_channel_lists_those_in_use(
    entries: Seq<MapEntry>,
    used: Seq<Channel>,
    channel: String,
    channels: Vec<String>,
)
    requires
        is_source_of(entries, used, Err((MappingError::MissingChannel { channel, channels }))),
    ensures
        is_channel_list(used, channels@),
{
}

/// Whether every channel of `resolved` is what the channel of `channels` at its place resolves to.
pub open spec fn are_resolved(
    channels: Seq<NamedChannelOrUrl>,
    config: ChannelConfig,
    resolved: Seq<Channel>,
) -> bool {
    &&& resolved.len() == channels.len()
    &&& forall|k: int|
        0 <= k < resolved.len() ==> resolves_to(channels[k], config, #[trigger] resolved[k])
}

/// What a manifest with a map gives is read from the map and the channels in use: every entry of the
/// map counts with its own channel and its own location, and every channel of the project and of
/// the features is among those in use.
pub proof fn law_map_is_read(
    manifest: Manifest,
    config: ChannelConfig,
    map: Vec<(NamedChannelOrUrl, String)>,
    source: Result<MappingSource, MappingError>,
) -> (read: (Seq<MapEntry>, Seq<Channel>))
    requires
        is_mapping_source(manifest, config, source),
        manifest.workspace.conda_pypi_map == Some(map),
        !(source matches Err(MappingError::Channel(_))),
    ensures
        is_source_of(read.0, read.1, source),
        read.0.len() == map@.len(),
        forall|k: int|
            0 <= k < map@.len() ==> {
                let entry = #[trigger] read.0[k];
                &&& resolves_to(map@[k].0, config, entry.channel)
                &&& entry.location@ == map@[k].1@
                &&& match entry.parsed {
                    Ok(url) => parsed_url(map@[k].1@) == Ok::<Seq<char>, UrlError>(url@),
                    Err(error) => parsed_url(map@[k].1@) == Err::<Seq<char>, UrlError>(error),
                }
            },
        map@.len() > 0 ==> are_resolved(
            manifest.workspace.channels@ + manifest.features@.map_values(
                |feature: Feature|
                    match feature.channels {
                        Some(channels) => channels@,
                        None => Seq::empty(),
                    },
            ).flatten(),
            config,
            read.1,
        ),
{
    law_used_channels(manifest);
    let (entries, used) = choose|entries: Seq<MapEntry>, used: Seq<Channel>|
        {
            &&& map_resolves(map@, config, entries)
            &&& map@.len() > 0 ==> all_resolve(used_channels(manifest), config, used)
            &&& #[trigger] is_source_of(entries, used, source)
        };
    assert forall|k: int| 0 <= k < map@.len() implies ({
        let entry = #[trigger] entries[k];
        &&& resolves_to(map@[k].0, config, entry.channel)
        &&& entry.location@ == map@[k].1@
        &&& match entry.parsed {
            Ok(url) => parsed_url(map@[k].1@) == Ok::<Seq<char>, UrlError>(url@),
            Err(error) => parsed_url(map@[k].1@) == Err::<Seq<char>, UrlError>(error),
        }
    }) by {
        assert(map@[k].1@ == entries[k].location@);
    }
    if map@.len() > 0 {
        assert forall|k: int| 0 <= k < used.len() implies resolves_to(
            used_channels(manifest)[k],
            config,
            #[trigger] used[k],
        ) by {
            assert(resolves_to(used_channels(manifest)[k], config, used[k]));
        }
        assert(are_resolved(used_channels(manifest), config, used));
    }
    (entries, used)
}

/// The location of a channel that is given by name is found under the canonical name of the channel,
/// where no later entry has that: it is the URL that the map gives, or else a path.
pub proof fn law_location_of_a_named_channel(
    manifest: Manifest,
    config: ChannelConfig,
    map: Vec<(NamedChannelOrUrl, String)>,
    custom: CustomMapping,
    k: int,
)
    requires
        is_mapping_source(manifest, config, Ok(MappingSource::Custom(custom))),
        manifest.workspace.conda_pypi_map == Some(map),
        0 <= k < map@.len(),
        forall|j: int| k <= j < map@.len() ==> (#[trigger] map@[j]).0 is Name,
        forall|j: int|
            k < j < map@.len() ==> without_trailing_slashes(
                canonical_channel_name(
                    channel_base_url(
                        Some(config.channel_alias@),
                        (#[trigger] map@[j]).0->Name_0@,
                    ),
                ),
            ) != without_trailing_slashes(
                canonical_channel_name(
                    channel_base_url(Some(config.channel_alias@), map@[k].0->Name_0@),
                ),
            ),
    ensures
        ({
            let key = without_trailing_slashes(
                canonical_channel_name(
                    channel_base_url(Some(config.channel_alias@), map@[k].0->Name_0@),
                ),
            );
            &&& custom.mapping@.contains_key(key)
            &&& match parsed_url(map@[k].1@) {
                Ok(url) => custom.mapping@[key] matches MappingLocation::Url(text) && text@ == url,
                Err(error) => error == UrlError::RelativeUrlWithoutBase && (
                custom.mapping@[key] matches MappingLocation::Path(text) && text@ == map@[k].1@),
            }
        }),
{
    let source = Ok::<MappingSource, MappingError>(MappingSource::Custom(custom));
    let (entries, used) = law_map_is_read(manifest, config, map, source);
    law_custom_mapping(entries, used, custom);
    assert(resolves_to(map@[k].0, config, entries[k].channel));
    let key = without_trailing_slashes(entries[k].channel.canonical_name@);
    assert forall|j: int| k < j < entries.len() implies ({
        &&& !(#[trigger] entries[j]).channel.is_same(entries[k].channel)
        &&& without_trailing_slashes(entries[j].channel.canonical_name@) != key
    }) by {
        assert(map@[j].0 is Name);
        assert(resolves_to(map@[j].0, config, entries[j].channel));
    }
    assert(custom.mapping@.contains_key(key));
}

/// The errors, as they are shown.
pub proof fn law_mapping_errors_are_shown(missing: Seq<char>, text: String, channels: Vec<String>)
    ensures
        MappingError::Channel(ParseChannelError::InvalidUrl).shown(missing)
            == "could not parse url"@,
        MappingError::Channel(ParseChannelError::InvalidPath(text)).shown(missing) == text@,
        (MappingError::MissingChannel { channel: text, channels }).shown(missing)
            == "conda-pypi-map is defined: the "@ + missing
            + " is missing from the channels array, which currently are: "@ + joined(
            channels@.map_values(|text: String| text@),
            ", "@,
        ),
        MappingError::Location(text).shown(missing) == "Could not convert "@ + text@
            + " to neither URL or Path"@,
{
    assert(texts(channels@) =~= channels@.map_values(|text: String| text@));
}

/// The mapping is switched off exactly if the manifest holds an empty map, and it is that of
/// prefix.dev exactly if the manifest holds none.
pub proof fn law_mapping_source_kind(
    manifest: Manifest,
    config: ChannelConfig,
    source: Result<MappingSource, MappingError>,
)
    requires
        is_mapping_source(manifest, config, source),
    ensures
        source matches Ok(MappingSource::Disabled) <==> (manifest.workspace.conda_pypi_map matches Some(
            map,
        ) && map@.len() == 0),
        source matches Ok(MappingSource::Prefix) <==> manifest.workspace.conda_pypi_map is None,
{
    if let Some(map) = manifest.workspace.conda_pypi_map {
        if !(source matches Err(MappingError::Channel(_))) {
            let (entries, used) = choose|entries: Seq<MapEntry>, used: Seq<Channel>|
                {
                    &&& map_resolves(map@, config, entries)
                    &&& map@.len() > 0 ==> all_resolve(used_channels(manifest), config, used)
                    &&& #[trigger] is_source_of(entries, used, source)
                };
            assert(entries.len() == map@.len());
        }
    }
}

/// No mapping comes of a map where one of the channels that have to be resolved never does: where
/// one of the URLs is none, or where a path is relative and so is the root directory.
pub proof fn law_unresolvable_channel_is_an_error(
    manifest: Manifest,
    config: ChannelConfig,
    map: Vec<(NamedChannelOrUrl, String)>,
    source: Result<MappingSource, MappingError>,
    k: int,
)
    requires
        is_mapping_source(manifest, config, source),
        manifest.workspace.conda_pypi_map == Some(map),
        0 <= k < channels_to_resolve(manifest, map@).len(),
        ({
            let channel = channels_to_resolve(manifest, map@)[k];
            ||| never_resolves(channel, config)
            ||| channel matches NamedChannelOrUrl::Path(path) && is_relative(path@) && is_relative(
                config.root_dir@,
            )
        }),
    ensures
        source matches Err(MappingError::Channel(_)),
{
    if !(source matches Err(MappingError::Channel(_))) {
        let (entries, used) = choose|entries: Seq<MapEntry>, used: Seq<Channel>|
            {
                &&& map_resolves(map@, config, entries)
                &&& map@.len() > 0 ==> all_resolve(used_channels(manifest), config, used)
                &&& #[trigger] is_source_of(entries, used, source)
            };
        if k < map@.len() {
            assert(channels_to_resolve(manifest, map@)[k] == map@[k].0);
        } else {
            assert(channels_to_resolve(manifest, map@)[k] == used_channels(manifest)[k
                - map@.len()]);
        }
    }
}

/// Channels given by name, by URL or by an absolute path always resolve, as long as the URLs are
/// such.
pub proof fn law_resolvable_channels_are_no_error(
    manifest: Manifest,
    config: ChannelConfig,
    map: Vec<(NamedChannelOrUrl, String)>,
    source: Result<MappingSource, MappingError>,
)
    requires
        is_mapping_source(manifest, config, source),
        manifest.workspace.conda_pypi_map == Some(map),
        forall|k: int|
            0 <= k < channels_to_resolve(manifest, map@).len() ==> {
                let channel = #[trigger] channels_to_resolve(manifest, map@)[k];
                &&& !never_resolves(channel, config)
                &&& channel matches NamedChannelOrUrl::Path(path) ==> is_absolute(path@)
            },
    ensures
        !(source matches Err(MappingError::Channel(_))),
{
}

/// Whether a manifest writes the same channel twice, by name, by URL, or by a path that resolves to
/// the same on every machine.
pub open spec fn is_written_as(
    config: ChannelConfig,
    a: NamedChannelOrUrl,
    b: NamedChannelOrUrl,
) -> bool {
    match (a, b) {
        (NamedChannelOrUrl::Name(a), NamedChannelOrUrl::Name(b)) => a@ == b@,
        (NamedChannelOrUrl::Url(a), NamedChannelOrUrl::Url(b)) => a@ == b@,
        (NamedChannelOrUrl::Path(a), NamedChannelOrUrl::Path(b)) => a@ == b@ && is_portable(
            config.root_dir@,
            a@,
        ),
        _ => false,
    }
}

/// Whether a manifest uses the channel `channel`, for the project or for one of its features.
pub open spec fn uses(
    manifest: Manifest,
    config: ChannelConfig,
    channel: NamedChannelOrUrl,
) -> bool {
    ||| exists|k: int|
        0 <= k < manifest.workspace.channels@.len() && is_written_as(
            config,
            #[trigger] manifest.workspace.channels@[k],
            channel,
        )
    ||| exists|f: int, k: int| #[trigger]
        is_feature_channel(manifest, f, k) && is_written_as(
            config,
            manifest.features@[f].channels->Some_0@[k],
            channel,
        )
}

/// Whether the feature at place `f` has channels, and one at place `k` of them.
pub open spec fn is_feature_channel(manifest: Manifest, f: int, k: int) -> bool {
    &&& 0 <= f < manifest.features@.len()
    &&& manifest.features@[f].channels matches Some(channels) && 0 <= k < channels@.len()
}

proof fn lemma_feature_channels(features: Seq<Feature>, n: nat)
    requires
        n <= features.len(),
    ensures
        feature_channels(features, n) == features.take(n as int).map_values(
            |feature: Feature|
                match feature.channels {
                    Some(channels) => channels@,
                    None => Seq::empty(),
                },
        ).flatten(),
    decreases n,
{
    let of_feature = |feature: Feature|
        match feature.channels {
            Some(channels) => channels@,
            None => Seq::<NamedChannelOrUrl>::empty(),
        };
    if n == 0 {
        assert(features.take(0).map_values(of_feature) =~= Seq::<Seq<NamedChannelOrUrl>>::empty());
    } else {
        lemma_feature_channels(features, (n - 1) as nat);
        let front = features.take(n - 1).map_values(of_feature);
        assert(features.take(n as int).map_values(of_feature) =~= front.push(
            of_feature(features[n - 1]),
        ));
        front.lemma_flatten_push(of_feature(features[n - 1]));
    }
}

proof fn lemma_feature_channel_is_used(features: Seq<Feature>, n: nat, f: int, k: int)
    requires
        0 <= f < n <= features.len(),
        features[f].channels matches Some(channels) && 0 <= k < channels@.len(),
    ensures
        feature_channels(features, n).contains(features[f].channels->Some_0@[k]),
    decreases n,
{
    let channel = features[f].channels->Some_0@[k];
    let front = feature_channels(features, (n - 1) as nat);
    if f < n - 1 {
        lemma_feature_channel_is_used(features, (n - 1) as nat, f, k);
        let i = front.index_of(channel);
        assert(feature_channels(features, n)[i] == channel);
    } else {
        assert(feature_channels(features, n)[front.len() + k] == channel);
    }
}

/// A manifest uses every channel of the project, and every channel of every feature that has any: in
/// that order, and no others.
pub proof fn law_used_channels(manifest: Manifest)
    ensures
        used_channels(manifest) == manifest.workspace.channels@ + manifest.features@.map_values(
            |feature: Feature|
                match feature.channels {
                    Some(channels) => channels@,
                    None => Seq::empty(),
                },
        ).flatten(),
        forall|k: int|
            0 <= k < manifest.workspace.channels@.len() ==> used_channels(manifest).contains(
                #[trigger] manifest.workspace.channels@[k],
            ),
        forall|f: int, k: int|
            {
                &&& 0 <= f < manifest.features@.len()
                &&& manifest.features@[f].channels is Some
                &&& 0 <= k < manifest.features@[f].channels->Some_0@.len()
            } ==> used_channels(manifest).contains(
                #[trigger] manifest.features@[f].channels->Some_0@[k],
            ),
{
    let features = manifest.features@;
    lemma_feature_channels(features, features.len());
    assert(features.take(features.len() as int) =~= features);
    assert forall|k: int| 0 <= k < manifest.workspace.channels@.len() implies used_channels(
        manifest,
    ).contains(#[trigger] manifest.workspace.channels@[k]) by {
        assert(used_channels(manifest)[k] == manifest.workspace.channels@[k]);
    }
    assert forall|f: int, k: int|
        {
            &&& 0 <= f < manifest.features@.len()
            &&& manifest.features@[f].channels is Some
            &&& 0 <= k < manifest.features@[f].channels->Some_0@.len()
        } implies used_channels(manifest).contains(
        #[trigger] manifest.features@[f].channels->Some_0@[k],
    ) by {
        let channel = manifest.features@[f].channels->Some_0@[k];
        lemma_feature_channel_is_used(features, features.len(), f, k);
        let i = feature_channels(features, features.len()).index_of(channel);
        assert(used_channels(manifest)[manifest.workspace.channels@.len() + i] == channel);
    }
}

/// The channels that have to be resolved are those of the map, then those of the project, then those
/// of one feature after the other. An empty map needs none.
pub proof fn law_channels_to_resolve(manifest: Manifest, map: Seq<(NamedChannelOrUrl, String)>)
    ensures
        map.len() == 0 ==> channels_to_resolve(manifest, map).len() == 0,
        map.len() > 0 ==> channels_to_resolve(manifest, map) == map.map_values(
            |entry: (NamedChannelOrUrl, String)| entry.0,
        ) + manifest.workspace.channels@ + manifest.features@.map_values(
            |feature: Feature|
                match feature.channels {
                    Some(channels) => channels@,
                    None => Seq::empty(),
                },
        ).flatten(),
{
    law_used_channels(manifest);
    let keys = map.map_values(|entry: (NamedChannelOrUrl, String)| entry.0);
    let of_features = manifest.features@.map_values(
        |feature: Feature|
            match feature.channels {
                Some(channels) => channels@,
                None => Seq::<NamedChannelOrUrl>::empty(),
            },
    ).flatten();
    assert(keys + (manifest.workspace.channels@ + of_features) =~= keys
        + manifest.workspace.channels@ + of_features);
}

/// A channel that the manifest uses, be it any channel of any of its features, is never missing. This
/// leaves out paths of which the machine decides what they resolve to, such as one in the home
/// directory: that may change from one look to the next.
pub proof fn law_used_channels_are_not_missing(
    manifest: Manifest,
    config: ChannelConfig,
    map: Vec<(NamedChannelOrUrl, String)>,
    source: Result<MappingSource, MappingError>,
)
    requires
        is_mapping_source(manifest, config, source),
        manifest.workspace.conda_pypi_map == Some(map),
        forall|k: int| 0 <= k < map@.len() ==> uses(manifest, config, (#[trigger] map@[k]).0),
    ensures
        !(source matches Err(MappingError::MissingChannel { .. })),
{
    if source matches Err(MappingError::MissingChannel { .. }) {
        let (entries, used) = choose|entries: Seq<MapEntry>, used: Seq<Channel>|
            {
                &&& map_resolves(map@, config, entries)
                &&& map@.len() > 0 ==> all_resolve(used_channels(manifest), config, used)
                &&& #[trigger] is_source_of(entries, used, source)
            };
        assert forall|k: int| !#[trigger] is_missing(entries, used, k) by {
            if 0 <= k < entries.len() {
                assert(uses(manifest, config, map@[k].0));
                lemma_used(manifest, config, map@[k].0);
                let j = choose|j: int|
                    0 <= j < used_channels(manifest).len() && is_written_as(
                        config,
                        #[trigger] used_channels(manifest)[j],
                        map@[k].0,
                    );
                assert(resolves_to(used_channels(manifest)[j], config, used[j]));
                assert(used[j].is_same(entries[k].channel));
            }
        }
    }
}

proof fn lemma_used(manifest: Manifest, config: ChannelConfig, channel: NamedChannelOrUrl)
    requires
        uses(manifest, config, channel),
    ensures
        exists|j: int|
            0 <= j < used_channels(manifest).len() && is_written_as(
                config,
                #[trigger] used_channels(manifest)[j],
                channel,
            ),
{
    law_used_channels(manifest);
    let used = used_channels(manifest);
    if exists|k: int|
        0 <= k < manifest.workspace.channels@.len() && is_written_as(
            config,
            #[trigger] manifest.workspace.channels@[k],
            channel,
        ) {
        let k = choose|k: int|
            0 <= k < manifest.workspace.channels@.len() && is_written_as(
                config,
                #[trigger] manifest.workspace.channels@[k],
                channel,
            );
        let j = used.index_of(manifest.workspace.channels@[k]);
        assert(is_written_as(config, used[j], channel));
    } else {
        let (f, k) = choose|f: int, k: int| #[trigger]
            is_feature_channel(manifest, f, k) && is_written_as(
                config,
                manifest.features@[f].channels->Some_0@[k],
                channel,
            );
        let j = used.index_of(manifest.features@[f].channels->Some_0@[k]);
        assert(is_written_as(config, used[j], channel));
    }
}

/// A channel of the map that is given by name, where neither the project nor a feature has a
/// channel of that name or one given by URL, comes to nothing: it is missing, unless a channel fails
/// to resolve before.
pub proof fn law_unused_name_is_missing(
    manifest: Manifest,
    config: ChannelConfig,
    map: Vec<(NamedChannelOrUrl, String)>,
    source: Result<MappingSource, MappingError>,
    i: int,
    name: String,
)
    requires
        is_mapping_source(manifest, config, source),
        manifest.workspace.conda_pypi_map == Some(map),
        0 <= i < map@.len(),
        map@[i].0 == NamedChannelOrUrl::Name(name),
        forall|k: int|
            0 <= k < manifest.workspace.channels@.len() ==> {
                let channel = #[trigger] manifest.workspace.channels@[k];
                channel !is Url && (channel matches NamedChannelOrUrl::Name(n) ==> n@ != name@)
            },
        forall|f: int, k: int|
            #[trigger] is_feature_channel(manifest, f, k) ==> {
                let channel = manifest.features@[f].channels->Some_0@[k];
                channel !is Url && (channel matches NamedChannelOrUrl::Name(n) ==> n@ != name@)
            },
    ensures
        source matches Err(MappingError::MissingChannel { .. }) || source matches Err(
            MappingError::Channel(_),
        ),
{
    if !(source matches Err(MappingError::Channel(_))) {
        let (entries, used) = choose|entries: Seq<MapEntry>, used: Seq<Channel>|
            {
                &&& map_resolves(map@, config, entries)
                &&& map@.len() > 0 ==> all_resolve(used_channels(manifest), config, used)
                &&& #[trigger] is_source_of(entries, used, source)
            };
        assert(resolves_to(map@[i].0, config, entries[i].channel));
        assert forall|j: int| 0 <= j < used.len() implies !(#[trigger] used[j]).is_same(
            entries[i].channel,
        ) by {
            let all = used_channels(manifest);
            assert(resolves_to(all[j], config, used[j]));
            let base = manifest.workspace.channels@;
            if j < base.len() {
                assert(all[j] == base[j]);
            } else {
                let n = manifest.features@.len();
                assert(all[j] == feature_channels(manifest.features@, n)[j - base.len()]);
                let (f, k) = lemma_feature_channel_origin(manifest.features@, n, j - base.len());
                assert(is_feature_channel(manifest, f, k));
            }
        }
        assert(is_missing(entries, used, i));
    }
}

proof fn lemma_feature_channel_origin(features: Seq<Feature>, n: nat, i: int) -> (origin: (int, int))
    requires
        n <= features.len(),
        0 <= i < feature_channels(features, n).len(),
    ensures
        0 <= origin.0 < n,
        features[origin.0].channels matches Some(channels) && 0 <= origin.1 < channels@.len()
            && feature_channels(features, n)[i] == channels@[origin.1],
    decreases n,
{
    let front = feature_channels(features, (n - 1) as nat);
    if i < front.len() {
        lemma_feature_channel_origin(features, (n - 1) as nat, i)
    } else {
        (n - 1, i - front.len())
    }
}

/// A channel of the map that fails to resolve is reported before one that the manifest uses: where
/// one of the latter is to blame, all channels of the map resolve.
pub proof fn law_mapped_channels_are_resolved_first(
    manifest: Manifest,
    config: ChannelConfig,
    map: Vec<(NamedChannelOrUrl, String)>,
    error: ParseChannelError,
)
    requires
        is_mapping_source(manifest, config, Err(MappingError::Channel(error))),
        manifest.workspace.conda_pypi_map == Some(map),
    ensures
        (exists|k: int| fails_first_at(mapped_channels(map@), config, error, k)) || {
            &&& forall|i: int| 0 <= i < map@.len() ==> can_resolve((#[trigger] map@[i]).0, config)
            &&& exists|j: int| fails_first_at(used_channels(manifest), config, error, j)
        },
{
    let keys = mapped_channels(map@);
    let used = used_channels(manifest);
    let all = channels_to_resolve(manifest, map@);
    let k = choose|k: int| fails_first_at(all, config, error, k);
    if k < keys.len() {
        assert forall|i: int| 0 <= i < k implies can_resolve(#[trigger] keys[i], config) by {
            assert(all[i] == keys[i]);
        }
        assert(fails_first_at(keys, config, error, k));
    } else {
        let j = k - keys.len();
        assert forall|i: int| 0 <= i < map@.len() implies can_resolve(
            (#[trigger] map@[i]).0,
            config,
        ) by {
            assert(all[i] == map@[i].0);
        }
        assert forall|i: int| 0 <= i < j implies can_resolve(#[trigger] used[i], config) by {
            assert(all[keys.len() + i] == used[i]);
        }
        assert(fails_first_at(used, config, error, j));
    }
}

/// The location of an entry is the URL that it parses to; a relative reference is a path; and
/// anything else is an error that names it.
pub proof fn law_mapping_location(
    location: String,
    parsed: Result<String, UrlError>,
    result: Result<MappingLocation, MappingError>,
)
    requires
        call_ensures(mapping_location, (&location, &parsed), result),
    ensures
        parsed matches Ok(url) ==> (result matches Ok(MappingLocation::Url(text)) && text@ == url@),
        parsed matches Err(UrlError::RelativeUrlWithoutBase) ==> (result matches Ok(
            MappingLocation::Path(text),
        ) && text@ == location@),
        parsed matches Err(UrlError::Malformed) ==> (result matches Err(
            MappingError::Location(text),
        ) && text@ == location@),
{
}

/// What a map gives, with the channels in use. Nothing but an empty map switches the mapping off;
/// a channel is missing exactly if one of the entries has one that is nowhere among those in use.
pub proof fn law_mapping_of_entries(
    entries: Vec<MapEntry>,
    used: Vec<Channel>,
    source: Result<MappingSource, MappingError>,
)
    requires
        call_ensures(mapping_source, (&entries, &used), source),
    ensures
        is_source_of(entries@, used@, source),
        source matches Ok(MappingSource::Disabled) <==> entries@.len() == 0,
        source matches Err(MappingError::MissingChannel { .. }) <==> exists|i: int|
            {
                &&& 0 <= i < entries@.len()
                &&& forall|k: int|
                    0 <= k < used@.len() ==> !(#[trigger] used@[k]).is_same(
                        (#[trigger] entries@[i]).channel,
                    )
            },
{
    law_missing_channel(entries@, used@, source);
}

/// What a manifest gives. Without a map it is the mapping of prefix.dev, with an empty one none. A
/// map whose channels the project or any of the features uses never gives a missing channel.
pub proof fn law_mapping_of_a_manifest(
    manifest: Manifest,
    config: ChannelConfig,
    source: Result<MappingSource, MappingError>,
)
    requires
        call_ensures(build_pypi_name_mapping_source, (&manifest, &config), source),
    ensures
        is_mapping_source(manifest, config, source),
        source matches Ok(MappingSource::Prefix) <==> manifest.workspace.conda_pypi_map is None,
        source matches Ok(MappingSource::Disabled) <==> (
        manifest.workspace.conda_pypi_map matches Some(map) && map@.len() == 0),
        manifest.workspace.conda_pypi_map matches Some(map) ==> (forall|k: int|
            0 <= k < map@.len() ==> uses(manifest, config, (#[trigger] map@[k]).0)) ==> !(
        source matches Err(MappingError::MissingChannel { .. })),
{
    law_mapping_source_kind(manifest, config, source);
    if let Some(map) = manifest.workspace.conda_pypi_map {
        if forall|k: int| 0 <= k < map@.len() ==> uses(manifest, config, (#[trigger] map@[k]).0) {
            law_used_channels_are_not_missing(manifest, config, map, source);
        }
    }
}

/// How errors are written.
pub proof fn law_mapping_messages(error: MappingError, missing: &str, text: String)
    requires
        call_ensures(MappingError::message, (&error, missing), text),
    ensures
        error matches MappingError::Location(location) ==> text@ == "Could not convert "@ + location@
            + " to neither URL or Path"@,
        error matches MappingError::Channel(ParseChannelError::InvalidUrl) ==> text@
            == "could not parse url"@,
        error matches MappingError::Channel(ParseChannelError::InvalidPath(message)) ==> text@
            == message@,
        error matches MappingError::MissingChannel { channel: _, channels } ==> text@
            == "conda-pypi-map is defined: the "@ + missing@
            + " is missing from the channels array, which currently are: "@ + joined(
            channels@.map_values(|text: String| text@),
            ", "@,
        ),
{
    if let MappingError::MissingChannel { channel, channels } = error {
        law_mapping_errors_are_shown(missing@, channel, channels);
    }
}

/// A custom mapping is handed out exactly where there is one.
pub proof fn law_custom(source: MappingSource, mapping: Option<&CustomMapping>)
    requires
        call_ensures(MappingSource::custom, (&source,), mapping),
    ensures
        source matches MappingSource::Custom(custom) ==> mapping == Some(&custom),
        source !is Custom ==> mapping is None,
{
}

} // verus!
