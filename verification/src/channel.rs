//! Channels, and what they resolve to.

use vstd::prelude::*;
use std::path::PathBuf;
use crate::manifest::NamedChannelOrUrl;
use crate::text::{clone_opt, opt_text, text_eq, without_trailing_slashes};

verus! {

/// What channels are resolved against.
#[derive(Debug, PartialEq, Eq)]
pub struct ChannelConfig {
    /// The URL below which channels live that are given by name.
    pub channel_alias: String,
    /// The directory that relative paths start from.
    pub root_dir: String,
}

impl Clone for ChannelConfig {
    fn clone(&self) -> (copy: Self)
        ensures
            copy == *self,
    {
        ChannelConfig {
            channel_alias: self.channel_alias.clone(),
            root_dir: self.root_dir.clone(),
        }
    }
}

/// A resolved channel.
#[derive(Debug, PartialEq, Eq)]
pub struct Channel {
    pub base_url: String,
    pub name: Option<String>,
    /// The base URL without secrets, by which the channel is known elsewhere.
    pub canonical_name: String,
}

impl Clone for Channel {
    fn clone(&self) -> (copy: Self)
        ensures
            copy == *self,
    {
        Channel {
            base_url: self.base_url.clone(),
            name: clone_opt(&self.name),
            canonical_name: self.canonical_name.clone(),
        }
    }
}

impl Channel {
    /// Whether this is the same channel as `other`: the same base URL under the same name.
    pub open spec fn is_same(self, other: Channel) -> bool {
        self.base_url@ == other.base_url@ && opt_text(self.name) == opt_text(other.name)
    }

    /// How the channel is shown: by its name, or by its base URL if it has none.
    pub open spec fn shown(self) -> Seq<char> {
        match self.name {
            Some(name) => name@,
            None => self.base_url@,
        }
    }

    /// Whether this is the same channel as `other`.
    pub fn same(&self, other: &Channel) -> (equal: bool)
        ensures
            equal == self.is_same(*other),
    {
        let names: bool = match (&self.name, &other.name) {
            (Some(a), Some(b)) => text_eq(a.as_str(), b.as_str()),
            (None, None) => true,
            _ => false,
        };
        names && text_eq(self.base_url.as_str(), other.base_url.as_str())
    }

    /// How the channel is shown.
    pub fn display(&self) -> (text: String)
        ensures
            text@ == self.shown(),
    {
        match &self.name {
            Some(name) => name.clone(),
            None => self.base_url.clone(),
        }
    }
}

/// Why a text is not a URL.
#[derive(Clone, Copy, Debug, PartialEq, Eq, Structural)]
pub enum UrlError {
    /// The text is a relative reference, such as a path.
    RelativeUrlWithoutBase,
    /// The text is malformed.
    Malformed,
}

/// Why a channel could not be resolved.
#[derive(Debug, PartialEq, Eq)]
pub enum ParseChannelError {
    /// The channel, or the alias to resolve it against, is not a URL.
    InvalidUrl,
    /// The path to the channel could not be turned into a URL; the message says why.
    InvalidPath(String),
}

/// The URL that a text parses to, in its normalised notation, or why it parses to none.
pub uninterp spec fn parsed_url(text: Seq<char>) -> Result<Seq<char>, UrlError>;

/// The base URL of the channel `text`: of the name `text` below the alias, or of the URL `text`
/// where there is no alias.
pub uninterp spec fn channel_base_url(alias: Option<Seq<char>>, text: Seq<char>) -> Seq<char>;

/// The base URL of the channel at the path `path`: of a relative path below the root directory, or
/// of an absolute path where there is none.
pub uninterp spec fn path_base_url(root_dir: Option<Seq<char>>, path: Seq<char>) -> Seq<char>;

/// Whether there is a machine on which the channel at the path `path`, taken from `root_dir`,
/// resolves to this base URL, or fails to resolve with this message. Machines differ in the home
/// directory and in the notation of their paths.
pub uninterp spec fn path_may_give(
    root_dir: Seq<char>,
    path: Seq<char>,
    outcome: Result<Seq<char>, Seq<char>>,
) -> bool;

/// The canonical name of the channel with the base URL `base_url`.
pub uninterp spec fn canonical_channel_name(base_url: Seq<char>) -> Seq<char>;

/// What remains of `url` below `alias`, without the slashes it ends in.
pub open spec fn stripped_alias(url: Seq<char>, alias: Seq<char>) -> Option<Seq<char>> {
    if alias.is_prefix_of(url) {
        Some(without_trailing_slashes(url.skip(alias.len() as int)))
    } else {
        None
    }
}

/// Whether `channel` cannot be resolved, whatever the machine: one of the URLs that it takes is
/// none.
pub open spec fn never_resolves(channel: NamedChannelOrUrl, config: ChannelConfig) -> bool {
    ||| parsed_url(config.channel_alias@) is Err
    ||| channel matches NamedChannelOrUrl::Url(url) && parsed_url(url@) is Err
}

/// Whether `path` starts with one slash, which makes it absolute in the notation of Unix.
pub open spec fn is_rooted(path: Seq<char>) -> bool {
    &&& path.len() > 0 && path[0] == '/'
    &&& path.len() > 1 ==> path[1] != '/' && path[1] != '\\'
}

/// Whether `path` starts with a drive and a root, which makes it absolute in the notation of
/// Windows.
pub open spec fn is_on_drive(path: Seq<char>) -> bool {
    &&& path.len() > 2
    &&& 'a' <= path[0] <= 'z' || 'A' <= path[0] <= 'Z'
    &&& path[1] == ':'
    &&& path[2] == '/' || path[2] == '\\'
}

/// Whether `path` is absolute on every machine.
pub open spec fn is_absolute(path: Seq<char>) -> bool {
    is_rooted(path) || is_on_drive(path)
}

/// Whether `path` is relative on every machine, and not to the home directory.
pub open spec fn is_relative(path: Seq<char>) -> bool {
    &&& path.len() > 0 ==> path[0] != '/' && path[0] != '\\' && path[0] != '~'
    &&& path.len() > 1 ==> path[1] != ':'
}

/// Whether what `path` resolves to, if it does, is the same on every machine.
pub open spec fn is_portable(root_dir: Seq<char>, path: Seq<char>) -> bool {
    is_absolute(path) || is_absolute(root_dir) && is_relative(path)
}

/// Whether `channel` may fail to resolve with `error`: because one of the URLs that it takes is
/// none, or because it is a path that is not absolute and fails to resolve on some machine.
pub open spec fn may_fail_with(
    channel: NamedChannelOrUrl,
    config: ChannelConfig,
    error: ParseChannelError,
) -> bool {
    match error {
        ParseChannelError::InvalidUrl => never_resolves(channel, config),
        ParseChannelError::InvalidPath(message) => {
            &&& !never_resolves(channel, config)
            &&& channel matches NamedChannelOrUrl::Path(path)
                && !is_absolute(path@)
                && path_may_give(config.root_dir@, path@, Err(message@))
        },
    }
}

/// Whether `channel` resolves to `resolved`. Of a path that is not portable this says that it
/// resolves to that on some machine.
pub open spec fn resolves_to(
    channel: NamedChannelOrUrl,
    config: ChannelConfig,
    resolved: Channel,
) -> bool {
    &&& !never_resolves(channel, config)
    &&& resolved.canonical_name@ == canonical_channel_name(resolved.base_url@)
    &&& match channel {
        NamedChannelOrUrl::Name(name) => {
            &&& opt_text(resolved.name) == Some(name@)
            &&& resolved.base_url@ == channel_base_url(Some(config.channel_alias@), name@)
        },
        NamedChannelOrUrl::Url(url) => {
            &&& opt_text(resolved.name) == stripped_alias(
                parsed_url(url@)->Ok_0,
                parsed_url(config.channel_alias@)->Ok_0,
            )
            &&& resolved.base_url@ == channel_base_url(None, url@)
        },
        NamedChannelOrUrl::Path(path) => {
            &&& resolved.name is None
            &&& path_may_give(config.root_dir@, path@, Ok(resolved.base_url@))
            &&& is_absolute(path@) ==> resolved.base_url@ == path_base_url(None, path@)
            &&& is_relative(path@) ==> !is_relative(config.root_dir@)
            &&& is_relative(path@) && is_absolute(config.root_dir@) ==> resolved.base_url@
                == path_base_url(Some(config.root_dir@), path@)
        },
    }
}

/// Whether there is something that `channel` resolves to.
pub open spec fn can_resolve(channel: NamedChannelOrUrl, config: ChannelConfig) -> bool {
    exists|resolved: Channel| resolves_to(channel, config, resolved)
}

/// Whether `channels` fail to resolve with `error` at place `k`, where all before it resolve.
pub open spec fn fails_first_at(
    channels: Seq<NamedChannelOrUrl>,
    config: ChannelConfig,
    error: ParseChannelError,
    k: int,
) -> bool {
    &&& 0 <= k < channels.len()
    &&& may_fail_with(channels[k], config, error)
    &&& forall|i: int| 0 <= i < k ==> can_resolve(#[trigger] channels[i], config)
}

/// Parses a URL with `Url::parse` of the `url` crate. The claim: the outcome is a function of the
/// text; a URL is given in the notation that `Url` keeps it in, and of the errors only the one for
/// a relative reference is told apart.
#[verifier::external_body]
pub(crate) fn parse_url(text: &str) -> (url: Result<String, UrlError>)
    ensures
        match url {
            Ok(url) => parsed_url(text@) == Ok::<Seq<char>, UrlError>(url@),
            Err(error) => parsed_url(text@) == Err::<Seq<char>, UrlError>(error),
        },
{
    match url::Url::parse(text) {
        Ok(url) => Ok(url.into()),
        Err(url::ParseError::RelativeUrlWithoutBase) => Err(UrlError::RelativeUrlWithoutBase),
        Err(_) => Err(UrlError::Malformed),
    }
}

/// Resolves a channel with `NamedChannelOrUrl::into_channel` of `rattler_conda_types`, and reads
/// the canonical name of what comes back with `Channel::canonical_name`. The claims:
///
/// - Resolving fails for want of a URL exactly if the channel or the alias is none.
/// - The canonical name is a function of the base URL.
/// - A channel given by name keeps it, and its base URL is a function of the name and the alias.
/// - A channel given by URL is named by what remains below the alias, and its base URL is a
///   function of the URL.
/// - A channel given by path has no name. An absolute path always resolves, to a function of the
///   path. A relative path never resolves where the root directory is relative too; where that is
///   absolute, it resolves to a function of the two, if it resolves. Only a machine with the
///   notation of the root directory resolves it.
/// - Whatever else comes of a path is something that comes of it, taken from the root directory, on
///   some machine. What that is remains unsaid: it depends on the home directory and on the
///   notation of paths there.
#[verifier::external_body]
pub(crate) fn into_channel(channel: &NamedChannelOrUrl, config: &ChannelConfig) -> (resolved: Result<
    Channel,
    ParseChannelError,
>)
    ensures
        (resolved matches Err(ParseChannelError::InvalidUrl)) == never_resolves(*channel, *config),
        resolved matches Err(ParseChannelError::InvalidPath(message)) ==> match *channel {
            NamedChannelOrUrl::Path(path) => !is_absolute(path@) && path_may_give(
                config.root_dir@,
                path@,
                Err(message@),
            ),
            _ => false,
        },
        resolved matches Ok(resolved) ==> resolved.canonical_name@ == canonical_channel_name(
            resolved.base_url@,
        ),
        resolved matches Ok(resolved) ==> match *channel {
            NamedChannelOrUrl::Name(name) => {
                &&& opt_text(resolved.name) == Some(name@)
                &&& resolved.base_url@ == channel_base_url(Some(config.channel_alias@), name@)
            },
            NamedChannelOrUrl::Url(url) => {
                &&& opt_text(resolved.name) == stripped_alias(
                    parsed_url(url@)->Ok_0,
                    parsed_url(config.channel_alias@)->Ok_0,
                )
                &&& resolved.base_url@ == channel_base_url(None, url@)
            },
            NamedChannelOrUrl::Path(path) => {
                &&& resolved.name is None
                &&& path_may_give(config.root_dir@, path@, Ok(resolved.base_url@))
                &&& is_absolute(path@) ==> resolved.base_url@ == path_base_url(None, path@)
                &&& is_relative(path@) ==> !is_relative(config.root_dir@)
                &&& is_relative(path@) && is_absolute(config.root_dir@) ==> resolved.base_url@
                    == path_base_url(Some(config.root_dir@), path@)
            },
        },
{
    let url = |text: &String| url::Url::parse(text).map_err(|_| ParseChannelError::InvalidUrl);
    let channel = match channel {
        NamedChannelOrUrl::Name(name) => rattler_conda_types::NamedChannelOrUrl::Name(name.clone()),
        NamedChannelOrUrl::Url(text) => rattler_conda_types::NamedChannelOrUrl::Url(url(text)?),
        NamedChannelOrUrl::Path(path) => rattler_conda_types::NamedChannelOrUrl::Path(path.as_str().into()),
    };
    let config = rattler_conda_types::ChannelConfig {
        channel_alias: url(&config.channel_alias)?,
        root_dir: PathBuf::from(&config.root_dir),
    };
    let channel = channel.into_channel(&config).map_err(|e| ParseChannelError::InvalidPath(e.to_string()))?;
    let canonical_name = channel.canonical_name();
    Ok(Channel { base_url: channel.base_url.to_string(), name: channel.name, canonical_name })
}

/// Two channels are the same exactly if they have the same base URL, and both the same name or
/// neither one. Being the same relates channels as equality does.
pub proof fn law_same_channels(a: Channel, b: Channel, c: Channel)
    ensures
        a.is_same(b) <==> a.base_url@ == b.base_url@ && match (a.name, b.name) {
            (Some(x), Some(y)) => x@ == y@,
            (None, None) => true,
            _ => false,
        },
        a.is_same(a),
        a.is_same(b) ==> b.is_same(a),
        a.is_same(b) && b.is_same(c) ==> a.is_same(c),
{
}

/// A channel with a name is shown by it, and one without by its base URL. So channels that are the
/// same are shown alike.
pub proof fn law_shown_channels(a: Channel, b: Channel)
    ensures
        a.name matches Some(name) ==> a.shown() == name@,
        a.name is None ==> a.shown() == a.base_url@,
        a.is_same(b) ==> a.shown() == b.shown(),
{
}

/// What a channel resolves to, by how it is written. A name stays the name, below the alias; a URL
/// is named by what it holds below the alias, if it lies there; a path has no name.
pub proof fn law_resolved_channels(
    channel: NamedChannelOrUrl,
    config: ChannelConfig,
    resolved: Channel,
)
    requires
        resolves_to(channel, config, resolved),
    ensures
        resolved.canonical_name@ == canonical_channel_name(resolved.base_url@),
        parsed_url(config.channel_alias@) is Ok,
        channel matches NamedChannelOrUrl::Name(name) ==> {
            &&& resolved.name matches Some(given) && given@ == name@
            &&& resolved.base_url@ == channel_base_url(Some(config.channel_alias@), name@)
        },
        channel matches NamedChannelOrUrl::Url(url) ==> {
            &&& parsed_url(url@) is Ok
            &&& resolved.base_url@ == channel_base_url(None, url@)
            &&& ({
                let whole = parsed_url(url@)->Ok_0;
                let alias = parsed_url(config.channel_alias@)->Ok_0;
                match resolved.name {
                    Some(name) => alias.is_prefix_of(whole) && name@ == without_trailing_slashes(
                        whole.skip(alias.len() as int),
                    ),
                    None => !alias.is_prefix_of(whole),
                }
            })
        },
        channel matches NamedChannelOrUrl::Path(path) ==> {
            &&& resolved.name is None
            &&& path_may_give(config.root_dir@, path@, Ok(resolved.base_url@))
            &&& is_absolute(path@) ==> resolved.base_url@ == path_base_url(None, path@)
            &&& is_relative(path@) && is_absolute(config.root_dir@) ==> resolved.base_url@
                == path_base_url(Some(config.root_dir@), path@)
        },
{
}

/// A channel that is written by name, by URL or by a portable path resolves to one channel only.
pub proof fn law_resolving_is_settled(
    channel: NamedChannelOrUrl,
    config: ChannelConfig,
    one: Channel,
    other: Channel,
)
    requires
        resolves_to(channel, config, one),
        resolves_to(channel, config, other),
        channel matches NamedChannelOrUrl::Path(path) ==> is_portable(config.root_dir@, path@),
    ensures
        one.base_url@ == other.base_url@,
        one.canonical_name@ == other.canonical_name@,
        one.is_same(other),
{
}

/// The error of channels that do not all resolve is that of the first that does not: for want of a
/// URL where the alias or the channel is none, and with the words of the path otherwise.
pub proof fn law_first_failing_channel(
    channels: Seq<NamedChannelOrUrl>,
    config: ChannelConfig,
    error: ParseChannelError,
    k: int,
    i: int,
)
    requires
        fails_first_at(channels, config, error, k),
    ensures
        0 <= k < channels.len(),
        0 <= i < k ==> exists|resolved: Channel| resolves_to(channels[i], config, resolved),
        error is InvalidUrl <==> parsed_url(config.channel_alias@) is Err || (
        channels[k] matches NamedChannelOrUrl::Url(url) && parsed_url(url@) is Err),
        error matches ParseChannelError::InvalidPath(message) ==> (
        channels[k] matches NamedChannelOrUrl::Path(path) && !is_absolute(path@) && path_may_give(
            config.root_dir@,
            path@,
            Err(message@),
        )),
{
    if 0 <= i < k {
        assert(can_resolve(channels[i], config));
    }
}

/// Channels are compared by base URL and name, and shown by name or else by base URL.
pub proof fn law_channels_are_compared(a: Channel, b: Channel, equal: bool, text: String)
    requires
        call_ensures(Channel::same, (&a, &b), equal),
        call_ensures(Channel::display, (&a,), text),
    ensures
        equal <==> a.base_url@ == b.base_url@ && match (a.name, b.name) {
            (Some(x), Some(y)) => x@ == y@,
            (None, None) => true,
            _ => false,
        },
        text@ == match a.name {
            Some(name) => name@,
            None => a.base_url@,
        },
{
}

} // verus!
