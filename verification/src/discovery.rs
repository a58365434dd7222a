//! Which manifest a project is loaded from.

use vstd::prelude::*;
use crate::consts::{PROJECT_MANIFEST, PYPROJECT_MANIFEST, PYPROJECT_PIXI_MARKER};
use crate::text::{contains, contains_text, text_eq};

verus! {

/// The files that may be a manifest, in the order in which a directory is searched for them.
#[derive(Clone, Copy, Debug, PartialEq, Eq, Structural)]
pub enum ManifestKind {
    Pixi,
    Pyproject,
}

impl ManifestKind {
    /// The name of the file.
    pub open spec fn name(self) -> Seq<char> {
        match self {
            ManifestKind::Pixi => PROJECT_MANIFEST@,
            ManifestKind::Pyproject => PYPROJECT_MANIFEST@,
        }
    }

    /// The name of the file.
    pub fn file_name(&self) -> (name: &'static str)
        ensures
            name@ == self.name(),
    {
        match self {
            ManifestKind::Pixi => PROJECT_MANIFEST,
            ManifestKind::Pyproject => PYPROJECT_MANIFEST,
        }
    }
}

/// What a search wants to know next, or what it found. Directories are counted from the one where
/// the search starts, on to its parents.
#[derive(Clone, Copy, Debug, PartialEq, Eq, Structural)]
pub enum SearchAction {
    /// Is there a file of this name in this directory?
    IsFile { directory: usize, kind: ManifestKind },
    /// What does the file of this name in this directory hold?
    Read { directory: usize, kind: ManifestKind },
    /// This file is the manifest.
    Found { directory: usize, kind: ManifestKind },
    /// There is no manifest.
    NotFound,
}

/// The answer to a question of a search.
#[derive(Debug, PartialEq, Eq)]
pub enum SearchEvent {
    /// Whether there is such a file.
    IsFile(bool),
    /// The content of the file, if it could be read.
    Content(Option<String>),
}

/// A search for a manifest in a directory and its parents.
#[derive(Debug, PartialEq, Eq)]
pub struct ManifestSearch {
    directories: usize,
    action: SearchAction,
}

impl ManifestSearch {
    /// The number of directories to search.
    pub closed spec fn size(&self) -> usize {
        self.directories
    }

    /// What the search wants to know, or what it found.
    pub closed spec fn asks(&self) -> SearchAction {
        self.action
    }

    /// What the search asks for lies in one of the directories.
    pub open spec fn well_formed(&self) -> bool {
        match self.asks() {
            SearchAction::IsFile { directory, .. } => directory < self.size(),
            SearchAction::Read { directory, kind } => directory < self.size() && kind is Pyproject,
            SearchAction::Found { directory, .. } => directory < self.size(),
            SearchAction::NotFound => true,
        }
    }

    /// Whether `event` answers what the search asks.
    pub open spec fn expects(&self, event: SearchEvent) -> bool {
        match event {
            SearchEvent::IsFile(_) => self.asks() is IsFile,
            SearchEvent::Content(_) => self.asks() is Read,
        }
    }

    /// Starts a search in `directories` directories.
    pub fn new(directories: usize) -> (search: Self)
        ensures
            search.well_formed(),
            search.size() == directories,
            search.asks() == visit(directories, 0),
    {
        ManifestSearch { directories, action: Self::start_of(directories, 0) }
    }

    fn start_of(directories: usize, directory: usize) -> (action: SearchAction)
        ensures
            action == visit(directories, directory as int),
    {
        if directory < directories {
            SearchAction::IsFile { directory, kind: ManifestKind::Pixi }
        } else {
            SearchAction::NotFound
        }
    }

    /// What the search wants to know, or what it found.
    pub fn action(&self) -> (action: SearchAction)
        ensures
            action == self.asks(),
    {
        self.action
    }

    /// Takes the answer to what the search asks.
    pub fn step(&mut self, event: SearchEvent)
        requires
            old(self).well_formed(),
            old(self).expects(event),
        ensures
            final(self).well_formed(),
            final(self).size() == old(self).size(),
            final(self).asks() == goes_on(old(self).size(), old(self).asks(), event),
    {
        self.action = match (self.action, event) {
            (
                SearchAction::IsFile { directory, kind: ManifestKind::Pixi },
                SearchEvent::IsFile(true),
            ) => SearchAction::Found { directory, kind: ManifestKind::Pixi },
            (
                SearchAction::IsFile { directory, kind: ManifestKind::Pixi },
                SearchEvent::IsFile(false),
            ) => SearchAction::IsFile { directory, kind: ManifestKind::Pyproject },
            (
                SearchAction::IsFile { directory, kind: ManifestKind::Pyproject },
                SearchEvent::IsFile(true),
            ) => SearchAction::Read { directory, kind: ManifestKind::Pyproject },
            (
                SearchAction::IsFile { directory, kind: ManifestKind::Pyproject },
                SearchEvent::IsFile(false),
            ) => Self::start_of(self.directories, directory + 1),
            (SearchAction::Read { directory, kind }, SearchEvent::Content(Some(content))) => {
                if contains_text(content.as_str(), PYPROJECT_PIXI_MARKER) {
                    SearchAction::Found { directory, kind }
                } else {
                    Self::start_of(self.directories, directory + 1)
                }
            },
            (SearchAction::Read { directory, .. }, SearchEvent::Content(None)) => Self::start_of(
                self.directories,
                directory + 1,
            ),
            (action, _) => action,
        };
    }
}

/// How a search goes on in the directory `directory`: with its first file, if there is such a
/// directory.
pub open spec fn visit(directories: usize, directory: int) -> SearchAction {
    if directory < directories {
        SearchAction::IsFile { directory: directory as usize, kind: ManifestKind::Pixi }
    } else {
        SearchAction::NotFound
    }
}

/// How a search goes on after an answer.
pub open spec fn goes_on(directories: usize, asked: SearchAction, event: SearchEvent) -> SearchAction {
    match (asked, event) {
        (SearchAction::IsFile { directory, kind: ManifestKind::Pixi }, SearchEvent::IsFile(found)) =>
            if found {
                SearchAction::Found { directory, kind: ManifestKind::Pixi }
            } else {
                SearchAction::IsFile { directory, kind: ManifestKind::Pyproject }
            },
        (
            SearchAction::IsFile { directory, kind: ManifestKind::Pyproject },
            SearchEvent::IsFile(found),
        ) => if found {
            SearchAction::Read { directory, kind: ManifestKind::Pyproject }
        } else {
            visit(directories, directory + 1)
        },
        (SearchAction::Read { directory, kind }, SearchEvent::Content(content)) => if content matches Some(
            text,
        ) && contains(text@, PYPROJECT_PIXI_MARKER@) {
            SearchAction::Found { directory, kind }
        } else {
            visit(directories, directory + 1)
        },
        _ => asked,
    }
}

/// What a directory holds of the files that may be a manifest.
#[derive(Debug, PartialEq, Eq)]
pub struct DirectoryFiles {
    pub has_pixi: bool,
    pub has_pyproject: bool,
    /// The content of the Python manifest, if it can be read.
    pub pyproject: Option<String>,
}

/// Whether the file of the kind `kind` in the directory `d` is a manifest: one of pixi's own
/// always is, a Python manifest if it holds a pixi section.
pub open spec fn is_manifest(directories: Seq<DirectoryFiles>, d: int, kind: ManifestKind) -> bool {
    0 <= d < directories.len() && match kind {
        ManifestKind::Pixi => directories[d].has_pixi,
        ManifestKind::Pyproject => directories[d].has_pyproject && (
        directories[d].pyproject matches Some(content) && contains(
            content@,
            PYPROJECT_PIXI_MARKER@,
        )),
    }
}

/// Whether the directory `d` holds a manifest.
pub open spec fn has_manifest(directories: Seq<DirectoryFiles>, d: int) -> bool {
    is_manifest(directories, d, ManifestKind::Pixi) || is_manifest(
        directories,
        d,
        ManifestKind::Pyproject,
    )
}

/// Finds the manifest of a project, given what its directory and the parents of it hold: in the
/// closest directory that holds one, and there pixi's own before the Python manifest.
pub fn find_project_manifest(directories: &Vec<DirectoryFiles>) -> (found: Option<
    (usize, ManifestKind),
>)
    ensures
        match found {
            Some((d, kind)) => {
                &&& is_manifest(directories@, d as int, kind)
                &&& forall|e: int| 0 <= e < d ==> !#[trigger] has_manifest(directories@, e)
                &&& kind is Pyproject ==> !is_manifest(directories@, d as int, ManifestKind::Pixi)
            },
            None => forall|e: int| !#[trigger] has_manifest(directories@, e),
        },
        match found {
            Some((d, kind)) => search_from(
                directories@,
                directories@.len() as usize,
                visit(directories@.len() as usize, 0),
            ) == (SearchAction::Found { directory: d, kind }),
            None => search_from(
                directories@,
                directories@.len() as usize,
                visit(directories@.len() as usize, 0),
            ) is NotFound,
        },
{
    let mut search = ManifestSearch::new(directories.len());
    let ghost first = search.asks();
    loop
        invariant
            search.well_formed(),
            search.size() == directories@.len(),
            first == visit(directories@.len() as usize, 0),
            search_from(directories@, directories@.len() as usize, search.asks()) == search_from(
                directories@,
                directories@.len() as usize,
                first,
            ),
            match search.asks() {
                SearchAction::IsFile { directory, kind } => {
                    &&& forall|e: int| 0 <= e < directory ==> !#[trigger] has_manifest(directories@, e)
                    &&& kind is Pyproject ==> !is_manifest(
                        directories@,
                        directory as int,
                        ManifestKind::Pixi,
                    )
                },
                SearchAction::Read { directory, kind } => {
                    &&& forall|e: int| 0 <= e < directory ==> !#[trigger] has_manifest(directories@, e)
                    &&& directories@[directory as int].has_pyproject
                    &&& !is_manifest(directories@, directory as int, ManifestKind::Pixi)
                },
                SearchAction::Found { directory, kind } => {
                    &&& is_manifest(directories@, directory as int, kind)
                    &&& forall|e: int| 0 <= e < directory ==> !#[trigger] has_manifest(directories@, e)
                    &&& kind is Pyproject ==> !is_manifest(
                        directories@,
                        directory as int,
                        ManifestKind::Pixi,
                    )
                },
                SearchAction::NotFound => forall|e: int| !#[trigger] has_manifest(directories@, e),
            },
        decreases remaining(search.size(), search.asks()),
    {
        match search.action() {
            SearchAction::IsFile { directory, kind } => {
                let found: bool = match kind {
                    ManifestKind::Pixi => directories[directory].has_pixi,
                    ManifestKind::Pyproject => directories[directory].has_pyproject,
                };
                assert(!found && kind is Pyproject ==> !has_manifest(directories@, directory as int));
                search.step(SearchEvent::IsFile(found));
            },
            SearchAction::Read { directory, kind } => {
                let content: Option<String> = match &directories[directory].pyproject {
                    Some(content) => Some(content.clone()),
                    None => None,
                };
                search.step(SearchEvent::Content(content));
                assert(!(search.asks() is Found) ==> !has_manifest(directories@, directory as int));
            },
            SearchAction::Found { directory, kind } => {
                return Some((directory, kind));
            },
            SearchAction::NotFound => {
                return None;
            },
        }
    }
}

/// How many questions a search has left to ask, at most.
pub open spec fn remaining(directories: usize, asked: SearchAction) -> int {
    match asked {
        SearchAction::IsFile { directory, kind: ManifestKind::Pixi } => 3 * (directories - directory),
        SearchAction::IsFile { directory, kind: ManifestKind::Pyproject } => 3 * (directories
            - directory) - 1,
        SearchAction::Read { directory, .. } => 3 * (directories - directory) - 2,
        _ => 0,
    }
}

/// The true answer to what a search asks.
pub open spec fn true_answer(directories: Seq<DirectoryFiles>, asked: SearchAction) -> SearchEvent {
    match asked {
        SearchAction::IsFile { directory, kind: ManifestKind::Pixi } => SearchEvent::IsFile(
            directories[directory as int].has_pixi,
        ),
        SearchAction::IsFile { directory, kind: ManifestKind::Pyproject } => SearchEvent::IsFile(
            directories[directory as int].has_pyproject,
        ),
        SearchAction::Read { directory, .. } => SearchEvent::Content(
            directories[directory as int].pyproject,
        ),
        _ => SearchEvent::IsFile(false),
    }
}

/// Where a search ends that gets true answers from now on.
pub open spec fn search_from(
    directories: Seq<DirectoryFiles>,
    n: usize,
    asked: SearchAction,
) -> SearchAction
    decreases remaining(n, asked),
    when match asked {
        SearchAction::IsFile { directory, .. } => directory < n,
        SearchAction::Read { directory, .. } => directory < n,
        _ => true,
    }
{
    if asked is Found || asked is NotFound {
        asked
    } else {
        search_from(directories, n, goes_on(n, asked, true_answer(directories, asked)))
    }
}

/// Whether a search that got true answers ended as it has to: with a `pixi.toml`, or where there is
/// none with a `pyproject.toml` that holds a pixi section, in a directory without such before it; or
/// with nothing, where no directory has either.
spec fn ends_well(directories: Seq<DirectoryFiles>, end: SearchAction) -> bool {
    match end {
        SearchAction::Found { directory, kind } => {
            let d = directory as int;
            &&& d < directories.len()
            &&& match kind {
                ManifestKind::Pixi => directories[d].has_pixi,
                ManifestKind::Pyproject => !directories[d].has_pixi && directories[d].has_pyproject
                    && (directories[d].pyproject matches Some(content) && contains(
                    content@,
                    "[tool.pixi"@,
                )),
            }
            &&& none_before(directories, d)
        },
        SearchAction::NotFound => none_before(directories, directories.len() as int),
        _ => false,
    }
}

spec fn none_before(directories: Seq<DirectoryFiles>, d: int) -> bool {
    forall|e: int|
        0 <= e < d ==> !(#[trigger] directories[e]).has_pixi && !(directories[e].has_pyproject && (
        directories[e].pyproject matches Some(content) && contains(content@, "[tool.pixi"@)))
}

proof fn lemma_search_from(directories: Seq<DirectoryFiles>, n: usize, asked: SearchAction)
    requires
        n == directories.len(),
        match asked {
            SearchAction::IsFile { directory, kind } => {
                &&& directory < n
                &&& none_before(directories, directory as int)
                &&& kind is Pyproject ==> !directories[directory as int].has_pixi
            },
            SearchAction::Read { directory, kind } => {
                &&& directory < n
                &&& kind is Pyproject
                &&& none_before(directories, directory as int)
                &&& !directories[directory as int].has_pixi
                &&& directories[directory as int].has_pyproject
            },
            _ => ends_well(directories, asked),
        },
    ensures
        ends_well(directories, search_from(directories, n, asked)),
    decreases remaining(n, asked),
{
    if !(asked is Found || asked is NotFound) {
        let next = goes_on(n, asked, true_answer(directories, asked));
        lemma_search_from(directories, n, next);
    }
}

/// A search that gets true answers finds the manifest in the closest directory that has one, however
/// far up that is. A `pixi.toml` always counts and goes first; a `pyproject.toml` counts wherever it
/// can be read and holds the text `[tool.pixi`. Nothing is found exactly if no directory has either.
pub proof fn law_search_finds_the_closest_manifest(directories: Seq<DirectoryFiles>)
    requires
        directories.len() <= usize::MAX,
    ensures
        ({
            let n = directories.len() as usize;
            match search_from(directories, n, visit(n, 0)) {
                SearchAction::Found { directory, kind } => {
                    let d = directory as int;
                    &&& d < directories.len()
                    &&& kind == if directories[d].has_pixi {
                        ManifestKind::Pixi
                    } else {
                        ManifestKind::Pyproject
                    }
                    &&& !directories[d].has_pixi ==> directories[d].has_pyproject && (
                    directories[d].pyproject matches Some(content) && contains(
                        content@,
                        "[tool.pixi"@,
                    ))
                    &&& forall|e: int|
                        0 <= e < d ==> !(#[trigger] directories[e]).has_pixi && !(
                        directories[e].has_pyproject && (
                        directories[e].pyproject matches Some(content) && contains(
                            content@,
                            "[tool.pixi"@,
                        )))
                },
                SearchAction::NotFound => forall|e: int|
                    0 <= e < directories.len() ==> !(#[trigger] directories[e]).has_pixi && !(
                    directories[e].has_pyproject && (
                    directories[e].pyproject matches Some(content) && contains(
                        content@,
                        "[tool.pixi"@,
                    ))),
                _ => false,
            }
        }),
{
    let n = directories.len() as usize;
    lemma_search_from(directories, n, visit(n, 0));
}

/// A manifest is found wherever it is: if a directory has a `pixi.toml`, or a `pyproject.toml` with
/// the text `[tool.pixi`, and no directory before it has either, that directory is found.
pub proof fn law_a_manifest_is_found_in_any_directory(directories: Seq<DirectoryFiles>, d: int)
    requires
        directories.len() <= usize::MAX,
        0 <= d < directories.len(),
        directories[d].has_pixi || directories[d].has_pyproject && (
        directories[d].pyproject matches Some(content) && contains(content@, "[tool.pixi"@)),
        forall|e: int|
            0 <= e < d ==> !(#[trigger] directories[e]).has_pixi && !(directories[e].has_pyproject
                && (directories[e].pyproject matches Some(content) && contains(
                content@,
                "[tool.pixi"@,
            ))),
    ensures
        ({
            let n = directories.len() as usize;
            search_from(directories, n, visit(n, 0)) == (SearchAction::Found {
                directory: d as usize,
                kind: if directories[d].has_pixi {
                    ManifestKind::Pixi
                } else {
                    ManifestKind::Pyproject
                },
            })
        }),
{
    law_search_finds_the_closest_manifest(directories);
}

/// The names of the files, and the warning about a manifest that is ignored.
pub proof fn law_manifest_texts(verb: Seq<char>, found: Seq<char>, named: Seq<char>)
    ensures
        ManifestKind::Pixi.name() == "pixi.toml"@,
        ManifestKind::Pyproject.name() == "pyproject.toml"@,
        ignored_manifest(verb, found, named) == verb + " local manifest "@ + found
            + " rather than "@ + named + " from environment variable `PIXI_PROJECT_MANIFEST`"@,
{
}

/// Every search ends: each answer leaves fewer questions.
pub proof fn law_search_ends(search: ManifestSearch, event: SearchEvent)
    requires
        search.well_formed(),
        search.expects(event),
    ensures
        0 <= remaining(search.size(), goes_on(search.size(), search.asks(), event)) < remaining(
            search.size(),
            search.asks(),
        ),
{
}

/// Where a project is loaded from.
#[derive(Debug, PartialEq, Eq)]
pub enum Discovery {
    /// From the manifest that was found, with a warning if another one is ignored.
    Local { warning: Option<String> },
    /// From the manifest that the environment names.
    Environment(String),
    /// There is no manifest to load from.
    NotFound,
}

/// The warning that `found` is used and not `named`, where `verb` says how far that has come.
pub open spec fn ignored_manifest(verb: Seq<char>, found: Seq<char>, named: Seq<char>) -> Seq<char> {
    verb + " local manifest "@ + found + " rather than "@ + named
        + " from environment variable `PIXI_PROJECT_MANIFEST`"@
}

fn ignored_manifest_message(verb: &str, found: &str, named: &str) -> (text: String)
    ensures
        text@ == ignored_manifest(verb@, found@, named@),
{
    let mut text: String = verb.to_owned();
    text.append(" local manifest ");
    text.append(found);
    text.append(" rather than ");
    text.append(named);
    text.append(" from environment variable `PIXI_PROJECT_MANIFEST`");
    text
}

/// Whether `discovery` is where a project is loaded from.
pub open spec fn is_discovery(
    found: Option<String>,
    in_shell: bool,
    named: Option<String>,
    discovery: Discovery,
) -> bool {
    match found {
        Some(found) => discovery matches Discovery::Local { warning } && is_warning(
            "Using"@,
            in_shell,
            Some(found),
            named,
            warning,
        ),
        None => match named {
            Some(named) => discovery == Discovery::Environment(named),
            None => discovery == Discovery::NotFound,
        },
    }
}

/// Whether `warning` is the warning that is due about a manifest that is ignored.
pub open spec fn is_warning(
    verb: Seq<char>,
    asked_for: bool,
    found: Option<String>,
    named: Option<String>,
    warning: Option<String>,
) -> bool {
    match (asked_for, found, named) {
        (true, Some(found), Some(named)) => if named@ != found@ {
            warning matches Some(text) && text@ == ignored_manifest(verb, found@, named@)
        } else {
            warning is None
        },
        _ => warning is None,
    }
}

/// A manifest that is found is the one to load, whatever the environment names; what the
/// environment names is loaded exactly if nothing is found; and nothing is loaded exactly if
/// neither is there. There is a warning exactly inside of a shell, where the two differ, and it
/// names the one that is used before the one that is not.
pub proof fn law_local_manifest_goes_first(
    found: Option<String>,
    in_shell: bool,
    named: Option<String>,
    discovery: Discovery,
)
    requires
        is_discovery(found, in_shell, named, discovery),
    ensures
        discovery is Local <==> found is Some,
        discovery is Environment <==> found is None && named is Some,
        discovery is NotFound <==> found is None && named is None,
        discovery matches Discovery::Environment(path) ==> named == Some(path),
        discovery matches Discovery::Local { warning } ==> {
            &&& warning is Some <==> in_shell && named is Some && named->0@ != found->0@
            &&& warning matches Some(text) ==> text@ == "Using local manifest "@ + found->0@
                + " rather than "@ + named->0@
                + " from environment variable `PIXI_PROJECT_MANIFEST`"@
        },
{
    reveal_strlit("Using");
    reveal_strlit(" local manifest ");
    reveal_strlit("Using local manifest ");
    assert("Using"@ + " local manifest "@ =~= "Using local manifest "@);
}

/// A warning about the manifest that was used is due exactly where none was given, inside of a
/// shell, and where the one that is found and the one that the environment names differ.
pub proof fn law_warning_after_use(
    given: bool,
    in_shell: bool,
    found: Option<String>,
    named: Option<String>,
    warning: Option<String>,
)
    requires
        is_warning("Used"@, !given && in_shell, found, named, warning),
    ensures
        warning is Some <==> !given && in_shell && found is Some && named is Some && found->0@
            != named->0@,
        warning matches Some(text) ==> text@ == "Used local manifest "@ + found->0@
            + " rather than "@ + named->0@ + " from environment variable `PIXI_PROJECT_MANIFEST`"@,
{
    reveal_strlit("Used");
    reveal_strlit(" local manifest ");
    reveal_strlit("Used local manifest ");
    assert("Used"@ + " local manifest "@ =~= "Used local manifest "@);
}

/// Decides where a project is loaded from. `found` is the manifest in the current directory or one
/// of its parents, `named` the manifest that the environment names. A manifest that was found goes
/// first; inside of a shell there is a warning if the environment names another.
pub fn discover(found: &Option<String>, in_shell: bool, named: Option<String>) -> (discovery:
    Discovery)
    ensures
        is_discovery(*found, in_shell, named, discovery),
        match found {
            Some(found) => discovery matches Discovery::Local { warning } && match (in_shell, named) {
                (true, Some(named)) => if named@ != found@ {
                    warning matches Some(text) && text@ == ignored_manifest(
                        "Using"@,
                        found@,
                        named@,
                    )
                } else {
                    warning is None
                },
                _ => warning is None,
            },
            None => match named {
                Some(named) => discovery == Discovery::Environment(named),
                None => discovery == Discovery::NotFound,
            },
        },
{
    match found {
        Some(found) => {
            let warning: Option<String> = match (in_shell, named) {
                (true, Some(named)) => if !text_eq(named.as_str(), found.as_str()) {
                    Some(ignored_manifest_message("Using", found.as_str(), named.as_str()))
                } else {
                    None
                },
                _ => None,
            };
            Discovery::Local { warning }
        },
        None => match named {
            Some(named) => Discovery::Environment(named),
            None => Discovery::NotFound,
        },
    }
}

/// The error where there is no manifest to load from.
pub fn not_found_message() -> (text: String)
    ensures
        text@ == "could not find "@ + PROJECT_MANIFEST@ + " or "@ + PYPROJECT_MANIFEST@
            + " which is configured to use pixi"@,
{
    let mut text: String = "could not find ".to_owned();
    text.append(PROJECT_MANIFEST);
    text.append(" or ");
    text.append(PYPROJECT_MANIFEST);
    text.append(" which is configured to use pixi");
    text
}

/// Warns if a manifest was used that was found and not the one that the environment names. There
/// is no warning where a manifest was `given`, nor outside of a shell.
pub fn warn_on_discovered_from_env(
    given: bool,
    in_shell: bool,
    found: &Option<String>,
    named: &Option<String>,
) -> (warning: Option<String>)
    ensures
        is_warning("Used"@, !given && in_shell, *found, *named, warning),
        match (found, named) {
            (Some(found), Some(named)) => if !given && in_shell && named@ != found@ {
                warning matches Some(text) && text@ == ignored_manifest("Used"@, found@, named@)
            } else {
                warning is None
            },
            _ => warning is None,
        },
{
    match (found, named) {
        (Some(found), Some(named)) => if !given && in_shell && !text_eq(
            named.as_str(),
            found.as_str(),
        ) {
            Some(ignored_manifest_message("Used", found.as_str(), named.as_str()))
        } else {
            None
        },
        _ => None,
    }
}

/// The manifest that is found is in the closest directory that has one, however far up that is. A
/// `pixi.toml` always counts and goes first; a `pyproject.toml` counts wherever it can be read and
/// holds the text `[tool.pixi`. Nothing is found exactly if no directory has either.
pub proof fn law_found_manifest(
    directories: Vec<DirectoryFiles>,
    found: Option<(usize, ManifestKind)>,
)
    requires
        call_ensures(find_project_manifest, (&directories,), found),
    ensures
        match found {
            Some((directory, kind)) => {
                let d = directory as int;
                &&& d < directories@.len()
                &&& kind == if directories@[d].has_pixi {
                    ManifestKind::Pixi
                } else {
                    ManifestKind::Pyproject
                }
                &&& !directories@[d].has_pixi ==> directories@[d].has_pyproject && (
                directories@[d].pyproject matches Some(content) && contains(
                    content@,
                    "[tool.pixi"@,
                ))
                &&& forall|e: int|
                    0 <= e < d ==> !(#[trigger] directories@[e]).has_pixi && !(
                    directories@[e].has_pyproject && (
                    directories@[e].pyproject matches Some(content) && contains(
                        content@,
                        "[tool.pixi"@,
                    )))
            },
            None => forall|e: int|
                0 <= e < directories@.len() ==> !(#[trigger] directories@[e]).has_pixi && !(
                directories@[e].has_pyproject && (
                directories@[e].pyproject matches Some(content) && contains(
                    content@,
                    "[tool.pixi"@,
                ))),
        },
{
    assert(directories@.len() == directories.len());
    law_search_finds_the_closest_manifest(directories@);
}

/// A search starts in the first directory, with the file that goes first there, and every question
/// of it can be answered, whatever the answer is. What it found is not asked again.
pub proof fn law_every_question_can_be_answered(
    search: ManifestSearch,
    started: ManifestSearch,
    directories: usize,
    found: bool,
    content: Option<String>,
)
    requires
        call_ensures(ManifestSearch::new, (directories,), started),
    ensures
        directories > 0 ==> started.asks() == (
        SearchAction::IsFile { directory: 0, kind: ManifestKind::Pixi }),
        directories == 0 ==> started.asks() is NotFound,
        search.expects(SearchEvent::IsFile(found)) <==> search.asks() is IsFile,
        search.expects(SearchEvent::Content(content)) <==> search.asks() is Read,
{
}

/// Where a project is loaded from, and what is warned about. A manifest that is found is the one to
/// load, whatever the environment names; what the environment names is loaded exactly if nothing is
/// found.
pub proof fn law_discovery(
    found: Option<String>,
    in_shell: bool,
    named: Option<String>,
    discovery: Discovery,
)
    requires
        call_ensures(discover, (&found, in_shell, named), discovery),
    ensures
        discovery is Local <==> found is Some,
        discovery is Environment <==> found is None && named is Some,
        discovery matches Discovery::Environment(path) ==> named == Some(path),
        discovery matches Discovery::Local { warning } ==> {
            &&& warning is Some <==> in_shell && named is Some && named->0@ != found->0@
            &&& warning matches Some(text) ==> text@ == "Using local manifest "@ + found->0@
                + " rather than "@ + named->0@
                + " from environment variable `PIXI_PROJECT_MANIFEST`"@
        },
{
    law_local_manifest_goes_first(found, in_shell, named, discovery);
}

/// What is warned about once a manifest was used.
pub proof fn law_warning_on_discovered(
    given: bool,
    in_shell: bool,
    found: Option<String>,
    named: Option<String>,
    warning: Option<String>,
)
    requires
        call_ensures(warn_on_discovered_from_env, (given, in_shell, &found, &named), warning),
    ensures
        warning is Some <==> !given && in_shell && found is Some && named is Some && found->0@
            != named->0@,
        warning matches Some(text) ==> text@ == "Used local manifest "@ + found->0@
            + " rather than "@ + named->0@ + " from environment variable `PIXI_PROJECT_MANIFEST`"@,
{
    law_warning_after_use(given, in_shell, found, named, warning);
}

/// The names of the manifests, and the error where there is none.
pub proof fn law_manifest_names(kind: ManifestKind, name: &'static str, message: String)
    requires
        call_ensures(ManifestKind::file_name, (&kind,), name),
        call_ensures(not_found_message, (), message),
    ensures
        kind is Pixi ==> name@ == "pixi.toml"@,
        kind is Pyproject ==> name@ == "pyproject.toml"@,
        message@ == "could not find "@ + "pixi.toml"@ + " or "@ + "pyproject.toml"@
            + " which is configured to use pixi"@,
{
}

} // verus!
