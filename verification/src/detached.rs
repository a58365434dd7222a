//! Environments that live outside of their project: where they are, and what is left in the
//! project to point there.

use vstd::prelude::*;
use vstd::utf8::encode_utf8;
use crate::consts::{ENVIRONMENTS_DIR, PIXI_DIR};
use crate::text::{decimal, decimal_text, law_decimal_is_injective};

verus! {

/// The 64-bit XXH3 hash of some bytes.
pub uninterp spec fn xxh3_64_hash(bytes: Seq<u8>) -> u64;

/// `xxh3_64` of `xxhash_rust`. The claim: the hash is a function of the bytes.
pub assume_specification[ xxhash_rust::xxh3::xxh3_64 ](input: &[u8]) -> (hash: u64)
    ensures
        hash == xxh3_64_hash(input@),
;

/// The hash of the project root, which tells projects of the same name apart.
pub open spec fn root_hash(root: Seq<char>) -> u64 {
    xxh3_64_hash(encode_utf8(root))
}

/// The name of a project and its hash, as a directory name.
pub open spec fn directory_name(name: Seq<char>, hash: u64) -> Seq<char> {
    name + "-"@ + decimal(hash as nat)
}

/// The directory of the project `name`, whose root has the hash `hash`, among detached
/// environments.
pub fn detached_directory_name(name: &str, hash: u64) -> (directory: String)
    ensures
        directory@ == directory_name(name@, hash),
{
    let mut directory: String = name.to_owned();
    directory.append("-");
    let digits: String = decimal_text(hash);
    directory.append(digits.as_str());
    directory
}

/// The hash of the project root `root`.
pub fn hash_of_root(root: &str) -> (hash: u64)
    ensures
        hash == root_hash(root@),
{
    xxhash_rust::xxh3::xxh3_64(root.as_bytes())
}

/// Projects of the same name share a directory only if their roots have the same hash.
pub proof fn law_directories_differ(name: Seq<char>, a: u64, b: u64)
    requires
        a != b,
    ensures
        directory_name(name, a) != directory_name(name, b),
{
    if directory_name(name, a) == directory_name(name, b) {
        let prefix = name + "-"@;
        let n = prefix.len() as int;
        assert(decimal(a as nat) =~= directory_name(name, a).skip(n));
        assert(decimal(b as nat) =~= directory_name(name, b).skip(n));
        law_decimal_is_injective(a as nat, b as nat);
    }
}

/// What is done in the project about environments that are detached from it.
#[derive(Clone, Copy, Debug, PartialEq, Eq, Structural)]
pub enum DetachedNotice {
    /// Warn that the environments in the project are ignored.
    Warn,
    /// Put a symlink in their place.
    CreateSymlink,
    /// Put a file in their place that says where they are.
    WriteWarningFile,
}

/// Decides what is done in the project about detached environments: without symlinks a file is
/// written; otherwise a symlink is made unless there are environments in its place.
pub fn detached_notice(has_symlinks: bool, exists: bool, is_symlink: bool) -> (notice:
    DetachedNotice)
    ensures
        notice == if !has_symlinks {
            DetachedNotice::WriteWarningFile
        } else if exists && !is_symlink {
            DetachedNotice::Warn
        } else {
            DetachedNotice::CreateSymlink
        },
{
    if !has_symlinks {
        DetachedNotice::WriteWarningFile
    } else if exists && !is_symlink {
        DetachedNotice::Warn
    } else {
        DetachedNotice::CreateSymlink
    }
}

/// The warning that the environments in `default_envs_dir` are ignored in favour of those in
/// `detached_dir`.
pub fn ignored_environments_message(default_envs_dir: &str, detached_dir: &str) -> (text: String)
    ensures
        text@ == "Environments found in '"@ + default_envs_dir@
            + "', this will be ignored and the environment will be installed in the 'detached-environments' directory: '"@
            + detached_dir@ + "'. It's advised to remove the "@ + PIXI_DIR@ + "/"@ + ENVIRONMENTS_DIR@
            + " folder from the default directory to avoid confusion"@
            + " as a symlink can be made, please re-install after removal."@ + "."@,
{
    let mut text: String = "Environments found in '".to_owned();
    text.append(default_envs_dir);
    text.append(
        "', this will be ignored and the environment will be installed in the 'detached-environments' directory: '",
    );
    text.append(detached_dir);
    text.append("'. It's advised to remove the ");
    text.append(PIXI_DIR);
    text.append("/");
    text.append(ENVIRONMENTS_DIR);
    text.append(" folder from the default directory to avoid confusion");
    text.append(" as a symlink can be made, please re-install after removal.");
    text.append(".");
    text
}

/// How much a log entry matters.
#[derive(Clone, Copy, Debug, PartialEq, Eq, Structural)]
pub enum LogLevel {
    Debug,
    Info,
    Error,
}

/// A log entry.
#[derive(Debug, PartialEq, Eq)]
pub struct LogEntry {
    pub level: LogLevel,
    pub text: String,
}

/// The level and the text of an optional log entry.
pub open spec fn logged(entry: Option<LogEntry>) -> Option<(LogLevel, Seq<char>)> {
    match entry {
        Some(entry) => Some((entry.level, entry.text@)),
        None => None,
    }
}

/// What is to be done next to put something in the place of the environments, or that it is over.
#[derive(Clone, Copy, Debug, PartialEq, Eq, Structural)]
pub enum PlacementAction {
    /// See whether there is something already.
    CheckExists,
    /// Create the directory that it goes into.
    CreateDirectory,
    /// Create the symlink, or write the file.
    Create,
    /// It is over.
    Nothing,
}

/// What came of an action.
#[derive(Debug, PartialEq, Eq)]
pub enum PlacementEvent {
    /// Whether there is something already.
    Exists(bool),
    /// The directory was created, or why not.
    DirectoryCreated(Option<String>),
    /// The symlink was created or the file written, or why not.
    Created(Option<CreateError>),
}

/// Why a symlink or a file could not be created.
#[derive(Debug, PartialEq, Eq)]
pub struct CreateError {
    /// Whether it is there already.
    pub already_exists: bool,
    pub message: String,
}

impl PlacementAction {
    /// Whether `event` can come of this action.
    pub open spec fn expects(self, event: PlacementEvent) -> bool {
        match event {
            PlacementEvent::Exists(_) => self is CheckExists,
            PlacementEvent::DirectoryCreated(_) => self is CreateDirectory,
            PlacementEvent::Created(_) => self is Create,
        }
    }
}

/// The message that something failed, with the reason.
pub open spec fn directory_failure(directory: Seq<char>, error: Seq<char>) -> Seq<char> {
    "Failed to create directory '"@ + directory + "': "@ + error
}

fn directory_failure_message(directory: &str, error: &str) -> (text: String)
    ensures
        text@ == directory_failure(directory@, error@),
{
    let mut text: String = "Failed to create directory '".to_owned();
    text.append(directory);
    text.append("': ");
    text.append(error);
    text
}

/// How making a symlink goes on after `event`, and what is logged: a symlink that is there is left
/// alone; a parent directory that cannot be created does not stop the attempt; and that the symlink
/// has appeared in the meantime is no error.
pub open spec fn symlink_goes_on(
    target_dir: Seq<char>,
    symlink_dir: Seq<char>,
    parent: Seq<char>,
    event: PlacementEvent,
) -> (PlacementAction, Option<(LogLevel, Seq<char>)>) {
    match event {
        PlacementEvent::Exists(true) => (
            PlacementAction::Nothing,
            Some(
                (
                    LogLevel::Debug,
                    "Symlink already exists at '"@ + symlink_dir + "', skipping creating symlink."@,
                ),
            ),
        ),
        PlacementEvent::Exists(false) => (PlacementAction::CreateDirectory, None),
        PlacementEvent::DirectoryCreated(Some(error)) => (
            PlacementAction::Create,
            Some((LogLevel::Error, directory_failure(parent, error@))),
        ),
        PlacementEvent::DirectoryCreated(None) => (PlacementAction::Create, None),
        PlacementEvent::Created(Some(error)) => (
            PlacementAction::Nothing,
            if error.already_exists {
                None
            } else {
                Some(
                    (
                        LogLevel::Error,
                        "Failed to create symlink from '"@ + target_dir + "' to '"@ + symlink_dir
                            + "': "@ + error.message@,
                    ),
                )
            },
        ),
        PlacementEvent::Created(None) => (PlacementAction::Nothing, None),
    }
}

/// Decides how a symlink from `symlink_dir`, which lies in `parent`, to `target_dir` is made,
/// after `event`.
pub fn create_symlink(
    target_dir: &str,
    symlink_dir: &str,
    parent: &str,
    event: PlacementEvent,
) -> (step: (PlacementAction, Option<LogEntry>))
    ensures
        (step.0, logged(step.1)) == symlink_goes_on(target_dir@, symlink_dir@, parent@, event),
{
    match event {
        PlacementEvent::Exists(true) => {
            let mut text: String = "Symlink already exists at '".to_owned();
            text.append(symlink_dir);
            text.append("', skipping creating symlink.");
            (PlacementAction::Nothing, Some(LogEntry { level: LogLevel::Debug, text }))
        },
        PlacementEvent::Exists(false) => (PlacementAction::CreateDirectory, None),
        PlacementEvent::DirectoryCreated(Some(error)) => {
            let text: String = directory_failure_message(parent, error.as_str());
            (PlacementAction::Create, Some(LogEntry { level: LogLevel::Error, text }))
        },
        PlacementEvent::DirectoryCreated(None) => (PlacementAction::Create, None),
        PlacementEvent::Created(Some(error)) => {
            if error.already_exists {
                (PlacementAction::Nothing, None)
            } else {
                let mut text: String = "Failed to create symlink from '".to_owned();
                text.append(target_dir);
                text.append("' to '");
                text.append(symlink_dir);
                text.append("': ");
                text.append(error.message.as_str());
                (PlacementAction::Nothing, Some(LogEntry { level: LogLevel::Error, text }))
            }
        },
        PlacementEvent::Created(None) => (PlacementAction::Nothing, None),
    }
}

/// What the file says that stands in for a symlink.
pub open spec fn warning_text(envs_dir: Seq<char>) -> Seq<char> {
    "Environments are installed in a custom detached-environments directory: "@ + envs_dir
        + ".\nSymlinks are not supported on this platform so environments will not be reachable from the default ('.pixi/envs') directory."@
}

/// What the file says that stands in for a symlink to `envs_dir`.
pub fn warning_message(envs_dir: &str) -> (text: String)
    ensures
        text@ == warning_text(envs_dir@),
{
    let mut text: String =
        "Environments are installed in a custom detached-environments directory: ".to_owned();
    text.append(envs_dir);
    text.append(
        ".\nSymlinks are not supported on this platform so environments will not be reachable from the default ('.pixi/envs') directory.",
    );
    text
}

/// How writing the warning file goes on after `event`, and what is logged: a file that is there is
/// left alone, and without its directory it is not written.
pub open spec fn warning_file_goes_on(
    default_envs_dir: Seq<char>,
    warning_file: Seq<char>,
    envs_dir: Seq<char>,
    event: PlacementEvent,
) -> (PlacementAction, Option<(LogLevel, Seq<char>)>) {
    match event {
        PlacementEvent::Exists(true) => (
            PlacementAction::Nothing,
            Some(
                (
                    LogLevel::Debug,
                    "Symlink warning file already exists at '"@ + warning_file
                        + "', skipping writing warning file."@,
                ),
            ),
        ),
        PlacementEvent::Exists(false) => (PlacementAction::CreateDirectory, None),
        PlacementEvent::DirectoryCreated(Some(error)) => (
            PlacementAction::Nothing,
            Some((LogLevel::Error, directory_failure(default_envs_dir, error@))),
        ),
        PlacementEvent::DirectoryCreated(None) => (PlacementAction::Create, None),
        PlacementEvent::Created(None) => (
            PlacementAction::Nothing,
            Some(
                (
                    LogLevel::Info,
                    "Symlink warning file written to '"@ + warning_file + "': "@ + warning_text(
                        envs_dir,
                    ),
                ),
            ),
        ),
        PlacementEvent::Created(Some(error)) => (
            PlacementAction::Nothing,
            Some(
                (
                    LogLevel::Error,
                    "Failed to write symlink warning file to '"@ + warning_file + "': "@
                        + error.message@,
                ),
            ),
        ),
    }
}

/// Decides how the file `warning_file` in `default_envs_dir` is written, after `event`. The file
/// says that the environments are in `envs_dir`.
pub fn write_warning_file(
    default_envs_dir: &str,
    warning_file: &str,
    envs_dir: &str,
    event: PlacementEvent,
) -> (step: (PlacementAction, Option<LogEntry>))
    ensures
        (step.0, logged(step.1)) == warning_file_goes_on(
            default_envs_dir@,
            warning_file@,
            envs_dir@,
            event,
        ),
{
    match event {
        PlacementEvent::Exists(true) => {
            let mut text: String = "Symlink warning file already exists at '".to_owned();
            text.append(warning_file);
            text.append("', skipping writing warning file.");
            (PlacementAction::Nothing, Some(LogEntry { level: LogLevel::Debug, text }))
        },
        PlacementEvent::Exists(false) => (PlacementAction::CreateDirectory, None),
        PlacementEvent::DirectoryCreated(Some(error)) => {
            let text: String = directory_failure_message(default_envs_dir, error.as_str());
            (PlacementAction::Nothing, Some(LogEntry { level: LogLevel::Error, text }))
        },
        PlacementEvent::DirectoryCreated(None) => (PlacementAction::Create, None),
        PlacementEvent::Created(None) => {
            let mut text: String = "Symlink warning file written to '".to_owned();
            text.append(warning_file);
            text.append("': ");
            let message: String = warning_message(envs_dir);
            text.append(message.as_str());
            (PlacementAction::Nothing, Some(LogEntry { level: LogLevel::Info, text }))
        },
        PlacementEvent::Created(Some(error)) => {
            let mut text: String = "Failed to write symlink warning file to '".to_owned();
            text.append(warning_file);
            text.append("': ");
            text.append(error.message.as_str());
            (PlacementAction::Nothing, Some(LogEntry { level: LogLevel::Error, text }))
        },
    }
}

/// How far along an action is.
pub open spec fn placement_rank(action: PlacementAction) -> int {
    match action {
        PlacementAction::CheckExists => 0,
        PlacementAction::CreateDirectory => 1,
        PlacementAction::Create => 2,
        PlacementAction::Nothing => 3,
    }
}

/// Nothing that is there is replaced, and every attempt ends: an answer leads to a later action,
/// and to none where something is there already.
pub proof fn law_nothing_is_replaced(
    target_dir: Seq<char>,
    symlink_dir: Seq<char>,
    parent: Seq<char>,
    warning_file: Seq<char>,
    action: PlacementAction,
    event: PlacementEvent,
)
    requires
        action.expects(event),
    ensures
        placement_rank(action) < placement_rank(
            symlink_goes_on(target_dir, symlink_dir, parent, event).0,
        ),
        placement_rank(action) < placement_rank(
            warning_file_goes_on(symlink_dir, warning_file, target_dir, event).0,
        ),
        event == PlacementEvent::Exists(true) ==> {
            &&& symlink_goes_on(target_dir, symlink_dir, parent, event).0 is Nothing
            &&& warning_file_goes_on(symlink_dir, warning_file, target_dir, event).0 is Nothing
        },
{
}

/// The directory of a project is called by the name of the project and the hash of its root, in
/// decimal digits, with a dash between them.
pub proof fn law_directory_name(name: Seq<char>, hash: u64, root: Seq<char>)
    ensures
        directory_name(name, hash) == name + "-"@ + decimal(hash as nat),
        directory_name(name, root_hash(root)) == name + "-"@ + decimal(
            xxh3_64_hash(encode_utf8(root)) as nat,
        ),
{
}

/// A log entry is seen by its level and its text.
pub proof fn law_logged(entry: LogEntry)
    ensures
        logged(Some(entry)) == Some((entry.level, entry.text@)),
        logged(None) is None,
{
}

/// How a symlink is made. One that is there is left alone. Otherwise its parent directory is created
/// first, and whether or not that succeeds, the symlink is tried. A failure is logged, unless it is
/// that the symlink is there by then.
pub proof fn law_symlink_steps(
    target_dir: Seq<char>,
    symlink_dir: Seq<char>,
    parent: Seq<char>,
    reason: String,
    error: CreateError,
)
    ensures
        symlink_goes_on(target_dir, symlink_dir, parent, PlacementEvent::Exists(true)) == (
            PlacementAction::Nothing,
            Some(
                (
                    LogLevel::Debug,
                    "Symlink already exists at '"@ + symlink_dir
                        + "', skipping creating symlink."@,
                ),
            ),
        ),
        symlink_goes_on(target_dir, symlink_dir, parent, PlacementEvent::Exists(false)) == (
            PlacementAction::CreateDirectory,
            None::<(LogLevel, Seq<char>)>,
        ),
        symlink_goes_on(
            target_dir,
            symlink_dir,
            parent,
            PlacementEvent::DirectoryCreated(Some(reason)),
        ) == (
            PlacementAction::Create,
            Some(
                (
                    LogLevel::Error,
                    "Failed to create directory '"@ + parent + "': "@ + reason@,
                ),
            ),
        ),
        symlink_goes_on(target_dir, symlink_dir, parent, PlacementEvent::DirectoryCreated(None))
            == (PlacementAction::Create, None::<(LogLevel, Seq<char>)>),
        symlink_goes_on(target_dir, symlink_dir, parent, PlacementEvent::Created(None)) == (
            PlacementAction::Nothing,
            None::<(LogLevel, Seq<char>)>,
        ),
        error.already_exists ==> symlink_goes_on(
            target_dir,
            symlink_dir,
            parent,
            PlacementEvent::Created(Some(error)),
        ) == (PlacementAction::Nothing, None::<(LogLevel, Seq<char>)>),
        !error.already_exists ==> symlink_goes_on(
            target_dir,
            symlink_dir,
            parent,
            PlacementEvent::Created(Some(error)),
        ) == (
            PlacementAction::Nothing,
            Some(
                (
                    LogLevel::Error,
                    "Failed to create symlink from '"@ + target_dir + "' to '"@ + symlink_dir
                        + "': "@ + error.message@,
                ),
            ),
        ),
{
}

/// How the warning file is written. One that is there is left alone. Otherwise its directory is
/// created first, and without that the file is not written. What came of it is logged.
pub proof fn law_warning_file_steps(
    default_envs_dir: Seq<char>,
    warning_file: Seq<char>,
    envs_dir: Seq<char>,
    reason: String,
    error: CreateError,
)
    ensures
        warning_text(envs_dir)
            == "Environments are installed in a custom detached-environments directory: "@
            + envs_dir
            + ".\nSymlinks are not supported on this platform so environments will not be reachable from the default ('.pixi/envs') directory."@,
        warning_file_goes_on(
            default_envs_dir,
            warning_file,
            envs_dir,
            PlacementEvent::Exists(true),
        ) == (
            PlacementAction::Nothing,
            Some(
                (
                    LogLevel::Debug,
                    "Symlink warning file already exists at '"@ + warning_file
                        + "', skipping writing warning file."@,
                ),
            ),
        ),
        warning_file_goes_on(
            default_envs_dir,
            warning_file,
            envs_dir,
            PlacementEvent::Exists(false),
        ) == (PlacementAction::CreateDirectory, None::<(LogLevel, Seq<char>)>),
        warning_file_goes_on(
            default_envs_dir,
            warning_file,
            envs_dir,
            PlacementEvent::DirectoryCreated(Some(reason)),
        ) == (
            PlacementAction::Nothing,
            Some(
                (
                    LogLevel::Error,
                    "Failed to create directory '"@ + default_envs_dir + "': "@ + reason@,
                ),
            ),
        ),
        warning_file_goes_on(
            default_envs_dir,
            warning_file,
            envs_dir,
            PlacementEvent::DirectoryCreated(None),
        ) == (PlacementAction::Create, None::<(LogLevel, Seq<char>)>),
        warning_file_goes_on(
            default_envs_dir,
            warning_file,
            envs_dir,
            PlacementEvent::Created(None),
        ) == (
            PlacementAction::Nothing,
            Some(
                (
                    LogLevel::Info,
                    "Symlink warning file written to '"@ + warning_file + "': "@ + warning_text(
                        envs_dir,
                    ),
                ),
            ),
        ),
        warning_file_goes_on(
            default_envs_dir,
            warning_file,
            envs_dir,
            PlacementEvent::Created(Some(error)),
        ) == (
            PlacementAction::Nothing,
            Some(
                (
                    LogLevel::Error,
                    "Failed to write symlink warning file to '"@ + warning_file + "': "@
                        + error.message@,
                ),
            ),
        ),
{
}

/// What is decided about detached environments: a file is written exactly where symlinks are not to
/// be had; otherwise there is a warning exactly if something else than a symlink is in the place of
/// the environments, and a symlink is made exactly if not.
pub proof fn law_detached_notice(
    has_symlinks: bool,
    occupied: bool,
    is_symlink: bool,
    notice: DetachedNotice,
)
    requires
        call_ensures(detached_notice, (has_symlinks, occupied, is_symlink), notice),
    ensures
        notice is WriteWarningFile <==> !has_symlinks,
        notice is Warn <==> has_symlinks && occupied && !is_symlink,
        notice is CreateSymlink <==> has_symlinks && (!occupied || is_symlink),
{
}

/// Two projects of one name have the same directory exactly if their roots have the same hash, and
/// the name of the directory starts with that of the project.
pub proof fn law_detached_directories(
    name: &str,
    hash: u64,
    other_hash: u64,
    directory: String,
    other: String,
)
    requires
        call_ensures(detached_directory_name, (name, hash), directory),
        call_ensures(detached_directory_name, (name, other_hash), other),
    ensures
        directory@ == other@ <==> hash == other_hash,
        directory@ == name@ + "-"@ + decimal(hash as nat),
{
    if hash != other_hash {
        law_directories_differ(name@, hash, other_hash);
    }
}

/// The hash of a root is that of its bytes.
pub proof fn law_hash_of_root(root: &str, hash: u64)
    requires
        call_ensures(hash_of_root, (root,), hash),
    ensures
        hash == xxh3_64_hash(encode_utf8(root@)),
{
}

/// What the warning file says, and the warning about environments that are ignored.
pub proof fn law_warnings(
    envs_dir: &str,
    default_envs_dir: &str,
    detached_dir: &str,
    written: String,
    warning: String,
)
    requires
        call_ensures(warning_message, (envs_dir,), written),
        call_ensures(ignored_environments_message, (default_envs_dir, detached_dir), warning),
    ensures
        written@ == "Environments are installed in a custom detached-environments directory: "@
            + envs_dir@
            + ".\nSymlinks are not supported on this platform so environments will not be reachable from the default ('.pixi/envs') directory."@,
        warning@ == "Environments found in '"@ + default_envs_dir@
            + "', this will be ignored and the environment will be installed in the 'detached-environments' directory: '"@
            + detached_dir@ + "'. It's advised to remove the "@ + ".pixi"@ + "/"@ + "envs"@
            + " folder from the default directory to avoid confusion"@
            + " as a symlink can be made, please re-install after removal."@ + "."@,
{
}

/// What is decided about a symlink goes by `law_symlink_steps`, and what is decided about the warning
/// file by `law_warning_file_steps`: these are the steps that are taken, and these entries are logged.
pub proof fn law_placement_steps(
    target_dir: &str,
    symlink_dir: &str,
    parent: &str,
    warning_file: &str,
    event: PlacementEvent,
    step: (PlacementAction, Option<LogEntry>),
    other: (PlacementAction, Option<LogEntry>),
)
    requires
        call_ensures(create_symlink, (target_dir, symlink_dir, parent, event), step),
        call_ensures(write_warning_file, (symlink_dir, warning_file, target_dir, event), other),
    ensures
        step.0 == symlink_goes_on(target_dir@, symlink_dir@, parent@, event).0,
        match (step.1, symlink_goes_on(target_dir@, symlink_dir@, parent@, event).1) {
            (Some(entry), Some((level, text))) => entry.level == level && entry.text@ == text,
            (None, None) => true,
            _ => false,
        },
        other.0 == warning_file_goes_on(symlink_dir@, warning_file@, target_dir@, event).0,
        match (
            other.1,
            warning_file_goes_on(symlink_dir@, warning_file@, target_dir@, event).1,
        ) {
            (Some(entry), Some((level, text))) => entry.level == level && entry.text@ == text,
            (None, None) => true,
            _ => false,
        },
{
}

} // verus!
