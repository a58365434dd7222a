//! The course of a dependency update: what is done, in which order, and what the outcome is.
//!
//! An update alternates decisions with work that only its surroundings can do: editing the
//! manifest, solving, writing to disk. [`UpdateFlow`] makes the decisions. It hands out one
//! [`UpdateAction`] at a time and takes the [`UpdateEvent`] that came of it.

use vstd::prelude::*;
use crate::affected::{
    affected, affected_environment_platforms, affected_environments, affected_pairs, pairs,
    EnvironmentPlatform,
};
use crate::constraints::{
    conda_candidates, conda_pinning_strategy, conda_strategy, conda_versions, pypi_candidates,
    pypi_pinning_strategy, pypi_strategy, specifiers_text, version_specifiers, versions_of,
    PinningStrategy,
};
use crate::lock::{
    collect_conda_packages, collect_pypi_packages, collected, conda_packages_in, pypi_packages_in,
    records, Record, Release,
};
use crate::manifest::{EnvironmentName, FeatureName, Manifest, Platform};
use crate::pending::{entries_of, get_index, insert, inserted, new_map};
use crate::text::texts;
use crate::text_map::TextMap;

verus! {

/// What an update may do with the lock file.
#[derive(Clone, Copy, Debug, PartialEq, Eq, Structural)]
pub enum LockFileUsage {
    /// Bring it up to date.
    Update,
    /// Use it if it is up to date.
    Locked,
    /// Use it as it is.
    Frozen,
}

/// The name of a package, as it was written and normalised.
#[derive(Debug, PartialEq, Eq)]
pub struct PackageName {
    pub source: String,
    pub normalized: String,
}

/// A conda package to depend on.
#[derive(Debug, PartialEq, Eq)]
pub struct CondaSpec {
    pub name: PackageName,
    /// Whether the spec restricts the version.
    pub has_version: bool,
}

/// A PyPI package to depend on.
#[derive(Debug, PartialEq, Eq)]
pub struct PypiSpec {
    pub name: PackageName,
    /// Whether the requirement has a version restriction or a URL.
    pub has_version_or_url: bool,
}

/// What an update is asked for.
#[derive(Debug, PartialEq, Eq)]
pub struct UpdateRequest {
    pub conda: Vec<CondaSpec>,
    pub pypi: Vec<PypiSpec>,
    /// The feature that the dependencies are added to.
    pub feature: FeatureName,
    /// The platforms that the dependencies are added for. None means all.
    pub platforms: Vec<Platform>,
    pub lock_file_usage: LockFileUsage,
    pub no_install: bool,
    pub no_lockfile_update: bool,
    pub dry_run: bool,
}

/// Where an update stands: which action it waits for, or how it ended.
#[derive(Clone, Copy, Debug, PartialEq, Eq, Structural)]
pub enum Phase {
    AddingConda(usize),
    AddingPypi(usize),
    SavingAdded,
    LoadingLockFile,
    Solving,
    QueryingConda(usize),
    ConstrainingConda(usize),
    QueryingPypi(usize),
    ConstrainingPypi(usize),
    SavingConstrained,
    WritingLockFile,
    InstallingDefault,
    ReturnedNothing,
    ReturnedUpdate,
    Failed,
}

/// What is to be done next.
#[derive(Debug, PartialEq, Eq)]
pub enum UpdateAction {
    /// Add the conda spec at this place of the request to the manifest, overwriting an older one.
    /// A version takes the place of the version in the spec; the rest of the spec stays.
    AddConda { place: usize, version: Option<String> },
    /// Add the requirement at this place of the request to the manifest, overwriting an older one.
    /// A version takes the place of the version in the requirement; the rest of it stays.
    AddPypi { place: usize, version: Option<String> },
    /// Save the manifest.
    SaveManifest,
    /// Read the lock file.
    LoadLockFile,
    /// Drop the released packages from the lock file and solve anew.
    Solve { no_install: bool },
    /// Make a constraint from locked versions.
    DetermineConstraint { strategy: PinningStrategy, versions: Vec<String> },
    /// Write the new lock file.
    WriteLockFile,
    /// Install the default environment.
    InstallDefault,
    /// The update is over. There is nothing to report.
    ReturnNothing,
    /// The update is over. Its outcome can be reported.
    ReturnUpdate,
    /// The update is over. Something failed.
    Abort,
}

/// What is to be done next, by the texts involved.
pub enum ActionView {
    AddConda { place: usize, version: Option<Seq<char>> },
    AddPypi { place: usize, version: Option<Seq<char>> },
    SaveManifest,
    LoadLockFile,
    Solve { no_install: bool },
    DetermineConstraint { strategy: PinningStrategy, versions: Seq<Seq<char>> },
    WriteLockFile,
    InstallDefault,
    ReturnNothing,
    ReturnUpdate,
    Abort,
}

impl View for UpdateAction {
    type V = ActionView;

    open spec fn view(&self) -> ActionView {
        match self {
            UpdateAction::AddConda { place, version } => ActionView::AddConda {
                place: *place,
                version: match version {
                    Some(text) => Some(text@),
                    None => None,
                },
            },
            UpdateAction::AddPypi { place, version } => ActionView::AddPypi {
                place: *place,
                version: match version {
                    Some(text) => Some(text@),
                    None => None,
                },
            },
            UpdateAction::SaveManifest => ActionView::SaveManifest,
            UpdateAction::LoadLockFile => ActionView::LoadLockFile,
            UpdateAction::Solve { no_install } => ActionView::Solve { no_install: *no_install },
            UpdateAction::DetermineConstraint { strategy, versions } =>
                ActionView::DetermineConstraint { strategy: *strategy, versions: texts(versions@) },
            UpdateAction::WriteLockFile => ActionView::WriteLockFile,
            UpdateAction::InstallDefault => ActionView::InstallDefault,
            UpdateAction::ReturnNothing => ActionView::ReturnNothing,
            UpdateAction::ReturnUpdate => ActionView::ReturnUpdate,
            UpdateAction::Abort => ActionView::Abort,
        }
    }
}

/// What came of an action.
#[derive(Debug, PartialEq, Eq)]
pub enum UpdateEvent {
    /// The manifest took the dependency; the flag says whether that changed it.
    Added(bool),
    /// What was asked for is done.
    Done,
    /// The lock file was solved anew. These are its packages in what the update touches.
    Solved { conda: Vec<Record>, pypi: Vec<Record> },
    /// The constraint that was made, if any.
    Constraint(Option<String>),
    /// The action failed.
    Failed,
}

/// What came of an action, by the texts involved.
pub enum EventView {
    Added(bool),
    Done,
    Solved { conda: Seq<(Seq<char>, Seq<char>)>, pypi: Seq<(Seq<char>, Seq<char>)> },
    Constraint(Option<Seq<char>>),
    Failed,
}

impl View for UpdateEvent {
    type V = EventView;

    open spec fn view(&self) -> EventView {
        match self {
            UpdateEvent::Added(changed) => EventView::Added(*changed),
            UpdateEvent::Done => EventView::Done,
            UpdateEvent::Solved { conda, pypi } => EventView::Solved {
                conda: records(conda@),
                pypi: records(pypi@),
            },
            UpdateEvent::Constraint(constraint) => EventView::Constraint(
                match constraint {
                    Some(text) => Some(text@),
                    None => None,
                },
            ),
            UpdateEvent::Failed => EventView::Failed,
        }
    }
}

/// What an update has gathered so far.
pub struct Progress {
    pub phase: Phase,
    /// The added conda specs without a version, by name, with their places in the request.
    pub pending_conda: Seq<(Seq<char>, usize)>,
    /// The added requirements without a version or URL.
    pub pending_pypi: Seq<(Seq<char>, usize)>,
    /// The conda packages to release from the lock file.
    pub conda_packages: Seq<Seq<char>>,
    /// The PyPI packages to release from the lock file.
    pub pypi_packages: Seq<Seq<char>>,
    /// The environments and platforms that the update touches.
    pub affected: Seq<(Seq<char>, Platform)>,
    pub default_is_affected: bool,
    pub conda_records: Seq<(Seq<char>, Seq<char>)>,
    pub pypi_records: Seq<(Seq<char>, Seq<char>)>,
    /// The constraints made so far, by the name of the package as it was written.
    pub constraints: Map<Seq<char>, Seq<char>>,
}

impl Progress {
    /// The same progress in another phase.
    pub open spec fn at(self, phase: Phase) -> Progress {
        Progress { phase, ..self }
    }

    /// Whether `event` can come of the action that is waited for.
    pub open spec fn expects(self, event: EventView) -> bool {
        match event {
            EventView::Added(_) => self.phase is AddingConda || self.phase is AddingPypi
                || self.phase is ConstrainingConda || self.phase is ConstrainingPypi,
            EventView::Done => self.phase is SavingAdded || self.phase is LoadingLockFile
                || self.phase is SavingConstrained || self.phase is WritingLockFile
                || self.phase is InstallingDefault,
            EventView::Solved { .. } => self.phase is Solving,
            EventView::Constraint(_) => self.phase is QueryingConda || self.phase is QueryingPypi,
            EventView::Failed => !self.is_over(),
        }
    }

    /// Whether the update has ended.
    pub open spec fn is_over(self) -> bool {
        self.phase is ReturnedNothing || self.phase is ReturnedUpdate || self.phase is Failed
    }
}

/// Nothing gathered yet.
pub open spec fn no_progress() -> Progress {
    Progress {
        phase: Phase::SavingAdded,
        pending_conda: Seq::empty(),
        pending_pypi: Seq::empty(),
        conda_packages: Seq::empty(),
        pypi_packages: Seq::empty(),
        affected: Seq::empty(),
        default_is_affected: false,
        conda_records: Seq::empty(),
        pypi_records: Seq::empty(),
        constraints: Map::empty(),
    }
}

/// Whether an edit of `feature` touches the default environment.
pub open spec fn touches_default(manifest: Manifest, feature: Option<Seq<char>>) -> bool {
    exists|i: int| manifest.is_named(i, None) && affected(manifest, feature).contains(i as usize)
}

impl UpdateRequest {
    /// Adds the conda specs from place `k` on, then the requirements.
    pub open spec fn add_conda(self, s: Progress, k: int) -> (Progress, ActionView) {
        if k < self.conda@.len() {
            (s.at(Phase::AddingConda(k as usize)), ActionView::AddConda { place: k as usize, version: None })
        } else {
            self.add_pypi(s, 0)
        }
    }

    /// Adds the requirements from place `k` on, then saves the manifest unless this is a dry run.
    pub open spec fn add_pypi(self, s: Progress, k: int) -> (Progress, ActionView) {
        if k < self.pypi@.len() {
            (s.at(Phase::AddingPypi(k as usize)), ActionView::AddPypi { place: k as usize, version: None })
        } else if !self.dry_run {
            (s.at(Phase::SavingAdded), ActionView::SaveManifest)
        } else {
            self.load_lock_file(s)
        }
    }

    /// Goes on to the lock file if it may be updated.
    pub open spec fn load_lock_file(self, s: Progress) -> (Progress, ActionView) {
        if self.lock_file_usage != LockFileUsage::Update {
            (s.at(Phase::ReturnedNothing), ActionView::ReturnNothing)
        } else {
            (s.at(Phase::LoadingLockFile), ActionView::LoadLockFile)
        }
    }

    /// Asks for constraints for the conda specs from the pending place `k` on, then for the
    /// requirements.
    pub open spec fn query_conda(
        self,
        pinning: Option<PinningStrategy>,
        s: Progress,
        manifest: Manifest,
        k: int,
    ) -> (Progress, ActionView) {
        if k < s.pending_conda.len() {
            let name = s.pending_conda[k].0;
            (
                s.at(Phase::QueryingConda(k as usize)),
                ActionView::DetermineConstraint {
                    strategy: conda_strategy(pinning, name),
                    versions: versions_of(s.conda_records, name),
                },
            )
        } else {
            self.query_pypi(pinning, s, manifest, 0)
        }
    }

    /// Asks for constraints for the requirements from the pending place `k` on, then saves the
    /// manifest unless this is a dry run.
    pub open spec fn query_pypi(
        self,
        pinning: Option<PinningStrategy>,
        s: Progress,
        manifest: Manifest,
        k: int,
    ) -> (Progress, ActionView) {
        if k < s.pending_pypi.len() {
            let name = s.pending_pypi[k].0;
            (
                s.at(Phase::QueryingPypi(k as usize)),
                ActionView::DetermineConstraint {
                    strategy: pypi_strategy(pinning),
                    versions: conda_versions(versions_of(s.pypi_records, name)),
                },
            )
        } else if !self.dry_run {
            (s.at(Phase::SavingConstrained), ActionView::SaveManifest)
        } else {
            self.write_lock_file(s, manifest)
        }
    }

    /// Writes the lock file unless that is switched off or this is a dry run.
    pub open spec fn write_lock_file(self, s: Progress, manifest: Manifest) -> (Progress, ActionView) {
        if !self.no_lockfile_update && !self.dry_run {
            (s.at(Phase::WritingLockFile), ActionView::WriteLockFile)
        } else {
            self.install(s, manifest)
        }
    }

    /// Installs the default environment if it is the only one, the update touches it, installing
    /// is not switched off and this is no dry run.
    pub open spec fn install(self, s: Progress, manifest: Manifest) -> (Progress, ActionView) {
        if !self.no_install && !self.dry_run && manifest.environments@.len() == 1
            && s.default_is_affected {
            (s.at(Phase::InstallingDefault), ActionView::InstallDefault)
        } else {
            (s.at(Phase::ReturnedUpdate), ActionView::ReturnUpdate)
        }
    }

    /// How an update starts.
    pub open spec fn start(self) -> (Progress, ActionView) {
        self.add_conda(no_progress(), 0)
    }

    /// How an update goes on after `event`. In the phase that waits for the constraint of a
    /// requirement, the constraint is given as version specifiers.
    pub open spec fn next(
        self,
        pinning: Option<PinningStrategy>,
        s: Progress,
        manifest: Manifest,
        event: EventView,
    ) -> (Progress, ActionView) {
        match (s.phase, event) {
            (_, EventView::Failed) => (s.at(Phase::Failed), ActionView::Abort),
            (Phase::AddingConda(k), EventView::Added(changed)) => {
                let spec = self.conda@[k as int];
                let name = spec.name.normalized@;
                let s = if changed {
                    Progress {
                        pending_conda: if spec.has_version {
                            s.pending_conda
                        } else {
                            inserted(s.pending_conda, name, k)
                        },
                        conda_packages: s.conda_packages.push(name),
                        ..s
                    }
                } else {
                    s
                };
                self.add_conda(s, k + 1)
            },
            (Phase::AddingPypi(k), EventView::Added(changed)) => {
                let spec = self.pypi@[k as int];
                let name = spec.name.normalized@;
                let s = if changed {
                    Progress {
                        pending_pypi: if spec.has_version_or_url {
                            s.pending_pypi
                        } else {
                            inserted(s.pending_pypi, name, k)
                        },
                        pypi_packages: s.pypi_packages.push(name),
                        ..s
                    }
                } else {
                    s
                };
                self.add_pypi(s, k + 1)
            },
            (Phase::SavingAdded, EventView::Done) => self.load_lock_file(s),
            (Phase::LoadingLockFile, EventView::Done) => (
                Progress {
                    phase: Phase::Solving,
                    affected: affected_pairs(
                        manifest,
                        affected(manifest, self.feature@),
                        self.platforms@,
                    ),
                    default_is_affected: touches_default(manifest, self.feature@),
                    ..s
                },
                ActionView::Solve { no_install: self.no_install || self.dry_run },
            ),
            (Phase::Solving, EventView::Solved { conda, pypi }) => self.query_conda(
                pinning,
                Progress { conda_records: conda, pypi_records: pypi, ..s },
                manifest,
                0,
            ),
            (Phase::QueryingConda(k), EventView::Constraint(Some(constraint))) => {
                let place = s.pending_conda[k as int].1;
                (
                    Progress {
                        phase: Phase::ConstrainingConda(k),
                        constraints: s.constraints.insert(
                            self.conda@[place as int].name.source@,
                            constraint,
                        ),
                        ..s
                    },
                    ActionView::AddConda { place, version: Some(constraint) },
                )
            },
            (Phase::QueryingConda(k), EventView::Constraint(None)) => self.query_conda(
                pinning,
                s,
                manifest,
                k + 1,
            ),
            (Phase::ConstrainingConda(k), EventView::Added(_)) => self.query_conda(
                pinning,
                s,
                manifest,
                k + 1,
            ),
            (Phase::QueryingPypi(k), EventView::Constraint(Some(specifiers))) => {
                let place = s.pending_pypi[k as int].1;
                (
                    Progress {
                        phase: Phase::ConstrainingPypi(k),
                        constraints: s.constraints.insert(
                            self.pypi@[place as int].name.source@,
                            specifiers,
                        ),
                        ..s
                    },
                    ActionView::AddPypi { place, version: Some(specifiers) },
                )
            },
            (Phase::QueryingPypi(k), EventView::Constraint(None)) => self.query_pypi(
                pinning,
                s,
                manifest,
                k + 1,
            ),
            (Phase::ConstrainingPypi(k), EventView::Added(_)) => self.query_pypi(
                pinning,
                s,
                manifest,
                k + 1,
            ),
            (Phase::SavingConstrained, EventView::Done) => self.write_lock_file(s, manifest),
            (Phase::WritingLockFile, EventView::Done) => self.install(s, manifest),
            (Phase::InstallingDefault, EventView::Done) => (
                s.at(Phase::ReturnedUpdate),
                ActionView::ReturnUpdate,
            ),
            _ => (s, ActionView::Abort),
        }
    }

    /// What holds of every progress that an update makes: the places that it holds exist, and no
    /// more specs are pending than were added.
    pub open spec fn valid(self, s: Progress) -> bool {
        &&& s.pending_conda.len() <= self.conda@.len()
        &&& s.pending_pypi.len() <= self.pypi@.len()
        &&& forall|i: int|
            0 <= i < s.pending_conda.len() ==> (#[trigger] s.pending_conda[i]).1 < self.conda@.len()
        &&& forall|i: int|
            0 <= i < s.pending_pypi.len() ==> (#[trigger] s.pending_pypi[i]).1 < self.pypi@.len()
        &&& match s.phase {
            Phase::AddingConda(k) => k < self.conda@.len() && s.pending_conda.len() <= k
                && s.pending_pypi.len() == 0,
            Phase::AddingPypi(k) => k < self.pypi@.len() && s.pending_pypi.len() <= k,
            Phase::QueryingConda(k) => k < s.pending_conda.len(),
            Phase::ConstrainingConda(k) => k < s.pending_conda.len(),
            Phase::QueryingPypi(k) => k < s.pending_pypi.len(),
            Phase::ConstrainingPypi(k) => k < s.pending_pypi.len(),
            _ => true,
        }
    }
}

/// What an update hears in the phase `phase`: there a constraint for a requirement counts as the
/// version specifiers that it parses to.
pub open spec fn heard(phase: Phase, event: EventView) -> EventView {
    match (phase, event) {
        (Phase::QueryingPypi(_), EventView::Constraint(Some(constraint))) => EventView::Constraint(
            specifiers_text(constraint),
        ),
        _ => event,
    }
}

/// The texts of the values of a map.
pub open spec fn value_texts(map: Map<Seq<char>, String>) -> Map<Seq<char>, Seq<char>> {
    map.map_values(|value: String| value@)
}

/// An update in progress.
pub struct UpdateFlow {
    request: UpdateRequest,
    pinning: Option<PinningStrategy>,
    phase: Phase,
    pending_conda: indexmap::IndexMap<String, usize>,
    pending_pypi: indexmap::IndexMap<String, usize>,
    release: Release,
    default_is_affected: bool,
    conda_records: Vec<Record>,
    pypi_records: Vec<Record>,
    constraints: TextMap<String>,
}

impl View for UpdateFlow {
    type V = Progress;

    closed spec fn view(&self) -> Progress {
        Progress {
            phase: self.phase,
            pending_conda: entries_of(self.pending_conda),
            pending_pypi: entries_of(self.pending_pypi),
            conda_packages: texts(self.release.conda_packages@),
            pypi_packages: texts(self.release.pypi_packages@),
            affected: pairs(self.release.affected@),
            default_is_affected: self.default_is_affected,
            conda_records: records(self.conda_records@),
            pypi_records: records(self.pypi_records@),
            constraints: value_texts(self.constraints@),
        }
    }
}

impl UpdateFlow {
    /// What the update was asked for.
    pub closed spec fn request_of(&self) -> UpdateRequest {
        self.request
    }

    /// The configured strategy.
    pub closed spec fn pinning_of(&self) -> Option<PinningStrategy> {
        self.pinning
    }

    /// The progress is one that an update makes.
    pub closed spec fn well_formed(&self) -> bool {
        &&& self.request.valid(self@)
        &&& self.constraints.well_formed()
    }

    /// Whether this is the same update as `other`: it has the same request and strategy.
    pub open spec fn continues(&self, other: &UpdateFlow) -> bool {
        self.request_of() == other.request_of() && self.pinning_of() == other.pinning_of()
    }

    /// Starts an update, and says what is to be done first.
    pub fn new(request: UpdateRequest, pinning: Option<PinningStrategy>) -> (started: (
        UpdateFlow,
        UpdateAction,
    ))
        ensures
            started.0.well_formed(),
            started.0.request_of() == request,
            started.0.pinning_of() == pinning,
            (started.0@, started.1@) == request.start(),
    {
        let mut flow = UpdateFlow {
            request,
            pinning,
            phase: Phase::SavingAdded,
            pending_conda: new_map(),
            pending_pypi: new_map(),
            release: Release {
                conda_packages: Vec::new(),
                pypi_packages: Vec::new(),
                affected: Vec::new(),
            },
            default_is_affected: false,
            conda_records: Vec::new(),
            pypi_records: Vec::new(),
            constraints: TextMap::new(),
        };
        proof {
            let s = no_progress();
            assert(flow@.conda_packages =~= s.conda_packages);
            assert(flow@.pypi_packages =~= s.pypi_packages);
            assert(flow@.affected =~= s.affected);
            assert(flow@.conda_records =~= s.conda_records);
            assert(flow@.pypi_records =~= s.pypi_records);
            assert(flow@.constraints =~= s.constraints);
        }
        let action: UpdateAction = flow.add_conda(0);
        (flow, action)
    }

    /// Adds the conda specs from place `k` on, then the requirements.
    fn add_conda(&mut self, k: usize) -> (action: UpdateAction)
        requires
            old(self).request_of().valid(old(self)@.at(Phase::SavingAdded)),
            entries_of(old(self).pending_conda).len() <= k,
            entries_of(old(self).pending_pypi).len() == 0,
            old(self).constraints.well_formed(),
        ensures
            final(self).well_formed(),
            final(self).continues(old(self)),
            (final(self)@, action@) == old(self).request_of().add_conda(old(self)@, k as int),
    {
        if k < self.request.conda.len() {
            self.phase = Phase::AddingConda(k);
            UpdateAction::AddConda { place: k, version: None }
        } else {
            self.add_pypi(0)
        }
    }

    /// Adds the requirements from place `k` on, then saves the manifest unless this is a dry run.
    fn add_pypi(&mut self, k: usize) -> (action: UpdateAction)
        requires
            old(self).request_of().valid(old(self)@.at(Phase::SavingAdded)),
            entries_of(old(self).pending_pypi).len() <= k,
            old(self).constraints.well_formed(),
        ensures
            final(self).well_formed(),
            final(self).continues(old(self)),
            (final(self)@, action@) == old(self).request_of().add_pypi(old(self)@, k as int),
    {
        if k < self.request.pypi.len() {
            self.phase = Phase::AddingPypi(k);
            UpdateAction::AddPypi { place: k, version: None }
        } else if !self.request.dry_run {
            self.phase = Phase::SavingAdded;
            UpdateAction::SaveManifest
        } else {
            self.load_lock_file()
        }
    }

    /// Goes on to the lock file if it may be updated.
    fn load_lock_file(&mut self) -> (action: UpdateAction)
        requires
            old(self).request_of().valid(old(self)@.at(Phase::SavingAdded)),
            old(self).constraints.well_formed(),
        ensures
            final(self).well_formed(),
            final(self).continues(old(self)),
            (final(self)@, action@) == old(self).request_of().load_lock_file(old(self)@),
    {
        if self.request.lock_file_usage != LockFileUsage::Update {
            self.phase = Phase::ReturnedNothing;
            UpdateAction::ReturnNothing
        } else {
            self.phase = Phase::LoadingLockFile;
            UpdateAction::LoadLockFile
        }
    }

    /// Asks for constraints for the conda specs from the pending place `k` on, made from what the
    /// new lock file holds; then goes on to the requirements.
    fn update_conda_specs_from_lock_file(&mut self, manifest: &Manifest, k: usize) -> (action: UpdateAction)
        requires
            old(self).request_of().valid(old(self)@.at(Phase::SavingAdded)),
            old(self).constraints.well_formed(),
        ensures
            final(self).well_formed(),
            final(self).continues(old(self)),
            (final(self)@, action@) == old(self).request_of().query_conda(
                old(self).pinning_of(),
                old(self)@,
                *manifest,
                k as int,
            ),
    {
        let query: Option<UpdateAction> = match get_index(&self.pending_conda, k) {
            Some((name, _)) => Some(
                UpdateAction::DetermineConstraint {
                    strategy: conda_pinning_strategy(self.pinning, name.as_str()),
                    versions: conda_candidates(&self.conda_records, name.as_str()),
                },
            ),
            None => None,
        };
        match query {
            Some(action) => {
                self.phase = Phase::QueryingConda(k);
                action
            },
            None => self.update_pypi_specs_from_lock_file(manifest, 0),
        }
    }

    /// Asks for constraints for the requirements from the pending place `k` on, made from what the
    /// new lock file holds; then saves the manifest unless this is a dry run.
    fn update_pypi_specs_from_lock_file(&mut self, manifest: &Manifest, k: usize) -> (action: UpdateAction)
        requires
            old(self).request_of().valid(old(self)@.at(Phase::SavingAdded)),
            old(self).constraints.well_formed(),
        ensures
            final(self).well_formed(),
            final(self).continues(old(self)),
            (final(self)@, action@) == old(self).request_of().query_pypi(
                old(self).pinning_of(),
                old(self)@,
                *manifest,
                k as int,
            ),
    {
        let query: Option<UpdateAction> = match get_index(&self.pending_pypi, k) {
            Some((name, _)) => Some(
                UpdateAction::DetermineConstraint {
                    strategy: pypi_pinning_strategy(self.pinning),
                    versions: pypi_candidates(&self.pypi_records, name.as_str()),
                },
            ),
            None => None,
        };
        match query {
            Some(action) => {
                self.phase = Phase::QueryingPypi(k);
                action
            },
            None => if !self.request.dry_run {
                self.phase = Phase::SavingConstrained;
                UpdateAction::SaveManifest
            } else {
                self.write_lock_file(manifest)
            },
        }
    }

    /// Writes the lock file unless that is switched off or this is a dry run.
    fn write_lock_file(&mut self, manifest: &Manifest) -> (action: UpdateAction)
        requires
            old(self).request_of().valid(old(self)@.at(Phase::SavingAdded)),
            old(self).constraints.well_formed(),
        ensures
            final(self).well_formed(),
            final(self).continues(old(self)),
            (final(self)@, action@) == old(self).request_of().write_lock_file(old(self)@, *manifest),
    {
        if !self.request.no_lockfile_update && !self.request.dry_run {
            self.phase = Phase::WritingLockFile;
            UpdateAction::WriteLockFile
        } else {
            self.install(manifest)
        }
    }

    /// Installs the default environment if it is to be installed, and ends the update otherwise.
    fn install(&mut self, manifest: &Manifest) -> (action: UpdateAction)
        requires
            old(self).request_of().valid(old(self)@.at(Phase::SavingAdded)),
            old(self).constraints.well_formed(),
        ensures
            final(self).well_formed(),
            final(self).continues(old(self)),
            (final(self)@, action@) == old(self).request_of().install(old(self)@, *manifest),
    {
        if !self.request.no_install && !self.request.dry_run && manifest.environments.len() == 1
            && self.default_is_affected {
            self.phase = Phase::InstallingDefault;
            UpdateAction::InstallDefault
        } else {
            self.phase = Phase::ReturnedUpdate;
            UpdateAction::ReturnUpdate
        }
    }

    /// The manifest took the conda spec at place `k`, and may have changed by it.
    fn conda_added(&mut self, k: usize, changed: bool) -> (action: UpdateAction)
        requires
            old(self).well_formed(),
            old(self)@.phase == Phase::AddingConda(k),
        ensures
            final(self).well_formed(),
            final(self).continues(old(self)),
            forall|manifest: Manifest|
                (final(self)@, action@) == #[trigger] old(self).request_of().next(
                    old(self).pinning_of(),
                    old(self)@,
                    manifest,
                    EventView::Added(changed),
                ),
    {
        if changed {
            if !self.request.conda[k].has_version {
                insert(&mut self.pending_conda, self.request.conda[k].name.normalized.clone(), k);
            }
            let ghost before = self.release.conda_packages@;
            self.release.conda_packages.push(self.request.conda[k].name.normalized.clone());
            assert(texts(self.release.conda_packages@) =~= texts(before).push(
                self.request.conda@[k as int].name.normalized@,
            ));
        }
        assert(k < self.request.conda.len());
        self.add_conda(k + 1)
    }

    /// The manifest took the requirement at place `k`, and may have changed by it.
    fn pypi_added(&mut self, k: usize, changed: bool) -> (action: UpdateAction)
        requires
            old(self).well_formed(),
            old(self)@.phase == Phase::AddingPypi(k),
        ensures
            final(self).well_formed(),
            final(self).continues(old(self)),
            forall|manifest: Manifest|
                (final(self)@, action@) == #[trigger] old(self).request_of().next(
                    old(self).pinning_of(),
                    old(self)@,
                    manifest,
                    EventView::Added(changed),
                ),
    {
        if changed {
            if !self.request.pypi[k].has_version_or_url {
                insert(&mut self.pending_pypi, self.request.pypi[k].name.normalized.clone(), k);
            }
            let ghost before = self.release.pypi_packages@;
            self.release.pypi_packages.push(self.request.pypi[k].name.normalized.clone());
            assert(texts(self.release.pypi_packages@) =~= texts(before).push(
                self.request.pypi@[k as int].name.normalized@,
            ));
        }
        assert(k < self.request.pypi.len());
        self.add_pypi(k + 1)
    }

    /// The lock file is there: finds out what the update touches, and solves.
    fn lock_file_loaded(&mut self, manifest: &Manifest) -> (action: UpdateAction)
        requires
            old(self).well_formed(),
            old(self)@.phase is LoadingLockFile,
            manifest.well_formed(),
        ensures
            final(self).well_formed(),
            final(self).continues(old(self)),
            (final(self)@, action@) == old(self).request_of().next(
                old(self).pinning_of(),
                old(self)@,
                *manifest,
                EventView::Done,
            ),
    {
        let places: Vec<usize> = affected_environments(manifest, &self.request.feature);
        self.default_is_affected = contains_default(manifest, &places);
        self.release.affected =
        affected_environment_platforms(manifest, &places, &self.request.platforms);
        self.phase = Phase::Solving;
        UpdateAction::Solve { no_install: self.request.no_install || self.request.dry_run }
    }

    /// The constraint of the conda spec at the pending place `k` is known.
    fn conda_constrained(
        &mut self,
        manifest: &Manifest,
        k: usize,
        constraint: Option<String>,
    ) -> (action: UpdateAction)
        requires
            old(self).well_formed(),
            old(self)@.phase == Phase::QueryingConda(k),
        ensures
            final(self).well_formed(),
            final(self).continues(old(self)),
            (final(self)@, action@) == old(self).request_of().next(
                old(self).pinning_of(),
                old(self)@,
                *manifest,
                UpdateEvent::Constraint(constraint)@,
            ),
    {
        match constraint {
            Some(constraint) => {
                let place: usize = *get_index(&self.pending_conda, k).unwrap().1;
                assert(entries_of(self.pending_conda)[k as int].1 == place);
                let source: String = self.request.conda[place].name.source.clone();
                let ghost before = self.constraints@;
                self.constraints.insert(source, constraint.clone());
                assert(value_texts(self.constraints@) =~= value_texts(before).insert(
                    source@,
                    constraint@,
                ));
                self.phase = Phase::ConstrainingConda(k);
                UpdateAction::AddConda { place, version: Some(constraint) }
            },
            None => {
                assert(k < self.request.conda.len());
                self.update_conda_specs_from_lock_file(manifest, k + 1)
            },
        }
    }

    /// The version specifiers of the requirement at the pending place `k` are known.
    fn pypi_constrained(
        &mut self,
        manifest: &Manifest,
        k: usize,
        specifiers: Option<String>,
    ) -> (action: UpdateAction)
        requires
            old(self).well_formed(),
            old(self)@.phase == Phase::QueryingPypi(k),
        ensures
            final(self).well_formed(),
            final(self).continues(old(self)),
            (final(self)@, action@) == old(self).request_of().next(
                old(self).pinning_of(),
                old(self)@,
                *manifest,
                UpdateEvent::Constraint(specifiers)@,
            ),
    {
        match specifiers {
            Some(specifiers) => {
                let place: usize = *get_index(&self.pending_pypi, k).unwrap().1;
                assert(entries_of(self.pending_pypi)[k as int].1 == place);
                let source: String = self.request.pypi[place].name.source.clone();
                let ghost before = self.constraints@;
                self.constraints.insert(source, specifiers.clone());
                assert(value_texts(self.constraints@) =~= value_texts(before).insert(
                    source@,
                    specifiers@,
                ));
                self.phase = Phase::ConstrainingPypi(k);
                UpdateAction::AddPypi { place, version: Some(specifiers) }
            },
            None => {
                assert(k < self.request.pypi.len());
                self.update_pypi_specs_from_lock_file(manifest, k + 1)
            },
        }
    }

    /// Takes what came of the last action, and says what is to be done next. A constraint for a
    /// requirement is given as version specifiers.
    pub fn advance(&mut self, manifest: &Manifest, event: UpdateEvent) -> (action: UpdateAction)
        requires
            old(self).well_formed(),
            old(self)@.expects(event@),
            manifest.well_formed(),
        ensures
            final(self).well_formed(),
            final(self).continues(old(self)),
            (final(self)@, action@) == old(self).request_of().next(
                old(self).pinning_of(),
                old(self)@,
                *manifest,
                event@,
            ),
    {
        match (self.phase, event) {
            (_, UpdateEvent::Failed) => {
                self.phase = Phase::Failed;
                UpdateAction::Abort
            },
            (Phase::AddingConda(k), UpdateEvent::Added(changed)) => self.conda_added(k, changed),
            (Phase::AddingPypi(k), UpdateEvent::Added(changed)) => self.pypi_added(k, changed),
            (Phase::SavingAdded, UpdateEvent::Done) => self.load_lock_file(),
            (Phase::LoadingLockFile, UpdateEvent::Done) => self.lock_file_loaded(manifest),
            (Phase::Solving, UpdateEvent::Solved { conda, pypi }) => {
                self.conda_records = conda;
                self.pypi_records = pypi;
                self.update_conda_specs_from_lock_file(manifest, 0)
            },
            (Phase::QueryingConda(k), UpdateEvent::Constraint(constraint)) => self.conda_constrained(
                manifest,
                k,
                constraint,
            ),
            (Phase::ConstrainingConda(k), UpdateEvent::Added(_)) => {
                assert(k < self.request.conda.len());
                self.update_conda_specs_from_lock_file(manifest, k + 1)
            },
            (Phase::QueryingPypi(k), UpdateEvent::Constraint(specifiers)) => self.pypi_constrained(
                manifest,
                k,
                specifiers,
            ),
            (Phase::ConstrainingPypi(k), UpdateEvent::Added(_)) => {
                assert(k < self.request.pypi.len());
                self.update_pypi_specs_from_lock_file(manifest, k + 1)
            },
            (Phase::SavingConstrained, UpdateEvent::Done) => self.write_lock_file(manifest),
            (Phase::WritingLockFile, UpdateEvent::Done) => self.install(manifest),
            (Phase::InstallingDefault, UpdateEvent::Done) => {
                self.phase = Phase::ReturnedUpdate;
                UpdateAction::ReturnUpdate
            },
            _ => UpdateAction::Abort,
        }
    }

    /// Takes what came of the last action, and says what is to be done next. A constraint for a
    /// requirement is first parsed to version specifiers; where that fails there is none.
    pub fn step(&mut self, manifest: &Manifest, event: UpdateEvent) -> (action: UpdateAction)
        requires
            old(self).well_formed(),
            old(self)@.expects(event@),
            manifest.well_formed(),
        ensures
            final(self).well_formed(),
            final(self).continues(old(self)),
            (final(self)@, action@) == old(self).request_of().next(
                old(self).pinning_of(),
                old(self)@,
                *manifest,
                heard(old(self)@.phase, event@),
            ),
    {
        match (self.phase, event) {
            (Phase::QueryingPypi(_), UpdateEvent::Constraint(Some(constraint))) => {
                let specifiers: Option<String> = version_specifiers(constraint.as_str());
                self.advance(manifest, UpdateEvent::Constraint(specifiers))
            },
            (_, event) => self.advance(manifest, event),
        }
    }

    /// What the solve releases from the lock file.
    pub fn release(&self) -> (release: &Release)
        ensures
            texts(release.conda_packages@) == self@.conda_packages,
            texts(release.pypi_packages@) == self@.pypi_packages,
            pairs(release.affected@) == self@.affected,
    {
        &self.release
    }

    /// The outcome of the update: the constraints that it made, and how the lock file changed.
    pub fn finish<D>(self, lock_file_diff: D) -> (outcome: Option<UpdateDeps<D>>)
        requires
            self.well_formed(),
        ensures
            match outcome {
                Some(outcome) => {
                    &&& self@.phase is ReturnedUpdate
                    &&& outcome.implicit_constraints.well_formed()
                    &&& value_texts(outcome.implicit_constraints@) == self@.constraints
                    &&& outcome.lock_file_diff == lock_file_diff
                },
                None => !(self@.phase is ReturnedUpdate),
            },
    {
        match self.phase {
            Phase::ReturnedUpdate => Some(
                UpdateDeps { implicit_constraints: self.constraints, lock_file_diff },
            ),
            _ => None,
        }
    }
}

/// What an update did.
pub struct UpdateDeps<D> {
    /// The constraints that were made for dependencies without a version, by the name of the
    /// package as it was written.
    pub implicit_constraints: TextMap<String>,
    /// How the lock file changed.
    pub lock_file_diff: D,
}

/// Whether the default environment is at one of the places `places`.
fn contains_default(manifest: &Manifest, places: &Vec<usize>) -> (found: bool)
    requires
        manifest.well_formed(),
    ensures
        found == exists|i: int| manifest.is_named(i, None) && places@.contains(i as usize),
{
    match manifest.environment(&EnvironmentName::Default) {
        Some(place) => {
            let mut k: usize = 0;
            while k < places.len()
                invariant
                    k <= places@.len(),
                    manifest.is_named(place as int, None),
                    forall|j: int| 0 <= j < k ==> places@[j] != place,
                decreases places.len() - k,
            {
                if places[k] == place {
                    assert(places@[k as int] == place);
                    assert(manifest.is_named(place as int, None) && places@.contains(place));
                    return true;
                }
                k += 1;
            }
            assert(forall|i: int| manifest.is_named(i, None) ==> i == place);
            false
        },
        None => false,
    }
}

/// The event of a solve: the packages of the new lock file in what the update touches.
pub fn solved_event(lock_file: &rattler_lock::LockFile, release: &Release) -> (event: UpdateEvent)
    ensures
        event@ == (EventView::Solved {
            conda: collected(conda_packages_in(*lock_file), pairs(release.affected@)),
            pypi: collected(pypi_packages_in(*lock_file), pairs(release.affected@)),
        }),
{
    UpdateEvent::Solved {
        conda: collect_conda_packages(lock_file, &release.affected),
        pypi: collect_pypi_packages(lock_file, &release.affected),
    }
}

/// An action is seen by what it asks for: the place, the version, the strategy and the versions, in
/// their order.
pub proof fn law_actions_are_seen_as_they_are(action: UpdateAction)
    ensures
        match action {
            UpdateAction::AddConda { place, version: Some(text) } => action@ == (
            ActionView::AddConda { place, version: Some(text@) }),
            UpdateAction::AddConda { place, version: None } => action@ == (
            ActionView::AddConda { place, version: None }),
            UpdateAction::AddPypi { place, version: Some(text) } => action@ == (
            ActionView::AddPypi { place, version: Some(text@) }),
            UpdateAction::AddPypi { place, version: None } => action@ == (
            ActionView::AddPypi { place, version: None }),
            UpdateAction::SaveManifest => action@ == ActionView::SaveManifest,
            UpdateAction::LoadLockFile => action@ == ActionView::LoadLockFile,
            UpdateAction::Solve { no_install } => action@ == (ActionView::Solve { no_install }),
            UpdateAction::DetermineConstraint { strategy, versions } => action@ == (
            ActionView::DetermineConstraint {
                strategy,
                versions: versions@.map_values(|text: String| text@),
            }),
            UpdateAction::WriteLockFile => action@ == ActionView::WriteLockFile,
            UpdateAction::InstallDefault => action@ == ActionView::InstallDefault,
            UpdateAction::ReturnNothing => action@ == ActionView::ReturnNothing,
            UpdateAction::ReturnUpdate => action@ == ActionView::ReturnUpdate,
            UpdateAction::Abort => action@ == ActionView::Abort,
        },
{
    if let UpdateAction::DetermineConstraint { strategy, versions } = action {
        assert(texts(versions@) =~= versions@.map_values(|text: String| text@));
    }
}

/// An event is seen by what it says.
pub proof fn law_events_are_seen_as_they_are(event: UpdateEvent)
    ensures
        match event {
            UpdateEvent::Added(changed) => event@ == EventView::Added(changed),
            UpdateEvent::Done => event@ == EventView::Done,
            UpdateEvent::Solved { conda, pypi } => event@ == (EventView::Solved {
                conda: conda@.map_values(|record: Record| (record.name@, record.version@)),
                pypi: pypi@.map_values(|record: Record| (record.name@, record.version@)),
            }),
            UpdateEvent::Constraint(Some(text)) => event@ == EventView::Constraint(Some(text@)),
            UpdateEvent::Constraint(None) => event@ == EventView::Constraint(None),
            UpdateEvent::Failed => event@ == EventView::Failed,
        },
{
    if let UpdateEvent::Solved { conda, pypi } = event {
        assert(records(conda@) =~= conda@.map_values(
            |record: Record| (record.name@, record.version@),
        ));
        assert(records(pypi@) =~= pypi@.map_values(
            |record: Record| (record.name@, record.version@),
        ));
    }
}

/// A constraint for a requirement is heard as the version specifiers that it parses to, or as none
/// where it parses to none. Everything else is heard as it was said.
pub proof fn law_what_is_heard(phase: Phase, event: EventView, constraint: Seq<char>)
    ensures
        phase is QueryingPypi ==> heard(phase, EventView::Constraint(Some(constraint)))
            == EventView::Constraint(specifiers_text(constraint)),
        phase !is QueryingPypi ==> heard(phase, event) == event,
        event !is Constraint ==> heard(phase, event) == event,
        heard(phase, EventView::Constraint(None)) == EventView::Constraint(None),
{
}

/// The values of a map are seen under their keys.
pub proof fn law_value_texts(map: Map<Seq<char>, String>)
    ensures
        forall|key: Seq<char>| #[trigger]
            value_texts(map).contains_key(key) <==> map.contains_key(key),
        forall|key: Seq<char>|
            map.contains_key(key) ==> #[trigger] value_texts(map)[key] == map[key]@,
{
}

/// An update that goes on is about the same request, with the same strategy.
pub proof fn law_update_keeps_its_request(update: UpdateFlow, other: UpdateFlow)
    requires
        update.continues(&other),
    ensures
        update.request_of() == other.request_of(),
        update.pinning_of() == other.pinning_of(),
{
}

/// An update starts with the first of its specs, and it is the request and the strategy that it was
/// given which it goes by.
pub proof fn law_update_starts(
    request: UpdateRequest,
    pinning: Option<PinningStrategy>,
    started: (UpdateFlow, UpdateAction),
)
    requires
        call_ensures(UpdateFlow::new, (request, pinning), started),
    ensures
        started.0.request_of() == request,
        started.0.pinning_of() == pinning,
        (started.0@, started.1@) == request.start(),
{
}

/// What a solve reports are the locked packages of what was released, of each kind by themselves.
pub proof fn law_solved_event(
    lock_file: rattler_lock::LockFile,
    release: Release,
    event: UpdateEvent,
)
    requires
        call_ensures(solved_event, (&lock_file, &release), event),
    ensures
        event@ == (EventView::Solved {
            conda: collected(conda_packages_in(lock_file), pairs(release.affected@)),
            pypi: collected(pypi_packages_in(lock_file), pairs(release.affected@)),
        }),
{
}

/// What an update hands over to the solve is what it has gathered.
pub proof fn law_release_of_an_update(update: UpdateFlow, release: &Release)
    requires
        call_ensures(UpdateFlow::release, (&update,), release),
    ensures
        release.conda_packages@.map_values(|name: String| name@) == update@.conda_packages,
        release.pypi_packages@.map_values(|name: String| name@) == update@.pypi_packages,
        release.affected@.map_values(
            |pair: EnvironmentPlatform| (pair.environment@, pair.platform),
        ) == update@.affected,
{
    assert(texts(release.conda_packages@) =~= release.conda_packages@.map_values(
        |name: String| name@,
    ));
    assert(texts(release.pypi_packages@) =~= release.pypi_packages@.map_values(
        |name: String| name@,
    ));
    assert(pairs(release.affected@) =~= release.affected@.map_values(
        |pair: EnvironmentPlatform| (pair.environment@, pair.platform),
    ));
}

} // verus!
