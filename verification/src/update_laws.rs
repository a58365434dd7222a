//! What holds of every update, whatever its surroundings answer.

use vstd::prelude::*;
use crate::affected::{affected, affected_pairs, law_affected_environments};
use crate::constraints::{
    conda_strategy, conda_versions, pypi_strategy, versions_of, PinningStrategy,
};
use crate::manifest::Manifest;
use crate::pending::{has_name, inserted};
use crate::update::{
    touches_default, ActionView, EventView, LockFileUsage, Phase, Progress, UpdateRequest,
};

verus! {

/// What an update hears after one of its actions, and the manifest at that time.
pub struct Reply {
    pub manifest: Manifest,
    pub event: EventView,
}

/// Where an update stands after the replies `replies`, and what is to be done next.
pub open spec fn run(
    request: UpdateRequest,
    pinning: Option<PinningStrategy>,
    replies: Seq<Reply>,
) -> (Progress, ActionView)
    decreases replies.len(),
{
    if replies.len() == 0 {
        request.start()
    } else {
        request.next(
            pinning,
            run(request, pinning, replies.drop_last()).0,
            replies.last().manifest,
            replies.last().event,
        )
    }
}

/// Whether each of `replies` can come of the action before it.
pub open spec fn is_run(
    request: UpdateRequest,
    pinning: Option<PinningStrategy>,
    replies: Seq<Reply>,
) -> bool
    decreases replies.len(),
{
    replies.len() == 0 || {
        &&& is_run(request, pinning, replies.drop_last())
        &&& run(request, pinning, replies.drop_last()).0.expects(replies.last().event)
    }
}

/// A dry run leaves the disk alone: it never saves the manifest, writes the lock file or installs
/// anything, and it solves without installing.
pub proof fn law_dry_run_changes_nothing(
    request: UpdateRequest,
    pinning: Option<PinningStrategy>,
    replies: Seq<Reply>,
)
    requires
        is_run(request, pinning, replies),
        request.dry_run,
    ensures
        ({
            let action = run(request, pinning, replies).1;
            &&& !(action is SaveManifest)
            &&& !(action is WriteLockFile)
            &&& !(action is InstallDefault)
            &&& action matches ActionView::Solve { no_install } ==> no_install
        }),
    decreases replies.len(),
{
    if replies.len() > 0 {
        law_dry_run_changes_nothing(request, pinning, replies.drop_last());
        lemma_phases_of_dry_run(request, pinning, replies.drop_last());
    }
}

proof fn lemma_phases_of_dry_run(
    request: UpdateRequest,
    pinning: Option<PinningStrategy>,
    replies: Seq<Reply>,
)
    requires
        is_run(request, pinning, replies),
        request.dry_run,
    ensures
        ({
            let phase = run(request, pinning, replies).0.phase;
            &&& !(phase is SavingAdded)
            &&& !(phase is SavingConstrained)
            &&& !(phase is WritingLockFile)
            &&& !(phase is InstallingDefault)
        }),
    decreases replies.len(),
{
    if replies.len() > 0 {
        lemma_phases_of_dry_run(request, pinning, replies.drop_last());
    }
}

/// Switches are obeyed: without leave to install, nothing is installed, not even while solving;
/// without leave to write the lock file, it is not written.
pub proof fn law_switches_are_obeyed(
    request: UpdateRequest,
    pinning: Option<PinningStrategy>,
    replies: Seq<Reply>,
)
    requires
        is_run(request, pinning, replies),
    ensures
        ({
            let action = run(request, pinning, replies).1;
            &&& request.no_install ==> !(action is InstallDefault)
            &&& request.no_install ==> (action matches ActionView::Solve { no_install } ==> no_install)
            &&& request.no_lockfile_update ==> !(action is WriteLockFile)
        }),
{
    if replies.len() > 0 {
        assert(is_run(request, pinning, replies.drop_last()));
    }
}

/// Unless the lock file may be updated, it is neither read nor solved nor written, no constraint
/// is made, and there is nothing to report in the end.
pub proof fn law_lock_file_is_left_alone(
    request: UpdateRequest,
    pinning: Option<PinningStrategy>,
    replies: Seq<Reply>,
)
    requires
        is_run(request, pinning, replies),
        request.lock_file_usage != LockFileUsage::Update,
    ensures
        match run(request, pinning, replies).1 {
            ActionView::AddConda { version, .. } => version is None,
            ActionView::AddPypi { version, .. } => version is None,
            ActionView::SaveManifest => true,
            ActionView::ReturnNothing => true,
            ActionView::Abort => true,
            _ => false,
        },
        match run(request, pinning, replies).0.phase {
            Phase::AddingConda(_) => true,
            Phase::AddingPypi(_) => true,
            Phase::SavingAdded => true,
            Phase::ReturnedNothing => true,
            Phase::Failed => true,
            _ => false,
        },
    decreases replies.len(),
{
    if replies.len() > 0 {
        law_lock_file_is_left_alone(request, pinning, replies.drop_last());
    }
}

/// A failure ends the update: nothing more is done, and nothing more is expected.
pub proof fn law_failure_ends_the_update(
    request: UpdateRequest,
    pinning: Option<PinningStrategy>,
    replies: Seq<Reply>,
    event: EventView,
)
    requires
        is_run(request, pinning, replies),
        replies.len() > 0,
        replies.last().event is Failed,
    ensures
        run(request, pinning, replies).1 is Abort,
        !run(request, pinning, replies).0.expects(event),
{
}

/// How far along a phase is.
pub open spec fn rank(phase: Phase) -> int {
    match phase {
        Phase::AddingConda(_) => 0,
        Phase::AddingPypi(_) => 1,
        Phase::SavingAdded => 2,
        Phase::LoadingLockFile => 3,
        Phase::Solving => 4,
        Phase::QueryingConda(_) => 5,
        Phase::ConstrainingConda(_) => 5,
        Phase::QueryingPypi(_) => 6,
        Phase::ConstrainingPypi(_) => 6,
        Phase::SavingConstrained => 7,
        Phase::WritingLockFile => 8,
        Phase::InstallingDefault => 9,
        Phase::ReturnedNothing => 10,
        Phase::ReturnedUpdate => 10,
        Phase::Failed => 10,
    }
}

/// Whether `action` is what the phase `phase` waits for.
pub open spec fn is_action_of(phase: Phase, action: ActionView) -> bool {
    match phase {
        Phase::AddingConda(k) => action == (ActionView::AddConda { place: k, version: None }),
        Phase::AddingPypi(k) => action == (ActionView::AddPypi { place: k, version: None }),
        Phase::SavingAdded => action is SaveManifest,
        Phase::LoadingLockFile => action is LoadLockFile,
        Phase::Solving => action is Solve,
        Phase::QueryingConda(_) => action is DetermineConstraint,
        Phase::ConstrainingConda(_) => action matches ActionView::AddConda { version: Some(_), .. },
        Phase::QueryingPypi(_) => action is DetermineConstraint,
        Phase::ConstrainingPypi(_) => action matches ActionView::AddPypi { version: Some(_), .. },
        Phase::SavingConstrained => action is SaveManifest,
        Phase::WritingLockFile => action is WriteLockFile,
        Phase::InstallingDefault => action is InstallDefault,
        Phase::ReturnedNothing => action is ReturnNothing,
        Phase::ReturnedUpdate => action is ReturnUpdate,
        Phase::Failed => action is Abort,
    }
}

proof fn lemma_next_in_order(
    request: UpdateRequest,
    pinning: Option<PinningStrategy>,
    s: Progress,
    manifest: Manifest,
    event: EventView,
)
    requires
        s.expects(event),
    ensures
        ({
            let (t, action) = request.next(pinning, s, manifest, event);
            is_action_of(t.phase, action) && rank(s.phase) <= rank(t.phase)
        }),
{
    match s.phase {
        Phase::AddingConda(_) => {},
        Phase::AddingPypi(_) => {},
        Phase::SavingAdded => {},
        Phase::LoadingLockFile => {},
        Phase::Solving => {},
        Phase::QueryingConda(_) => {},
        Phase::ConstrainingConda(_) => {},
        Phase::QueryingPypi(_) => {},
        Phase::ConstrainingPypi(_) => {},
        Phase::SavingConstrained => {},
        Phase::WritingLockFile => {},
        Phase::InstallingDefault => {},
        Phase::ReturnedNothing => {},
        Phase::ReturnedUpdate => {},
        Phase::Failed => {},
    }
}

/// An update goes through its steps in order and never back: conda specs, requirements, saving,
/// reading the lock file, solving, constraints for conda specs, constraints for requirements,
/// saving, writing the lock file, installing. In each phase the action is the one that belongs to
/// it.
pub proof fn law_steps_in_order(
    request: UpdateRequest,
    pinning: Option<PinningStrategy>,
    replies: Seq<Reply>,
)
    requires
        is_run(request, pinning, replies),
    ensures
        is_action_of(run(request, pinning, replies).0.phase, run(request, pinning, replies).1),
        replies.len() > 0 ==> rank(run(request, pinning, replies.drop_last()).0.phase) <= rank(
            run(request, pinning, replies).0.phase,
        ),
{
    if replies.len() > 0 {
        lemma_next_in_order(
            request,
            pinning,
            run(request, pinning, replies.drop_last()).0,
            replies.last().manifest,
            replies.last().event,
        );
    }
}

proof fn lemma_inserted(entries: Seq<(Seq<char>, usize)>, key: Seq<char>, value: usize)
    ensures
        inserted(entries, key, value).len() <= entries.len() + 1,
        forall|i: int|
            0 <= i < inserted(entries, key, value).len() ==> #[trigger] inserted(
                entries,
                key,
                value,
            )[i] == (key, value) || entries.contains(inserted(entries, key, value)[i]),
{
    if exists|i: int| has_name(entries, i, key) {
        let p = choose|i: int| has_name(entries, i, key);
        assert forall|i: int| 0 <= i < entries.len() && i != p implies entries.contains(
            #[trigger] entries.update(p, (key, value))[i],
        ) by {
            assert(entries.update(p, (key, value))[i] == entries[i]);
        }
    } else {
        assert forall|i: int| 0 <= i < entries.len() implies entries.contains(
            #[trigger] entries.push((key, value))[i],
        ) by {
            assert(entries.push((key, value))[i] == entries[i]);
        }
    }
}

proof fn lemma_next_is_valid(
    request: UpdateRequest,
    pinning: Option<PinningStrategy>,
    s: Progress,
    manifest: Manifest,
    event: EventView,
)
    requires
        request.valid(s),
        s.expects(event),
    ensures
        request.valid(request.next(pinning, s, manifest, event).0),
{
    assert(request.conda@.len() == request.conda.len());
    assert(request.pypi@.len() == request.pypi.len());
    let t = request.next(pinning, s, manifest, event).0;
    match (s.phase, event) {
        (Phase::AddingConda(k), EventView::Added(true)) => {
            lemma_inserted(s.pending_conda, request.conda@[k as int].name.normalized@, k);
            assert forall|i: int| 0 <= i < t.pending_conda.len() implies (
            #[trigger] t.pending_conda[i]).1 < request.conda@.len() by {
                if t.pending_conda[i] != (request.conda@[k as int].name.normalized@, k) {
                    let p = s.pending_conda.index_of(t.pending_conda[i]);
                    assert(s.pending_conda[p].1 < request.conda@.len());
                }
            }
        },
        (Phase::AddingPypi(k), EventView::Added(true)) => {
            lemma_inserted(s.pending_pypi, request.pypi@[k as int].name.normalized@, k);
            assert forall|i: int| 0 <= i < t.pending_pypi.len() implies (
            #[trigger] t.pending_pypi[i]).1 < request.pypi@.len() by {
                if t.pending_pypi[i] != (request.pypi@[k as int].name.normalized@, k) {
                    let p = s.pending_pypi.index_of(t.pending_pypi[i]);
                    assert(s.pending_pypi[p].1 < request.pypi@.len());
                }
            }
        },
        _ => {},
    }
}

/// Every progress that an update makes is valid.
pub proof fn law_progress_is_valid(
    request: UpdateRequest,
    pinning: Option<PinningStrategy>,
    replies: Seq<Reply>,
)
    requires
        is_run(request, pinning, replies),
    ensures
        request.valid(run(request, pinning, replies).0),
    decreases replies.len(),
{
    if replies.len() > 0 {
        law_progress_is_valid(request, pinning, replies.drop_last());
        lemma_next_is_valid(
            request,
            pinning,
            run(request, pinning, replies.drop_last()).0,
            replies.last().manifest,
            replies.last().event,
        );
    } else {
        assert(request.conda@.len() == request.conda.len());
        assert(request.pypi@.len() == request.pypi.len());
    }
}

/// How many replies at most an update has heard where it stands.
pub open spec fn position(request: UpdateRequest, phase: Phase) -> int {
    let n = request.conda@.len() as int;
    let m = request.pypi@.len() as int;
    match phase {
        Phase::AddingConda(k) => k as int,
        Phase::AddingPypi(k) => n + k,
        Phase::SavingAdded => n + m,
        Phase::LoadingLockFile => n + m + 1,
        Phase::Solving => n + m + 2,
        Phase::QueryingConda(k) => n + m + 3 + 2 * k,
        Phase::ConstrainingConda(k) => n + m + 4 + 2 * k,
        Phase::QueryingPypi(k) => 3 * n + m + 3 + 2 * k,
        Phase::ConstrainingPypi(k) => 3 * n + m + 4 + 2 * k,
        Phase::SavingConstrained => 3 * (n + m) + 3,
        Phase::WritingLockFile => 3 * (n + m) + 4,
        Phase::InstallingDefault => 3 * (n + m) + 5,
        Phase::ReturnedNothing => 3 * (n + m) + 6,
        Phase::ReturnedUpdate => 3 * (n + m) + 6,
        Phase::Failed => 3 * (n + m) + 6,
    }
}

proof fn lemma_next_moves_on(
    request: UpdateRequest,
    pinning: Option<PinningStrategy>,
    s: Progress,
    manifest: Manifest,
    event: EventView,
)
    requires
        request.valid(s),
        s.expects(event),
    ensures
        position(request, request.next(pinning, s, manifest, event).0.phase) > position(
            request,
            s.phase,
        ),
{
    assert(request.conda@.len() == request.conda.len());
    assert(request.pypi@.len() == request.pypi.len());
    match s.phase {
        Phase::AddingConda(_) => {},
        Phase::AddingPypi(_) => {},
        Phase::SavingAdded => {},
        Phase::LoadingLockFile => {},
        Phase::Solving => {},
        Phase::QueryingConda(_) => {},
        Phase::ConstrainingConda(_) => {},
        Phase::QueryingPypi(_) => {},
        Phase::ConstrainingPypi(_) => {},
        Phase::SavingConstrained => {},
        Phase::WritingLockFile => {},
        Phase::InstallingDefault => {},
        Phase::ReturnedNothing => {},
        Phase::ReturnedUpdate => {},
        Phase::Failed => {},
    }
}

proof fn lemma_position(
    request: UpdateRequest,
    pinning: Option<PinningStrategy>,
    replies: Seq<Reply>,
)
    requires
        is_run(request, pinning, replies),
    ensures
        replies.len() <= position(request, run(request, pinning, replies).0.phase),
    decreases replies.len(),
{
    if replies.len() > 0 {
        lemma_position(request, pinning, replies.drop_last());
        law_progress_is_valid(request, pinning, replies.drop_last());
        lemma_next_moves_on(
            request,
            pinning,
            run(request, pinning, replies.drop_last()).0,
            replies.last().manifest,
            replies.last().event,
        );
    }
}

/// Every update ends: with the number of its specs, the number of replies that it takes is
/// bounded.
pub proof fn law_update_ends(
    request: UpdateRequest,
    pinning: Option<PinningStrategy>,
    replies: Seq<Reply>,
)
    requires
        is_run(request, pinning, replies),
    ensures
        replies.len() <= 3 * (request.conda@.len() + request.pypi@.len()) + 6,
{
    lemma_position(request, pinning, replies);
    law_progress_is_valid(request, pinning, replies);
}

/// An update that ends without a failure has an outcome to report exactly if the lock file may be
/// updated.
pub proof fn law_outcome_is_reported(
    request: UpdateRequest,
    pinning: Option<PinningStrategy>,
    replies: Seq<Reply>,
)
    requires
        is_run(request, pinning, replies),
    ensures
        run(request, pinning, replies).1 is ReturnNothing ==> request.lock_file_usage
            != LockFileUsage::Update,
        run(request, pinning, replies).1 is ReturnUpdate ==> request.lock_file_usage
            == LockFileUsage::Update,
{
    law_steps_in_order(request, pinning, replies);
    if request.lock_file_usage != LockFileUsage::Update {
        law_lock_file_is_left_alone(request, pinning, replies);
    } else if replies.len() > 0 {
        let s = run(request, pinning, replies.drop_last()).0;
        lemma_never_returns_nothing(
            request,
            pinning,
            s,
            replies.last().manifest,
            replies.last().event,
        );
    }
}

proof fn lemma_never_returns_nothing(
    request: UpdateRequest,
    pinning: Option<PinningStrategy>,
    s: Progress,
    manifest: Manifest,
    event: EventView,
)
    requires
        s.expects(event),
        request.lock_file_usage == LockFileUsage::Update,
    ensures
        !(request.next(pinning, s, manifest, event).1 is ReturnNothing),
{
}

/// The default environment is installed only where it is the only one and the update touches it.
pub proof fn law_only_a_sole_default_is_installed(
    request: UpdateRequest,
    pinning: Option<PinningStrategy>,
    replies: Seq<Reply>,
)
    requires
        is_run(request, pinning, replies),
        run(request, pinning, replies).1 is InstallDefault,
    ensures
        replies.len() > 0,
        replies.last().manifest.environments@.len() == 1,
        run(request, pinning, replies).0.default_is_affected,
{
    if replies.len() > 0 {
        lemma_install(
            request,
            pinning,
            run(request, pinning, replies.drop_last()).0,
            replies.last().manifest,
            replies.last().event,
        );
    }
}

proof fn lemma_install(
    request: UpdateRequest,
    pinning: Option<PinningStrategy>,
    s: Progress,
    manifest: Manifest,
    event: EventView,
)
    requires
        s.expects(event),
        request.next(pinning, s, manifest, event).1 is InstallDefault,
    ensures
        manifest.environments@.len() == 1,
        request.next(pinning, s, manifest, event).0.default_is_affected,
{
}

/// Whether the reply at place `k` says that the manifest took a dependency.
pub open spec fn took(replies: Seq<Reply>, k: int) -> bool {
    replies[k].event == EventView::Added(true)
}

/// Of the first `k` conda specs, the names of those that the manifest took.
pub open spec fn taken_conda(request: UpdateRequest, replies: Seq<Reply>, k: int) -> Seq<Seq<char>>
    decreases k,
{
    if k <= 0 {
        Seq::empty()
    } else {
        let front = taken_conda(request, replies, k - 1);
        if took(replies, k - 1) {
            front.push(request.conda@[k - 1].name.normalized@)
        } else {
            front
        }
    }
}

/// Of the first `k` requirements, the names of those that the manifest took.
pub open spec fn taken_pypi(request: UpdateRequest, replies: Seq<Reply>, k: int) -> Seq<Seq<char>>
    decreases k,
{
    if k <= 0 {
        Seq::empty()
    } else {
        let front = taken_pypi(request, replies, k - 1);
        if took(replies, request.conda@.len() + k - 1) {
            front.push(request.pypi@[k - 1].name.normalized@)
        } else {
            front
        }
    }
}

/// Of the first `k` conda specs, those that the manifest took and that have no version.
pub open spec fn waiting_conda(request: UpdateRequest, replies: Seq<Reply>, k: int) -> Seq<
    (Seq<char>, usize),
>
    decreases k,
{
    if k <= 0 {
        Seq::empty()
    } else {
        let front = waiting_conda(request, replies, k - 1);
        if took(replies, k - 1) && !request.conda@[k - 1].has_version {
            front.push((request.conda@[k - 1].name.normalized@, (k - 1) as usize))
        } else {
            front
        }
    }
}

/// Of the first `k` requirements, those that the manifest took and that have neither a version nor
/// a URL.
pub open spec fn waiting_pypi(request: UpdateRequest, replies: Seq<Reply>, k: int) -> Seq<
    (Seq<char>, usize),
>
    decreases k,
{
    if k <= 0 {
        Seq::empty()
    } else {
        let front = waiting_pypi(request, replies, k - 1);
        if took(replies, request.conda@.len() + k - 1) && !request.pypi@[k - 1].has_version_or_url {
            front.push((request.pypi@[k - 1].name.normalized@, (k - 1) as usize))
        } else {
            front
        }
    }
}

/// Whether no package is asked for twice.
pub open spec fn distinct_names(request: UpdateRequest) -> bool {
    &&& forall|i: int, j: int|
        0 <= i < j < request.conda@.len() ==> (#[trigger] request.conda@[i]).name.normalized@ != (
        #[trigger] request.conda@[j]).name.normalized@
    &&& forall|i: int, j: int|
        0 <= i < j < request.pypi@.len() ==> (#[trigger] request.pypi@[i]).name.normalized@ != (
        #[trigger] request.pypi@[j]).name.normalized@
}

/// How many of the conda specs the manifest was offered.
pub open spec fn offered_conda(request: UpdateRequest, replies: Seq<Reply>) -> int {
    if replies.len() < request.conda@.len() {
        replies.len() as int
    } else {
        request.conda@.len() as int
    }
}

/// How many of the requirements the manifest was offered.
pub open spec fn offered_pypi(request: UpdateRequest, replies: Seq<Reply>) -> int {
    let n = request.conda@.len() as int;
    if replies.len() < n {
        0
    } else if replies.len() < n + request.pypi@.len() {
        replies.len() - n
    } else {
        request.pypi@.len() as int
    }
}

/// The number of replies goes with the phase.
spec fn in_step(request: UpdateRequest, phase: Phase, len: int) -> bool {
    let n = request.conda@.len();
    let m = request.pypi@.len();
    match phase {
        Phase::AddingConda(k) => len == k && k < n,
        Phase::AddingPypi(k) => len == n + k && k < m,
        Phase::Failed => true,
        _ => len >= n + m,
    }
}

proof fn lemma_in_step(
    request: UpdateRequest,
    pinning: Option<PinningStrategy>,
    replies: Seq<Reply>,
)
    requires
        is_run(request, pinning, replies),
    ensures
        in_step(request, run(request, pinning, replies).0.phase, replies.len() as int),
    decreases replies.len(),
{
    assert(request.conda@.len() == request.conda.len());
    assert(request.pypi@.len() == request.pypi.len());
    if replies.len() > 0 {
        lemma_in_step(request, pinning, replies.drop_last());
        lemma_next_in_step(
            request,
            pinning,
            run(request, pinning, replies.drop_last()).0,
            replies.last().manifest,
            replies.last().event,
            replies.len() - 1,
        );
    }
}

proof fn lemma_next_in_step(
    request: UpdateRequest,
    pinning: Option<PinningStrategy>,
    s: Progress,
    manifest: Manifest,
    event: EventView,
    len: int,
)
    requires
        in_step(request, s.phase, len),
        s.expects(event),
    ensures
        in_step(request, request.next(pinning, s, manifest, event).0.phase, len + 1),
{
    assert(request.conda@.len() == request.conda.len());
    assert(request.pypi@.len() == request.pypi.len());
}

proof fn lemma_taken_conda_prefix(
    request: UpdateRequest,
    replies: Seq<Reply>,
    longer: Seq<Reply>,
    k: int,
)
    requires
        replies.is_prefix_of(longer),
        k <= replies.len(),
    ensures
        taken_conda(request, replies, k) == taken_conda(request, longer, k),
        waiting_conda(request, replies, k) == waiting_conda(request, longer, k),
    decreases k,
{
    if k > 0 {
        lemma_taken_conda_prefix(request, replies, longer, k - 1);
        assert(replies[k - 1] == longer[k - 1]);
    }
}

proof fn lemma_taken_pypi_prefix(
    request: UpdateRequest,
    replies: Seq<Reply>,
    longer: Seq<Reply>,
    k: int,
)
    requires
        replies.is_prefix_of(longer),
        k > 0 ==> request.conda@.len() + k <= replies.len(),
    ensures
        taken_pypi(request, replies, k) == taken_pypi(request, longer, k),
        waiting_pypi(request, replies, k) == waiting_pypi(request, longer, k),
    decreases k,
{
    if k > 0 {
        lemma_taken_pypi_prefix(request, replies, longer, k - 1);
        let p = request.conda@.len() + k - 1;
        assert(replies[p] == longer[p]);
    }
}

/// Whether a progress has gathered what the replies say that the manifest took.
spec fn gathered(request: UpdateRequest, replies: Seq<Reply>, s: Progress) -> bool {
    &&& s.conda_packages == taken_conda(request, replies, offered_conda(request, replies))
    &&& s.pypi_packages == taken_pypi(request, replies, offered_pypi(request, replies))
}

proof fn lemma_gathered(
    request: UpdateRequest,
    pinning: Option<PinningStrategy>,
    replies: Seq<Reply>,
)
    requires
        is_run(request, pinning, replies),
    ensures
        gathered(request, replies, run(request, pinning, replies).0),
    decreases replies.len(),
{
    if replies.len() > 0 {
        let front = replies.drop_last();
        let s = run(request, pinning, front).0;
        lemma_gathered(request, pinning, front);
        lemma_in_step(request, pinning, front);
        lemma_taken_conda_prefix(request, front, replies, offered_conda(request, front));
        lemma_taken_pypi_prefix(request, front, replies, offered_pypi(request, front));
        let n = request.conda@.len();
        let m = request.pypi@.len();
        assert(replies.last() == replies[replies.len() - 1]);
        match (s.phase, replies.last().event) {
            (Phase::AddingConda(k), EventView::Added(changed)) => {
                assert(offered_conda(request, replies) == k + 1);
                assert(offered_pypi(request, replies) == 0);
            },
            (Phase::AddingConda(k), EventView::Failed) => {
                assert(offered_conda(request, replies) == k + 1);
                assert(!took(replies, k as int));
                assert(offered_pypi(request, replies) == 0);
            },
            (Phase::AddingPypi(k), EventView::Added(changed)) => {
                assert(offered_conda(request, replies) == n);
                assert(offered_pypi(request, replies) == k + 1);
            },
            (Phase::AddingPypi(k), EventView::Failed) => {
                assert(offered_conda(request, replies) == n);
                assert(offered_pypi(request, replies) == k + 1);
                assert(!took(replies, n + k));
            },
            _ => {
                assert(offered_conda(request, replies) == n);
                assert(offered_pypi(request, replies) == m);
            },
        }
    }
}

/// What is released from the lock file are the packages that the manifest took, and only those:
/// each spec is offered to the manifest once, in the order of the request.
pub proof fn law_released_packages(
    request: UpdateRequest,
    pinning: Option<PinningStrategy>,
    replies: Seq<Reply>,
)
    requires
        is_run(request, pinning, replies),
    ensures
        run(request, pinning, replies).0.conda_packages == taken_conda(
            request,
            replies,
            offered_conda(request, replies),
        ),
        run(request, pinning, replies).0.pypi_packages == taken_pypi(
            request,
            replies,
            offered_pypi(request, replies),
        ),
{
    lemma_gathered(request, pinning, replies);
}

/// Whether `entry` is the conda spec at one of the first `k` places, which the manifest took and
/// which has no version.
pub open spec fn waits_conda(
    request: UpdateRequest,
    replies: Seq<Reply>,
    k: int,
    entry: (Seq<char>, usize),
) -> bool {
    &&& entry.1 < k
    &&& entry.0 == request.conda@[entry.1 as int].name.normalized@
    &&& !request.conda@[entry.1 as int].has_version
    &&& took(replies, entry.1 as int)
}

/// Whether `entry` is the requirement at one of the first `k` places, which the manifest took and
/// which has neither a version nor a URL.
pub open spec fn waits_pypi(
    request: UpdateRequest,
    replies: Seq<Reply>,
    k: int,
    entry: (Seq<char>, usize),
) -> bool {
    &&& entry.1 < k
    &&& entry.0 == request.pypi@[entry.1 as int].name.normalized@
    &&& !request.pypi@[entry.1 as int].has_version_or_url
    &&& took(replies, request.conda@.len() + entry.1)
}

proof fn lemma_waiting_conda(request: UpdateRequest, replies: Seq<Reply>, k: int)
    requires
        k <= request.conda@.len(),
    ensures
        forall|i: int|
            0 <= i < waiting_conda(request, replies, k).len() ==> waits_conda(
                request,
                replies,
                k,
                #[trigger] waiting_conda(request, replies, k)[i],
            ),
    decreases k,
{
    assert(request.conda@.len() == request.conda.len());
    if k > 0 {
        lemma_waiting_conda(request, replies, k - 1);
        let front = waiting_conda(request, replies, k - 1);
        let all = waiting_conda(request, replies, k);
        assert forall|i: int| 0 <= i < all.len() implies waits_conda(
            request,
            replies,
            k,
            #[trigger] all[i],
        ) by {
            if i < front.len() {
                assert(all[i] == front[i]);
                assert(waits_conda(request, replies, k - 1, front[i]));
            }
        }
    }
}

proof fn lemma_waiting_pypi(request: UpdateRequest, replies: Seq<Reply>, k: int)
    requires
        k <= request.pypi@.len(),
    ensures
        forall|i: int|
            0 <= i < waiting_pypi(request, replies, k).len() ==> waits_pypi(
                request,
                replies,
                k,
                #[trigger] waiting_pypi(request, replies, k)[i],
            ),
    decreases k,
{
    assert(request.pypi@.len() == request.pypi.len());
    if k > 0 {
        lemma_waiting_pypi(request, replies, k - 1);
        let front = waiting_pypi(request, replies, k - 1);
        let all = waiting_pypi(request, replies, k);
        assert forall|i: int| 0 <= i < all.len() implies waits_pypi(
            request,
            replies,
            k,
            #[trigger] all[i],
        ) by {
            if i < front.len() {
                assert(all[i] == front[i]);
                assert(waits_pypi(request, replies, k - 1, front[i]));
            }
        }
    }
}

/// The specs that get a constraint are those that the manifest took and that came without a
/// version, in the order of the request.
pub proof fn law_pending_specs(
    request: UpdateRequest,
    pinning: Option<PinningStrategy>,
    replies: Seq<Reply>,
)
    requires
        is_run(request, pinning, replies),
        distinct_names(request),
    ensures
        run(request, pinning, replies).0.pending_conda == waiting_conda(
            request,
            replies,
            offered_conda(request, replies),
        ),
        run(request, pinning, replies).0.pending_pypi == waiting_pypi(
            request,
            replies,
            offered_pypi(request, replies),
        ),
    decreases replies.len(),
{
    if replies.len() > 0 {
        let front = replies.drop_last();
        let s = run(request, pinning, front).0;
        law_pending_specs(request, pinning, front);
        lemma_in_step(request, pinning, front);
        lemma_taken_conda_prefix(request, front, replies, offered_conda(request, front));
        lemma_taken_pypi_prefix(request, front, replies, offered_pypi(request, front));
        let n = request.conda@.len();
        let m = request.pypi@.len();
        assert(replies.last() == replies[replies.len() - 1]);
        match (s.phase, replies.last().event) {
            (Phase::AddingConda(k), EventView::Added(changed)) => {
                assert(offered_conda(request, replies) == k + 1);
                assert(offered_pypi(request, replies) == 0);
                let name = request.conda@[k as int].name.normalized@;
                lemma_waiting_conda(request, front, k as int);
                assert forall|i: int| !has_name(s.pending_conda, i, name) by {
                    if has_name(s.pending_conda, i, name) {
                        assert(waits_conda(request, front, k as int, s.pending_conda[i]));
                        assert(request.conda@[s.pending_conda[i].1 as int].name.normalized@ == name);
                    }
                }
            },
            (Phase::AddingConda(k), EventView::Failed) => {
                assert(offered_conda(request, replies) == k + 1);
                assert(!took(replies, k as int));
                assert(offered_pypi(request, replies) == 0);
            },
            (Phase::AddingPypi(k), EventView::Added(changed)) => {
                assert(offered_conda(request, replies) == n);
                assert(offered_pypi(request, replies) == k + 1);
                let name = request.pypi@[k as int].name.normalized@;
                lemma_waiting_pypi(request, front, k as int);
                assert forall|i: int| !has_name(s.pending_pypi, i, name) by {
                    if has_name(s.pending_pypi, i, name) {
                        assert(waits_pypi(request, front, k as int, s.pending_pypi[i]));
                        assert(request.pypi@[s.pending_pypi[i].1 as int].name.normalized@ == name);
                    }
                }
            },
            (Phase::AddingPypi(k), EventView::Failed) => {
                assert(offered_conda(request, replies) == n);
                assert(offered_pypi(request, replies) == k + 1);
                assert(!took(replies, n + k));
            },
            _ => {
                assert(offered_conda(request, replies) == n);
                assert(offered_pypi(request, replies) == m);
            },
        }
    }
}

/// What holds of the specs that wait and of the constraints made so far.
spec fn constraints_fit(request: UpdateRequest, s: Progress) -> bool {
    &&& forall|i: int|
        0 <= i < s.pending_conda.len() ==> {
            let place = (#[trigger] s.pending_conda[i]).1 as int;
            place < request.conda@.len() && !request.conda@[place].has_version
                && request.conda@[place].name.normalized@ == s.pending_conda[i].0
        }
    &&& forall|i: int|
        0 <= i < s.pending_pypi.len() ==> {
            let place = (#[trigger] s.pending_pypi[i]).1 as int;
            place < request.pypi@.len() && !request.pypi@[place].has_version_or_url
                && request.pypi@[place].name.normalized@ == s.pending_pypi[i].0
        }
    &&& forall|key: Seq<char>| #[trigger] s.constraints.contains_key(key) ==> is_constrained(request, s, key)
}

/// Whether `source` is the name, as it was written, of a spec that waits for a constraint.
pub open spec fn is_constrained(request: UpdateRequest, s: Progress, source: Seq<char>) -> bool {
    ||| exists|i: int|
        0 <= i < s.pending_conda.len() && request.conda@[(
        #[trigger] s.pending_conda[i]).1 as int].name.source@ == source
    ||| exists|i: int|
        0 <= i < s.pending_pypi.len() && request.pypi@[(
        #[trigger] s.pending_pypi[i]).1 as int].name.source@ == source
}

proof fn lemma_next_constraints_fit(
    request: UpdateRequest,
    pinning: Option<PinningStrategy>,
    s: Progress,
    manifest: Manifest,
    event: EventView,
)
    requires
        request.valid(s),
        constraints_fit(request, s),
        s.expects(event),
        s.phase is AddingConda || s.phase is AddingPypi ==> s.constraints == Map::<
            Seq<char>,
            Seq<char>,
        >::empty(),
    ensures
        constraints_fit(request, request.next(pinning, s, manifest, event).0),
        ({
            let (t, action) = request.next(pinning, s, manifest, event);
            &&& t.phase is AddingConda || t.phase is AddingPypi ==> t.constraints == Map::<
                Seq<char>,
                Seq<char>,
            >::empty()
            &&& action matches ActionView::AddConda { place, version: Some(version) } ==> {
                &&& place < request.conda@.len()
                &&& !request.conda@[place as int].has_version
                &&& t.constraints.contains_pair(request.conda@[place as int].name.source@, version)
            }
            &&& action matches ActionView::AddPypi { place, version: Some(version) } ==> {
                &&& place < request.pypi@.len()
                &&& !request.pypi@[place as int].has_version_or_url
                &&& t.constraints.contains_pair(request.pypi@[place as int].name.source@, version)
            }
        }),
{
    let t = request.next(pinning, s, manifest, event).0;
    match (s.phase, event) {
        (Phase::AddingConda(k), EventView::Added(true)) => {
            let name = request.conda@[k as int].name.normalized@;
            lemma_inserted(s.pending_conda, name, k);
            assert forall|i: int| 0 <= i < t.pending_conda.len() implies {
                let place = (#[trigger] t.pending_conda[i]).1 as int;
                place < request.conda@.len() && !request.conda@[place].has_version
                    && request.conda@[place].name.normalized@ == t.pending_conda[i].0
            } by {
                if t.pending_conda == s.pending_conda || t.pending_conda[i] != (name, k) {
                    let p = s.pending_conda.index_of(t.pending_conda[i]);
                    assert(s.pending_conda.contains(t.pending_conda[i]));
                    assert(s.pending_conda[p].1 < request.conda@.len());
                }
            }
        },
        (Phase::AddingPypi(k), EventView::Added(true)) => {
            let name = request.pypi@[k as int].name.normalized@;
            lemma_inserted(s.pending_pypi, name, k);
            assert forall|i: int| 0 <= i < t.pending_pypi.len() implies {
                let place = (#[trigger] t.pending_pypi[i]).1 as int;
                place < request.pypi@.len() && !request.pypi@[place].has_version_or_url
                    && request.pypi@[place].name.normalized@ == t.pending_pypi[i].0
            } by {
                if t.pending_pypi == s.pending_pypi || t.pending_pypi[i] != (name, k) {
                    let p = s.pending_pypi.index_of(t.pending_pypi[i]);
                    assert(s.pending_pypi.contains(t.pending_pypi[i]));
                    assert(s.pending_pypi[p].1 < request.pypi@.len());
                }
            }
        },
        (Phase::QueryingConda(k), EventView::Constraint(Some(constraint))) => {
            let place = s.pending_conda[k as int].1;
            let source = request.conda@[place as int].name.source@;
            assert forall|key: Seq<char>| #[trigger] t.constraints.contains_key(
                key,
            ) implies is_constrained(request, t, key) by {
                if key == source {
                    assert(t.pending_conda[k as int].1 == place);
                } else {
                    assert(s.constraints.contains_key(key));
                }
            }
        },
        (Phase::QueryingPypi(k), EventView::Constraint(Some(constraint))) => {
            let place = s.pending_pypi[k as int].1;
            let source = request.pypi@[place as int].name.source@;
            assert forall|key: Seq<char>| #[trigger] t.constraints.contains_key(
                key,
            ) implies is_constrained(request, t, key) by {
                if key == source {
                    assert(t.pending_pypi[k as int].1 == place);
                } else {
                    assert(s.constraints.contains_key(key));
                }
            }
        },
        _ => {},
    }
}

proof fn lemma_constraints_fit(
    request: UpdateRequest,
    pinning: Option<PinningStrategy>,
    replies: Seq<Reply>,
)
    requires
        is_run(request, pinning, replies),
    ensures
        constraints_fit(request, run(request, pinning, replies).0),
        ({
            let s = run(request, pinning, replies).0;
            s.phase is AddingConda || s.phase is AddingPypi ==> s.constraints == Map::<
                Seq<char>,
                Seq<char>,
            >::empty()
        }),
    decreases replies.len(),
{
    if replies.len() > 0 {
        lemma_constraints_fit(request, pinning, replies.drop_last());
        law_progress_is_valid(request, pinning, replies.drop_last());
        lemma_next_constraints_fit(
            request,
            pinning,
            run(request, pinning, replies.drop_last()).0,
            replies.last().manifest,
            replies.last().event,
        );
    }
}

/// What is reported is what was added: a spec is added with a version only if it came without one,
/// and then that version is reported under the name of the package. Nothing is reported of other
/// packages.
pub proof fn law_reported_constraints(
    request: UpdateRequest,
    pinning: Option<PinningStrategy>,
    replies: Seq<Reply>,
)
    requires
        is_run(request, pinning, replies),
    ensures
        ({
            let (s, action) = run(request, pinning, replies);
            &&& action matches ActionView::AddConda { place, version: Some(version) } ==> {
                &&& place < request.conda@.len()
                &&& !request.conda@[place as int].has_version
                &&& s.constraints.contains_pair(request.conda@[place as int].name.source@, version)
            }
            &&& action matches ActionView::AddPypi { place, version: Some(version) } ==> {
                &&& place < request.pypi@.len()
                &&& !request.pypi@[place as int].has_version_or_url
                &&& s.constraints.contains_pair(request.pypi@[place as int].name.source@, version)
            }
            &&& forall|key: Seq<char>| #[trigger]
                s.constraints.contains_key(key) ==> is_constrained(request, s, key)
        }),
{
    lemma_constraints_fit(request, pinning, replies);
    if replies.len() > 0 {
        lemma_constraints_fit(request, pinning, replies.drop_last());
        law_progress_is_valid(request, pinning, replies.drop_last());
        lemma_next_constraints_fit(
            request,
            pinning,
            run(request, pinning, replies.drop_last()).0,
            replies.last().manifest,
            replies.last().event,
        );
    }
}

/// Whether the update asked, after the first `r` replies, for the constraint of the conda spec at
/// the pending place `i`.
pub open spec fn asks_conda(
    request: UpdateRequest,
    pinning: Option<PinningStrategy>,
    replies: Seq<Reply>,
    r: int,
    i: int,
) -> bool {
    let (s, action) = run(request, pinning, replies.take(r));
    &&& 0 <= r <= replies.len()
    &&& s.phase == Phase::QueryingConda(i as usize)
    &&& action == (ActionView::DetermineConstraint {
        strategy: conda_strategy(pinning, s.pending_conda[i].0),
        versions: versions_of(s.conda_records, s.pending_conda[i].0),
    })
}

/// Whether the update asked, after the first `r` replies, for the constraint of the requirement at
/// the pending place `i`.
pub open spec fn asks_pypi(
    request: UpdateRequest,
    pinning: Option<PinningStrategy>,
    replies: Seq<Reply>,
    r: int,
    i: int,
) -> bool {
    let (s, action) = run(request, pinning, replies.take(r));
    &&& 0 <= r <= replies.len()
    &&& s.phase == Phase::QueryingPypi(i as usize)
    &&& action == (ActionView::DetermineConstraint {
        strategy: pypi_strategy(pinning),
        versions: conda_versions(versions_of(s.pypi_records, s.pending_pypi[i].0)),
    })
}

/// Whether the update has asked for the constraint of the conda spec at the pending place `i`.
pub open spec fn has_asked_conda(
    request: UpdateRequest,
    pinning: Option<PinningStrategy>,
    replies: Seq<Reply>,
    i: int,
) -> bool {
    exists|r: int| asks_conda(request, pinning, replies, r, i)
}

/// Whether the update has asked for the constraint of the requirement at the pending place `i`.
pub open spec fn has_asked_pypi(
    request: UpdateRequest,
    pinning: Option<PinningStrategy>,
    replies: Seq<Reply>,
    i: int,
) -> bool {
    exists|r: int| asks_pypi(request, pinning, replies, r, i)
}

/// How many of the conda specs that wait were asked for in the phase `phase`.
spec fn asked_conda(s: Progress) -> int {
    match s.phase {
        Phase::QueryingConda(k) => k + 1,
        Phase::ConstrainingConda(k) => k + 1,
        Phase::QueryingPypi(_) => s.pending_conda.len() as int,
        Phase::ConstrainingPypi(_) => s.pending_conda.len() as int,
        Phase::SavingConstrained => s.pending_conda.len() as int,
        Phase::WritingLockFile => s.pending_conda.len() as int,
        Phase::InstallingDefault => s.pending_conda.len() as int,
        Phase::ReturnedUpdate => s.pending_conda.len() as int,
        _ => 0,
    }
}

/// How many of the requirements that wait were asked for in the phase `phase`.
spec fn asked_pypi(s: Progress) -> int {
    match s.phase {
        Phase::QueryingPypi(k) => k + 1,
        Phase::ConstrainingPypi(k) => k + 1,
        Phase::SavingConstrained => s.pending_pypi.len() as int,
        Phase::WritingLockFile => s.pending_pypi.len() as int,
        Phase::InstallingDefault => s.pending_pypi.len() as int,
        Phase::ReturnedUpdate => s.pending_pypi.len() as int,
        _ => 0,
    }
}

/// The steps of `next` that ask for a constraint ask for the next one, and no step leaves one out.
proof fn lemma_next_asks(
    request: UpdateRequest,
    pinning: Option<PinningStrategy>,
    s: Progress,
    manifest: Manifest,
    event: EventView,
)
    requires
        request.valid(s),
        s.expects(event),
    ensures
        ({
            let (t, action) = request.next(pinning, s, manifest, event);
            &&& asked_conda(t) <= asked_conda(s) || asked_conda(t) == asked_conda(s) + 1
            &&& asked_conda(t) > asked_conda(s) ==> {
                let i = asked_conda(t) - 1;
                &&& t.phase == Phase::QueryingConda(i as usize)
                &&& action == (ActionView::DetermineConstraint {
                    strategy: conda_strategy(pinning, t.pending_conda[i].0),
                    versions: versions_of(t.conda_records, t.pending_conda[i].0),
                })
            }
            &&& asked_pypi(t) <= asked_pypi(s) || asked_pypi(t) == asked_pypi(s) + 1
            &&& asked_pypi(t) > asked_pypi(s) ==> {
                let i = asked_pypi(t) - 1;
                &&& t.phase == Phase::QueryingPypi(i as usize)
                &&& action == (ActionView::DetermineConstraint {
                    strategy: pypi_strategy(pinning),
                    versions: conda_versions(versions_of(t.pypi_records, t.pending_pypi[i].0)),
                })
            }
        }),
{
    assert(request.conda@.len() == request.conda.len());
    assert(request.pypi@.len() == request.pypi.len());
    match s.phase {
        Phase::AddingConda(_) => {},
        Phase::AddingPypi(_) => {},
        Phase::SavingAdded => {},
        Phase::LoadingLockFile => {},
        Phase::Solving => {},
        Phase::QueryingConda(_) => {},
        Phase::ConstrainingConda(_) => {},
        Phase::QueryingPypi(_) => {},
        Phase::ConstrainingPypi(_) => {},
        Phase::SavingConstrained => {},
        Phase::WritingLockFile => {},
        Phase::InstallingDefault => {},
        Phase::ReturnedNothing => {},
        Phase::ReturnedUpdate => {},
        Phase::Failed => {},
    }
}

proof fn lemma_asked(
    request: UpdateRequest,
    pinning: Option<PinningStrategy>,
    replies: Seq<Reply>,
)
    requires
        is_run(request, pinning, replies),
    ensures
        forall|i: int|
            0 <= i < asked_conda(run(request, pinning, replies).0) ==> #[trigger] has_asked_conda(
                request,
                pinning,
                replies,
                i,
            ),
        forall|i: int|
            0 <= i < asked_pypi(run(request, pinning, replies).0) ==> #[trigger] has_asked_pypi(
                request,
                pinning,
                replies,
                i,
            ),
    decreases replies.len(),
{
    let n = replies.len() as int;
    let t = run(request, pinning, replies).0;
    assert(replies.take(n) =~= replies);
    if n > 0 {
        let front = replies.drop_last();
        let s = run(request, pinning, front).0;
        lemma_asked(request, pinning, front);
        law_progress_is_valid(request, pinning, front);
        lemma_next_asks(request, pinning, s, replies.last().manifest, replies.last().event);
        assert forall|i: int| 0 <= i < asked_conda(t) implies #[trigger] has_asked_conda(
                request,
                pinning,
                replies,
                i,
            ) by {
            if i < asked_conda(s) {
                assert(has_asked_conda(request, pinning, front, i));
                let r = choose|r: int| asks_conda(request, pinning, front, r, i);
                assert(front.take(r) =~= replies.take(r));
                assert(asks_conda(request, pinning, replies, r, i));
            } else {
                assert(asks_conda(request, pinning, replies, n, i));
            }
        }
        assert forall|i: int| 0 <= i < asked_pypi(t) implies #[trigger] has_asked_pypi(
                request,
                pinning,
                replies,
                i,
            ) by {
            if i < asked_pypi(s) {
                assert(has_asked_pypi(request, pinning, front, i));
                let r = choose|r: int| asks_pypi(request, pinning, front, r, i);
                assert(front.take(r) =~= replies.take(r));
                assert(asks_pypi(request, pinning, replies, r, i));
            } else {
                assert(asks_pypi(request, pinning, replies, n, i));
            }
        }
    }
}

/// No spec that waits for a constraint is passed over: an update that ends with an outcome asked
/// for the constraint of every one of them, made from the locked versions of its package.
pub proof fn law_every_pending_spec_is_asked_for(
    request: UpdateRequest,
    pinning: Option<PinningStrategy>,
    replies: Seq<Reply>,
)
    requires
        is_run(request, pinning, replies),
        run(request, pinning, replies).0.phase is ReturnedUpdate,
    ensures
        forall|i: int|
            0 <= i < run(request, pinning, replies).0.pending_conda.len() ==> #[trigger] has_asked_conda(
                request,
                pinning,
                replies,
                i,
            ),
        forall|i: int|
            0 <= i < run(request, pinning, replies).0.pending_pypi.len() ==> #[trigger] has_asked_pypi(
                request,
                pinning,
                replies,
                i,
            ),
{
    lemma_asked(request, pinning, replies);
}

proof fn lemma_next_saves_first(
    request: UpdateRequest,
    pinning: Option<PinningStrategy>,
    s: Progress,
    manifest: Manifest,
    event: EventView,
)
    requires
        s.expects(event),
        !request.dry_run,
    ensures
        ({
            let action = request.next(pinning, s, manifest, event).1;
            &&& action is LoadLockFile ==> s.phase is SavingAdded
            &&& action is WriteLockFile ==> s.phase is SavingConstrained
            &&& action is InstallDefault ==> s.phase is WritingLockFile || (
            request.no_lockfile_update && s.phase is SavingConstrained)
        }),
{
}

/// Outside of a dry run the manifest is saved right before the lock file is read, and again, with
/// the constraints in it, right before the lock file is written. Nothing is installed before the
/// lock file is written, where it is.
pub proof fn law_saved_before_used(
    request: UpdateRequest,
    pinning: Option<PinningStrategy>,
    replies: Seq<Reply>,
)
    requires
        is_run(request, pinning, replies),
        !request.dry_run,
    ensures
        ({
            let action = run(request, pinning, replies).1;
            let before = run(request, pinning, replies.drop_last()).1;
            &&& action is LoadLockFile ==> replies.len() > 0 && before is SaveManifest
            &&& action is WriteLockFile ==> replies.len() > 0 && before is SaveManifest
            &&& action is InstallDefault ==> replies.len() > 0 && if request.no_lockfile_update {
                before is SaveManifest
            } else {
                before is WriteLockFile
            }
        }),
{
    if replies.len() > 0 {
        let front = replies.drop_last();
        let s = run(request, pinning, front).0;
        law_steps_in_order(request, pinning, front);
        lemma_next_saves_first(request, pinning, s, replies.last().manifest, replies.last().event);
        lemma_switches(request, pinning, front);
    }
}

/// Where the lock file is not to be written, the update is never in the phase that writes it.
proof fn lemma_switches(
    request: UpdateRequest,
    pinning: Option<PinningStrategy>,
    replies: Seq<Reply>,
)
    requires
        is_run(request, pinning, replies),
    ensures
        request.no_lockfile_update ==> !(run(request, pinning, replies).0.phase is WritingLockFile),
{
    law_steps_in_order(request, pinning, replies);
    law_switches_are_obeyed(request, pinning, replies);
}

/// The beginning of a run is a run, and has not failed if more follows.
proof fn lemma_beginning(
    request: UpdateRequest,
    pinning: Option<PinningStrategy>,
    replies: Seq<Reply>,
    r: int,
)
    requires
        is_run(request, pinning, replies),
        0 <= r <= replies.len(),
    ensures
        is_run(request, pinning, replies.take(r)),
        r < replies.len() ==> !run(request, pinning, replies.take(r)).0.is_over(),
    decreases replies.len(),
{
    if r == replies.len() {
        assert(replies.take(r) =~= replies);
    } else {
        let front = replies.drop_last();
        assert(front.take(r) =~= replies.take(r));
        lemma_beginning(request, pinning, front, r);
        if r == front.len() {
            assert(replies.take(r) =~= front);
        }
    }
}

/// Every spec of the request is offered to the manifest once, as it was given and in the order of
/// the request: the conda specs come first, then the requirements, and after that nothing is added
/// as it was given. An update that ends without a failure has offered all of them.
pub proof fn law_every_spec_is_offered_once(
    request: UpdateRequest,
    pinning: Option<PinningStrategy>,
    replies: Seq<Reply>,
)
    requires
        is_run(request, pinning, replies),
    ensures
        forall|r: int|
            0 <= r < replies.len() && r < request.conda@.len() ==> #[trigger] run(
                request,
                pinning,
                replies.take(r),
            ).1 == (ActionView::AddConda { place: r as usize, version: None }),
        forall|r: int|
            request.conda@.len() <= r < replies.len() && r < request.conda@.len()
                + request.pypi@.len() ==> #[trigger] run(request, pinning, replies.take(r)).1 == (
            ActionView::AddPypi { place: (r - request.conda@.len()) as usize, version: None }),
        forall|r: int|
            request.conda@.len() + request.pypi@.len() <= r <= replies.len() ==> match #[trigger] run(
                request,
                pinning,
                replies.take(r),
            ).1 {
                ActionView::AddConda { version, .. } => version is Some,
                ActionView::AddPypi { version, .. } => version is Some,
                _ => true,
            },
        ({
            let phase = run(request, pinning, replies).0.phase;
            phase is ReturnedNothing || phase is ReturnedUpdate ==> replies.len()
                >= request.conda@.len() + request.pypi@.len()
        }),
{
    let n = request.conda@.len();
    let m = request.pypi@.len();
    assert(n == request.conda.len());
    assert(m == request.pypi.len());
    lemma_in_step(request, pinning, replies);
    assert forall|r: int| 0 <= r <= replies.len() implies {
        let (s, action) = #[trigger] run(request, pinning, replies.take(r));
        &&& is_action_of(s.phase, action)
        &&& in_step(request, s.phase, r)
        &&& r < replies.len() ==> !s.is_over()
    } by {
        lemma_beginning(request, pinning, replies, r);
        law_steps_in_order(request, pinning, replies.take(r));
        lemma_in_step(request, pinning, replies.take(r));
    }
}

/// Whether the update was in the phase `phase` after the first `r` replies, and asked for what
/// belongs to it.
pub open spec fn is_at(
    request: UpdateRequest,
    pinning: Option<PinningStrategy>,
    replies: Seq<Reply>,
    r: int,
    phase: Phase,
) -> bool {
    let (s, action) = run(request, pinning, replies.take(r));
    0 <= r <= replies.len() && s.phase == phase && is_action_of(phase, action)
}

/// Whether the update has been in the phase `phase`, and asked for what belongs to it.
pub open spec fn has_been_in(
    request: UpdateRequest,
    pinning: Option<PinningStrategy>,
    replies: Seq<Reply>,
    phase: Phase,
) -> bool {
    exists|r: int| is_at(request, pinning, replies, r, phase)
}

proof fn lemma_has_been_in(
    request: UpdateRequest,
    pinning: Option<PinningStrategy>,
    replies: Seq<Reply>,
    phase: Phase,
)
    requires
        is_run(request, pinning, replies),
        replies.len() > 0,
        has_been_in(request, pinning, replies.drop_last(), phase) || run(
            request,
            pinning,
            replies.drop_last(),
        ).0.phase == phase,
    ensures
        has_been_in(request, pinning, replies, phase),
{
    let front = replies.drop_last();
    if has_been_in(request, pinning, front, phase) {
        let r = choose|r: int| is_at(request, pinning, front, r, phase);
        assert(front.take(r) =~= replies.take(r));
        assert(is_at(request, pinning, replies, r, phase));
    } else {
        law_steps_in_order(request, pinning, front);
        assert(replies.take(front.len() as int) =~= front);
        assert(is_at(request, pinning, replies, front.len() as int, phase));
    }
}

/// Whether an update in the phase `phase` must have been in the phase `past` before.
spec fn implies_past(request: UpdateRequest, phase: Phase, past: Phase) -> bool {
    let goes_on = !(phase is Failed) && !(phase is ReturnedNothing);
    match past {
        Phase::SavingAdded => !request.dry_run && rank(phase) > 2 && !(phase is Failed),
        Phase::LoadingLockFile => rank(phase) > 3 && goes_on,
        Phase::Solving => rank(phase) > 4 && goes_on,
        Phase::SavingConstrained => !request.dry_run && rank(phase) > 7 && goes_on,
        Phase::WritingLockFile => !request.dry_run && !request.no_lockfile_update && rank(phase)
            > 8 && goes_on,
        _ => false,
    }
}

proof fn lemma_next_implies_past(
    request: UpdateRequest,
    pinning: Option<PinningStrategy>,
    s: Progress,
    manifest: Manifest,
    event: EventView,
    past: Phase,
)
    requires
        s.expects(event),
        implies_past(request, request.next(pinning, s, manifest, event).0.phase, past),
    ensures
        implies_past(request, s.phase, past) || s.phase == past,
{
    match s.phase {
        Phase::AddingConda(_) => {},
        Phase::AddingPypi(_) => {},
        Phase::SavingAdded => {},
        Phase::LoadingLockFile => {},
        Phase::Solving => {},
        Phase::QueryingConda(_) => {},
        Phase::ConstrainingConda(_) => {},
        Phase::QueryingPypi(_) => {},
        Phase::ConstrainingPypi(_) => {},
        Phase::SavingConstrained => {},
        Phase::WritingLockFile => {},
        Phase::InstallingDefault => {},
        Phase::ReturnedNothing => {},
        Phase::ReturnedUpdate => {},
        Phase::Failed => {},
    }
}

proof fn lemma_past(
    request: UpdateRequest,
    pinning: Option<PinningStrategy>,
    replies: Seq<Reply>,
    past: Phase,
)
    requires
        is_run(request, pinning, replies),
        implies_past(request, run(request, pinning, replies).0.phase, past),
    ensures
        has_been_in(request, pinning, replies, past),
    decreases replies.len(),
{
    if replies.len() > 0 {
        let front = replies.drop_last();
        lemma_next_implies_past(
            request,
            pinning,
            run(request, pinning, front).0,
            replies.last().manifest,
            replies.last().event,
            past,
        );
        if implies_past(request, run(request, pinning, front).0.phase, past) {
            lemma_past(request, pinning, front, past);
        }
        lemma_has_been_in(request, pinning, replies, past);
    }
}

/// An update that ends with an outcome has done its work: it read the lock file and solved it, and
/// outside of a dry run it saved the manifest before and after that, and wrote the lock file unless
/// that is switched off.
pub proof fn law_work_is_done(
    request: UpdateRequest,
    pinning: Option<PinningStrategy>,
    replies: Seq<Reply>,
)
    requires
        is_run(request, pinning, replies),
        run(request, pinning, replies).0.phase is ReturnedUpdate,
    ensures
        has_been_in(request, pinning, replies, Phase::LoadingLockFile),
        has_been_in(request, pinning, replies, Phase::Solving),
        !request.dry_run ==> has_been_in(request, pinning, replies, Phase::SavingAdded),
        !request.dry_run ==> has_been_in(request, pinning, replies, Phase::SavingConstrained),
        !request.dry_run && !request.no_lockfile_update ==> has_been_in(
            request,
            pinning,
            replies,
            Phase::WritingLockFile,
        ),
{
    lemma_past(request, pinning, replies, Phase::LoadingLockFile);
    lemma_past(request, pinning, replies, Phase::Solving);
    if !request.dry_run {
        lemma_past(request, pinning, replies, Phase::SavingAdded);
        lemma_past(request, pinning, replies, Phase::SavingConstrained);
        if !request.no_lockfile_update {
            lemma_past(request, pinning, replies, Phase::WritingLockFile);
        }
    }
}

/// An update that ends with nothing to report has saved the manifest all the same, outside of a
/// dry run.
pub proof fn law_additions_are_saved(
    request: UpdateRequest,
    pinning: Option<PinningStrategy>,
    replies: Seq<Reply>,
)
    requires
        is_run(request, pinning, replies),
        run(request, pinning, replies).0.phase is ReturnedNothing,
        !request.dry_run,
    ensures
        has_been_in(request, pinning, replies, Phase::SavingAdded),
{
    lemma_past(request, pinning, replies, Phase::SavingAdded);
}

proof fn lemma_next_installs(
    request: UpdateRequest,
    pinning: Option<PinningStrategy>,
    s: Progress,
    manifest: Manifest,
    event: EventView,
)
    requires
        s.expects(event),
        request.next(pinning, s, manifest, event).0.phase is ReturnedUpdate,
    ensures
        ({
            let t = request.next(pinning, s, manifest, event).0;
            s.phase is InstallingDefault || request.no_install || request.dry_run
                || manifest.environments@.len() != 1 || !t.default_is_affected
        }),
{
}

/// An update that ends with an outcome has installed the default environment, where that was the
/// only one at the end, the update touched it, and installing was neither switched off nor out of
/// the question in a dry run.
pub proof fn law_a_touched_sole_default_is_installed(
    request: UpdateRequest,
    pinning: Option<PinningStrategy>,
    replies: Seq<Reply>,
)
    requires
        is_run(request, pinning, replies),
        run(request, pinning, replies).0.phase is ReturnedUpdate,
        !request.no_install,
        !request.dry_run,
        replies.last().manifest.environments@.len() == 1,
        run(request, pinning, replies).0.default_is_affected,
    ensures
        has_been_in(request, pinning, replies, Phase::InstallingDefault),
{
    if replies.len() > 0 {
        lemma_next_installs(
            request,
            pinning,
            run(request, pinning, replies.drop_last()).0,
            replies.last().manifest,
            replies.last().event,
        );
        lemma_has_been_in(request, pinning, replies, Phase::InstallingDefault);
    }
}

/// What a solve touches is what an edit of the feature touches in the manifest at that time.
pub proof fn law_solve_knows_what_is_touched(
    request: UpdateRequest,
    pinning: Option<PinningStrategy>,
    replies: Seq<Reply>,
)
    requires
        is_run(request, pinning, replies),
        run(request, pinning, replies).1 is Solve,
    ensures
        replies.len() > 0,
        ({
            let s = run(request, pinning, replies).0;
            let manifest = replies.last().manifest;
            &&& s.affected == affected_pairs(
                manifest,
                affected(manifest, request.feature@),
                request.platforms@,
            )
            &&& s.default_is_affected == touches_default(manifest, request.feature@)
        }),
{
    if replies.len() > 0 {
        lemma_next_solves(
            request,
            pinning,
            run(request, pinning, replies.drop_last()).0,
            replies.last().manifest,
            replies.last().event,
        );
    }
}

proof fn lemma_next_solves(
    request: UpdateRequest,
    pinning: Option<PinningStrategy>,
    s: Progress,
    manifest: Manifest,
    event: EventView,
)
    requires
        s.expects(event),
        request.next(pinning, s, manifest, event).1 is Solve,
    ensures
        s.phase is LoadingLockFile && event is Done,
{
}

/// Whether what is asked for in the phase `phase` is the constraint of the spec that waits there.
spec fn is_question(
    request: UpdateRequest,
    pinning: Option<PinningStrategy>,
    s: Progress,
    action: ActionView,
) -> bool {
    match s.phase {
        Phase::QueryingConda(i) => {
            &&& i < s.pending_conda.len()
            &&& action == (ActionView::DetermineConstraint {
                strategy: conda_strategy(pinning, s.pending_conda[i as int].0),
                versions: versions_of(s.conda_records, s.pending_conda[i as int].0),
            })
        },
        Phase::QueryingPypi(i) => {
            &&& i < s.pending_pypi.len()
            &&& action == (ActionView::DetermineConstraint {
                strategy: pypi_strategy(pinning),
                versions: conda_versions(
                    versions_of(s.pypi_records, s.pending_pypi[i as int].0),
                ),
            })
        },
        _ => true,
    }
}

proof fn lemma_next_question(
    request: UpdateRequest,
    pinning: Option<PinningStrategy>,
    s: Progress,
    manifest: Manifest,
    event: EventView,
)
    requires
        request.valid(s),
        s.expects(event),
    ensures
        ({
            let (t, action) = request.next(pinning, s, manifest, event);
            is_question(request, pinning, t, action)
        }),
{
    assert(request.conda@.len() == request.conda.len());
    assert(request.pypi@.len() == request.pypi.len());
    match s.phase {
        Phase::AddingConda(_) => {},
        Phase::AddingPypi(_) => {},
        Phase::SavingAdded => {},
        Phase::LoadingLockFile => {},
        Phase::Solving => {},
        Phase::QueryingConda(_) => {},
        Phase::ConstrainingConda(_) => {},
        Phase::QueryingPypi(_) => {},
        Phase::ConstrainingPypi(_) => {},
        _ => {},
    }
}

proof fn lemma_question(
    request: UpdateRequest,
    pinning: Option<PinningStrategy>,
    replies: Seq<Reply>,
)
    requires
        is_run(request, pinning, replies),
    ensures
        is_question(
            request,
            pinning,
            run(request, pinning, replies).0,
            run(request, pinning, replies).1,
        ),
{
    if replies.len() > 0 {
        law_progress_is_valid(request, pinning, replies.drop_last());
        lemma_next_question(
            request,
            pinning,
            run(request, pinning, replies.drop_last()).0,
            replies.last().manifest,
            replies.last().event,
        );
    }
}

/// The answer to a question about a conda spec goes to that spec. What was asked was the constraint
/// of the `i`-th spec that waits, with the strategy and the locked versions of its own package. A
/// constraint in reply is added to the manifest with that very spec, and reported under the name of
/// its package as it was written. Nothing else changes.
pub proof fn law_conda_answer_goes_to_its_spec(
    request: UpdateRequest,
    pinning: Option<PinningStrategy>,
    replies: Seq<Reply>,
    i: usize,
    constraint: Seq<char>,
)
    requires
        is_run(request, pinning, replies),
        replies.len() > 0,
        run(request, pinning, replies.drop_last()).0.phase == Phase::QueryingConda(i),
        replies.last().event == EventView::Constraint(Some(constraint)),
    ensures
        ({
            let (s, question) = run(request, pinning, replies.drop_last());
            let (t, action) = run(request, pinning, replies);
            let place = s.pending_conda[i as int].1;
            let spec = request.conda@[place as int];
            &&& i < s.pending_conda.len()
            &&& place < request.conda@.len()
            &&& !spec.has_version
            &&& spec.name.normalized@ == s.pending_conda[i as int].0
            &&& question == (ActionView::DetermineConstraint {
                strategy: conda_strategy(pinning, spec.name.normalized@),
                versions: versions_of(s.conda_records, spec.name.normalized@),
            })
            &&& action == (ActionView::AddConda { place, version: Some(constraint) })
            &&& t == (Progress {
                phase: Phase::ConstrainingConda(i),
                constraints: s.constraints.insert(spec.name.source@, constraint),
                ..s
            })
        }),
{
    let front = replies.drop_last();
    lemma_question(request, pinning, front);
    lemma_constraints_fit(request, pinning, front);
    let s = run(request, pinning, front).0;
    assert(s.pending_conda[i as int].1 < request.conda@.len());
}

/// The answer to a question about a requirement goes to that requirement. What was asked was the
/// constraint of the `i`-th requirement that waits, with the strategy and the locked versions of its
/// own package. Specifiers in reply are added to the manifest with that very requirement, and
/// reported under the name of its package as it was written. Nothing else changes.
pub proof fn law_pypi_answer_goes_to_its_requirement(
    request: UpdateRequest,
    pinning: Option<PinningStrategy>,
    replies: Seq<Reply>,
    i: usize,
    specifiers: Seq<char>,
)
    requires
        is_run(request, pinning, replies),
        replies.len() > 0,
        run(request, pinning, replies.drop_last()).0.phase == Phase::QueryingPypi(i),
        replies.last().event == EventView::Constraint(Some(specifiers)),
    ensures
        ({
            let (s, question) = run(request, pinning, replies.drop_last());
            let (t, action) = run(request, pinning, replies);
            let place = s.pending_pypi[i as int].1;
            let spec = request.pypi@[place as int];
            &&& i < s.pending_pypi.len()
            &&& place < request.pypi@.len()
            &&& !spec.has_version_or_url
            &&& spec.name.normalized@ == s.pending_pypi[i as int].0
            &&& question == (ActionView::DetermineConstraint {
                strategy: pypi_strategy(pinning),
                versions: conda_versions(versions_of(s.pypi_records, spec.name.normalized@)),
            })
            &&& action == (ActionView::AddPypi { place, version: Some(specifiers) })
            &&& t == (Progress {
                phase: Phase::ConstrainingPypi(i),
                constraints: s.constraints.insert(spec.name.source@, specifiers),
                ..s
            })
        }),
{
    let front = replies.drop_last();
    lemma_question(request, pinning, front);
    lemma_constraints_fit(request, pinning, front);
    let s = run(request, pinning, front).0;
    assert(s.pending_pypi[i as int].1 < request.pypi@.len());
}

/// Without an answer nothing is added and nothing is reported: the update goes on with the next spec
/// that waits, as it does once a constraint was added.
pub proof fn law_questions_follow_one_another(
    request: UpdateRequest,
    pinning: Option<PinningStrategy>,
    replies: Seq<Reply>,
    i: usize,
)
    requires
        is_run(request, pinning, replies),
        replies.len() > 0,
    ensures
        ({
            let s = run(request, pinning, replies.drop_last()).0;
            let event = replies.last().event;
            let (t, action) = run(request, pinning, replies);
            let phase = t.phase;
            &&& (s.phase == Phase::QueryingConda(i) && event == EventView::Constraint(None)) || (
            s.phase == Phase::ConstrainingConda(i) && event is Added) ==> {
                &&& t == (Progress { phase, ..s })
                &&& action !is AddConda && action !is AddPypi
                &&& i + 1 < s.pending_conda.len() ==> phase == Phase::QueryingConda(
                    (i + 1) as usize,
                )
                &&& i + 1 >= s.pending_conda.len() && s.pending_pypi.len() > 0 ==> phase
                    == Phase::QueryingPypi(0)
                &&& i + 1 >= s.pending_conda.len() && s.pending_pypi.len() == 0 ==> phase
                    !is QueryingConda && phase !is QueryingPypi
            }
            &&& (s.phase == Phase::QueryingPypi(i) && event == EventView::Constraint(None)) || (
            s.phase == Phase::ConstrainingPypi(i) && event is Added) ==> {
                &&& t == (Progress { phase, ..s })
                &&& action !is AddConda && action !is AddPypi
                &&& i + 1 < s.pending_pypi.len() ==> phase == Phase::QueryingPypi(
                    (i + 1) as usize,
                )
                &&& i + 1 >= s.pending_pypi.len() ==> phase !is QueryingConda && phase
                    !is QueryingPypi
            }
            &&& s.phase is Solving && event is Solved ==> {
                &&& s.pending_conda.len() > 0 ==> phase == Phase::QueryingConda(0)
                &&& s.pending_conda.len() == 0 && s.pending_pypi.len() > 0 ==> phase
                    == Phase::QueryingPypi(0)
            }
        }),
{
    let s = run(request, pinning, replies.drop_last()).0;
    law_progress_is_valid(request, pinning, replies.drop_last());
    assert(request.conda@.len() == request.conda.len());
    assert(request.pypi@.len() == request.pypi.len());
    match s.phase {
        Phase::QueryingConda(_) => {},
        Phase::ConstrainingConda(_) => {},
        Phase::QueryingPypi(_) => {},
        Phase::ConstrainingPypi(_) => {},
        Phase::Solving => {},
        _ => {},
    }
}

/// What a reply changes of what an update has gathered. Only a dependency that the manifest took
/// makes a package to release or a spec that waits; only the lock file that was read says what is
/// touched; only a solve brings locked packages, those of each kind by themselves; only an answer
/// makes a constraint.
pub proof fn law_what_a_reply_changes(
    request: UpdateRequest,
    pinning: Option<PinningStrategy>,
    replies: Seq<Reply>,
)
    requires
        is_run(request, pinning, replies),
        replies.len() > 0,
    ensures
        ({
            let s = run(request, pinning, replies.drop_last()).0;
            let t = run(request, pinning, replies).0;
            let event = replies.last().event;
            &&& event matches EventView::Solved { conda, pypi } ==> t.conda_records == conda
                && t.pypi_records == pypi
            &&& event !is Solved ==> t.conda_records == s.conda_records && t.pypi_records
                == s.pypi_records
            &&& !(event is Constraint) ==> t.constraints == s.constraints
            &&& s.phase is LoadingLockFile && event is Done || t.affected == s.affected
                && t.default_is_affected == s.default_is_affected
            &&& s.phase is AddingConda && event == EventView::Added(true) || t.pending_conda
                == s.pending_conda && t.conda_packages == s.conda_packages
            &&& s.phase is AddingPypi && event == EventView::Added(true) || t.pending_pypi
                == s.pending_pypi && t.pypi_packages == s.pypi_packages
        }),
{
    let s = run(request, pinning, replies.drop_last()).0;
    match s.phase {
        Phase::AddingConda(_) => {},
        Phase::AddingPypi(_) => {},
        Phase::SavingAdded => {},
        Phase::LoadingLockFile => {},
        Phase::Solving => {},
        Phase::QueryingConda(_) => {},
        Phase::ConstrainingConda(_) => {},
        Phase::QueryingPypi(_) => {},
        Phase::ConstrainingPypi(_) => {},
        _ => {},
    }
}

/// What comes of a conda spec that the manifest took: its package is released, and if it has no
/// version it waits, at the place of an earlier spec with its name or behind all others. Specs that
/// are asked for twice wait once, and the later one counts.
pub proof fn law_taken_conda_spec(
    request: UpdateRequest,
    pinning: Option<PinningStrategy>,
    replies: Seq<Reply>,
    k: usize,
)
    requires
        is_run(request, pinning, replies),
        replies.len() > 0,
        run(request, pinning, replies.drop_last()).0.phase == Phase::AddingConda(k),
        replies.last().event == EventView::Added(true),
    ensures
        ({
            let s = run(request, pinning, replies.drop_last()).0;
            let t = run(request, pinning, replies).0;
            let spec = request.conda@[k as int];
            &&& k < request.conda@.len()
            &&& t.conda_packages == s.conda_packages.push(spec.name.normalized@)
            &&& spec.has_version ==> t.pending_conda == s.pending_conda
            &&& !spec.has_version ==> t.pending_conda.contains((spec.name.normalized@, k))
            &&& !spec.has_version && (forall|i: int|
                0 <= i < s.pending_conda.len() ==> (#[trigger] s.pending_conda[i]).0
                    != spec.name.normalized@) ==> t.pending_conda == s.pending_conda.push(
                (spec.name.normalized@, k),
            )
            &&& forall|i: int|
                0 <= i < s.pending_conda.len() ==> i < t.pending_conda.len() && (
                #[trigger] s.pending_conda[i]).0 == t.pending_conda[i].0 && (
                s.pending_conda[i].0 != spec.name.normalized@ ==> t.pending_conda[i]
                    == s.pending_conda[i])
        }),
{
    let s = run(request, pinning, replies.drop_last()).0;
    law_progress_is_valid(request, pinning, replies.drop_last());
    lemma_inserted_there(s.pending_conda, request.conda@[k as int].name.normalized@, k);
}

/// What comes of a requirement that the manifest took: its package is released, and if it has
/// neither a version nor a URL it waits, at the place of an earlier requirement with its name or
/// behind all others.
pub proof fn law_taken_requirement(
    request: UpdateRequest,
    pinning: Option<PinningStrategy>,
    replies: Seq<Reply>,
    k: usize,
)
    requires
        is_run(request, pinning, replies),
        replies.len() > 0,
        run(request, pinning, replies.drop_last()).0.phase == Phase::AddingPypi(k),
        replies.last().event == EventView::Added(true),
    ensures
        ({
            let s = run(request, pinning, replies.drop_last()).0;
            let t = run(request, pinning, replies).0;
            let spec = request.pypi@[k as int];
            &&& k < request.pypi@.len()
            &&& t.pypi_packages == s.pypi_packages.push(spec.name.normalized@)
            &&& spec.has_version_or_url ==> t.pending_pypi == s.pending_pypi
            &&& !spec.has_version_or_url ==> t.pending_pypi.contains((spec.name.normalized@, k))
            &&& !spec.has_version_or_url && (forall|i: int|
                0 <= i < s.pending_pypi.len() ==> (#[trigger] s.pending_pypi[i]).0
                    != spec.name.normalized@) ==> t.pending_pypi == s.pending_pypi.push(
                (spec.name.normalized@, k),
            )
            &&& forall|i: int|
                0 <= i < s.pending_pypi.len() ==> i < t.pending_pypi.len() && (
                #[trigger] s.pending_pypi[i]).0 == t.pending_pypi[i].0 && (s.pending_pypi[i].0
                    != spec.name.normalized@ ==> t.pending_pypi[i] == s.pending_pypi[i])
        }),
{
    let s = run(request, pinning, replies.drop_last()).0;
    law_progress_is_valid(request, pinning, replies.drop_last());
    lemma_inserted_there(s.pending_pypi, request.pypi@[k as int].name.normalized@, k);
}

proof fn lemma_inserted_there(entries: Seq<(Seq<char>, usize)>, key: Seq<char>, value: usize)
    ensures
        ({
            let after = inserted(entries, key, value);
            &&& after.contains((key, value))
            &&& after.len() >= entries.len()
            &&& (forall|i: int| 0 <= i < entries.len() ==> (#[trigger] entries[i]).0 != key)
                ==> after == entries.push((key, value))
            &&& forall|i: int|
                0 <= i < entries.len() ==> (#[trigger] entries[i]).0 == after[i].0 && (
                entries[i].0 != key ==> after[i] == entries[i])
        }),
{
    let after = inserted(entries, key, value);
    if exists|i: int| has_name(entries, i, key) {
        let p = choose|i: int| has_name(entries, i, key);
        assert(after[p] == (key, value));
        assert(entries[p].0 == key);
    } else {
        assert(after[entries.len() as int] == (key, value));
        assert forall|i: int| 0 <= i < entries.len() implies (#[trigger] entries[i]).0 != key by {
            assert(!has_name(entries, i, key));
        }
    }
}

/// A solve installs nothing exactly if nothing is to be installed or this is a dry run.
pub proof fn law_solve_installs(
    request: UpdateRequest,
    pinning: Option<PinningStrategy>,
    replies: Seq<Reply>,
)
    requires
        is_run(request, pinning, replies),
    ensures
        run(request, pinning, replies).1 matches ActionView::Solve { no_install } ==> no_install
            == (request.no_install || request.dry_run),
{
    if replies.len() > 0 {
        let s = run(request, pinning, replies.drop_last()).0;
        match s.phase {
            Phase::LoadingLockFile => {},
            _ => {},
        }
    }
}

/// Every action can be answered, by what can come of it and by nothing else: an addition by whether
/// it changed the manifest, a solve by the locked packages, a question by a constraint or by none,
/// and the rest by being done. Each of them may fail. Once the update is over nothing is expected.
pub proof fn law_every_action_can_be_answered(
    request: UpdateRequest,
    pinning: Option<PinningStrategy>,
    replies: Seq<Reply>,
    event: EventView,
)
    requires
        is_run(request, pinning, replies),
    ensures
        ({
            let (s, action) = run(request, pinning, replies);
            s.expects(event) <==> match action {
                ActionView::AddConda { .. } => event is Added || event is Failed,
                ActionView::AddPypi { .. } => event is Added || event is Failed,
                ActionView::SaveManifest => event is Done || event is Failed,
                ActionView::LoadLockFile => event is Done || event is Failed,
                ActionView::Solve { .. } => event is Solved || event is Failed,
                ActionView::DetermineConstraint { .. } => event is Constraint || event is Failed,
                ActionView::WriteLockFile => event is Done || event is Failed,
                ActionView::InstallDefault => event is Done || event is Failed,
                ActionView::ReturnNothing => false,
                ActionView::ReturnUpdate => false,
                ActionView::Abort => false,
            }
        }),
{
    law_steps_in_order(request, pinning, replies);
}

/// A reply that can come of an action and is no failure never ends the update with a failure.
pub proof fn law_only_a_failure_fails(
    request: UpdateRequest,
    pinning: Option<PinningStrategy>,
    replies: Seq<Reply>,
)
    requires
        is_run(request, pinning, replies),
    ensures
        run(request, pinning, replies).1 is Abort ==> replies.len() > 0
            && replies.last().event is Failed,
{
    if replies.len() > 0 {
        let s = run(request, pinning, replies.drop_last()).0;
        match s.phase {
            Phase::AddingConda(_) => {},
            Phase::AddingPypi(_) => {},
            Phase::SavingAdded => {},
            Phase::LoadingLockFile => {},
            Phase::Solving => {},
            Phase::QueryingConda(_) => {},
            Phase::ConstrainingConda(_) => {},
            Phase::QueryingPypi(_) => {},
            Phase::ConstrainingPypi(_) => {},
            _ => {},
        }
    }
}

/// The default environment counts as touched exactly if the feature is anywhere among its own
/// features, or among those of an environment that shares its solve group.
pub proof fn law_default_is_touched(manifest: Manifest, feature: Option<Seq<char>>)
    requires
        manifest.well_formed(),
    ensures
        touches_default(manifest, feature) <==> exists|j: int|
            {
                &&& 0 <= j < manifest.environments@.len()
                &&& (#[trigger] manifest.environments@[j]).name is Default
                &&& exists|i: int, k: int|
                    {
                        &&& 0 <= i < manifest.environments@.len()
                        &&& 0 <= k < manifest.environments@[i].features@.len()
                        &&& (#[trigger] manifest.environments@[i].features@[k])@ == feature
                        &&& i == j || manifest.environments@[i].solve_group is Some
                            && manifest.environments@[i].solve_group
                            == manifest.environments@[j].solve_group
                    }
            },
{
    law_affected_environments(manifest, feature);
    if touches_default(manifest, feature) {
        let j = choose|j: int|
            manifest.is_named(j, None) && affected(manifest, feature).contains(j as usize);
        assert(manifest.environments@[j].name is Default);
    }
    assert forall|j: int|
        {
            &&& 0 <= j < manifest.environments@.len()
            &&& (#[trigger] manifest.environments@[j]).name is Default
            &&& affected(manifest, feature).contains(j as usize)
        } implies touches_default(manifest, feature) by {
        assert(manifest.is_named(j, None));
    }
}

/// The packages that are released are those of the specs that the manifest took: of the conda specs
/// those whose addition was the reply at their place, of the requirements those whose addition was
/// the reply as far behind the conda specs. They come in the order of the request.
pub proof fn law_released_packages_by_place(
    request: UpdateRequest,
    pinning: Option<PinningStrategy>,
    replies: Seq<Reply>,
)
    requires
        is_run(request, pinning, replies),
        replies.len() >= request.conda@.len() + request.pypi@.len(),
    ensures
        run(request, pinning, replies).0.conda_packages == Seq::new(
            request.conda@.len(),
            |k: int| k,
        ).filter(|k: int| replies[k].event == EventView::Added(true)).map_values(
            |k: int| request.conda@[k].name.normalized@,
        ),
        run(request, pinning, replies).0.pypi_packages == Seq::new(
            request.pypi@.len(),
            |k: int| k,
        ).filter(
            |k: int| replies[request.conda@.len() + k].event == EventView::Added(true),
        ).map_values(|k: int| request.pypi@[k].name.normalized@),
{
    lemma_gathered(request, pinning, replies);
    lemma_taken_conda_by_place(request, replies, request.conda@.len());
    lemma_taken_pypi_by_place(request, replies, request.pypi@.len());
}

proof fn lemma_taken_conda_by_place(request: UpdateRequest, replies: Seq<Reply>, n: nat)
    ensures
        taken_conda(request, replies, n as int) == Seq::new(n, |k: int| k).filter(
            |k: int| replies[k].event == EventView::Added(true),
        ).map_values(|k: int| request.conda@[k].name.normalized@),
    decreases n,
{
    reveal(Seq::filter);
    let taken = |k: int| replies[k].event == EventView::Added(true);
    let named = |k: int| request.conda@[k].name.normalized@;
    if n == 0 {
        assert(Seq::new(0, |k: int| k).filter(taken).map_values(named) =~= Seq::<
            Seq<char>,
        >::empty());
    } else {
        let m = (n - 1) as nat;
        lemma_taken_conda_by_place(request, replies, m);
        let places = Seq::new(m, |k: int| k);
        assert(Seq::new(n, |k: int| k) =~= places.push(m as int));
        places.lemma_filter_push(m as int, taken);
        if taken(m as int) {
            assert(places.filter(taken).push(m as int).map_values(named) =~= places.filter(
                taken,
            ).map_values(named).push(named(m as int)));
        }
    }
}

proof fn lemma_taken_pypi_by_place(request: UpdateRequest, replies: Seq<Reply>, n: nat)
    ensures
        taken_pypi(request, replies, n as int) == Seq::new(n, |k: int| k).filter(
            |k: int| replies[request.conda@.len() + k].event == EventView::Added(true),
        ).map_values(|k: int| request.pypi@[k].name.normalized@),
    decreases n,
{
    reveal(Seq::filter);
    let taken = |k: int| replies[request.conda@.len() + k].event == EventView::Added(true);
    let named = |k: int| request.pypi@[k].name.normalized@;
    if n == 0 {
        assert(Seq::new(0, |k: int| k).filter(taken).map_values(named) =~= Seq::<
            Seq<char>,
        >::empty());
    } else {
        let m = (n - 1) as nat;
        lemma_taken_pypi_by_place(request, replies, m);
        let places = Seq::new(m, |k: int| k);
        assert(Seq::new(n, |k: int| k) =~= places.push(m as int));
        places.lemma_filter_push(m as int, taken);
        assert(request.conda@.len() + n - 1 == request.conda@.len() + m);
        if taken(m as int) {
            assert(places.filter(taken).push(m as int).map_values(named) =~= places.filter(
                taken,
            ).map_values(named).push(named(m as int)));
        }
    }
}

/// An update starts with nothing gathered, and with the first of its specs.
pub proof fn law_an_update_starts_with_nothing(request: UpdateRequest, pinning: Option<PinningStrategy>)
    ensures
        ({
            let (s, action) = run(request, pinning, Seq::empty());
            &&& s.pending_conda.len() == 0 && s.pending_pypi.len() == 0
            &&& s.conda_packages.len() == 0 && s.pypi_packages.len() == 0
            &&& s.affected.len() == 0 && !s.default_is_affected
            &&& s.conda_records.len() == 0 && s.pypi_records.len() == 0
            &&& s.constraints == Map::<Seq<char>, Seq<char>>::empty()
            &&& request.conda@.len() > 0 ==> action == (
            ActionView::AddConda { place: 0, version: None })
            &&& request.conda@.len() == 0 && request.pypi@.len() > 0 ==> action == (
            ActionView::AddPypi { place: 0, version: None })
        }),
{
}

} // verus!
