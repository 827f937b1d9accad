//! What a Store instance creation is going to do, what it owns, and what may be
//! cleaned up after it.
use crate::locations;
use crate::stamp;
use crate::text;
use vstd::prelude::*;

verus! {

/// The directory, below the temporary location, that holds the journals.
pub const JOURNAL_DIR_NAME: &'static str = "operations";

/// What the name of every ownership marker starts with.
pub const OWNERSHIP_MARKER_PREFIX: &'static str = ".wsl-dashboard-store-create";

/// Whether the installed WSL can install a distribution under a chosen name.
#[derive(Debug, Clone, Copy, PartialEq, Eq, Structural)]
pub enum CapabilityProbe {
    Supported,
    Unsupported,
    Unknown,
}

/// How an instance is created.
#[derive(Debug, Clone, Copy, PartialEq, Eq, Structural)]
pub enum StoreCreateStrategy {
    /// Installed straight under its name and path.
    DirectInstall,
    /// Promoted from a seed distribution that was there before.
    ExistingSeedPromote,
    /// Promoted from a seed distribution that the operation installs itself.
    FreshSeedPromote,
}

/// What the user asked for.
#[derive(Debug, PartialEq, Eq)]
pub struct StoreCreateRequest {
    pub target_name: String,
    pub target_path: String,
    pub store_id: String,
}

/// The mathematical content of a request.
pub struct RequestView {
    pub target_name: Seq<char>,
    pub target_path: Seq<char>,
    pub store_id: Seq<char>,
}

impl View for StoreCreateRequest {
    type V = RequestView;

    open spec fn view(&self) -> RequestView {
        RequestView {
            target_name: self.target_name@,
            target_path: self.target_path@,
            store_id: self.store_id@,
        }
    }
}

impl Clone for StoreCreateRequest {
    fn clone(&self) -> (copy: Self)
        ensures
            copy@ == self@,
    {
        StoreCreateRequest {
            target_name: self.target_name.clone(),
            target_path: self.target_path.clone(),
            store_id: self.store_id.clone(),
        }
    }
}

impl StoreCreateRequest {
    /// A request for an instance.
    pub fn new(target_name: &str, target_path: &str, store_id: &str) -> (request: Self)
        ensures
            request@ == (RequestView {
                target_name: target_name@,
                target_path: target_path@,
                store_id: store_id@,
            }),
    {
        StoreCreateRequest {
            target_name: target_name.to_owned(),
            target_path: target_path.to_owned(),
            store_id: store_id.to_owned(),
        }
    }
}

/// How far an operation has come.
#[derive(Debug, Clone, Copy, PartialEq, Eq, Structural)]
pub enum StoreCreatePhase {
    JournalCreated,
    SeedReady,
    PromotionPending,
    Recoverable,
    Completed,
    Failed,
}

/// What an operation has made, and may therefore take away again.
#[derive(Debug, PartialEq, Eq)]
pub struct CleanupPlan {
    pub owned_distros: Vec<String>,
    pub owned_paths: Vec<String>,
    pub archive_path: Option<String>,
}

/// The mathematical content of a cleanup plan.
pub struct CleanupView {
    pub owned_distros: Seq<Seq<char>>,
    pub owned_paths: Seq<Seq<char>>,
    pub archive_path: Option<Seq<char>>,
}

impl View for CleanupPlan {
    type V = CleanupView;

    open spec fn view(&self) -> CleanupView {
        CleanupView {
            owned_distros: text::views(self.owned_distros@),
            owned_paths: text::views(self.owned_paths@),
            archive_path: text::opt_view(self.archive_path),
        }
    }
}

impl CleanupView {
    /// The plan with one more owned path, unless the path is owned already.
    pub open spec fn with_owned_path(self, path: Seq<char>) -> CleanupView {
        if self.owned_paths.contains(path) {
            self
        } else {
            CleanupView { owned_paths: self.owned_paths.push(path), ..self }
        }
    }
}

impl Clone for CleanupPlan {
    fn clone(&self) -> (copy: Self)
        ensures
            copy@ == self@,
    {
        CleanupPlan {
            owned_distros: text::copy_texts(&self.owned_distros),
            owned_paths: text::copy_texts(&self.owned_paths),
            archive_path: text::copy_option(&self.archive_path),
        }
    }
}

impl CleanupPlan {
    /// Whether the operation owns a distribution.
    pub fn owns_distro(&self, distro_name: &str) -> (owned: bool)
        ensures
            owned == self@.owned_distros.contains(distro_name@),
    {
        text::list_has(&self.owned_distros, distro_name)
    }

    /// Whether the operation owns a path.
    pub fn owns_path(&self, path: &str) -> (owned: bool)
        ensures
            owned == self@.owned_paths.contains(path@),
    {
        text::list_has(&self.owned_paths, path)
    }

    /// Makes a path owned; a path that is owned already is not listed twice.
    pub fn register_owned_path(&mut self, path: String)
        ensures
            final(self)@ == old(self)@.with_owned_path(path@),
    {
        if !self.owns_path(path.as_str()) {
            self.owned_paths.push(path);
            assert(text::views(self.owned_paths@) =~= old(self)@.owned_paths.push(path@));
        }
    }
}

/// One thing to do for an operation that was interrupted.
#[derive(Debug, PartialEq, Eq)]
pub enum RecoveryAction {
    RemoveManagedDistro { distro_name: String },
    RemoveManagedPath { install_path: String },
    RemoveManagedArchive { archive_path: String },
    ReopenAddFlow { request: StoreCreateRequest },
}

/// The mathematical content of a recovery action.
pub enum RecoveryActionView {
    RemoveManagedDistro { distro_name: Seq<char> },
    RemoveManagedPath { install_path: Seq<char> },
    RemoveManagedArchive { archive_path: Seq<char> },
    ReopenAddFlow { request: RequestView },
}

impl View for RecoveryAction {
    type V = RecoveryActionView;

    open spec fn view(&self) -> RecoveryActionView {
        match self {
            RecoveryAction::RemoveManagedDistro { distro_name } => {
                RecoveryActionView::RemoveManagedDistro { distro_name: distro_name@ }
            },
            RecoveryAction::RemoveManagedPath { install_path } => {
                RecoveryActionView::RemoveManagedPath { install_path: install_path@ }
            },
            RecoveryAction::RemoveManagedArchive { archive_path } => {
                RecoveryActionView::RemoveManagedArchive { archive_path: archive_path@ }
            },
            RecoveryAction::ReopenAddFlow { request } => {
                RecoveryActionView::ReopenAddFlow { request: request@ }
            },
        }
    }
}

impl Clone for RecoveryAction {
    fn clone(&self) -> (copy: Self)
        ensures
            copy@ == self@,
    {
        match self {
            RecoveryAction::RemoveManagedDistro { distro_name } => {
                RecoveryAction::RemoveManagedDistro { distro_name: distro_name.clone() }
            },
            RecoveryAction::RemoveManagedPath { install_path } => {
                RecoveryAction::RemoveManagedPath { install_path: install_path.clone() }
            },
            RecoveryAction::RemoveManagedArchive { archive_path } => {
                RecoveryAction::RemoveManagedArchive { archive_path: archive_path.clone() }
            },
            RecoveryAction::ReopenAddFlow { request } => {
                RecoveryAction::ReopenAddFlow { request: request.clone() }
            },
        }
    }
}

/// The views of a list of recovery actions.
pub open spec fn action_views(actions: Seq<RecoveryAction>) -> Seq<RecoveryActionView> {
    actions.map_values(|a: RecoveryAction| a@)
}

/// The record of an operation, kept on disk while it runs.
#[derive(Debug, PartialEq, Eq)]
pub struct StoreCreateJournal {
    pub operation_id: String,
    pub created_at: String,
    pub request: StoreCreateRequest,
    pub phase: StoreCreatePhase,
    pub cleanup: CleanupPlan,
    pub seed_created_by_operation: bool,
}

/// The mathematical content of a journal.
pub struct JournalView {
    pub operation_id: Seq<char>,
    pub created_at: Seq<char>,
    pub request: RequestView,
    pub phase: StoreCreatePhase,
    pub cleanup: CleanupView,
    pub seed_created_by_operation: bool,
}

impl View for StoreCreateJournal {
    type V = JournalView;

    open spec fn view(&self) -> JournalView {
        JournalView {
            operation_id: self.operation_id@,
            created_at: self.created_at@,
            request: self.request@,
            phase: self.phase,
            cleanup: self.cleanup@,
            seed_created_by_operation: self.seed_created_by_operation,
        }
    }
}

impl JournalView {
    /// The journal of an operation that starts.
    pub open spec fn fresh(
        operation_id: Seq<char>,
        created_at: Seq<char>,
        request: RequestView,
        cleanup: CleanupView,
        seed_created_by_operation: bool,
    ) -> JournalView {
        JournalView {
            operation_id,
            created_at,
            request,
            phase: StoreCreatePhase::JournalCreated,
            cleanup,
            seed_created_by_operation,
        }
    }

    /// Whether a distribution that is installed at `current` may be removed:
    /// the operation owns it, and it stands where the operation put it. The
    /// target stands at the requested path; the seed was made by the operation
    /// and stands at an owned path.
    pub open spec fn may_remove_distro(self, distro: Seq<char>, current: Option<Seq<char>>) -> bool {
        &&& self.cleanup.owned_distros.contains(distro)
        &&& if distro == self.request.target_name {
            current == Some(self.request.target_path)
        } else {
            &&& distro == self.request.store_id
            &&& self.seed_created_by_operation
            &&& current is Some
            &&& self.cleanup.owned_paths.contains(current->0)
        }
    }

    /// Whether a path may be removed: it is owned, and it is the requested one.
    pub open spec fn may_remove_path(self, path: Seq<char>) -> bool {
        self.cleanup.owned_paths.contains(path) && path == self.request.target_path
    }

    /// Everything that cleaning up consists of, in order: the owned
    /// distributions, the owned paths, the archive if there is one, and then
    /// opening the add dialog again.
    pub open spec fn recovery(self) -> Seq<RecoveryActionView> {
        self.cleanup.owned_distros.map_values(
            |d: Seq<char>| RecoveryActionView::RemoveManagedDistro { distro_name: d },
        ) + self.cleanup.owned_paths.map_values(
            |p: Seq<char>| RecoveryActionView::RemoveManagedPath { install_path: p },
        ) + (match self.cleanup.archive_path {
            Some(a) => seq![RecoveryActionView::RemoveManagedArchive { archive_path: a }],
            None => Seq::empty(),
        }) + seq![RecoveryActionView::ReopenAddFlow { request: self.request }]
    }
}

impl Clone for StoreCreateJournal {
    fn clone(&self) -> (copy: Self)
        ensures
            copy@ == self@,
    {
        StoreCreateJournal {
            operation_id: self.operation_id.clone(),
            created_at: self.created_at.clone(),
            request: self.request.clone(),
            phase: self.phase,
            cleanup: self.cleanup.clone(),
            seed_created_by_operation: self.seed_created_by_operation,
        }
    }
}

impl StoreCreateJournal {
    /// The journal of an operation that starts now.
    pub fn new(
        operation_id: &str,
        request: StoreCreateRequest,
        cleanup: CleanupPlan,
        seed_created_by_operation: bool,
    ) -> (journal: Self)
        ensures
            stamp::utc_time_text(journal@.created_at),
            journal@ == JournalView::fresh(
                operation_id@,
                journal@.created_at,
                request@,
                cleanup@,
                seed_created_by_operation,
            ),
    {
        Self::new_at(stamp::now_rfc3339(), operation_id, request, cleanup, seed_created_by_operation)
    }

    /// The journal of an operation that starts at a given time.
    pub fn new_at(
        created_at: String,
        operation_id: &str,
        request: StoreCreateRequest,
        cleanup: CleanupPlan,
        seed_created_by_operation: bool,
    ) -> (journal: Self)
        ensures
            journal@ == JournalView::fresh(
                operation_id@,
                created_at@,
                request@,
                cleanup@,
                seed_created_by_operation,
            ),
    {
        StoreCreateJournal {
            operation_id: operation_id.to_owned(),
            created_at,
            request,
            phase: StoreCreatePhase::JournalCreated,
            cleanup,
            seed_created_by_operation,
        }
    }

    /// Records how far the operation has come.
    pub fn advance_to(&mut self, phase: StoreCreatePhase)
        ensures
            final(self)@ == (JournalView { phase, ..old(self)@ }),
    {
        self.phase = phase;
    }

    /// Whether a distribution, installed where `current_install_path` says, may
    /// be removed.
    pub fn can_cleanup_distro(&self, distro_name: &str, current_install_path: Option<&str>) -> (yes: bool)
        ensures
            yes == self@.may_remove_distro(
                distro_name@,
                match current_install_path {
                    Some(path) => Some(path@),
                    None => None,
                },
            ),
    {
        if !self.cleanup.owns_distro(distro_name) {
            return false;
        }
        if text::same_text(distro_name, self.request.target_name.as_str()) {
            return match current_install_path {
                Some(path) => text::same_text(path, self.request.target_path.as_str()),
                None => false,
            };
        }
        if text::same_text(distro_name, self.request.store_id.as_str()) {
            return match current_install_path {
                Some(path) => self.seed_created_by_operation && self.cleanup.owns_path(path),
                None => false,
            };
        }
        false
    }

    /// Whether a path may be removed.
    pub fn can_cleanup_path(&self, install_path: &str) -> (yes: bool)
        ensures
            yes == self@.may_remove_path(install_path@),
    {
        self.cleanup.owns_path(install_path) && text::same_text(
            install_path,
            self.request.target_path.as_str(),
        )
    }

    /// Whether an archive may be removed.
    pub fn can_cleanup_archive(&self, archive_path: &str) -> (yes: bool)
        ensures
            yes == (self@.cleanup.archive_path == Some(archive_path@)),
    {
        match &self.cleanup.archive_path {
            Some(owned) => text::same_text(owned.as_str(), archive_path),
            None => false,
        }
    }

    /// What to do for this operation after an interruption.
    pub fn recovery_actions(&self) -> (actions: Vec<RecoveryAction>)
        ensures
            action_views(actions@) == self@.recovery(),
    {
        let mut actions: Vec<RecoveryAction> = Vec::new();
        let ghost distros = self@.cleanup.owned_distros.map_values(
            |d: Seq<char>| RecoveryActionView::RemoveManagedDistro { distro_name: d },
        );
        let ghost paths = self@.cleanup.owned_paths.map_values(
            |p: Seq<char>| RecoveryActionView::RemoveManagedPath { install_path: p },
        );
        let mut i: usize = 0;
        while i < self.cleanup.owned_distros.len()
            invariant
                i <= self.cleanup.owned_distros@.len(),
                distros == self@.cleanup.owned_distros.map_values(
                    |d: Seq<char>| RecoveryActionView::RemoveManagedDistro { distro_name: d },
                ),
                action_views(actions@) == distros.take(i as int),
            decreases self.cleanup.owned_distros@.len() - i,
        {
            actions.push(
                RecoveryAction::RemoveManagedDistro {
                    distro_name: self.cleanup.owned_distros[i].clone(),
                },
            );
            proof {
                assert(action_views(actions@) =~= distros.take(i as int).push(actions@.last()@));
                assert(distros.take(i + 1) =~= distros.take(i as int).push(distros[i as int]));
            }
            i = i + 1;
        }
        let mut j: usize = 0;
        assert(action_views(actions@) =~= distros + paths.take(0));
        while j < self.cleanup.owned_paths.len()
            invariant
                j <= self.cleanup.owned_paths@.len(),
                paths == self@.cleanup.owned_paths.map_values(
                    |p: Seq<char>| RecoveryActionView::RemoveManagedPath { install_path: p },
                ),
                action_views(actions@) == distros + paths.take(j as int),
            decreases self.cleanup.owned_paths@.len() - j,
        {
            actions.push(
                RecoveryAction::RemoveManagedPath {
                    install_path: self.cleanup.owned_paths[j].clone(),
                },
            );
            proof {
                assert(action_views(actions@) =~= (distros + paths.take(j as int)).push(actions@.last()@));
                assert(distros + paths.take(j + 1) =~= (distros + paths.take(j as int)).push(paths[j as int]));
            }
            j = j + 1;
        }
        assert(paths.take(j as int) =~= paths);
        if let Some(archive_path) = &self.cleanup.archive_path {
            actions.push(RecoveryAction::RemoveManagedArchive { archive_path: archive_path.clone() });
        }
        actions.push(RecoveryAction::ReopenAddFlow { request: self.request.clone() });
        assert(action_views(actions@) =~= self@.recovery());
        actions
    }
}

/// How an instance is going to be created, and what is owned on the way.
#[derive(Debug, PartialEq, Eq)]
pub struct StoreCreatePlan {
    pub strategy: StoreCreateStrategy,
    pub final_path: String,
    pub archive_path: Option<String>,
    pub cleanup: CleanupPlan,
    pub seed_created_by_operation: bool,
}

/// The mathematical content of a plan.
pub struct PlanView {
    pub strategy: StoreCreateStrategy,
    pub final_path: Seq<char>,
    pub archive_path: Option<Seq<char>>,
    pub cleanup: CleanupView,
    pub seed_created_by_operation: bool,
}

impl View for StoreCreatePlan {
    type V = PlanView;

    open spec fn view(&self) -> PlanView {
        PlanView {
            strategy: self.strategy,
            final_path: self.final_path@,
            archive_path: text::opt_view(self.archive_path),
            cleanup: self.cleanup@,
            seed_created_by_operation: self.seed_created_by_operation,
        }
    }
}

impl Clone for StoreCreatePlan {
    fn clone(&self) -> (copy: Self)
        ensures
            copy@ == self@,
    {
        StoreCreatePlan {
            strategy: self.strategy,
            final_path: self.final_path.clone(),
            archive_path: text::copy_option(&self.archive_path),
            cleanup: self.cleanup.clone(),
            seed_created_by_operation: self.seed_created_by_operation,
        }
    }
}

/// The way to create an instance: directly where WSL is known to support it,
/// else from the seed that is there, else from a seed of its own.
pub open spec fn strategy_for(probe: CapabilityProbe, seed_exists: bool) -> StoreCreateStrategy {
    if probe == CapabilityProbe::Supported {
        StoreCreateStrategy::DirectInstall
    } else if seed_exists {
        StoreCreateStrategy::ExistingSeedPromote
    } else {
        StoreCreateStrategy::FreshSeedPromote
    }
}

/// The plan for a request, where `archive` is the place for the archive of a
/// promotion. A direct installation needs no archive and owns the target alone,
/// with its path if one was given. A promotion owns the target, its path and
/// the archive; a seed of its own it owns too, one that was there before it
/// does not.
pub open spec fn plan_for(
    probe: CapabilityProbe,
    seed_exists: bool,
    request: RequestView,
    archive: Seq<char>,
) -> PlanView {
    let strategy = strategy_for(probe, seed_exists);
    let archive_path = if strategy == StoreCreateStrategy::DirectInstall {
        None
    } else {
        Some(archive)
    };
    PlanView {
        strategy,
        final_path: request.target_path,
        archive_path,
        cleanup: CleanupView {
            owned_distros: if strategy == StoreCreateStrategy::FreshSeedPromote {
                seq![request.store_id, request.target_name]
            } else {
                seq![request.target_name]
            },
            owned_paths: if strategy == StoreCreateStrategy::DirectInstall && request.target_path.len() == 0 {
                Seq::empty()
            } else {
                seq![request.target_path]
            },
            archive_path,
        },
        seed_created_by_operation: strategy != StoreCreateStrategy::ExistingSeedPromote,
    }
}

/// The plan for a request, with the place for the archive given.
pub fn plan_with_archive(
    probe: CapabilityProbe,
    seed_exists: bool,
    request: &StoreCreateRequest,
    archive: String,
) -> (plan: StoreCreatePlan)
    ensures
        plan@ == plan_for(probe, seed_exists, request@, archive@),
{
    let mut owned_distros: Vec<String> = Vec::new();
    let mut owned_paths: Vec<String> = Vec::new();
    if probe == CapabilityProbe::Supported {
        owned_distros.push(request.target_name.clone());
        if !request.target_path.as_str().is_empty() {
            owned_paths.push(request.target_path.clone());
        }
        let plan = StoreCreatePlan {
            strategy: StoreCreateStrategy::DirectInstall,
            final_path: request.target_path.clone(),
            archive_path: None,
            cleanup: CleanupPlan { owned_distros, owned_paths, archive_path: None },
            seed_created_by_operation: true,
        };
        proof {
            let expected = plan_for(probe, seed_exists, request@, archive@);
            assert(plan@.cleanup.owned_distros =~= expected.cleanup.owned_distros);
            assert(plan@.cleanup.owned_paths =~= expected.cleanup.owned_paths);
        }
        return plan;
    }
    let strategy = if seed_exists {
        StoreCreateStrategy::ExistingSeedPromote
    } else {
        StoreCreateStrategy::FreshSeedPromote
    };
    if !seed_exists {
        owned_distros.push(request.store_id.clone());
    }
    owned_distros.push(request.target_name.clone());
    owned_paths.push(request.target_path.clone());
    let plan = StoreCreatePlan {
        strategy,
        final_path: request.target_path.clone(),
        archive_path: Some(archive.clone()),
        cleanup: CleanupPlan { owned_distros, owned_paths, archive_path: Some(archive) },
        seed_created_by_operation: !seed_exists,
    };
    proof {
        let expected = plan_for(probe, seed_exists, request@, archive@);
        assert(plan@.cleanup.owned_distros =~= expected.cleanup.owned_distros);
        assert(plan@.cleanup.owned_paths =~= expected.cleanup.owned_paths);
    }
    plan
}

/// The place for the archive of a promotion: next to the target path, with the
/// fragment of the target's name.
pub fn archive_path_of(request: &StoreCreateRequest) -> (archive: String)
    ensures
        locations::archive_location(request@.target_path, request@.target_name, archive@),
{
    let fragment = locations::operation_fragment(request.target_name.as_str());
    let archive = locations::archive_path_for(request.target_path.as_str(), fragment.as_str());
    proof {
        locations::law_fragment_idempotent(request.target_name@);
        assert(locations::archive_file_name(fragment@) == locations::archive_file_name(request.target_name@));
    }
    archive
}

/// Whether a plan is one for a request, with an archive, if any, next to the
/// target path.
pub open spec fn plan_outcome(
    probe: CapabilityProbe,
    seed_exists: bool,
    request: RequestView,
    plan: PlanView,
) -> bool {
    exists|archive: Seq<char>|
        #[trigger] locations::archive_location(request.target_path, request.target_name, archive)
            && plan == plan_for(probe, seed_exists, request, archive)
}

/// The plan for a request. `real_id`, the identifier of the distribution in the
/// Store, has no part in the choice.
pub fn choose_strategy(
    probe: CapabilityProbe,
    seed_exists: bool,
    real_id: &str,
    request: &StoreCreateRequest,
) -> (plan: StoreCreatePlan)
    ensures
        plan_outcome(probe, seed_exists, request@, plan@),
{
    let archive = archive_path_of(request);
    plan_with_archive(probe, seed_exists, request, archive)
}

/// Registering a path makes it owned, owns no other path that was not owned
/// before, gives up none, and leaves the rest of the plan alone. Doing it twice
/// is doing it once, and a list without repetitions stays one.
pub proof fn law_registering_a_path(cleanup: CleanupView, path: Seq<char>)
    ensures
        cleanup.with_owned_path(path).owned_paths.contains(path),
        forall|other: Seq<char>|
            cleanup.with_owned_path(path).owned_paths.contains(other) <==> other == path
                || #[trigger] cleanup.owned_paths.contains(other),
        cleanup.with_owned_path(path).owned_distros == cleanup.owned_distros,
        cleanup.with_owned_path(path).archive_path == cleanup.archive_path,
        cleanup.with_owned_path(path).with_owned_path(path) == cleanup.with_owned_path(path),
        cleanup.owned_paths.no_duplicates() ==> cleanup.with_owned_path(path).owned_paths.no_duplicates(),
{
    let after = cleanup.with_owned_path(path).owned_paths;
    if !cleanup.owned_paths.contains(path) {
        assert(after[cleanup.owned_paths.len() as int] == path);
        assert forall|other: Seq<char>| #[trigger] cleanup.owned_paths.contains(other) implies after.contains(other) by {
            let i = choose|i: int| 0 <= i < cleanup.owned_paths.len() && cleanup.owned_paths[i] == other;
            assert(after[i] == other);
        }
    }
    assert forall|other: Seq<char>| after.contains(other) implies other == path
        || #[trigger] cleanup.owned_paths.contains(other) by {
        let i = choose|i: int| 0 <= i < after.len() && after[i] == other;
        if i < cleanup.owned_paths.len() {
            assert(cleanup.owned_paths[i] == other);
        }
    }
}

/// Nothing is removed that the operation does not own, and of what it owns, no
/// distribution but the target and the seed, and no path but the target's.
pub proof fn law_removal_needs_ownership(
    journal: JournalView,
    distro: Seq<char>,
    current: Option<Seq<char>>,
    path: Seq<char>,
)
    ensures
        journal.may_remove_distro(distro, current) ==> {
            &&& journal.cleanup.owned_distros.contains(distro)
            &&& distro == journal.request.target_name || distro == journal.request.store_id
            &&& current is Some
        },
        journal.may_remove_path(path) ==> {
            &&& journal.cleanup.owned_paths.contains(path)
            &&& path == journal.request.target_path
        },
{
}

/// How far an operation has come has no influence on what may be removed or on
/// what cleaning up consists of.
pub proof fn law_phase_grants_nothing(
    journal: JournalView,
    phase: StoreCreatePhase,
    distro: Seq<char>,
    current: Option<Seq<char>>,
    path: Seq<char>,
)
    ensures
        ({
            let advanced = JournalView { phase, ..journal };
            &&& advanced.may_remove_distro(distro, current) == journal.may_remove_distro(distro, current)
            &&& advanced.may_remove_path(path) == journal.may_remove_path(path)
            &&& advanced.recovery() == journal.recovery()
        }),
{
}

/// Cleaning up consists of managed residue only, covers all of it, and ends by
/// opening the add dialog again for the same request.
pub proof fn law_recovery_is_managed_and_complete(journal: JournalView)
    ensures
        journal.recovery().len() > 0,
        journal.recovery().last() == (RecoveryActionView::ReopenAddFlow { request: journal.request }),
        forall|i: int|
            0 <= i < journal.recovery().len() - 1 ==> match #[trigger] journal.recovery()[i] {
                RecoveryActionView::RemoveManagedDistro { distro_name } => {
                    journal.cleanup.owned_distros.contains(distro_name)
                },
                RecoveryActionView::RemoveManagedPath { install_path } => {
                    journal.cleanup.owned_paths.contains(install_path)
                },
                RecoveryActionView::RemoveManagedArchive { archive_path } => {
                    journal.cleanup.archive_path == Some(archive_path)
                },
                RecoveryActionView::ReopenAddFlow { request } => false,
            },
        forall|d: Seq<char>| #[trigger]
            journal.cleanup.owned_distros.contains(d) ==> journal.recovery().contains(
                RecoveryActionView::RemoveManagedDistro { distro_name: d },
            ),
        forall|p: Seq<char>| #[trigger]
            journal.cleanup.owned_paths.contains(p) ==> journal.recovery().contains(
                RecoveryActionView::RemoveManagedPath { install_path: p },
            ),
        journal.cleanup.archive_path is Some ==> journal.recovery().contains(
            RecoveryActionView::RemoveManagedArchive { archive_path: journal.cleanup.archive_path->0 },
        ),
{
    let distros = journal.cleanup.owned_distros;
    let owned = journal.cleanup.owned_paths;
    let all = journal.recovery();
    assert forall|i: int| 0 <= i < all.len() - 1 implies match #[trigger] all[i] {
        RecoveryActionView::RemoveManagedDistro { distro_name } => distros.contains(distro_name),
        RecoveryActionView::RemoveManagedPath { install_path } => owned.contains(install_path),
        RecoveryActionView::RemoveManagedArchive { archive_path } => {
            journal.cleanup.archive_path == Some(archive_path)
        },
        RecoveryActionView::ReopenAddFlow { request } => false,
    } by {
        if i < distros.len() {
            assert(distros.contains(distros[i]));
        } else if i < distros.len() + owned.len() {
            assert(owned.contains(owned[i - distros.len()]));
        }
    }
    assert forall|d: Seq<char>| #[trigger] distros.contains(d) implies all.contains(
        RecoveryActionView::RemoveManagedDistro { distro_name: d },
    ) by {
        let i = choose|i: int| 0 <= i < distros.len() && distros[i] == d;
        assert(all[i] == RecoveryActionView::RemoveManagedDistro { distro_name: d });
    }
    assert forall|p: Seq<char>| #[trigger] owned.contains(p) implies all.contains(
        RecoveryActionView::RemoveManagedPath { install_path: p },
    ) by {
        let i = choose|i: int| 0 <= i < owned.len() && owned[i] == p;
        assert(all[distros.len() + i] == RecoveryActionView::RemoveManagedPath { install_path: p });
    }
    if journal.cleanup.archive_path is Some {
        assert(all[(distros.len() + owned.len()) as int] == RecoveryActionView::RemoveManagedArchive {
            archive_path: journal.cleanup.archive_path->0,
        });
    }
}

/// A seed that was there before the operation is not claimed: whatever paths
/// are registered and however far the operation comes, it may not be removed
/// and no recovery action names it. (Where the target bears the name of the
/// seed, that name is the target's.)
pub proof fn law_existing_seed_is_not_claimed(
    probe: CapabilityProbe,
    request: RequestView,
    archive: Seq<char>,
    journal: JournalView,
    current: Option<Seq<char>>,
)
    requires
        probe != CapabilityProbe::Supported,
        request.store_id != request.target_name,
        journal.request == request,
        journal.cleanup.owned_distros == plan_for(probe, true, request, archive).cleanup.owned_distros,
    ensures
        !plan_for(probe, true, request, archive).seed_created_by_operation,
        !journal.cleanup.owned_distros.contains(request.store_id),
        !journal.may_remove_distro(request.store_id, current),
        !journal.recovery().contains(
            RecoveryActionView::RemoveManagedDistro { distro_name: request.store_id },
        ),
{
    law_recovery_is_managed_and_complete(journal);
    assert(!journal.cleanup.owned_distros.contains(request.store_id));
    let named = RecoveryActionView::RemoveManagedDistro { distro_name: request.store_id };
    if journal.recovery().contains(named) {
        let i = choose|i: int| 0 <= i < journal.recovery().len() && journal.recovery()[i] == named;
        assert(journal.recovery()[i] == named);
        assert(i < journal.recovery().len() - 1);
    }
}

/// What a plan owns can be cleaned up: the target where it was to stand, its
/// path (if the plan has one), the archive, and, once the place of a seed of
/// the operation's own is registered, that seed there.
pub proof fn law_planned_residue_can_be_removed(
    probe: CapabilityProbe,
    seed_exists: bool,
    request: RequestView,
    archive: Seq<char>,
    operation_id: Seq<char>,
    created_at: Seq<char>,
    seed_path: Seq<char>,
)
    ensures
        ({
            let plan = plan_for(probe, seed_exists, request, archive);
            let journal = JournalView::fresh(
                operation_id,
                created_at,
                request,
                plan.cleanup.with_owned_path(seed_path),
                plan.seed_created_by_operation,
            );
            &&& journal.may_remove_distro(request.target_name, Some(request.target_path))
            &&& probe != CapabilityProbe::Supported || request.target_path.len() > 0
                ==> journal.may_remove_path(request.target_path)
            &&& probe != CapabilityProbe::Supported ==> journal.cleanup.archive_path == Some(archive)
            &&& probe != CapabilityProbe::Supported && !seed_exists && request.store_id != request.target_name
                ==> journal.may_remove_distro(request.store_id, Some(seed_path))
        }),
{
    let plan = plan_for(probe, seed_exists, request, archive);
    law_registering_a_path(plan.cleanup, seed_path);
    let distros = plan.cleanup.owned_distros;
    assert(distros[distros.len() - 1] == request.target_name);
    if plan.cleanup.owned_paths.len() > 0 {
        assert(plan.cleanup.owned_paths[0] == request.target_path);
        assert(plan.cleanup.owned_paths.contains(request.target_path));
    }
    if plan.strategy == StoreCreateStrategy::FreshSeedPromote {
        assert(distros[0] == request.store_id);
    }
}

/// What is planned is installed directly exactly where WSL is known to support
/// it; otherwise it is promoted, from the seed that is there or, without one, from
/// a seed of its own.
pub proof fn law_strategy(probe: CapabilityProbe, seed_exists: bool, request: RequestView, archive: Seq<char>)
    ensures
        ({
            let plan = plan_for(probe, seed_exists, request, archive);
            &&& plan.strategy == StoreCreateStrategy::DirectInstall <==> probe == CapabilityProbe::Supported
            &&& plan.strategy == StoreCreateStrategy::ExistingSeedPromote <==> probe
                != CapabilityProbe::Supported && seed_exists
            &&& plan.strategy == StoreCreateStrategy::FreshSeedPromote <==> probe
                != CapabilityProbe::Supported && !seed_exists
        }),
{
}

/// Only a promotion has an archive, which is also the one to clean up; and the
/// instance goes where it was asked for.
pub proof fn law_archive_is_for_promotions(
    probe: CapabilityProbe,
    seed_exists: bool,
    request: RequestView,
    archive: Seq<char>,
)
    ensures
        ({
            let plan = plan_for(probe, seed_exists, request, archive);
            &&& plan.archive_path == plan.cleanup.archive_path
            &&& plan.archive_path is None <==> plan.strategy == StoreCreateStrategy::DirectInstall
            &&& plan.archive_path is None <==> probe == CapabilityProbe::Supported
            &&& plan.archive_path is Some ==> plan.archive_path == Some(archive)
            &&& plan.final_path == request.target_path
        }),
{
}

/// What a plan owns: always the target, once; a seed exactly where the operation
/// installs one for a promotion, and then before the target; nothing else. Its
/// path is owned unless a direct installation was given none.
pub proof fn law_what_a_plan_owns(
    probe: CapabilityProbe,
    seed_exists: bool,
    request: RequestView,
    archive: Seq<char>,
    other: Seq<char>,
)
    ensures
        ({
            let plan = plan_for(probe, seed_exists, request, archive);
            let fresh = probe != CapabilityProbe::Supported && !seed_exists;
            &&& plan.cleanup.owned_distros.last() == request.target_name
            &&& plan.cleanup.owned_distros.len() == if fresh {
                2int
            } else {
                1int
            }
            &&& fresh ==> plan.cleanup.owned_distros[0] == request.store_id
            &&& plan.cleanup.owned_paths.contains(other) <==> other == request.target_path && (probe
                != CapabilityProbe::Supported || other.len() > 0)
            &&& plan.cleanup.owned_paths.len() <= 1
            &&& !plan.seed_created_by_operation <==> probe != CapabilityProbe::Supported && seed_exists
        }),
{
    let plan = plan_for(probe, seed_exists, request, archive);
    if plan.cleanup.owned_paths.len() > 0 {
        assert(plan.cleanup.owned_paths[0] == request.target_path);
    }
}

/// A path that comes to be owned is listed last, behind all that were owned
/// before, which stay in their places.
pub proof fn law_owned_paths_keep_their_places(cleanup: CleanupView, path: Seq<char>, i: int)
    ensures
        0 <= i < cleanup.owned_paths.len() ==> cleanup.with_owned_path(path).owned_paths[i]
            == cleanup.owned_paths[i],
        cleanup.with_owned_path(path).owned_paths.len() <= cleanup.owned_paths.len() + 1,
        (cleanup.with_owned_path(path).owned_paths.len() == cleanup.owned_paths.len())
            == cleanup.owned_paths.contains(path),
        !cleanup.owned_paths.contains(path) ==> cleanup.with_owned_path(path).owned_paths.last() == path,
{
}

/// A journal of an operation that starts records what it is given and that
/// nothing was done yet.
pub proof fn law_new_journal(
    operation_id: Seq<char>,
    created_at: Seq<char>,
    request: RequestView,
    cleanup: CleanupView,
    seed_created: bool,
)
    ensures
        ({
            let journal = JournalView::fresh(operation_id, created_at, request, cleanup, seed_created);
            &&& journal.operation_id == operation_id
            &&& journal.created_at == created_at
            &&& journal.request == request
            &&& journal.cleanup == cleanup
            &&& journal.phase is JournalCreated
            &&& journal.seed_created_by_operation == seed_created
        }),
{
}

/// When a distribution may be removed. The target: exactly where it is owned and
/// stands at the requested path. The seed, if it is another: exactly where it is
/// owned, was made by the operation and stands at an owned path. Any other: never.
pub proof fn law_which_distributions_may_be_removed(journal: JournalView, other: Seq<char>, place: Seq<char>)
    ensures
        ({
            let target = journal.request.target_name;
            let seed = journal.request.store_id;
            let owned = journal.cleanup.owned_distros;
            &&& journal.may_remove_distro(target, Some(place)) <==> owned.contains(target) && place
                == journal.request.target_path
            &&& seed != target ==> (journal.may_remove_distro(seed, Some(place)) <==> owned.contains(seed)
                && journal.seed_created_by_operation && journal.cleanup.owned_paths.contains(place))
            &&& other != target && other != seed ==> !journal.may_remove_distro(other, Some(place))
            &&& !journal.may_remove_distro(other, None)
        }),
{
}

/// Which path may be removed: the requested one alone, and exactly where it is
/// owned.
pub proof fn law_which_paths_may_be_removed(journal: JournalView, path: Seq<char>)
    ensures
        journal.may_remove_path(journal.request.target_path) <==> journal.cleanup.owned_paths.contains(
            journal.request.target_path,
        ),
        path != journal.request.target_path ==> !journal.may_remove_path(path),
{
}

/// Cleaning up goes through the owned distributions, then the owned paths, then
/// the archive if there is one, each in the order in which it is owned and once,
/// before the add dialog is opened again.
pub proof fn law_order_of_recovery(journal: JournalView, i: int)
    ensures
        ({
            let all = journal.recovery();
            let distros = journal.cleanup.owned_distros;
            let owned = journal.cleanup.owned_paths;
            &&& all.len() == distros.len() + owned.len() + (if journal.cleanup.archive_path is Some {
                2int
            } else {
                1int
            })
            &&& 0 <= i < distros.len() ==> all[i] == (RecoveryActionView::RemoveManagedDistro {
                distro_name: distros[i],
            })
            &&& 0 <= i < owned.len() ==> all[distros.len() + i] == (RecoveryActionView::RemoveManagedPath {
                install_path: owned[i],
            })
            &&& journal.cleanup.archive_path is Some ==> all[(distros.len() + owned.len()) as int] == (
            RecoveryActionView::RemoveManagedArchive { archive_path: journal.cleanup.archive_path->0 })
        }),
{
}

/// The strategy that is chosen for a request is by what WSL is known to support
/// and by the seed alone, and the archive of a promotion stands next to the
/// target, under the fragment of the target's name.
pub proof fn law_chosen_strategy(
    probe: CapabilityProbe,
    seed_exists: bool,
    request: RequestView,
    plan: PlanView,
)
    requires
        plan_outcome(probe, seed_exists, request, plan),
    ensures
        plan.strategy == StoreCreateStrategy::DirectInstall <==> probe == CapabilityProbe::Supported,
        plan.strategy == StoreCreateStrategy::ExistingSeedPromote <==> probe != CapabilityProbe::Supported
            && seed_exists,
        plan.strategy == StoreCreateStrategy::FreshSeedPromote <==> probe != CapabilityProbe::Supported
            && !seed_exists,
        plan.final_path == request.target_path,
        plan.archive_path is Some <==> probe != CapabilityProbe::Supported,
        plan.archive_path is Some ==> locations::archive_location(
            request.target_path,
            request.target_name,
            plan.archive_path->0,
        ),
        plan.cleanup.archive_path == plan.archive_path,
        plan.cleanup.owned_distros.last() == request.target_name,
        plan.cleanup.owned_distros.len() == if probe != CapabilityProbe::Supported && !seed_exists {
            2int
        } else {
            1int
        },
        probe != CapabilityProbe::Supported && !seed_exists ==> plan.cleanup.owned_distros[0] == request.store_id,
        plan.cleanup.owned_paths.len() == if probe == CapabilityProbe::Supported && request.target_path.len() == 0 {
            0int
        } else {
            1int
        },
        plan.cleanup.owned_paths.len() == 1 ==> plan.cleanup.owned_paths[0] == request.target_path,
        plan.seed_created_by_operation <==> probe == CapabilityProbe::Supported || !seed_exists,
{
    let archive = choose|archive: Seq<char>|
        #[trigger] locations::archive_location(request.target_path, request.target_name, archive) && plan
            == plan_for(probe, seed_exists, request, archive);
    assert(plan.archive_path is Some ==> plan.archive_path->0 == archive);
}

} // verus!
