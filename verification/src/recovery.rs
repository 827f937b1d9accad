//! What happens to journals that are found when the application starts.
use crate::plan::JournalView;
use crate::plan::StoreCreateJournal;
use crate::plan::StoreCreatePhase;
use crate::text;
use vstd::prelude::*;

verus! {

/// A journal file and what reading it gave.
#[derive(Debug, PartialEq, Eq)]
pub struct FoundJournal {
    pub path: String,
    pub read: Result<StoreCreateJournal, String>,
}

/// The mathematical content of a journal file.
pub struct FoundView {
    pub path: Seq<char>,
    pub read: Result<JournalView, Seq<char>>,
}

impl View for FoundJournal {
    type V = FoundView;

    open spec fn view(&self) -> FoundView {
        FoundView {
            path: self.path@,
            read: match self.read {
                Ok(journal) => Ok(journal@),
                Err(reason) => Err(reason@),
            },
        }
    }
}

/// Something to do with a journal file that needs no recovery.
#[derive(Debug, PartialEq, Eq)]
pub enum ScanEffect {
    RemoveMarker { path: String, operation_id: String },
    RemoveJournal(String),
    /// A journal cannot be read.
    Warn { path: String, reason: String },
}

/// The mathematical content of such an effect.
pub enum ScanEffectView {
    RemoveMarker { path: Seq<char>, operation_id: Seq<char> },
    RemoveJournal(Seq<char>),
    Warn { path: Seq<char>, reason: Seq<char> },
}

impl View for ScanEffect {
    type V = ScanEffectView;

    open spec fn view(&self) -> ScanEffectView {
        match self {
            ScanEffect::RemoveMarker { path, operation_id } => {
                ScanEffectView::RemoveMarker { path: path@, operation_id: operation_id@ }
            },
            ScanEffect::RemoveJournal(path) => ScanEffectView::RemoveJournal(path@),
            ScanEffect::Warn { path, reason } => ScanEffectView::Warn { path: path@, reason: reason@ },
        }
    }
}

/// The views of a list of effects.
pub open spec fn scan_views(effects: Seq<ScanEffect>) -> Seq<ScanEffectView> {
    effects.map_values(|e: ScanEffect| e@)
}

/// An operation that was interrupted, with the file of its journal.
#[derive(Debug, PartialEq, Eq)]
pub struct Interrupted {
    pub path: String,
    pub journal: StoreCreateJournal,
}

/// The mathematical content of an interrupted operation.
pub struct InterruptedView {
    pub path: Seq<char>,
    pub journal: JournalView,
}

impl View for Interrupted {
    type V = InterruptedView;

    open spec fn view(&self) -> InterruptedView {
        InterruptedView { path: self.path@, journal: self.journal@ }
    }
}

/// The views of a list of interrupted operations.
pub open spec fn interrupted_views(list: Seq<Interrupted>) -> Seq<InterruptedView> {
    list.map_values(|i: Interrupted| i@)
}

/// Removing what a completed operation left: the markers at the paths that it
/// owned, and its journal.
pub open spec fn swept(path: Seq<char>, journal: JournalView) -> Seq<ScanEffectView> {
    journal.cleanup.owned_paths.map_values(
        |p: Seq<char>| ScanEffectView::RemoveMarker { path: p, operation_id: journal.operation_id },
    ).push(ScanEffectView::RemoveJournal(path))
}

/// What is done at once about a journal file: a completed operation is swept
/// away, and a journal that cannot be read is reported.
pub open spec fn effects_of(found: FoundView) -> Seq<ScanEffectView> {
    match found.read {
        Ok(journal) => if journal.phase == StoreCreatePhase::Completed {
            swept(found.path, journal)
        } else {
            Seq::empty()
        },
        Err(reason) => seq![ScanEffectView::Warn { path: found.path, reason }],
    }
}

/// Whether a journal file is that of an interrupted operation.
pub open spec fn is_interrupted(found: FoundView) -> bool {
    found.read is Ok && found.read->Ok_0.phase != StoreCreatePhase::Completed
}

/// What is done at once about some journal files.
pub open spec fn scan_effects(found: Seq<FoundView>) -> Seq<ScanEffectView>
    decreases found.len(),
{
    if found.len() == 0 {
        Seq::empty()
    } else {
        scan_effects(found.drop_last()) + effects_of(found.last())
    }
}

/// The interrupted operations among some journal files, in order.
pub open spec fn scan_interrupted(found: Seq<FoundView>) -> Seq<InterruptedView>
    decreases found.len(),
{
    if found.len() == 0 {
        Seq::empty()
    } else {
        let front = scan_interrupted(found.drop_last());
        if is_interrupted(found.last()) {
            front.push(InterruptedView { path: found.last().path, journal: found.last().read->Ok_0 })
        } else {
            front
        }
    }
}

/// What is to do about the journal files that were found.
#[derive(Debug, PartialEq, Eq)]
pub struct Scan {
    pub effects: Vec<ScanEffect>,
    pub interrupted: Vec<Interrupted>,
}

/// Appends the sweeping away of a completed operation.
fn sweep(effects: &mut Vec<ScanEffect>, path: String, journal: &StoreCreateJournal)
    ensures
        scan_views(final(effects)@) == scan_views(old(effects)@) + swept(path@, journal@),
{
    let ghost start = scan_views(effects@);
    let ghost markers = journal@.cleanup.owned_paths.map_values(
        |p: Seq<char>| ScanEffectView::RemoveMarker { path: p, operation_id: journal@.operation_id },
    );
    let mut i: usize = 0;
    assert(start + markers.take(0) =~= start);
    while i < journal.cleanup.owned_paths.len()
        invariant
            i <= journal.cleanup.owned_paths@.len(),
            markers == journal@.cleanup.owned_paths.map_values(
                |p: Seq<char>|
                    ScanEffectView::RemoveMarker { path: p, operation_id: journal@.operation_id },
            ),
            scan_views(effects@) == start + markers.take(i as int),
        decreases journal.cleanup.owned_paths@.len() - i,
    {
        effects.push(
            ScanEffect::RemoveMarker {
                path: journal.cleanup.owned_paths[i].clone(),
                operation_id: journal.operation_id.clone(),
            },
        );
        proof {
            assert(scan_views(effects@) =~= (start + markers.take(i as int)).push(effects@.last()@));
            assert(start + markers.take(i + 1) =~= (start + markers.take(i as int)).push(markers[i as int]));
        }
        i = i + 1;
    }
    assert(markers.take(i as int) =~= markers);
    effects.push(ScanEffect::RemoveJournal(path));
    proof {
        let last = ScanEffectView::RemoveJournal(path@);
        assert(scan_views(effects@) =~= (start + markers).push(last));
        assert(start + markers.push(last) =~= (start + markers).push(last));
    }
}

/// Where to look for journals: below the temporary location, but nowhere where
/// the application was started without a window.
pub fn search_root(temp_location: String, silent: bool) -> (root: Option<String>)
    ensures
        text::opt_view(root) == if silent {
            None
        } else {
            Some(temp_location@)
        },
{
    if silent {
        None
    } else {
        Some(temp_location)
    }
}

/// Sorts the journal files that were found into what is done at once and what
/// was interrupted.
pub fn scan(found: Vec<FoundJournal>) -> (result: Scan)
    ensures
        scan_views(result.effects@) == scan_effects(found@.map_values(|f: FoundJournal| f@)),
        interrupted_views(result.interrupted@) == scan_interrupted(
            found@.map_values(|f: FoundJournal| f@),
        ),
{
    let ghost all = found@.map_values(|f: FoundJournal| f@);
    let ghost input = found@;
    let mut effects: Vec<ScanEffect> = Vec::new();
    let mut interrupted: Vec<Interrupted> = Vec::new();
    assert(scan_views(effects@) =~= scan_effects(all.take(0)));
    assert(interrupted_views(interrupted@) =~= scan_interrupted(all.take(0)));
    for item in it: found
        invariant
            it.seq() == input,
            all == input.map_values(|f: FoundJournal| f@),
            scan_views(effects@) == scan_effects(all.take(it.index() as int)),
            interrupted_views(interrupted@) == scan_interrupted(all.take(it.index() as int)),
    {
        let ghost k = it.index() as int;
        let ghost effects_before = scan_views(effects@);
        let ghost interrupted_before = interrupted_views(interrupted@);
        proof {
            assert(all[k] == item@);
            assert(all.take(k + 1).drop_last() =~= all.take(k));
            assert(all.take(k + 1).last() == item@);
        }
        match item.read {
            Ok(journal) => {
                if journal.phase == StoreCreatePhase::Completed {
                    sweep(&mut effects, item.path, &journal);
                } else {
                    interrupted.push(Interrupted { path: item.path, journal });
                    assert(interrupted_views(interrupted@) =~= interrupted_before.push(
                        interrupted@.last()@,
                    ));
                    assert(effects_before + Seq::<ScanEffectView>::empty() =~= effects_before);
                }
            },
            Err(reason) => {
                effects.push(ScanEffect::Warn { path: item.path, reason });
                assert(scan_views(effects@) =~= effects_before + effects_of(all[k]));
            },
        }
    }
    assert(all.take(all.len() as int) =~= all);
    Scan { effects, interrupted }
}

/// Whether the interrupted operation at a place is the latest: no path comes
/// behind its path, and those that equal it stand before it. The journals stand
/// in one directory, so that the order of their paths is that of their names.
pub open spec fn is_latest(list: Seq<InterruptedView>, at: int) -> bool {
    &&& 0 <= at < list.len()
    &&& forall|i: int| 0 <= i < list.len() ==> text::text_le(#[trigger] list[i].path, list[at].path)
    &&& forall|i: int| at < i < list.len() ==> !text::text_le(list[at].path, #[trigger] list[i].path)
}

/// Finds the latest of some interrupted operations.
pub fn latest(list: &Vec<Interrupted>) -> (at: usize)
    requires
        list@.len() > 0,
    ensures
        is_latest(interrupted_views(list@), at as int),
{
    let ghost all = interrupted_views(list@);
    let mut at: usize = 0;
    let mut i: usize = 1;
    proof {
        text::law_text_order_is_total(all[0].path, all[0].path);
    }
    while i < list.len()
        invariant
            all == interrupted_views(list@),
            at < i <= list@.len(),
            forall|j: int| 0 <= j < i ==> text::text_le(#[trigger] all[j].path, all[at as int].path),
            forall|j: int| at < j < i ==> !text::text_le(all[at as int].path, #[trigger] all[j].path),
        decreases list@.len() - i,
    {
        proof {
            text::law_text_order_is_total(all[i as int].path, all[at as int].path);
            text::law_text_order_is_total(all[i as int].path, all[i as int].path);
        }
        if text::comes_before_or_equals(list[at].path.as_str(), list[i].path.as_str()) {
            proof {
                assert forall|j: int| 0 <= j < i + 1 implies text::text_le(
                    #[trigger] all[j].path,
                    all[i as int].path,
                ) by {
                    if j < i {
                        text::law_text_order_is_transitive(
                            all[j].path,
                            all[at as int].path,
                            all[i as int].path,
                        );
                    }
                }
            }
            at = i;
        }
        i = i + 1;
    }
    at
}

/// What the user is told of interrupted operations.
#[derive(Debug, PartialEq, Eq)]
pub struct RecoveryNotice {
    pub message: String,
    pub action: String,
    pub payload: String,
}

/// The mathematical content of a notice.
pub struct NoticeView {
    pub message: Seq<char>,
    pub action: Seq<char>,
    pub payload: Seq<char>,
}

impl View for RecoveryNotice {
    type V = NoticeView;

    open spec fn view(&self) -> NoticeView {
        NoticeView { message: self.message@, action: self.action@, payload: self.payload@ }
    }
}

/// What the user is told: the name of the one instance, or how many there are;
/// and where the journals stand, for the cleanup to start from.
pub open spec fn notice_text(base_dir: Seq<char>, count: nat, target_name: Seq<char>) -> NoticeView {
    NoticeView {
        message: if count == 1 {
            "An interrupted Store instance creation for '"@ + target_name
                + "' was detected. Cleanup will target only managed temporary residue before reopening the add flow."@
        } else {
            "Detected "@ + text::decimal(count)
                + " interrupted Store instance creations. Cleanup will target only managed temporary residue, then reopen the most recent add flow."@
        },
        action: "Clean up and retry"@,
        payload: "store-create-recovery-root:"@ + base_dir,
    }
}

/// Whether a notice is the one for some interrupted operations: none where
/// there are none, else one that speaks of the latest.
pub open spec fn notice_outcome(
    base_dir: Seq<char>,
    list: Seq<InterruptedView>,
    notice: Option<NoticeView>,
) -> bool {
    if list.len() == 0 {
        notice is None
    } else {
        exists|at: int|
            #[trigger] is_latest(list, at) && notice == Some(
                notice_text(base_dir, list.len(), list[at].journal.request.target_name),
            )
    }
}

/// What the user is told of interrupted operations, if there are any.
pub fn recovery_notice(base_dir: &str, list: &Vec<Interrupted>) -> (notice: Option<RecoveryNotice>)
    ensures
        notice_outcome(
            base_dir@,
            interrupted_views(list@),
            match notice {
                Some(n) => Some(n@),
                None => None,
            },
        ),
{
    if list.len() == 0 {
        return None;
    }
    let at = latest(list);
    let message = if list.len() == 1 {
        let mut m = "An interrupted Store instance creation for '".to_owned();
        m.append(list[at].journal.request.target_name.as_str());
        m.append(
            "' was detected. Cleanup will target only managed temporary residue before reopening the add flow.",
        );
        m
    } else {
        let mut m = "Detected ".to_owned();
        m.append(text::decimal_text(list.len()).as_str());
        m.append(
            " interrupted Store instance creations. Cleanup will target only managed temporary residue, then reopen the most recent add flow.",
        );
        m
    };
    let mut payload = "store-create-recovery-root:".to_owned();
    payload.append(base_dir);
    let notice = RecoveryNotice { message, action: "Clean up and retry".to_owned(), payload };
    assert(interrupted_views(list@)[at as int].journal.request.target_name
        == list@[at as int].journal.request.target_name@);
    Some(notice)
}

/// The latest operation of a list is determined by the list.
pub proof fn law_latest_is_unique(list: Seq<InterruptedView>, a: int, b: int)
    requires
        is_latest(list, a),
        is_latest(list, b),
    ensures
        a == b,
{
    if a < b {
        assert(text::text_le(list[a].path, list[b].path));
    } else if b < a {
        assert(text::text_le(list[b].path, list[a].path));
    }
}

/// Every journal file is dealt with in exactly one way: an interrupted
/// operation is kept and nothing is done about it at once, a completed one is
/// swept away, and an unreadable one is reported and left where it is.
pub proof fn law_every_journal_is_dealt_with_once(found: FoundView)
    ensures
        is_interrupted(found) <==> found.read is Ok && effects_of(found).len() == 0,
        effects_of(found).contains(ScanEffectView::RemoveJournal(found.path)) <==> found.read is Ok
            && found.read->Ok_0.phase == StoreCreatePhase::Completed,
        scan_interrupted(seq![found]).len() == if is_interrupted(found) {
            1nat
        } else {
            0nat
        },
{
    reveal_with_fuel(scan_interrupted, 2);
    assert(seq![found].drop_last() =~= Seq::<FoundView>::empty());
    if found.read is Ok {
        let journal = found.read->Ok_0;
        if journal.phase == StoreCreatePhase::Completed {
            let n = journal.cleanup.owned_paths.len() as int;
            assert(swept(found.path, journal)[n] == ScanEffectView::RemoveJournal(found.path));
        }
    }
}

/// Only completed operations lose their journals and markers, and a marker is
/// removed only at a path that its operation owned.
pub proof fn law_scan_removes_only_completed(found: Seq<FoundView>)
    ensures
        forall|i: int|
            0 <= i < scan_effects(found).len() ==> match #[trigger] scan_effects(found)[i] {
                ScanEffectView::RemoveJournal(path) => exists|k: int|
                    0 <= k < found.len() && (#[trigger] found[k]).path == path && found[k].read is Ok
                        && found[k].read->Ok_0.phase == StoreCreatePhase::Completed,
                ScanEffectView::RemoveMarker { path, operation_id } => exists|k: int|
                    0 <= k < found.len() && (#[trigger] found[k]).read is Ok
                        && found[k].read->Ok_0.phase == StoreCreatePhase::Completed
                        && found[k].read->Ok_0.operation_id == operation_id
                        && found[k].read->Ok_0.cleanup.owned_paths.contains(path),
                ScanEffectView::Warn { path, reason } => exists|k: int|
                    0 <= k < found.len() && (#[trigger] found[k]).path == path && found[k].read == Err::<
                        JournalView,
                        Seq<char>,
                    >(reason),
            },
    decreases found.len(),
{
    if found.len() > 0 {
        let front = found.drop_last();
        let last = found.len() - 1;
        law_scan_removes_only_completed(front);
        let before = scan_effects(front);
        let all = scan_effects(found);
        assert(found[last] == found.last());
        assert forall|i: int| 0 <= i < all.len() implies match #[trigger] all[i] {
            ScanEffectView::RemoveJournal(path) => exists|k: int|
                0 <= k < found.len() && (#[trigger] found[k]).path == path && found[k].read is Ok
                    && found[k].read->Ok_0.phase == StoreCreatePhase::Completed,
            ScanEffectView::RemoveMarker { path, operation_id } => exists|k: int|
                0 <= k < found.len() && (#[trigger] found[k]).read is Ok
                    && found[k].read->Ok_0.phase == StoreCreatePhase::Completed
                    && found[k].read->Ok_0.operation_id == operation_id
                    && found[k].read->Ok_0.cleanup.owned_paths.contains(path),
            ScanEffectView::Warn { path, reason } => exists|k: int|
                0 <= k < found.len() && (#[trigger] found[k]).path == path && found[k].read == Err::<
                    JournalView,
                    Seq<char>,
                >(reason),
        } by {
            if i < before.len() {
                assert(all[i] == before[i]);
                match before[i] {
                    ScanEffectView::RemoveJournal(path) => {
                        let k = choose|k: int|
                            0 <= k < front.len() && (#[trigger] front[k]).path == path && front[k].read is Ok
                                && front[k].read->Ok_0.phase == StoreCreatePhase::Completed;
                        assert(found[k] == front[k]);
                    },
                    ScanEffectView::RemoveMarker { path, operation_id } => {
                        let k = choose|k: int|
                            0 <= k < front.len() && (#[trigger] front[k]).read is Ok
                                && front[k].read->Ok_0.phase == StoreCreatePhase::Completed
                                && front[k].read->Ok_0.operation_id == operation_id
                                && front[k].read->Ok_0.cleanup.owned_paths.contains(path);
                        assert(found[k] == front[k]);
                    },
                    ScanEffectView::Warn { path, reason } => {
                        let k = choose|k: int|
                            0 <= k < front.len() && (#[trigger] front[k]).path == path && front[k].read
                                == Err::<JournalView, Seq<char>>(reason);
                        assert(found[k] == front[k]);
                    },
                }
            } else {
                let e = effects_of(found.last());
                let j = i - before.len();
                assert(all[i] == e[j]);
                if found.last().read is Ok {
                    let owned = found.last().read->Ok_0.cleanup.owned_paths;
                    if j < owned.len() {
                        assert(owned.contains(owned[j]));
                    }
                }
            }
        }
    }
}

/// Journal files are dealt with one by one, in their order.
pub proof fn law_journals_are_dealt_with_one_by_one(a: Seq<FoundView>, b: Seq<FoundView>)
    ensures
        scan_effects(a + b) == scan_effects(a) + scan_effects(b),
        scan_interrupted(a + b) == scan_interrupted(a) + scan_interrupted(b),
    decreases b.len(),
{
    if b.len() == 0 {
        assert(a + b =~= a);
        assert(scan_effects(a + b) =~= scan_effects(a) + scan_effects(b));
        assert(scan_interrupted(a + b) =~= scan_interrupted(a) + scan_interrupted(b));
    } else {
        assert((a + b).drop_last() =~= a + b.drop_last());
        assert((a + b).last() == b.last());
        law_journals_are_dealt_with_one_by_one(a, b.drop_last());
        assert(scan_effects(a + b) =~= scan_effects(a) + scan_effects(b));
        assert(scan_interrupted(a + b) =~= scan_interrupted(a) + scan_interrupted(b));
    }
}

/// What is done about one journal file. Of a completed operation the markers are
/// removed, at every path that it owned and in that order, and then the journal;
/// one that cannot be read is reported; any other is kept as it was read.
pub proof fn law_what_is_done_about_a_journal(found: FoundView, i: int)
    ensures
        ({
            let done = scan_effects(seq![found]);
            let kept = scan_interrupted(seq![found]);
            &&& found.read is Err ==> done.len() == 1 && done[0] == (ScanEffectView::Warn {
                path: found.path,
                reason: found.read->Err_0,
            }) && kept.len() == 0
            &&& found.read is Ok && found.read->Ok_0.phase is Completed ==> {
                let journal = found.read->Ok_0;
                let owned = journal.cleanup.owned_paths;
                &&& kept.len() == 0
                &&& done.len() == owned.len() + 1
                &&& done.last() == ScanEffectView::RemoveJournal(found.path)
                &&& 0 <= i < owned.len() ==> done[i] == (ScanEffectView::RemoveMarker {
                    path: owned[i],
                    operation_id: journal.operation_id,
                })
            }
            &&& found.read is Ok && !(found.read->Ok_0.phase is Completed) ==> {
                &&& done.len() == 0
                &&& kept.len() == 1
                &&& kept[0].path == found.path
                &&& kept[0].journal == found.read->Ok_0
            }
        }),
{
    reveal_with_fuel(scan_effects, 2);
    reveal_with_fuel(scan_interrupted, 2);
    assert(seq![found].drop_last() =~= Seq::<FoundView>::empty());
    assert(scan_effects(seq![found]) =~= effects_of(found));
}

/// No interrupted operation comes behind the latest, which stands in the list.
pub proof fn law_nothing_is_later_than_the_latest(list: Seq<InterruptedView>, at: int, other: int)
    requires
        is_latest(list, at),
    ensures
        0 <= at < list.len(),
        0 <= other < list.len() ==> text::text_le(list[other].path, list[at].path),
        0 <= other < list.len() && list[other].path == list[at].path ==> other <= at,
{
    if 0 <= other < list.len() {
        assert(text::text_le(list[other].path, list[at].path));
        text::law_text_order_is_total(list[at].path, list[at].path);
    }
}

/// What the user is told, and when: nothing exactly where nothing was
/// interrupted; the name of the instance where there is one operation, and the
/// number of them where there are more; in any case where the journals stand.
pub proof fn law_what_the_user_is_told(
    base_dir: Seq<char>,
    list: Seq<InterruptedView>,
    notice: Option<NoticeView>,
)
    requires
        notice_outcome(base_dir, list, notice),
    ensures
        notice is None <==> list.len() == 0,
        notice is Some ==> {
            &&& notice->0.action == "Clean up and retry"@
            &&& notice->0.payload == "store-create-recovery-root:"@ + base_dir
        },
        list.len() == 1 ==> notice->0.message == "An interrupted Store instance creation for '"@
            + list[0].journal.request.target_name
            + "' was detected. Cleanup will target only managed temporary residue before reopening the add flow."@,
        list.len() > 1 ==> notice->0.message == "Detected "@ + text::decimal(list.len())
            + " interrupted Store instance creations. Cleanup will target only managed temporary residue, then reopen the most recent add flow."@,
{
}

} // verus!
