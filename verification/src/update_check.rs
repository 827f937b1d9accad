//! The check for expiry and updates when the application starts.
use crate::stamp;
use crate::text;
use vstd::prelude::*;

verus! {

/// The milliseconds of a day.
pub const DAY_MILLIS: i64 = 86_400_000;

/// The settings that the check depends on.
#[derive(Debug, PartialEq, Eq)]
pub struct CheckSettings {
    /// When the last check was, in milliseconds since 1970, as text.
    pub check_time: String,
    /// How many days lie between two checks.
    pub check_update_days: i64,
    /// Whether the application was started without a window.
    pub silent: bool,
}

/// What is known of the newest version.
#[derive(Debug, PartialEq, Eq)]
pub struct UpdateInfo {
    pub has_update: bool,
    pub latest_version: String,
}

/// Something to do whose result does not matter.
#[derive(Debug, PartialEq, Eq)]
pub enum CheckEffect {
    ShowExpireDialog,
    /// Records that the check was made now.
    SaveCheckTime,
    SetChecking(bool),
    /// An update to this version is there.
    SetUpdate(String),
    ShowUpdateDialog,
}

/// The mathematical content of an effect.
pub enum CheckEffectView {
    ShowExpireDialog,
    SaveCheckTime,
    SetChecking(bool),
    SetUpdate(Seq<char>),
    ShowUpdateDialog,
}

impl View for CheckEffect {
    type V = CheckEffectView;

    open spec fn view(&self) -> CheckEffectView {
        match self {
            CheckEffect::ShowExpireDialog => CheckEffectView::ShowExpireDialog,
            CheckEffect::SaveCheckTime => CheckEffectView::SaveCheckTime,
            CheckEffect::SetChecking(b) => CheckEffectView::SetChecking(*b),
            CheckEffect::SetUpdate(v) => CheckEffectView::SetUpdate(v@),
            CheckEffect::ShowUpdateDialog => CheckEffectView::ShowUpdateDialog,
        }
    }
}

/// Something to do whose result decides how to go on.
#[derive(Debug, Clone, Copy, PartialEq, Eq, Structural)]
pub enum CheckAsk {
    /// Get the standard time, to compare it with the time of expiry.
    StandardTime { expire_time: i64 },
    /// Look for an update.
    Update,
    /// Nothing more.
    Stop,
}

/// One step of the check.
#[derive(Debug, PartialEq, Eq)]
pub struct CheckStep {
    pub effects: Vec<CheckEffect>,
    pub ask: CheckAsk,
}

/// The mathematical content of a step.
pub struct CheckStepView {
    pub effects: Seq<CheckEffectView>,
    pub ask: CheckAsk,
}

impl View for CheckStep {
    type V = CheckStepView;

    open spec fn view(&self) -> CheckStepView {
        CheckStepView {
            effects: self.effects@.map_values(|e: CheckEffect| e@),
            ask: self.ask,
        }
    }
}

/// A whole number as a setting holds it; 0 for anything else.
pub open spec fn setting_value(s: Seq<char>) -> int {
    match text::i64_value(s) {
        Some(v) => v,
        None => 0,
    }
}

/// Whether the time for a check has come.
pub open spec fn check_is_due(now: int, last: int, days: int) -> bool {
    now - last >= days * DAY_MILLIS
}

/// A step without effects that stops.
pub open spec fn stopped() -> CheckStepView {
    CheckStepView { effects: Seq::empty(), ask: CheckAsk::Stop }
}

/// The step that looks for an update.
pub open spec fn looking() -> CheckStepView {
    CheckStepView { effects: seq![CheckEffectView::SetChecking(true)], ask: CheckAsk::Update }
}

/// The first step: nothing in silent mode or before the time has come; then the
/// time of expiry, if there is one, decides, else an update is looked for.
pub open spec fn first_step(
    settings: CheckSettings,
    expire_time: Seq<char>,
    now: int,
) -> CheckStepView {
    if settings.silent || !check_is_due(
        now,
        setting_value(settings.check_time@),
        settings.check_update_days as int,
    ) {
        stopped()
    } else if setting_value(expire_time) > 0 {
        CheckStepView {
            effects: Seq::empty(),
            ask: CheckAsk::StandardTime { expire_time: setting_value(expire_time) as i64 },
        }
    } else {
        looking()
    }
}

/// A whole number as a setting holds it.
pub fn read_setting(s: &str) -> (value: i64)
    ensures
        value == setting_value(s@),
{
    match text::parse_i64(s) {
        Some(v) => v,
        None => 0,
    }
}

/// A step without effects.
fn only(ask: CheckAsk) -> (step: CheckStep)
    ensures
        step@ == (CheckStepView { effects: Seq::empty(), ask }),
{
    let step = CheckStep { effects: Vec::new(), ask };
    assert(step@.effects =~= Seq::empty());
    step
}

/// Whether the time for a check has come.
pub fn should_check_update(now_ms: i64, last_check_time: i64, check_update_days: i64) -> (due: bool)
    ensures
        due == check_is_due(now_ms as int, last_check_time as int, check_update_days as int),
{
    let days: i128 = check_update_days as i128;
    let day_ms: i128 = DAY_MILLIS as i128;
    assert(i64::MIN * 86_400_000 <= days * day_ms <= i64::MAX * 86_400_000) by (nonlinear_arith)
        requires
            i64::MIN <= days <= i64::MAX,
            day_ms == 86_400_000,
    ;
    let interval_ms: i128 = days * day_ms;
    now_ms as i128 - last_check_time as i128 >= interval_ms
}

/// The first step of the check at a given time.
pub fn begin_at(settings: &CheckSettings, expire_time: &str, now_ms: i64) -> (step: CheckStep)
    ensures
        step@ == first_step(*settings, expire_time@, now_ms as int),
{
    if settings.silent {
        return only(CheckAsk::Stop);
    }
    let last = read_setting(settings.check_time.as_str());
    if !should_check_update(now_ms, last, settings.check_update_days) {
        return only(CheckAsk::Stop);
    }
    let expires = read_setting(expire_time);
    if expires > 0 {
        return only(CheckAsk::StandardTime { expire_time: expires });
    }
    look_for_update()
}

/// The step that looks for an update.
pub fn look_for_update() -> (step: CheckStep)
    ensures
        step@ == looking(),
{
    let mut effects: Vec<CheckEffect> = Vec::new();
    effects.push(CheckEffect::SetChecking(true));
    let step = CheckStep { effects, ask: CheckAsk::Update };
    assert(step@.effects =~= looking().effects);
    step
}

/// The first step of the check, made now. `expire_time` is the time of expiry as
/// text, in the unit of the standard time.
pub fn begin(settings: &CheckSettings, expire_time: &str) -> (step: CheckStep)
    ensures
        exists|now: int|
            0 <= now <= stamp::LAST_MILLISECOND && step@ == #[trigger] first_step(
                *settings,
                expire_time@,
                now,
            ),
{
    if settings.silent {
        assert(first_step(*settings, expire_time@, 0) == stopped());
        return only(CheckAsk::Stop);
    }
    let now_ms = stamp::now_millis();
    begin_at(settings, expire_time, now_ms)
}

/// The step that follows the standard time: an expired application says so and
/// looks for no update.
pub open spec fn expiry_step(expire_time: i64, now: i64) -> CheckStepView {
    if now > expire_time {
        CheckStepView {
            effects: seq![CheckEffectView::ShowExpireDialog, CheckEffectView::SaveCheckTime],
            ask: CheckAsk::Stop,
        }
    } else {
        looking()
    }
}

/// The step that follows the standard time.
pub fn after_standard_time(expire_time: i64, now: i64) -> (step: CheckStep)
    ensures
        step@ == expiry_step(expire_time, now),
{
    if now > expire_time {
        let mut effects: Vec<CheckEffect> = Vec::new();
        effects.push(CheckEffect::ShowExpireDialog);
        effects.push(CheckEffect::SaveCheckTime);
        let step = CheckStep { effects, ask: CheckAsk::Stop };
        assert(step@.effects =~= expiry_step(expire_time, now).effects);
        return step;
    }
    look_for_update()
}

/// The step that follows the search for an update: an update is shown and the
/// check recorded; without one, or where the search failed, the search just
/// ends, and the next start checks again.
pub open spec fn update_step(found: Option<UpdateInfo>) -> CheckStepView {
    CheckStepView {
        effects: seq![CheckEffectView::SetChecking(false)] + (if found is Some && found->0.has_update {
            seq![
                CheckEffectView::SetUpdate(found->0.latest_version@),
                CheckEffectView::ShowUpdateDialog,
                CheckEffectView::SaveCheckTime,
            ]
        } else {
            Seq::empty()
        }),
        ask: CheckAsk::Stop,
    }
}

/// The step that follows the search for an update, which gave nothing where it
/// failed.
pub fn after_update(found: Option<UpdateInfo>) -> (step: CheckStep)
    ensures
        step@ == update_step(found),
{
    let mut effects: Vec<CheckEffect> = Vec::new();
    effects.push(CheckEffect::SetChecking(false));
    if let Some(info) = found {
        if info.has_update {
            effects.push(CheckEffect::SetUpdate(info.latest_version));
            effects.push(CheckEffect::ShowUpdateDialog);
            effects.push(CheckEffect::SaveCheckTime);
        }
    }
    let step = CheckStep { effects, ask: CheckAsk::Stop };
    assert(step@.effects =~= update_step(found).effects);
    step
}

/// The check is recorded only together with a dialog that the user sees, so
/// that a start without news does not put off the next check.
pub proof fn law_recorded_only_when_shown(expire_time: i64, now: i64, found: Option<UpdateInfo>)
    ensures
        expiry_step(expire_time, now).effects.contains(CheckEffectView::SaveCheckTime)
            <==> expiry_step(expire_time, now).effects.contains(CheckEffectView::ShowExpireDialog),
        update_step(found).effects.contains(CheckEffectView::SaveCheckTime) <==> update_step(
            found,
        ).effects.contains(CheckEffectView::ShowUpdateDialog),
{
    let e = expiry_step(expire_time, now).effects;
    if now > expire_time {
        assert(e[0] == CheckEffectView::ShowExpireDialog);
        assert(e[1] == CheckEffectView::SaveCheckTime);
    }
    let u = update_step(found).effects;
    if found is Some && found->0.has_update {
        assert(u[2] == CheckEffectView::ShowUpdateDialog);
        assert(u[3] == CheckEffectView::SaveCheckTime);
    }
}

/// A check that is due stays due as time goes on.
pub proof fn law_due_stays_due(now: int, later: int, last: int, days: int)
    requires
        now <= later,
        check_is_due(now, last, days),
    ensures
        check_is_due(later, last, days),
{
}

/// A check is due from the very millisecond at which as many days of 86,400,000
/// milliseconds as are set have passed since the last one.
pub proof fn law_when_a_check_is_due(last: int, days: int, more: int)
    ensures
        check_is_due(last + days * 86_400_000 + more, last, days) <==> more >= 0,
{
}

/// A setting holds the number that it is the text of, and 0 where it is the text
/// of none.
pub proof fn law_settings_are_numbers(s: Seq<char>, n: nat)
    ensures
        text::i64_value(s) is None ==> setting_value(s) == 0,
        text::i64_value(s) is Some ==> setting_value(s) == text::i64_value(s)->0,
        n <= 0x7fff_ffff_ffff_ffff ==> setting_value(text::decimal(n)) == n,
{
    text::law_written_number_is_read_back(n);
}

/// What a start leads to: nothing in silent mode or before the time has come;
/// otherwise, the standard time is asked for exactly where the application can
/// expire, and an update is looked for at once exactly where it cannot.
pub proof fn law_what_a_start_leads_to(settings: CheckSettings, expire_time: Seq<char>, now: int)
    ensures
        ({
            let step = first_step(settings, expire_time, now);
            let late = now - setting_value(settings.check_time@) >= settings.check_update_days * 86_400_000;
            let expires = setting_value(expire_time);
            &&& step.ask is Stop <==> settings.silent || !late
            &&& step.ask is StandardTime <==> !settings.silent && late && expires > 0
            &&& step.ask is StandardTime ==> step.ask->expire_time == expires
            &&& step.ask is Update <==> !settings.silent && late && expires <= 0
            &&& step.ask is Update ==> step.effects.len() == 1 && step.effects[0] == (CheckEffectView::SetChecking(
                true,
            ))
            &&& step.ask !is Update ==> step.effects.len() == 0
        }),
{
}

/// What the standard time leads to: behind the time of expiry, the dialog and the
/// record of the check, and no search for an update; up to that time, the search.
pub proof fn law_what_the_standard_time_leads_to(expire_time: i64, now: i64)
    ensures
        ({
            let step = expiry_step(expire_time, now);
            &&& step.ask is Stop <==> now > expire_time
            &&& step.ask is Update <==> now <= expire_time
            &&& now > expire_time ==> step.effects.len() == 2 && step.effects[0] is ShowExpireDialog
                && step.effects[1] is SaveCheckTime
            &&& now <= expire_time ==> step.effects.len() == 1 && step.effects[0] == (
            CheckEffectView::SetChecking(true))
        }),
{
}

/// What the search for an update leads to: in any case it is over, and nothing
/// more is asked. Exactly an update that is there is shown, with its version, in
/// a dialog, and recorded.
pub proof fn law_what_the_search_leads_to(found: Option<UpdateInfo>)
    ensures
        ({
            let step = update_step(found);
            let there = found is Some && found->0.has_update;
            &&& step.ask is Stop
            &&& step.effects[0] == CheckEffectView::SetChecking(false)
            &&& step.effects.len() == if there {
                4int
            } else {
                1int
            }
            &&& there ==> step.effects[1] == CheckEffectView::SetUpdate(found->0.latest_version@)
                && step.effects[2] is ShowUpdateDialog && step.effects[3] is SaveCheckTime
        }),
{
}

} // verus!
