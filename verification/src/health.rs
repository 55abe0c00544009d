//! The health-check flow and the rollback flow.
//!
//! The health check publishes that it runs, runs the diagnostics, and then
//! goes one of two ways. Where the diagnostics have passed it runs the green
//! hooks, publishes the good news and persists the success. Where they have
//! failed it publishes the bad news, runs the red hooks, persists the failure,
//! counts the boot and asks for a reboot, each of these whether or not the
//! one before it worked. The rollback flow has the previous deployment
//! restored, clears the boot counter and reboots.

use crate::diagnostics::{
    diagnose, diagnose_from_start, hooks, hooks_from, lemma_wanted_outcomes_decide_nothing,
    required_sweep, DiagnosticsError, DiagnosticsErrorView, Position, SweepView, Tier,
    VerdictView,
};
use crate::observe::{
    effect_views, Effect, EffectView, JournalOutput, JournalOutputView, Record, RecordView,
    Request, RequestView, Step, StepView,
};
use crate::scripts::name_views;
use crate::text::{chars_of, contains, contains_text};
use vstd::prelude::*;
use vstd::string::*;

verus! {

/// The settings of the health check.
#[derive(Debug, Clone, Copy, PartialEq, Eq)]
pub struct GreenbootConfig {
    /// How many boots may be attempted before the deployment is given up.
    pub max_reboot: u16,
}

/// The settings that go with the value found under
/// `GREENBOOT_MAX_BOOT_ATTEMPTS`: the value itself where there is one that a
/// `u16` can hold, else three attempts.
pub open spec fn configured(found: Option<i64>) -> GreenbootConfig {
    match found {
        Some(value) => if 0 <= value <= u16::MAX {
            GreenbootConfig { max_reboot: value as u16 }
        } else {
            GreenbootConfig { max_reboot: 3 }
        },
        None => GreenbootConfig { max_reboot: 3 },
    }
}

impl GreenbootConfig {
    /// The settings that hold where nothing is configured.
    pub fn set_default() -> (config: GreenbootConfig)
        ensures
            config == configured(None),
    {
        GreenbootConfig { max_reboot: 3 }
    }

    /// The settings, given the number that the configuration holds under
    /// `GREENBOOT_MAX_BOOT_ATTEMPTS`; `None` where the configuration is
    /// missing, does not hold the key, or holds no number under it. A value
    /// that is out of range counts for nothing.
    pub fn get_config(found: Option<i64>) -> (config: GreenbootConfig)
        ensures
            config == configured(found),
    {
        let mut config = GreenbootConfig::set_default();
        match found {
            Some(value) => {
                if 0 <= value && value <= 0xffff {
                    config.max_reboot = value as u16;
                }
            },
            None => {},
        }
        config
    }
}

/// Why the journal says nothing of a rollback.
#[derive(Debug, Clone, PartialEq, Eq)]
pub enum JournalError {
    /// The journal could not be asked; the text says why.
    Unavailable(String),
    /// The query gave something that is not text.
    NotText,
}

/// A [`JournalError`] with its text as a sequence of characters.
pub enum JournalErrorView {
    Unavailable(Seq<char>),
    NotText,
}

impl View for JournalError {
    type V = JournalErrorView;

    open spec fn view(&self) -> JournalErrorView {
        match self {
            JournalError::Unavailable(detail) => JournalErrorView::Unavailable(detail@),
            JournalError::NotText => JournalErrorView::NotText,
        }
    }
}

impl JournalErrorView {
    /// The message that goes with the error.
    pub open spec fn message(self) -> Seq<char> {
        match self {
            JournalErrorView::Unavailable(_) =>
                "Failed to execute journalctl command to check rollback status"@,
            JournalErrorView::NotText => "Failed to parse journalctl output as UTF-8"@,
        }
    }
}

impl JournalError {
    /// The message that goes with the error.
    pub fn message(&self) -> (text: String)
        ensures
            text@ == self@.message(),
    {
        match self {
            JournalError::Unavailable(_) => String::from_str(
                "Failed to execute journalctl command to check rollback status",
            ),
            JournalError::NotText => String::from_str("Failed to parse journalctl output as UTF-8"),
        }
    }
}

/// The words by which the rollback service records its success.
pub open spec fn rollback_marker() -> Seq<char> {
    "Rollback successful"@
}

/// Whether the rollback service recorded a success in the previous boot. A
/// query that failed shows no rollback; one that could not be made, or that
/// gave no text, shows nothing either way.
pub open spec fn previous_rollback(journal: JournalOutputView) -> Result<bool, JournalErrorView> {
    match journal {
        JournalOutputView::Unavailable(detail) => Err(JournalErrorView::Unavailable(detail)),
        JournalOutputView::Failed => Ok(false),
        JournalOutputView::NotText => Err(JournalErrorView::NotText),
        JournalOutputView::Text(text) => Ok(contains_text(text, rollback_marker())),
    }
}

/// Whether an answer on the previous rollback and the answer of the model are the same.
pub open spec fn same_rollback_check(
    r: Result<bool, JournalError>,
    model: Result<bool, JournalErrorView>,
) -> bool {
    match r {
        Ok(found) => model == Ok::<bool, JournalErrorView>(found),
        Err(e) => model == Err::<bool, JournalErrorView>(e@),
    }
}

/// Reads out of the journal of the previous boot whether the rollback
/// service ran with success.
pub fn check_previous_rollback(journal: &JournalOutput) -> (r: Result<bool, JournalError>)
    ensures
        same_rollback_check(r, previous_rollback(journal@)),
{
    match journal {
        JournalOutput::Unavailable(detail) => Err(JournalError::Unavailable(detail.clone())),
        JournalOutput::Failed => Ok(false),
        JournalOutput::NotText => Err(JournalError::NotText),
        JournalOutput::Text(text) => {
            let records = chars_of(text.as_str());
            let marker = chars_of("Rollback successful");
            Ok(contains(records.as_slice(), marker.as_slice()))
        },
    }
}

/// The banner that stands before a message after a rollback.
pub open spec fn fallback_banner() -> Seq<char> {
    "FALLBACK BOOT DETECTED! Default bootc deployment has been rolled back.\n"@
}

/// The message of the day for `base`: after a rollback the banner stands
/// before it.
pub open spec fn motd_message(base: Seq<char>, previous_rollback: bool) -> Seq<char> {
    if previous_rollback {
        fallback_banner() + base
    } else {
        base
    }
}

/// Makes the message of the day out of `base_msg`.
pub fn generate_motd_message(base_msg: &str, previous_rollback: bool) -> (message: String)
    ensures
        message@ == motd_message(base_msg@, previous_rollback),
{
    if previous_rollback {
        String::from_str(
            "FALLBACK BOOT DETECTED! Default bootc deployment has been rolled back.\n",
        ).concat(base_msg)
    } else {
        String::from_str(base_msg)
    }
}

/// The message while the health check runs.
pub open spec fn in_progress_message() -> Seq<char> {
    "Greenboot healthcheck is in progress"@
}

/// The message after a health check that has passed.
pub open spec fn green_message() -> Seq<char> {
    "Greenboot healthcheck passed - status is GREEN"@
}

/// The message after a health check that has failed.
pub open spec fn red_message() -> Seq<char> {
    "Greenboot healthcheck failed - status is RED"@
}

/// Why the health check did not end well.
#[derive(Debug, Clone, PartialEq, Eq)]
pub enum HealthCheckError {
    /// The message that the health check runs could not be published.
    Motd(String),
    /// The diagnostics passed and the success could not be persisted.
    BootStatus(String),
    /// The diagnostics failed.
    Failed(DiagnosticsError),
}

/// A [`HealthCheckError`] with its texts as sequences of characters.
pub enum HealthCheckErrorView {
    Motd(Seq<char>),
    BootStatus(Seq<char>),
    Failed(DiagnosticsErrorView),
}

impl View for HealthCheckError {
    type V = HealthCheckErrorView;

    open spec fn view(&self) -> HealthCheckErrorView {
        match self {
            HealthCheckError::Motd(detail) => HealthCheckErrorView::Motd(detail@),
            HealthCheckError::BootStatus(detail) => HealthCheckErrorView::BootStatus(detail@),
            HealthCheckError::Failed(cause) => HealthCheckErrorView::Failed(cause@),
        }
    }
}

impl HealthCheckErrorView {
    /// The message that goes with the error.
    pub open spec fn message(self) -> Seq<char> {
        match self {
            HealthCheckErrorView::Motd(detail) => detail,
            HealthCheckErrorView::BootStatus(detail) => detail,
            HealthCheckErrorView::Failed(_) => "greenboot healthcheck failed"@,
        }
    }
}

impl HealthCheckError {
    /// The message that goes with the error.
    pub fn message(&self) -> (text: String)
        ensures
            text@ == self@.message(),
    {
        match self {
            HealthCheckError::Motd(detail) => detail.clone(),
            HealthCheckError::BootStatus(detail) => detail.clone(),
            HealthCheckError::Failed(_) => String::from_str("greenboot healthcheck failed"),
        }
    }
}

/// How the health check ended: with the names of the skip list that were not
/// met on disk, or with the reason why it did not end well.
pub type Health = Result<Vec<String>, HealthCheckError>;

/// A [`Health`] with its texts as sequences of characters.
pub type HealthView = Result<Seq<Seq<char>>, HealthCheckErrorView>;

/// The way of a health check whose diagnostics have passed. The green hooks
/// run, and their failures change nothing. The good news is published, and
/// whether that worked changes nothing. Then the success is persisted, and
/// only if that fails does the health check fail.
pub open spec fn green_step(
    record: RecordView,
    from: Position,
    fallback: bool,
    missing: Seq<Seq<char>>,
) -> StepView<HealthView> {
    match hooks(Tier::Green, record.checks, from) {
        StepView::Need(request) => StepView::Need(request),
        StepView::Done(_) => if record.effects.len() <= 1 {
            StepView::Need(RequestView::PublishMotd(motd_message(green_message(), fallback)))
        } else if record.effects.len() <= 2 {
            StepView::Need(RequestView::PersistBootStatus(true))
        } else {
            match record.effects[2] {
                EffectView::Failed(detail) => StepView::Done(
                    Err(HealthCheckErrorView::BootStatus(detail)),
                ),
                EffectView::Done => StepView::Done(Ok(missing)),
            }
        },
    }
}

/// The way of a health check whose diagnostics have failed. The bad news is
/// published, the red hooks run, the failure is persisted, the boot is
/// counted and a reboot is asked for, in this order and each of them whatever
/// came of those before. Then the health check fails over the diagnostics.
pub open spec fn red_step(
    config: GreenbootConfig,
    record: RecordView,
    from: Position,
    fallback: bool,
    cause: DiagnosticsErrorView,
) -> StepView<HealthView> {
    if record.effects.len() <= 1 {
        StepView::Need(RequestView::PublishMotd(motd_message(red_message(), fallback)))
    } else {
        match hooks(Tier::Red, record.checks, from) {
            StepView::Need(request) => StepView::Need(request),
            StepView::Done(_) => if record.effects.len() <= 2 {
                StepView::Need(RequestView::PersistBootStatus(false))
            } else if record.effects.len() <= 3 {
                StepView::Need(RequestView::PersistBootCounter(config.max_reboot))
            } else if record.effects.len() <= 4 {
                StepView::Need(RequestView::Reboot { immediate: false })
            } else {
                StepView::Done(Err(HealthCheckErrorView::Failed(cause)))
            },
        }
    }
}

/// The health check, given the settings, the skip list and what has been
/// observed so far.
///
/// First the journal is asked for a rollback in the previous boot; where it
/// gives no answer, none is assumed. Then the message that the health check
/// runs is published, and the health check ends there if that fails. Then the
/// diagnostics run, and the flow goes the green or the red way.
pub open spec fn health_check_step(
    config: GreenbootConfig,
    skip: Seq<Seq<char>>,
    record: RecordView,
) -> StepView<HealthView> {
    match record.journal {
        None => StepView::Need(RequestView::QueryJournal),
        Some(journal) => {
            let fallback = previous_rollback(journal) == Ok::<bool, JournalErrorView>(true);
            if record.effects.len() == 0 {
                StepView::Need(
                    RequestView::PublishMotd(motd_message(in_progress_message(), fallback)),
                )
            } else {
                match record.effects[0] {
                    EffectView::Failed(detail) => StepView::Done(
                        Err(HealthCheckErrorView::Motd(detail)),
                    ),
                    EffectView::Done => {
                        let diagnosis = diagnose(skip, record.checks);
                        match diagnosis.step {
                            StepView::Need(request) => StepView::Need(request),
                            StepView::Done(Ok(missing)) => green_step(
                                record,
                                diagnosis.position,
                                fallback,
                                missing,
                            ),
                            StepView::Done(Err(cause)) => red_step(
                                config,
                                record,
                                diagnosis.position,
                                fallback,
                                cause,
                            ),
                        }
                    },
                }
            }
        },
    }
}

/// Whether an answer of the health check and an answer of the model are the same.
pub open spec fn same_health(step: Step<Health>, model: StepView<HealthView>) -> bool {
    match step {
        Step::Need(request) => model == StepView::<HealthView>::Need(request@),
        Step::Done(Ok(missing)) => model == StepView::<HealthView>::Done(Ok(name_views(missing@))),
        Step::Done(Err(error)) => model == StepView::<HealthView>::Done(Err(error@)),
    }
}

/// Runs the health check as far as the record reaches.
///
/// `disabled` names the artifacts that are not to be run. The answer is the
/// next request, or how the health check ended.
pub fn health_check(config: &GreenbootConfig, disabled: &[String], record: &Record) -> (step: Step<
    Health,
>)
    ensures
        same_health(step, health_check_step(*config, name_views(disabled@), record@)),
{
    let journal = match &record.journal {
        None => {
            return Step::Need(Request::QueryJournal);
        },
        Some(journal) => journal,
    };
    let fallback = match check_previous_rollback(journal) {
        Ok(found) => found,
        Err(_) => false,
    };
    if record.effects.len() == 0 {
        return Step::Need(
            Request::PublishMotd(
                generate_motd_message("Greenboot healthcheck is in progress", fallback),
            ),
        );
    }
    assert(record@.effects[0] == record.effects@[0]@);
    match &record.effects[0] {
        Effect::Failed(detail) => {
            return Step::Done(Err(HealthCheckError::Motd(detail.clone())));
        },
        Effect::Done => {},
    }
    let (diagnosis, cursor) = diagnose_from_start(disabled, &record.checks);
    match diagnosis {
        Step::Need(request) => Step::Need(request),
        Step::Done(Ok(missing)) => {
            match hooks_from(Tier::Green, &record.checks, cursor).0 {
                Step::Need(request) => {
                    return Step::Need(request);
                },
                Step::Done(_) => {},
            }
            if record.effects.len() <= 1 {
                return Step::Need(
                    Request::PublishMotd(
                        generate_motd_message(
                            "Greenboot healthcheck passed - status is GREEN",
                            fallback,
                        ),
                    ),
                );
            }
            if record.effects.len() <= 2 {
                return Step::Need(Request::PersistBootStatus(true));
            }
            assert(record@.effects[2] == record.effects@[2]@);
            match &record.effects[2] {
                Effect::Failed(detail) => Step::Done(
                    Err(HealthCheckError::BootStatus(detail.clone())),
                ),
                Effect::Done => Step::Done(Ok(missing)),
            }
        },
        Step::Done(Err(cause)) => {
            if record.effects.len() <= 1 {
                return Step::Need(
                    Request::PublishMotd(
                        generate_motd_message(
                            "Greenboot healthcheck failed - status is RED",
                            fallback,
                        ),
                    ),
                );
            }
            match hooks_from(Tier::Red, &record.checks, cursor).0 {
                Step::Need(request) => {
                    return Step::Need(request);
                },
                Step::Done(_) => {},
            }
            if record.effects.len() <= 2 {
                Step::Need(Request::PersistBootStatus(false))
            } else if record.effects.len() <= 3 {
                Step::Need(Request::PersistBootCounter(config.max_reboot))
            } else if record.effects.len() <= 4 {
                Step::Need(Request::Reboot { immediate: false })
            } else {
                Step::Done(Err(HealthCheckError::Failed(cause)))
            }
        },
    }
}

/// Why the rollback flow failed.
#[derive(Debug, Clone, PartialEq, Eq)]
pub enum RollbackError {
    /// The previous deployment could not be restored; the text says why.
    NotInitiated(String),
    /// The deployment was restored and the boot counter could not be cleared.
    BootCounter(String),
    /// The deployment was restored and the reboot could not be asked for.
    Reboot(String),
}

/// A [`RollbackError`] with its text as a sequence of characters.
pub enum RollbackErrorView {
    NotInitiated(Seq<char>),
    BootCounter(Seq<char>),
    Reboot(Seq<char>),
}

impl View for RollbackError {
    type V = RollbackErrorView;

    open spec fn view(&self) -> RollbackErrorView {
        match self {
            RollbackError::NotInitiated(detail) => RollbackErrorView::NotInitiated(detail@),
            RollbackError::BootCounter(detail) => RollbackErrorView::BootCounter(detail@),
            RollbackError::Reboot(detail) => RollbackErrorView::Reboot(detail@),
        }
    }
}

impl RollbackErrorView {
    /// The message that goes with the error.
    pub open spec fn message(self) -> Seq<char> {
        match self {
            RollbackErrorView::NotInitiated(detail) => detail + ", Rollback is not initiated"@,
            RollbackErrorView::BootCounter(detail) => detail,
            RollbackErrorView::Reboot(detail) => detail,
        }
    }
}

impl RollbackError {
    /// The message that goes with the error.
    pub fn message(&self) -> (text: String)
        ensures
            text@ == self@.message(),
    {
        match self {
            RollbackError::NotInitiated(detail) => detail.clone().concat(
                ", Rollback is not initiated",
            ),
            RollbackError::BootCounter(detail) => detail.clone(),
            RollbackError::Reboot(detail) => detail.clone(),
        }
    }
}

/// The rollback flow, given the answers of the collaborators so far.
///
/// The previous deployment is restored; where that fails the flow fails and
/// touches nothing else. Then the boot counter is cleared; where that fails
/// the flow fails and no reboot is asked for. Then a reboot is asked for at
/// once, and the flow ends as the reboot does.
pub open spec fn rollback_step(effects: Seq<EffectView>) -> StepView<
    Result<(), RollbackErrorView>,
> {
    if effects.len() == 0 {
        StepView::Need(RequestView::InvokeRollback)
    } else {
        match effects[0] {
            EffectView::Failed(detail) => StepView::Done(
                Err(RollbackErrorView::NotInitiated(detail)),
            ),
            EffectView::Done => if effects.len() == 1 {
                StepView::Need(RequestView::ClearBootCounter)
            } else {
                match effects[1] {
                    EffectView::Failed(detail) => StepView::Done(
                        Err(RollbackErrorView::BootCounter(detail)),
                    ),
                    EffectView::Done => if effects.len() == 2 {
                        StepView::Need(RequestView::Reboot { immediate: true })
                    } else {
                        match effects[2] {
                            EffectView::Failed(detail) => StepView::Done(
                                Err(RollbackErrorView::Reboot(detail)),
                            ),
                            EffectView::Done => StepView::Done(Ok(())),
                        }
                    },
                }
            },
        }
    }
}

/// Whether an answer of the rollback flow and an answer of the model are the same.
pub open spec fn same_rollback(
    step: Step<Result<(), RollbackError>>,
    model: StepView<Result<(), RollbackErrorView>>,
) -> bool {
    match step {
        Step::Need(request) => model == StepView::<Result<(), RollbackErrorView>>::Need(request@),
        Step::Done(Ok(())) => model == StepView::<Result<(), RollbackErrorView>>::Done(Ok(())),
        Step::Done(Err(error)) => model == StepView::<Result<(), RollbackErrorView>>::Done(
            Err(error@),
        ),
    }
}

/// Runs the rollback flow as far as the answers of the collaborators reach.
pub fn trigger_rollback(effects: &[Effect]) -> (step: Step<Result<(), RollbackError>>)
    ensures
        same_rollback(step, rollback_step(effect_views(effects@))),
{
    if effects.len() == 0 {
        return Step::Need(Request::InvokeRollback);
    }
    assert(effect_views(effects@)[0] == effects@[0]@);
    match &effects[0] {
        Effect::Failed(detail) => {
            return Step::Done(Err(RollbackError::NotInitiated(detail.clone())));
        },
        Effect::Done => {},
    }
    if effects.len() == 1 {
        return Step::Need(Request::ClearBootCounter);
    }
    assert(effect_views(effects@)[1] == effects@[1]@);
    match &effects[1] {
        Effect::Failed(detail) => {
            return Step::Done(Err(RollbackError::BootCounter(detail.clone())));
        },
        Effect::Done => {},
    }
    if effects.len() == 2 {
        return Step::Need(Request::Reboot { immediate: true });
    }
    assert(effect_views(effects@)[2] == effects@[2]@);
    match &effects[2] {
        Effect::Failed(detail) => Step::Done(Err(RollbackError::Reboot(detail.clone()))),
        Effect::Done => Step::Done(Ok(())),
    }
}

/// Remediation is best effort. Once the diagnostics have failed, what the
/// health check asks for next depends on how many answers the collaborators
/// have given and not on what they answered: no failure of one step keeps the
/// next from being taken.
pub proof fn lemma_remediation_is_best_effort(
    config: GreenbootConfig,
    skip: Seq<Seq<char>>,
    first: RecordView,
    second: RecordView,
)
    requires
        first.journal == second.journal,
        first.checks == second.checks,
        first.effects.len() == second.effects.len(),
        first.effects.len() > 0,
        first.effects[0] is Done,
        second.effects[0] is Done,
        diagnose(skip, first.checks).step matches StepView::Done(Err(_)),
    ensures
        health_check_step(config, skip, first) == health_check_step(config, skip, second),
{
}

/// The hooks decide nothing. A health check that ends well has diagnostics
/// that passed, and it reports what they reported; one that fails over the
/// diagnostics fails with their reason. What the green and the red hooks did
/// is in neither.
pub proof fn lemma_hooks_decide_nothing(
    config: GreenbootConfig,
    skip: Seq<Seq<char>>,
    record: RecordView,
)
    ensures
        health_check_step(config, skip, record) matches StepView::Done(Ok(missing)) ==> diagnose(
            skip,
            record.checks,
        ).step == StepView::<VerdictView>::Done(Ok(missing)),
        health_check_step(config, skip, record) matches StepView::Done(
            Err(HealthCheckErrorView::Failed(cause)),
        ) ==> diagnose(skip, record.checks).step == StepView::<VerdictView>::Done(Err(cause)),
        health_check_step(config, skip, record) matches StepView::Done(
            Err(HealthCheckErrorView::BootStatus(_)),
        ) ==> diagnose(skip, record.checks).step matches StepView::Done(Ok(_)),
{
}

/// Only the outcomes of the required tier decide how the health check ends.
/// Take two passes with the same journal, the same answers of the
/// collaborators, the same probes and listings, let the sweep of the required
/// tier be over in the first, and let the second have the same outcomes as far
/// as that sweep took them up. Where both passes are over they end alike,
/// whatever the artifacts of the wanted, the red and the green tier did.
pub proof fn lemma_only_required_outcomes_decide(
    config: GreenbootConfig,
    skip: Seq<Seq<char>>,
    first: RecordView,
    second: RecordView,
)
    requires
        first.journal == second.journal,
        first.effects == second.effects,
        first.checks.probes == second.checks.probes,
        first.checks.listings == second.checks.listings,
        required_sweep(skip, first.checks) matches SweepView::Finished(required)
            && required.position.outcomes <= second.checks.outcomes.len() && forall|j: int|
            0 <= j < required.position.outcomes ==> first.checks.outcomes[j]
                == second.checks.outcomes[j],
    ensures
        health_check_step(config, skip, first) matches StepView::Done(one) ==> (health_check_step(
            config,
            skip,
            second,
        ) matches StepView::Done(other) ==> one == other),
{
    lemma_wanted_outcomes_decide_nothing(skip, first.checks, second.checks);
}

/// A health check can be repeated. Two passes in which the system answers
/// in the same way ask for the same things in the same order and end in the
/// same way: the answer of the health check rests on the texts and numbers of
/// the record and on nothing else.
pub proof fn lemma_same_answers_same_health(
    config: GreenbootConfig,
    skip: Seq<Seq<char>>,
    first: Record,
    second: Record,
)
    requires
        first@ == second@,
    ensures
        health_check_step(config, skip, first@) == health_check_step(config, skip, second@),
{
}

} // verus!
