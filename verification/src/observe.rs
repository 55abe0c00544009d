//! What an engine asks of its driver, and what the driver has observed.
//!
//! No engine of this crate touches the system. Each one is a function from the
//! observations made so far to a [`Step`]: a [`Request`] that the driver
//! performs, or the end. The driver records the answer to a request at the end
//! of the matching list and asks again.

use crate::scripts::{
    outcome_views, Listing, ListingView, ScriptEntry, ScriptEntryView, ScriptOutcome,
    ScriptOutcomeView,
};
use vstd::prelude::*;

verus! {

/// Something that the driver is asked to do.
#[derive(Debug, Clone, PartialEq, Eq)]
pub enum Request {
    /// Say whether a directory stands at this path.
    ProbeDir(String),
    /// Enumerate what matches this pattern, with the metadata of each match.
    ListDir(String),
    /// Run this artifact and capture how it ends.
    Execute(ScriptEntry),
    /// Ask the journal of the previous boot for the records of the rollback service.
    QueryJournal,
    /// Publish this message of the day.
    PublishMotd(String),
    /// Persist whether the boot was a success.
    PersistBootStatus(bool),
    /// Persist the boot counter, with this many attempts at most.
    PersistBootCounter(u16),
    /// Ask for a reboot.
    Reboot { immediate: bool },
    /// Have the previous deployment restored.
    InvokeRollback,
    /// Clear the persisted boot counter.
    ClearBootCounter,
}

/// A [`Request`] with its texts as sequences of characters.
pub enum RequestView {
    ProbeDir(Seq<char>),
    ListDir(Seq<char>),
    Execute(ScriptEntryView),
    QueryJournal,
    PublishMotd(Seq<char>),
    PersistBootStatus(bool),
    PersistBootCounter(u16),
    Reboot { immediate: bool },
    InvokeRollback,
    ClearBootCounter,
}

impl View for Request {
    type V = RequestView;

    open spec fn view(&self) -> RequestView {
        match self {
            Request::ProbeDir(path) => RequestView::ProbeDir(path@),
            Request::ListDir(pattern) => RequestView::ListDir(pattern@),
            Request::Execute(entry) => RequestView::Execute(entry@),
            Request::QueryJournal => RequestView::QueryJournal,
            Request::PublishMotd(message) => RequestView::PublishMotd(message@),
            Request::PersistBootStatus(success) => RequestView::PersistBootStatus(*success),
            Request::PersistBootCounter(max) => RequestView::PersistBootCounter(*max),
            Request::Reboot { immediate } => RequestView::Reboot { immediate: *immediate },
            Request::InvokeRollback => RequestView::InvokeRollback,
            Request::ClearBootCounter => RequestView::ClearBootCounter,
        }
    }
}

/// An engine's answer: a request to perform, or the end with its result.
#[derive(Debug, PartialEq, Eq)]
pub enum Step<T> {
    /// Perform the request, record the answer, and ask again.
    Need(Request),
    /// Nothing is left to do.
    Done(T),
}

/// A [`Step`] of the model, over the view of its result.
pub enum StepView<V> {
    Need(RequestView),
    Done(V),
}

/// What the driver has observed of the health-check directories, each list
/// oldest first.
#[derive(Debug, Clone, PartialEq, Eq)]
pub struct Observations {
    /// The answers to [`Request::ProbeDir`].
    pub probes: Vec<bool>,
    /// The answers to [`Request::ListDir`].
    pub listings: Vec<Listing>,
    /// The answers to [`Request::Execute`].
    pub outcomes: Vec<ScriptOutcome>,
}

/// [`Observations`] with their texts as sequences of characters.
pub struct ObservationsView {
    pub probes: Seq<bool>,
    pub listings: Seq<ListingView>,
    pub outcomes: Seq<ScriptOutcomeView>,
}

/// The views of a sequence of listings.
pub open spec fn listing_views(s: Seq<Listing>) -> Seq<ListingView> {
    s.map_values(|l: Listing| l@)
}

impl View for Observations {
    type V = ObservationsView;

    open spec fn view(&self) -> ObservationsView {
        ObservationsView {
            probes: self.probes@,
            listings: listing_views(self.listings@),
            outcomes: outcome_views(self.outcomes@),
        }
    }
}

impl Observations {
    /// Nothing observed yet.
    pub fn new() -> (seen: Observations)
        ensures
            seen@.probes.len() == 0,
            seen@.listings.len() == 0,
            seen@.outcomes.len() == 0,
    {
        Observations { probes: Vec::new(), listings: Vec::new(), outcomes: Vec::new() }
    }
}

/// What a call of a collaborator came to.
#[derive(Debug, Clone, PartialEq, Eq)]
pub enum Effect {
    /// The collaborator did what it was asked.
    Done,
    /// The collaborator failed; the text says why.
    Failed(String),
}

/// An [`Effect`] with its text as a sequence of characters.
pub enum EffectView {
    Done,
    Failed(Seq<char>),
}

impl View for Effect {
    type V = EffectView;

    open spec fn view(&self) -> EffectView {
        match self {
            Effect::Done => EffectView::Done,
            Effect::Failed(detail) => EffectView::Failed(detail@),
        }
    }
}

/// The views of a sequence of effects.
pub open spec fn effect_views(s: Seq<Effect>) -> Seq<EffectView> {
    s.map_values(|e: Effect| e@)
}

/// What asking the journal of the previous boot for the records of the
/// rollback service came to.
#[derive(Debug, Clone, PartialEq, Eq)]
pub enum JournalOutput {
    /// The journal could not be asked; the text says why.
    Unavailable(String),
    /// The journal was asked and the query failed.
    Failed,
    /// The query gave something that is not text.
    NotText,
    /// The records that the query gave.
    Text(String),
}

/// A [`JournalOutput`] with its texts as sequences of characters.
pub enum JournalOutputView {
    Unavailable(Seq<char>),
    Failed,
    NotText,
    Text(Seq<char>),
}

impl View for JournalOutput {
    type V = JournalOutputView;

    open spec fn view(&self) -> JournalOutputView {
        match self {
            JournalOutput::Unavailable(detail) => JournalOutputView::Unavailable(detail@),
            JournalOutput::Failed => JournalOutputView::Failed,
            JournalOutput::NotText => JournalOutputView::NotText,
            JournalOutput::Text(text) => JournalOutputView::Text(text@),
        }
    }
}

/// What the driver of a flow has observed, each list oldest first.
#[derive(Debug, Clone, PartialEq, Eq)]
pub struct Record {
    /// The answer to [`Request::QueryJournal`], once it is there.
    pub journal: Option<JournalOutput>,
    /// The answers to the requests made of the collaborators: publishing a
    /// message, persisting status or counter, rebooting, rolling back.
    pub effects: Vec<Effect>,
    /// What was observed of the health-check directories.
    pub checks: Observations,
}

/// A [`Record`] with its texts as sequences of characters.
pub struct RecordView {
    pub journal: Option<JournalOutputView>,
    pub effects: Seq<EffectView>,
    pub checks: ObservationsView,
}

impl View for Record {
    type V = RecordView;

    open spec fn view(&self) -> RecordView {
        RecordView {
            journal: match self.journal {
                Some(journal) => Some(journal@),
                None => None,
            },
            effects: effect_views(self.effects@),
            checks: self.checks@,
        }
    }
}

impl Record {
    /// Nothing observed yet.
    pub fn new() -> (record: Record)
        ensures
            record@.journal is None,
            record@.effects.len() == 0,
            record@.checks.probes.len() == 0,
            record@.checks.listings.len() == 0,
            record@.checks.outcomes.len() == 0,
    {
        Record { journal: None, effects: Vec::new(), checks: Observations::new() }
    }
}

/// The answer to a request.
#[derive(Debug, Clone, PartialEq, Eq)]
pub enum Answer {
    /// To [`Request::ProbeDir`]: whether a directory stands at the path.
    Probe(bool),
    /// To [`Request::ListDir`]: what the enumeration came to.
    Listing(Listing),
    /// To [`Request::Execute`]: how the artifact ended.
    Outcome(ScriptOutcome),
    /// To [`Request::QueryJournal`]: what the journal gave.
    Journal(JournalOutput),
    /// To a request made of a collaborator: what the call came to.
    Effect(Effect),
}

/// An [`Answer`] with its texts as sequences of characters.
pub enum AnswerView {
    Probe(bool),
    Listing(ListingView),
    Outcome(ScriptOutcomeView),
    Journal(JournalOutputView),
    Effect(EffectView),
}

impl View for Answer {
    type V = AnswerView;

    open spec fn view(&self) -> AnswerView {
        match self {
            Answer::Probe(is_dir) => AnswerView::Probe(*is_dir),
            Answer::Listing(listing) => AnswerView::Listing(listing@),
            Answer::Outcome(outcome) => AnswerView::Outcome(outcome@),
            Answer::Journal(journal) => AnswerView::Journal(journal@),
            Answer::Effect(effect) => AnswerView::Effect(effect@),
        }
    }
}

impl ObservationsView {
    /// The observations with one more answer. An answer that says nothing of
    /// the health-check directories leaves them as they are.
    pub open spec fn with(self, answer: AnswerView) -> ObservationsView {
        match answer {
            AnswerView::Probe(is_dir) => ObservationsView {
                probes: self.probes.push(is_dir),
                ..self
            },
            AnswerView::Listing(listing) => ObservationsView {
                listings: self.listings.push(listing),
                ..self
            },
            AnswerView::Outcome(outcome) => ObservationsView {
                outcomes: self.outcomes.push(outcome),
                ..self
            },
            _ => self,
        }
    }
}

impl RecordView {
    /// The record with one more answer. The journal is asked once: the first
    /// answer stays.
    pub open spec fn with(self, answer: AnswerView) -> RecordView {
        match answer {
            AnswerView::Journal(journal) => match self.journal {
                Some(_) => self,
                None => RecordView { journal: Some(journal), ..self },
            },
            AnswerView::Effect(effect) => RecordView { effects: self.effects.push(effect), ..self },
            _ => RecordView { checks: self.checks.with(answer), ..self },
        }
    }
}

impl Observations {
    /// Records an answer at the end of the list that it belongs to.
    pub fn record(&mut self, answer: Answer)
        ensures
            final(self)@ == old(self)@.with(answer@),
    {
        match answer {
            Answer::Probe(is_dir) => {
                self.probes.push(is_dir);
            },
            Answer::Listing(listing) => {
                self.listings.push(listing);
                assert(listing_views(self.listings@) =~= listing_views(old(self).listings@).push(
                    listing@,
                ));
            },
            Answer::Outcome(outcome) => {
                self.outcomes.push(outcome);
                assert(outcome_views(self.outcomes@) =~= outcome_views(old(self).outcomes@).push(
                    outcome@,
                ));
            },
            _ => {},
        }
    }
}

impl Record {
    /// Records an answer at the end of the list that it belongs to.
    pub fn record(&mut self, answer: Answer)
        ensures
            final(self)@ == old(self)@.with(answer@),
    {
        match answer {
            Answer::Journal(journal) => {
                if self.journal.is_none() {
                    self.journal = Some(journal);
                }
            },
            Answer::Effect(effect) => {
                self.effects.push(effect);
                assert(effect_views(self.effects@) =~= effect_views(old(self).effects@).push(
                    effect@,
                ));
            },
            other => {
                self.checks.record(other);
            },
        }
    }
}

} // verus!
