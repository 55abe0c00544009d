//! The script catalogue and the tier runner.
//!
//! A tier is one directory of health-check artifacts. The caller enumerates
//! the directory and reports what it found as a [`Listing`]; the catalogue
//! picks the artifacts out of it, and [`run_scripts`] says which of them to run
//! next, given the outcomes of those that have run already.

use crate::text::{chars_of, same_text};
use vstd::prelude::*;
use vstd::string::*;

verus! {

/// What the file system says of a directory entry.
#[derive(Debug, Clone, Copy, PartialEq, Eq)]
pub struct FileMeta {
    /// The entry is a regular file.
    pub is_file: bool,
    /// The permission bits of the entry.
    pub mode: u32,
}

/// A directory entry as the caller found it.
#[derive(Debug, Clone, PartialEq, Eq)]
pub struct Candidate {
    /// The path of the entry.
    pub path: String,
    /// The last component of the path, where it has one that is text.
    pub file_name: Option<String>,
    /// The metadata of the entry, `None` where it could not be read.
    pub meta: Option<FileMeta>,
}

/// A [`Candidate`] with its texts as sequences of characters.
pub struct CandidateView {
    pub path: Seq<char>,
    pub file_name: Option<Seq<char>>,
    pub meta: Option<FileMeta>,
}

impl View for Candidate {
    type V = CandidateView;

    open spec fn view(&self) -> CandidateView {
        CandidateView {
            path: self.path@,
            file_name: match self.file_name {
                Some(name) => Some(name@),
                None => None,
            },
            meta: self.meta,
        }
    }
}

/// What enumerating a directory came to.
#[derive(Debug, Clone, PartialEq, Eq)]
pub enum Listing {
    /// The entries, in the order in which they were enumerated.
    Entries(Vec<Candidate>),
    /// The directory could not be enumerated; the text says why.
    Failed(String),
}

/// A [`Listing`] with its texts as sequences of characters.
pub enum ListingView {
    Entries(Seq<CandidateView>),
    Failed(Seq<char>),
}

/// The views of a sequence of candidates.
pub open spec fn candidate_views(s: Seq<Candidate>) -> Seq<CandidateView> {
    s.map_values(|c: Candidate| c@)
}

impl View for Listing {
    type V = ListingView;

    open spec fn view(&self) -> ListingView {
        match self {
            Listing::Entries(entries) => ListingView::Entries(candidate_views(entries@)),
            Listing::Failed(detail) => ListingView::Failed(detail@),
        }
    }
}

/// How an artifact is run.
#[derive(Debug, Clone, Copy, PartialEq, Eq)]
pub enum ScriptKind {
    /// Through the shell interpreter.
    Script,
    /// Directly, as an executable.
    Binary,
}

/// A health-check artifact of the catalogue.
#[derive(Debug, Clone, PartialEq, Eq)]
pub struct ScriptEntry {
    /// The path of the artifact.
    pub path: String,
    /// The name by which a skip list refers to the artifact.
    pub file_name: String,
    /// How the artifact is run.
    pub kind: ScriptKind,
}

/// A [`ScriptEntry`] with its texts as sequences of characters.
pub struct ScriptEntryView {
    pub path: Seq<char>,
    pub file_name: Seq<char>,
    pub kind: ScriptKind,
}

impl View for ScriptEntry {
    type V = ScriptEntryView;

    open spec fn view(&self) -> ScriptEntryView {
        ScriptEntryView { path: self.path@, file_name: self.file_name@, kind: self.kind }
    }
}

/// What running one artifact came to.
#[derive(Debug, Clone, PartialEq, Eq)]
pub enum ScriptOutcome {
    /// The artifact ran and ended with status zero.
    Success,
    /// The artifact ran and ended with another status.
    Failed { status: Option<i32>, stdout: String, stderr: String },
    /// The artifact could not be started; the text says why.
    NotStarted(String),
}

/// A [`ScriptOutcome`] with its texts as sequences of characters.
pub enum ScriptOutcomeView {
    Success,
    Failed { status: Option<i32>, stdout: Seq<char>, stderr: Seq<char> },
    NotStarted(Seq<char>),
}

impl View for ScriptOutcome {
    type V = ScriptOutcomeView;

    open spec fn view(&self) -> ScriptOutcomeView {
        match self {
            ScriptOutcome::Success => ScriptOutcomeView::Success,
            ScriptOutcome::Failed { status, stdout, stderr } => ScriptOutcomeView::Failed {
                status: *status,
                stdout: stdout@,
                stderr: stderr@,
            },
            ScriptOutcome::NotStarted(detail) => ScriptOutcomeView::NotStarted(detail@),
        }
    }
}

/// The views of a sequence of outcomes.
pub open spec fn outcome_views(s: Seq<ScriptOutcome>) -> Seq<ScriptOutcomeView> {
    s.map_values(|o: ScriptOutcome| o@)
}

/// A failure record of a tier.
#[derive(Debug, Clone, PartialEq, Eq)]
pub enum ScriptError {
    /// The directory of the tier could not be enumerated.
    Enumeration { detail: String },
    /// An artifact ran and ended with a status other than zero.
    NonZeroExit { tier: String, path: String, status: Option<i32>, stdout: String, stderr: String },
    /// An artifact could not be started.
    Io { tier: String, path: String, detail: String },
}

/// A [`ScriptError`] with its texts as sequences of characters.
pub enum ScriptErrorView {
    Enumeration { detail: Seq<char> },
    NonZeroExit {
        tier: Seq<char>,
        path: Seq<char>,
        status: Option<i32>,
        stdout: Seq<char>,
        stderr: Seq<char>,
    },
    Io { tier: Seq<char>, path: Seq<char>, detail: Seq<char> },
}

impl View for ScriptError {
    type V = ScriptErrorView;

    open spec fn view(&self) -> ScriptErrorView {
        match self {
            ScriptError::Enumeration { detail } => ScriptErrorView::Enumeration { detail: detail@ },
            ScriptError::NonZeroExit {
                tier,
                path,
                status,
                stdout,
                stderr,
            } => ScriptErrorView::NonZeroExit {
                tier: tier@,
                path: path@,
                status: *status,
                stdout: stdout@,
                stderr: stderr@,
            },
            ScriptError::Io { tier, path, detail } => ScriptErrorView::Io {
                tier: tier@,
                path: path@,
                detail: detail@,
            },
        }
    }
}

/// The views of a sequence of failure records.
pub open spec fn error_views(s: Seq<ScriptError>) -> Seq<ScriptErrorView> {
    s.map_values(|e: ScriptError| e@)
}

/// The texts of a sequence of names.
pub open spec fn name_views(s: Seq<String>) -> Seq<Seq<char>> {
    s.map_values(|n: String| n@)
}

impl ScriptErrorView {
    /// The message that goes with the record.
    pub open spec fn message(self) -> Seq<char> {
        match self {
            ScriptErrorView::Enumeration { detail } => detail,
            ScriptErrorView::NonZeroExit { tier, path, status, stdout, stderr } => tier
                + " script "@ + path + " failed!\n"@ + stdout + "\n"@ + stderr,
            ScriptErrorView::Io { tier, path, detail } => detail,
        }
    }
}

impl ScriptError {
    /// The message that goes with the record.
    pub fn message(&self) -> (text: String)
        ensures
            text@ == self@.message(),
    {
        match self {
            ScriptError::Enumeration { detail } => detail.clone(),
            ScriptError::NonZeroExit { tier, path, status, stdout, stderr } => {
                let mut text = tier.clone();
                text.append(" script ");
                text.append(path.as_str());
                text.append(" failed!\n");
                text.append(stdout.as_str());
                text.append("\n");
                text.append(stderr.as_str());
                text
            },
            ScriptError::Io { tier, path, detail } => detail.clone(),
        }
    }
}

/// What one tier came to.
#[derive(Debug, Clone, PartialEq, Eq)]
pub struct ScriptRunResult {
    /// The failure records, in the order in which the failures came.
    pub errors: Vec<ScriptError>,
    /// The names of the artifacts that were passed over because the skip list
    /// holds them, in the order in which they were met.
    pub skipped: Vec<String>,
}

/// The runner's answer: an artifact to run, or the end of the tier.
#[derive(Debug, Clone, PartialEq, Eq)]
pub enum TierStep {
    /// Run this artifact and report the outcome.
    Run(ScriptEntry),
    /// The tier is over. `used` says how many outcomes it took up.
    Done { result: ScriptRunResult, used: usize },
}

/// A [`TierStep`] with its texts as sequences of characters.
pub enum TierStepView {
    Run(ScriptEntryView),
    Done { errors: Seq<ScriptErrorView>, skipped: Seq<Seq<char>>, used: nat },
}

impl View for TierStep {
    type V = TierStepView;

    open spec fn view(&self) -> TierStepView {
        match self {
            TierStep::Run(entry) => TierStepView::Run(entry@),
            TierStep::Done { result, used } => TierStepView::Done {
                errors: error_views(result.errors@),
                skipped: name_views(result.skipped@),
                used: *used as nat,
            },
        }
    }
}

/// Whether `name` has the extension `sh`: it ends in `.sh` and holds at least
/// one character before the dot.
pub open spec fn has_sh_extension(name: Seq<char>) -> bool {
    name.len() > 3 && name.subrange(name.len() - 3, name.len() as int) == seq!['.', 's', 'h']
}

/// Whether `mode` gives the owner, the group or the others leave to execute.
pub open spec fn has_execute_bit(mode: u32) -> bool {
    mode & 0o001 != 0 || mode & 0o010 != 0 || mode & 0o100 != 0
}

/// The catalogue entry of a candidate. A candidate belongs to the catalogue
/// where it is a regular file with a name and either has the extension `sh` or
/// may be executed by someone. One with the extension is run as a script, any
/// other as a binary.
pub open spec fn catalogued(c: CandidateView) -> Option<ScriptEntryView> {
    match (c.file_name, c.meta) {
        (Some(name), Some(meta)) => if meta.is_file && (has_sh_extension(name) || has_execute_bit(
            meta.mode,
        )) {
            Some(
                ScriptEntryView {
                    path: c.path,
                    file_name: name,
                    kind: if has_sh_extension(name) {
                        ScriptKind::Script
                    } else {
                        ScriptKind::Binary
                    },
                },
            )
        } else {
            None
        },
        _ => None,
    }
}

/// Decides [`has_sh_extension`].
pub fn sh_extension(name: &str) -> (r: bool)
    ensures
        r == has_sh_extension(name@),
{
    let chars = chars_of(name);
    let n = chars.len();
    if n <= 3 {
        return false;
    }
    let r = chars[n - 3] == '.' && chars[n - 2] == 's' && chars[n - 1] == 'h';
    proof {
        let tail = name@.subrange(n - 3, n as int);
        assert(tail[0] == name@[n - 3] && tail[1] == name@[n - 2] && tail[2] == name@[n - 1]);
        if r {
            assert(tail =~= seq!['.', 's', 'h']);
        }
    }
    r
}

/// Looks a candidate up in the catalogue.
pub fn catalogue(c: &Candidate) -> (r: Option<ScriptEntry>)
    ensures
        match r {
            Some(entry) => catalogued(c@) == Some(entry@),
            None => catalogued(c@) is None,
        },
{
    let name = match &c.file_name {
        Some(name) => name,
        None => {
            return None;
        },
    };
    let meta = match c.meta {
        Some(meta) => meta,
        None => {
            return None;
        },
    };
    let script = sh_extension(name.as_str());
    let mode = meta.mode;
    let executable = mode & 0o001 != 0 || mode & 0o010 != 0 || mode & 0o100 != 0;
    if meta.is_file && (script || executable) {
        Some(
            ScriptEntry {
                path: c.path.clone(),
                file_name: name.clone(),
                kind: if script {
                    ScriptKind::Script
                } else {
                    ScriptKind::Binary
                },
            },
        )
    } else {
        None
    }
}

/// Whether a skip list holds `name`. Without a list nothing is skipped.
pub open spec fn is_disabled(disabled: Option<Seq<Seq<char>>>, name: Seq<char>) -> bool {
    match disabled {
        Some(names) => names.contains(name),
        None => false,
    }
}

/// The texts of a skip list that may be missing.
pub open spec fn disabled_names(disabled: Option<&[String]>) -> Option<Seq<Seq<char>>> {
    match disabled {
        Some(names) => Some(name_views(names@)),
        None => None,
    }
}

/// Whether `names` holds `name`.
pub fn holds_name(names: &[String], name: &String) -> (r: bool)
    ensures
        r == name_views(names@).contains(name@),
{
    let mut i: usize = 0;
    while i < names.len()
        invariant
            i <= names.len(),
            forall|j: int| 0 <= j < i ==> name_views(names@)[j] != name@,
        decreases names.len() - i,
    {
        if names[i] == *name {
            assert(name_views(names@)[i as int] == name@);
            return true;
        }
        i += 1;
    }
    false
}

/// Whether a tier of this name ends at its first failure.
pub open spec fn fail_fast(tier: Seq<char>) -> bool {
    tier == "required"@
}

/// The failure record of an outcome, `None` for a success.
pub open spec fn failure_of(
    tier: Seq<char>,
    entry: ScriptEntryView,
    outcome: ScriptOutcomeView,
) -> Option<ScriptErrorView> {
    match outcome {
        ScriptOutcomeView::Success => None,
        ScriptOutcomeView::Failed { status, stdout, stderr } => Some(
            ScriptErrorView::NonZeroExit { tier, path: entry.path, status, stdout, stderr },
        ),
        ScriptOutcomeView::NotStarted(detail) => Some(
            ScriptErrorView::Io { tier, path: entry.path, detail },
        ),
    }
}

/// How far a tier has come: its records so far and the number of outcomes
/// that it has taken up.
pub struct TierProgress {
    pub errors: Seq<ScriptErrorView>,
    pub skipped: Seq<Seq<char>>,
    pub used: nat,
}

impl TierProgress {
    /// The progress after an artifact was passed over because the skip list
    /// holds its name.
    pub open spec fn skipping(self, name: Seq<char>) -> TierProgress {
        TierProgress { skipped: self.skipped.push(name), ..self }
    }

    /// The progress after an artifact has run with success.
    pub open spec fn passing(self) -> TierProgress {
        TierProgress { used: self.used + 1, ..self }
    }

    /// The progress after an artifact has failed.
    pub open spec fn failing(self, error: ScriptErrorView) -> TierProgress {
        TierProgress { errors: self.errors.push(error), used: self.used + 1, ..self }
    }

    /// The end of the tier with this progress.
    pub open spec fn over(self) -> TierStepView {
        TierStepView::Done { errors: self.errors, skipped: self.skipped, used: self.used }
    }
}

/// The runner from candidate `at` on, with `progress` made on the candidates
/// before it.
///
/// The candidates are taken in order. One that is not in the catalogue is
/// passed over. One whose name the skip list holds is recorded as skipped and
/// not run. Any other is run: where its outcome is not known yet, the runner
/// asks for it; a success changes nothing, a failure is recorded, and in a
/// tier that fails fast the first failure ends the tier.
pub open spec fn walk(
    tier: Seq<char>,
    candidates: Seq<CandidateView>,
    disabled: Option<Seq<Seq<char>>>,
    outcomes: Seq<ScriptOutcomeView>,
    at: int,
    progress: TierProgress,
) -> TierStepView
    decreases candidates.len() - at,
{
    if at < 0 || at >= candidates.len() {
        progress.over()
    } else {
        match catalogued(candidates[at]) {
            None => walk(tier, candidates, disabled, outcomes, at + 1, progress),
            Some(entry) => if is_disabled(disabled, entry.file_name) {
                walk(
                    tier,
                    candidates,
                    disabled,
                    outcomes,
                    at + 1,
                    progress.skipping(entry.file_name),
                )
            } else if progress.used >= outcomes.len() {
                TierStepView::Run(entry)
            } else {
                match failure_of(tier, entry, outcomes[progress.used as int]) {
                    None => walk(tier, candidates, disabled, outcomes, at + 1, progress.passing()),
                    Some(error) => if fail_fast(tier) {
                        progress.failing(error).over()
                    } else {
                        walk(tier, candidates, disabled, outcomes, at + 1, progress.failing(error))
                    },
                }
            },
        }
    }
}

/// A tier at its start.
pub open spec fn no_progress() -> TierProgress {
    TierProgress { errors: Seq::empty(), skipped: Seq::empty(), used: 0 }
}

/// The runner's answer for one tier. `outcomes` holds the outcomes of the
/// artifacts that have run, in the order in which the runner asked for them.
/// A directory that could not be enumerated gives one failure record and
/// nothing else.
pub open spec fn tier_step(
    tier: Seq<char>,
    listing: ListingView,
    disabled: Option<Seq<Seq<char>>>,
    outcomes: Seq<ScriptOutcomeView>,
) -> TierStepView {
    match listing {
        ListingView::Failed(detail) => TierStepView::Done {
            errors: seq![ScriptErrorView::Enumeration { detail }],
            skipped: Seq::empty(),
            used: 0,
        },
        ListingView::Entries(candidates) => walk(
            tier,
            candidates,
            disabled,
            outcomes,
            0,
            no_progress(),
        ),
    }
}

fn is_fail_fast(tier: &str) -> (r: bool)
    ensures
        r == fail_fast(tier@),
{
    let given = chars_of(tier);
    let required = chars_of("required");
    same_text(given.as_slice(), required.as_slice())
}

fn failure(tier: &str, entry: &ScriptEntry, outcome: &ScriptOutcome) -> (r: Option<ScriptError>)
    ensures
        match r {
            Some(error) => failure_of(tier@, entry@, outcome@) == Some(error@),
            None => failure_of(tier@, entry@, outcome@) is None,
        },
{
    match outcome {
        ScriptOutcome::Success => None,
        ScriptOutcome::Failed { status, stdout, stderr } => Some(
            ScriptError::NonZeroExit {
                tier: String::from_str(tier),
                path: entry.path.clone(),
                status: *status,
                stdout: stdout.clone(),
                stderr: stderr.clone(),
            },
        ),
        ScriptOutcome::NotStarted(detail) => Some(
            ScriptError::Io {
                tier: String::from_str(tier),
                path: entry.path.clone(),
                detail: detail.clone(),
            },
        ),
    }
}

/// Runs one tier as far as the known outcomes reach.
///
/// `name` is the name of the tier, `listing` what enumerating its directory
/// came to, `disabled` the skip list, and `outcomes` the outcomes of the
/// artifacts that have run so far, oldest first. The answer is the artifact to
/// run next, or the records of the tier once nothing is left to run. Outcomes
/// beyond those that the tier asked for are left alone.
pub fn run_scripts(
    name: &str,
    listing: &Listing,
    disabled: Option<&[String]>,
    outcomes: &[ScriptOutcome],
) -> (step: TierStep)
    ensures
        step@ == tier_step(name@, listing@, disabled_names(disabled), outcome_views(outcomes@)),
        step matches TierStep::Done { used, .. } ==> used <= outcomes.len(),
{
    let mut errors: Vec<ScriptError> = Vec::new();
    let mut skipped: Vec<String> = Vec::new();
    let candidates = match listing {
        Listing::Entries(candidates) => candidates,
        Listing::Failed(detail) => {
            errors.push(ScriptError::Enumeration { detail: detail.clone() });
            assert(error_views(errors@) =~= seq![ScriptErrorView::Enumeration { detail: detail@ }]);
            assert(name_views(skipped@) =~= Seq::<Seq<char>>::empty());
            return TierStep::Done { result: ScriptRunResult { errors, skipped }, used: 0 };
        },
    };
    let halt = is_fail_fast(name);
    let mut used: usize = 0;
    let mut at: usize = 0;
    let ghost tier = name@;
    let ghost cv = candidate_views(candidates@);
    let ghost dv = disabled_names(disabled);
    let ghost ov = outcome_views(outcomes@);
    assert(error_views(errors@) =~= Seq::<ScriptErrorView>::empty());
    assert(name_views(skipped@) =~= Seq::<Seq<char>>::empty());
    while at < candidates.len()
        invariant
            at <= candidates.len(),
            used <= outcomes.len(),
            tier == name@,
            halt == fail_fast(tier),
            listing@ == ListingView::Entries(cv),
            cv == candidate_views(candidates@),
            dv == disabled_names(disabled),
            ov == outcome_views(outcomes@),
            walk(tier, cv, dv, ov, 0, no_progress()) == walk(
                tier,
                cv,
                dv,
                ov,
                at as int,
                TierProgress {
                    errors: error_views(errors@),
                    skipped: name_views(skipped@),
                    used: used as nat,
                },
            ),
        decreases candidates.len() - at,
    {
        assert(cv[at as int] == candidates@[at as int]@);
        match catalogue(&candidates[at]) {
            None => {},
            Some(entry) => {
                let listed = match disabled {
                    Some(names) => holds_name(names, &entry.file_name),
                    None => false,
                };
                if listed {
                    let ghost old_skipped = skipped@;
                    skipped.push(entry.file_name);
                    assert(name_views(skipped@) =~= name_views(old_skipped).push(entry.file_name@));
                } else if used >= outcomes.len() {
                    return TierStep::Run(entry);
                } else {
                    assert(ov[used as int] == outcomes@[used as int]@);
                    match failure(name, &entry, &outcomes[used]) {
                        None => {
                            used += 1;
                        },
                        Some(error) => {
                            let ghost old_errors = errors@;
                            errors.push(error);
                            assert(error_views(errors@) =~= error_views(old_errors).push(error@));
                            used += 1;
                            if halt {
                                return TierStep::Done {
                                    result: ScriptRunResult { errors, skipped },
                                    used,
                                };
                            }
                        },
                    }
                }
            },
        }
        at += 1;
    }
    TierStep::Done { result: ScriptRunResult { errors, skipped }, used }
}

/// The artifacts among the candidates from `at` on that are to be run, in the
/// order of the listing: those of the catalogue whose names the skip list does
/// not hold.
pub open spec fn to_run(
    candidates: Seq<CandidateView>,
    disabled: Option<Seq<Seq<char>>>,
    at: int,
) -> Seq<ScriptEntryView>
    decreases candidates.len() - at,
{
    if at < 0 || at >= candidates.len() {
        Seq::empty()
    } else {
        match catalogued(candidates[at]) {
            Some(entry) => if is_disabled(disabled, entry.file_name) {
                to_run(candidates, disabled, at + 1)
            } else {
                seq![entry] + to_run(candidates, disabled, at + 1)
            },
            None => to_run(candidates, disabled, at + 1),
        }
    }
}

/// The names of the artifacts among the candidates from `at` on that are
/// passed over, in the order of the listing: those of the catalogue whose
/// names the skip list holds.
pub open spec fn to_skip(
    candidates: Seq<CandidateView>,
    disabled: Option<Seq<Seq<char>>>,
    at: int,
) -> Seq<Seq<char>>
    decreases candidates.len() - at,
{
    if at < 0 || at >= candidates.len() {
        Seq::empty()
    } else {
        match catalogued(candidates[at]) {
            Some(entry) => if is_disabled(disabled, entry.file_name) {
                seq![entry.file_name] + to_skip(candidates, disabled, at + 1)
            } else {
                to_skip(candidates, disabled, at + 1)
            },
            None => to_skip(candidates, disabled, at + 1),
        }
    }
}

/// The failure records of artifacts that ran with these outcomes, the first
/// artifact with the first outcome and so on.
pub open spec fn records(
    tier: Seq<char>,
    entries: Seq<ScriptEntryView>,
    outcomes: Seq<ScriptOutcomeView>,
) -> Seq<ScriptErrorView>
    decreases entries.len(),
{
    if entries.len() == 0 || outcomes.len() == 0 {
        Seq::empty()
    } else {
        let rest = records(tier, entries.drop_first(), outcomes.drop_first());
        match failure_of(tier, entries[0], outcomes[0]) {
            Some(error) => seq![error] + rest,
            None => rest,
        }
    }
}

/// The runner in short. The artifacts to be run are those of [`to_run`], in
/// that order, each with the outcome of the same number. While fewer outcomes
/// are known than there are artifacts, the runner asks for the first artifact
/// without one. Once it is over, its failure records are those of the
/// outcomes that it took up; and unless a failure has ended it early, it took
/// up one outcome for each artifact and passed over what [`to_skip`] names.
pub proof fn lemma_tier_in_short(
    tier: Seq<char>,
    candidates: Seq<CandidateView>,
    disabled: Option<Seq<Seq<char>>>,
    outcomes: Seq<ScriptOutcomeView>,
    at: int,
    progress: TierProgress,
)
    requires
        progress.used <= outcomes.len(),
    ensures
        match walk(tier, candidates, disabled, outcomes, at, progress) {
            TierStepView::Run(entry) => {
                let known = outcomes.len() - progress.used;
                &&& known < to_run(candidates, disabled, at).len()
                &&& entry == to_run(candidates, disabled, at)[known]
            },
            TierStepView::Done { errors, skipped, used } => {
                let taken = used - progress.used;
                &&& progress.used <= used <= outcomes.len()
                &&& taken <= to_run(candidates, disabled, at).len()
                &&& errors == progress.errors + records(
                    tier,
                    to_run(candidates, disabled, at).take(taken),
                    outcomes.subrange(progress.used as int, used as int),
                )
                &&& (!fail_fast(tier) || errors.len() == progress.errors.len()) ==> {
                    &&& taken == to_run(candidates, disabled, at).len()
                    &&& skipped == progress.skipped + to_skip(candidates, disabled, at)
                }
            },
        },
    decreases candidates.len() - at,
{
    let all = to_run(candidates, disabled, at);
    let later = to_run(candidates, disabled, at + 1);
    let result = walk(tier, candidates, disabled, outcomes, at, progress);
    let from = progress.used as int;
    if 0 <= at < candidates.len() {
        match catalogued(candidates[at]) {
            None => {
                lemma_tier_in_short(tier, candidates, disabled, outcomes, at + 1, progress);
            },
            Some(entry) => {
                if is_disabled(disabled, entry.file_name) {
                    let next = progress.skipping(entry.file_name);
                    lemma_tier_in_short(tier, candidates, disabled, outcomes, at + 1, next);
                    assert(next.skipped + to_skip(candidates, disabled, at + 1) =~= progress.skipped
                        + to_skip(candidates, disabled, at));
                } else if progress.used >= outcomes.len() {
                    assert(all[0] == entry);
                } else {
                    let outcome = outcomes[from];
                    let failure = failure_of(tier, entry, outcome);
                    assert forall|i: int| 0 <= i < later.len() implies all[i + 1] == later[i] by {}
                    match failure {
                        None => {
                            lemma_tier_in_short(
                                tier,
                                candidates,
                                disabled,
                                outcomes,
                                at + 1,
                                progress.passing(),
                            );
                        },
                        Some(error) => {
                            if !fail_fast(tier) {
                                lemma_tier_in_short(
                                    tier,
                                    candidates,
                                    disabled,
                                    outcomes,
                                    at + 1,
                                    progress.failing(error),
                                );
                            }
                        },
                    }
                    if let TierStepView::Done { errors, skipped, used } = result {
                        let taken = used - from;
                        let ran = all.take(taken);
                        let with = outcomes.subrange(from, used as int);
                        assert(ran[0] == entry && with[0] == outcome);
                        assert(ran.drop_first() =~= later.take(taken - 1));
                        assert(with.drop_first() =~= outcomes.subrange(from + 1, used as int));
                        let rest = records(tier, ran.drop_first(), with.drop_first());
                        match failure {
                            None => {
                                assert(records(tier, ran, with) == rest);
                            },
                            Some(error) => {
                                assert(records(tier, ran, with) == seq![error] + rest);
                                if fail_fast(tier) {
                                    assert(rest =~= Seq::<ScriptErrorView>::empty());
                                }
                                assert(progress.errors.push(error) + rest =~= progress.errors + (
                                seq![error] + rest));
                            },
                        }
                    }
                }
            },
        }
    } else {
        assert(all.take(0) =~= Seq::<ScriptEntryView>::empty());
        assert(progress.errors + Seq::<ScriptErrorView>::empty() =~= progress.errors);
        assert(progress.skipped + Seq::<Seq<char>>::empty() =~= progress.skipped);
    }
}

/// Whether `entry` is the catalogue entry of a candidate at or after `at`.
pub open spec fn listed_from(candidates: Seq<CandidateView>, at: int, entry: ScriptEntryView) -> bool {
    exists|i: int|
        0 <= at <= i < candidates.len() && catalogued(#[trigger] candidates[i]) == Some(entry)
}

/// Whether a candidate at or after `at` is in the catalogue under `name`.
pub open spec fn named_from(candidates: Seq<CandidateView>, at: int, name: Seq<char>) -> bool {
    exists|i: int|
        0 <= at <= i < candidates.len() && (#[trigger] catalogued(candidates[i]) matches Some(
            entry,
        ) && entry.file_name == name)
}

/// The skip list is obeyed: whatever has been observed, an artifact that the
/// runner asks to run is in the catalogue of the listing, and the skip list
/// does not hold its name.
pub proof fn lemma_skip_list_is_obeyed(
    tier: Seq<char>,
    candidates: Seq<CandidateView>,
    disabled: Option<Seq<Seq<char>>>,
    outcomes: Seq<ScriptOutcomeView>,
    at: int,
    progress: TierProgress,
)
    ensures
        walk(tier, candidates, disabled, outcomes, at, progress) matches TierStepView::Run(entry)
            ==> !is_disabled(disabled, entry.file_name) && listed_from(candidates, at, entry),
    decreases candidates.len() - at,
{
    if 0 <= at < candidates.len() {
        match catalogued(candidates[at]) {
            None => {
                lemma_skip_list_is_obeyed(tier, candidates, disabled, outcomes, at + 1, progress);
            },
            Some(entry) => {
                if is_disabled(disabled, entry.file_name) {
                    lemma_skip_list_is_obeyed(
                        tier,
                        candidates,
                        disabled,
                        outcomes,
                        at + 1,
                        progress.skipping(entry.file_name),
                    );
                } else if progress.used >= outcomes.len() {
                    assert(catalogued(candidates[at]) == Some(entry));
                } else {
                    match failure_of(tier, entry, outcomes[progress.used as int]) {
                        None => {
                            lemma_skip_list_is_obeyed(
                                tier,
                                candidates,
                                disabled,
                                outcomes,
                                at + 1,
                                progress.passing(),
                            );
                        },
                        Some(error) => {
                            if !fail_fast(tier) {
                                lemma_skip_list_is_obeyed(
                                    tier,
                                    candidates,
                                    disabled,
                                    outcomes,
                                    at + 1,
                                    progress.failing(error),
                                );
                            }
                        },
                    }
                }
            },
        }
    }
}

/// A tier that fails fast ends at its first failure. While the runner asks
/// for another artifact, every outcome so far was a success. Once the tier is
/// over it has left one failure record at most, and where it has left one,
/// the failure is the last outcome that the tier took up: nothing ran after it.
pub proof fn lemma_first_failure_ends_the_tier(
    tier: Seq<char>,
    candidates: Seq<CandidateView>,
    disabled: Option<Seq<Seq<char>>>,
    outcomes: Seq<ScriptOutcomeView>,
    at: int,
    progress: TierProgress,
)
    requires
        fail_fast(tier),
        progress.used <= outcomes.len(),
    ensures
        match walk(tier, candidates, disabled, outcomes, at, progress) {
            TierStepView::Run(_) => forall|j: int|
                progress.used <= j < outcomes.len() ==> #[trigger] outcomes[j] is Success,
            TierStepView::Done { errors, skipped, used } => {
                &&& progress.used <= used <= outcomes.len()
                &&& errors.len() <= progress.errors.len() + 1
                &&& errors.len() >= progress.errors.len()
                &&& errors.len() == progress.errors.len() ==> forall|j: int|
                    progress.used <= j < used ==> #[trigger] outcomes[j] is Success
                &&& errors.len() == progress.errors.len() + 1 ==> {
                    &&& used > progress.used
                    &&& !(outcomes[used - 1] is Success)
                    &&& forall|j: int|
                        progress.used <= j < used - 1 ==> #[trigger] outcomes[j] is Success
                }
            },
        },
    decreases candidates.len() - at,
{
    if 0 <= at < candidates.len() {
        match catalogued(candidates[at]) {
            None => {
                lemma_first_failure_ends_the_tier(
                    tier,
                    candidates,
                    disabled,
                    outcomes,
                    at + 1,
                    progress,
                );
            },
            Some(entry) => {
                if is_disabled(disabled, entry.file_name) {
                    lemma_first_failure_ends_the_tier(
                        tier,
                        candidates,
                        disabled,
                        outcomes,
                        at + 1,
                        progress.skipping(entry.file_name),
                    );
                } else if progress.used < outcomes.len() {
                    if failure_of(tier, entry, outcomes[progress.used as int]) is None {
                        lemma_first_failure_ends_the_tier(
                            tier,
                            candidates,
                            disabled,
                            outcomes,
                            at + 1,
                            progress.passing(),
                        );
                    }
                }
            },
        }
    }
}

/// In a tier that does not fail fast a failure halts nothing: the tier is
/// over only when every artifact that is to be run has run, and until then
/// the runner asks for the next one, whatever the outcomes were. A tier that
/// fails fast never runs more than that, and no tier takes up an outcome
/// that is not there.
pub proof fn lemma_failures_halt_no_other_tier(
    tier: Seq<char>,
    candidates: Seq<CandidateView>,
    disabled: Option<Seq<Seq<char>>>,
    outcomes: Seq<ScriptOutcomeView>,
    at: int,
    progress: TierProgress,
)
    requires
        progress.used <= outcomes.len(),
    ensures
        match walk(tier, candidates, disabled, outcomes, at, progress) {
            TierStepView::Run(_) => outcomes.len() < progress.used + to_run(
                candidates,
                disabled,
                at,
            ).len(),
            TierStepView::Done { errors, skipped, used } => {
                &&& progress.used <= used <= outcomes.len()
                &&& used <= progress.used + to_run(candidates, disabled, at).len()
                &&& !fail_fast(tier) ==> used == progress.used + to_run(
                    candidates,
                    disabled,
                    at,
                ).len()
            },
        },
{
    lemma_tier_in_short(tier, candidates, disabled, outcomes, at, progress);
}

/// What a tier records as skipped. The names recorded before stay. Every
/// name that the tier adds is held by the skip list and is the name of an
/// artifact of the listing. And where nothing ended the tier early, every
/// artifact of the listing whose name the skip list holds is recorded.
pub proof fn lemma_skipped_names(
    tier: Seq<char>,
    candidates: Seq<CandidateView>,
    disabled: Option<Seq<Seq<char>>>,
    outcomes: Seq<ScriptOutcomeView>,
    at: int,
    progress: TierProgress,
)
    ensures
        walk(tier, candidates, disabled, outcomes, at, progress) matches TierStepView::Done {
            errors,
            skipped,
            used,
        } ==> {
            &&& forall|n: Seq<char>| progress.skipped.contains(n) ==> skipped.contains(n)
            &&& forall|n: Seq<char>| #[trigger]
                skipped.contains(n) ==> progress.skipped.contains(n) || (is_disabled(disabled, n)
                    && named_from(candidates, at, n))
            &&& (!fail_fast(tier) || errors.len() == progress.errors.len()) ==> forall|
                n: Seq<char>,
            |
                is_disabled(disabled, n) && named_from(candidates, at, n) ==> #[trigger]
                skipped.contains(n)
            &&& errors.len() >= progress.errors.len()
        },
    decreases candidates.len() - at,
{
    let result = walk(tier, candidates, disabled, outcomes, at, progress);
    if 0 <= at < candidates.len() {
        let c = candidates[at];
        match catalogued(c) {
            None => {
                lemma_skipped_names(tier, candidates, disabled, outcomes, at + 1, progress);
                if let TierStepView::Done { errors, skipped, used } = result {
                    assert forall|n: Seq<char>| named_from(candidates, at, n) implies named_from(
                        candidates,
                        at + 1,
                        n,
                    ) by {
                        let i = choose|i: int|
                            at <= i < candidates.len() && (#[trigger] catalogued(
                                candidates[i],
                            ) matches Some(entry) && entry.file_name == n);
                        assert(i != at);
                        assert(catalogued(candidates[i]) is Some);
                    }
                }
            },
            Some(entry) => {
                if is_disabled(disabled, entry.file_name) {
                    let next = progress.skipping(entry.file_name);
                    lemma_skipped_names(tier, candidates, disabled, outcomes, at + 1, next);
                    if let TierStepView::Done { errors, skipped, used } = result {
                        assert(next.skipped.last() == entry.file_name);
                        assert(next.skipped.contains(entry.file_name));
                        assert forall|n: Seq<char>| progress.skipped.contains(n) implies
                            next.skipped.contains(n) by {
                            let i = choose|i: int|
                                0 <= i < progress.skipped.len() && progress.skipped[i] == n;
                            assert(next.skipped[i] == n);
                        }
                        assert(catalogued(candidates[at]) is Some);
                        assert(named_from(candidates, at, entry.file_name));
                        assert forall|n: Seq<char>| #[trigger]
                            skipped.contains(n) implies progress.skipped.contains(n) || (
                        is_disabled(disabled, n) && named_from(candidates, at, n)) by {
                            if next.skipped.contains(n) {
                                let i = choose|i: int|
                                    0 <= i < next.skipped.len() && next.skipped[i] == n;
                                if i < progress.skipped.len() {
                                    assert(progress.skipped[i] == n);
                                }
                            } else {
                                let i = choose|i: int|
                                    at + 1 <= i < candidates.len() && (#[trigger] catalogued(
                                        candidates[i],
                                    ) matches Some(e) && e.file_name == n);
                                assert(catalogued(candidates[i]) is Some);
                            }
                        }
                        if !fail_fast(tier) || errors.len() == progress.errors.len() {
                            assert forall|n: Seq<char>|
                                is_disabled(disabled, n) && named_from(
                                    candidates,
                                    at,
                                    n,
                                ) implies #[trigger] skipped.contains(n) by {
                                let i = choose|i: int|
                                    at <= i < candidates.len() && (#[trigger] catalogued(
                                        candidates[i],
                                    ) matches Some(e) && e.file_name == n);
                                if i != at {
                                    assert(catalogued(candidates[i]) is Some);
                                    assert(named_from(candidates, at + 1, n));
                                }
                            }
                        }
                    }
                } else if progress.used < outcomes.len() {
                    let failure = failure_of(tier, entry, outcomes[progress.used as int]);
                    let next = match failure {
                        None => progress.passing(),
                        Some(error) => progress.failing(error),
                    };
                    if failure is None || !fail_fast(tier) {
                        lemma_skipped_names(tier, candidates, disabled, outcomes, at + 1, next);
                        if let TierStepView::Done { errors, skipped, used } = result {
                            assert forall|n: Seq<char>| #[trigger]
                                skipped.contains(n) implies progress.skipped.contains(n) || (
                            is_disabled(disabled, n) && named_from(candidates, at, n)) by {
                                if !progress.skipped.contains(n) {
                                    let i = choose|i: int|
                                        at + 1 <= i < candidates.len() && (#[trigger] catalogued(
                                            candidates[i],
                                        ) matches Some(e) && e.file_name == n);
                                    assert(catalogued(candidates[i]) is Some);
                                }
                            }
                            if !fail_fast(tier) || errors.len() == progress.errors.len() {
                                assert forall|n: Seq<char>|
                                    is_disabled(disabled, n) && named_from(
                                        candidates,
                                        at,
                                        n,
                                    ) implies #[trigger] skipped.contains(n) by {
                                    let i = choose|i: int|
                                        at <= i < candidates.len() && (#[trigger] catalogued(
                                            candidates[i],
                                        ) matches Some(e) && e.file_name == n);
                                    assert(i != at);
                                    assert(catalogued(candidates[i]) is Some);
                                    assert(named_from(candidates, at + 1, n));
                                }
                            }
                        }
                    }
                }
            },
        }
    }
}

/// A tier reads no outcome but those that it takes up, and takes them up in
/// order. Where it is over, it is over in the same way on any other outcomes
/// that hold the same in the places that it took up.
pub proof fn lemma_tier_reads_what_it_takes_up(
    tier: Seq<char>,
    candidates: Seq<CandidateView>,
    disabled: Option<Seq<Seq<char>>>,
    first: Seq<ScriptOutcomeView>,
    second: Seq<ScriptOutcomeView>,
    at: int,
    progress: TierProgress,
)
    requires
        walk(tier, candidates, disabled, first, at, progress) matches TierStepView::Done {
            errors,
            skipped,
            used,
        } && used <= second.len() && forall|j: int|
            progress.used <= j < used ==> first[j] == second[j],
    ensures
        walk(tier, candidates, disabled, second, at, progress) == walk(
            tier,
            candidates,
            disabled,
            first,
            at,
            progress,
        ),
        walk(tier, candidates, disabled, first, at, progress) matches TierStepView::Done {
            errors,
            skipped,
            used,
        } && used >= progress.used,
    decreases candidates.len() - at,
{
    if 0 <= at < candidates.len() {
        match catalogued(candidates[at]) {
            None => {
                lemma_tier_reads_what_it_takes_up(
                    tier,
                    candidates,
                    disabled,
                    first,
                    second,
                    at + 1,
                    progress,
                );
            },
            Some(entry) => {
                if is_disabled(disabled, entry.file_name) {
                    lemma_tier_reads_what_it_takes_up(
                        tier,
                        candidates,
                        disabled,
                        first,
                        second,
                        at + 1,
                        progress.skipping(entry.file_name),
                    );
                } else {
                    match failure_of(tier, entry, first[progress.used as int]) {
                        None => {
                            lemma_tier_reads_what_it_takes_up(
                                tier,
                                candidates,
                                disabled,
                                first,
                                second,
                                at + 1,
                                progress.passing(),
                            );
                        },
                        Some(error) => {
                            if !fail_fast(tier) {
                                lemma_tier_reads_what_it_takes_up(
                                    tier,
                                    candidates,
                                    disabled,
                                    first,
                                    second,
                                    at + 1,
                                    progress.failing(error),
                                );
                            }
                        },
                    }
                    assert(first[progress.used as int] == second[progress.used as int]);
                }
            },
        }
    }
}

/// In a tier that does not fail fast, what is recorded as skipped rests on
/// the listing and the skip list alone: two runs of the tier that are over
/// have recorded the same names, whatever the outcomes were.
pub proof fn lemma_other_tiers_skip_the_same(
    tier: Seq<char>,
    candidates: Seq<CandidateView>,
    disabled: Option<Seq<Seq<char>>>,
    first: Seq<ScriptOutcomeView>,
    second: Seq<ScriptOutcomeView>,
    at: int,
    one: TierProgress,
    other: TierProgress,
)
    requires
        !fail_fast(tier),
        one.skipped == other.skipped,
    ensures
        walk(tier, candidates, disabled, first, at, one) matches TierStepView::Done {
            skipped: left,
            ..
        } ==> (walk(tier, candidates, disabled, second, at, other) matches TierStepView::Done {
            skipped: right,
            ..
        } ==> left == right),
    decreases candidates.len() - at,
{
    if 0 <= at < candidates.len() {
        match catalogued(candidates[at]) {
            None => {
                lemma_other_tiers_skip_the_same(
                    tier,
                    candidates,
                    disabled,
                    first,
                    second,
                    at + 1,
                    one,
                    other,
                );
            },
            Some(entry) => {
                if is_disabled(disabled, entry.file_name) {
                    lemma_other_tiers_skip_the_same(
                        tier,
                        candidates,
                        disabled,
                        first,
                        second,
                        at + 1,
                        one.skipping(entry.file_name),
                        other.skipping(entry.file_name),
                    );
                } else if one.used < first.len() && other.used < second.len() {
                    let next_one = match failure_of(tier, entry, first[one.used as int]) {
                        None => one.passing(),
                        Some(error) => one.failing(error),
                    };
                    let next_other = match failure_of(tier, entry, second[other.used as int]) {
                        None => other.passing(),
                        Some(error) => other.failing(error),
                    };
                    lemma_other_tiers_skip_the_same(
                        tier,
                        candidates,
                        disabled,
                        first,
                        second,
                        at + 1,
                        next_one,
                        next_other,
                    );
                }
            },
        }
    }
}

} // verus!
