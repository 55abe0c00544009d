//! The diagnostics engine: the tiers of health checks over the install roots.
//!
//! Health-check artifacts live under two install roots, each with the
//! directories `check/required.d/`, `check/wanted.d/`, `red.d/` and
//! `green.d/`. A sweep runs one tier over both roots; [`run_diagnostics`] is
//! the sweep of the required tier followed by that of the wanted tier.

use crate::observe::{Observations, ObservationsView, Request, RequestView, Step, StepView};
use crate::scripts::{
    disabled_names, error_views, fail_fast, holds_name, is_disabled,
    lemma_failures_halt_no_other_tier, lemma_first_failure_ends_the_tier,
    lemma_other_tiers_skip_the_same,
    lemma_skip_list_is_obeyed, lemma_skipped_names, lemma_tier_reads_what_it_takes_up,
    listed_from, name_views, named_from, no_progress, outcome_views, run_scripts, tier_step,
    ListingView, ScriptEntryView, ScriptError, ScriptErrorView, TierStep, TierStepView,
};
use vstd::prelude::*;
use vstd::slice::slice_subrange;
use vstd::string::*;

verus! {

/// The number of install roots.
pub const INSTALL_ROOTS: usize = 2;

/// The install root of this number: the one of the distribution first, the
/// one of the administrator second.
pub open spec fn install_root(root: nat) -> Seq<char> {
    if root == 0 {
        "/usr/lib/greenboot"@
    } else {
        "/etc/greenboot"@
    }
}

/// A tier of health-check artifacts.
#[derive(Debug, Clone, Copy, PartialEq, Eq)]
pub enum Tier {
    /// Checks that must pass for the boot to count as healthy.
    Required,
    /// Checks whose failure is reported and nothing more.
    Wanted,
    /// Hooks that run after a failed health check.
    Red,
    /// Hooks that run after a passed health check.
    Green,
}

impl Tier {
    /// The name of the tier, as it stands in failure records.
    pub open spec fn name(self) -> Seq<char> {
        match self {
            Tier::Required => "required"@,
            Tier::Wanted => "wanted"@,
            Tier::Red => "red"@,
            Tier::Green => "green"@,
        }
    }

    /// The directory of the tier below an install root.
    pub open spec fn subdir(self) -> Seq<char> {
        match self {
            Tier::Required => "/check/required.d/"@,
            Tier::Wanted => "/check/wanted.d/"@,
            Tier::Red => "/red.d/"@,
            Tier::Green => "/green.d/"@,
        }
    }

    /// Whether the tier is decisive: a root is taken up only where its
    /// directory stands, and the first root with a failure ends the sweep.
    pub open spec fn decisive(self) -> bool {
        self is Required
    }

    /// The name of the tier.
    pub fn name_str(self) -> (r: &'static str)
        ensures
            r@ == self.name(),
    {
        match self {
            Tier::Required => "required",
            Tier::Wanted => "wanted",
            Tier::Red => "red",
            Tier::Green => "green",
        }
    }

    fn subdir_str(self) -> (r: &'static str)
        ensures
            r@ == self.subdir(),
    {
        match self {
            Tier::Required => "/check/required.d/",
            Tier::Wanted => "/check/wanted.d/",
            Tier::Red => "/red.d/",
            Tier::Green => "/green.d/",
        }
    }

    fn is_decisive(self) -> (r: bool)
        ensures
            r == self.decisive(),
    {
        match self {
            Tier::Required => true,
            _ => false,
        }
    }
}

/// The directory of a tier below the install root of this number.
pub open spec fn tier_dir(root: nat, tier: Tier) -> Seq<char> {
    install_root(root) + tier.subdir()
}

/// The pattern that matches every entry of the directory of a tier.
pub open spec fn tier_pattern(root: nat, tier: Tier) -> Seq<char> {
    tier_dir(root, tier) + "*"@
}

fn tier_directory(root: usize, tier: Tier) -> (r: String)
    ensures
        r@ == tier_dir(root as nat, tier),
{
    let base = if root == 0 {
        "/usr/lib/greenboot"
    } else {
        "/etc/greenboot"
    };
    String::from_str(base).concat(tier.subdir_str())
}

/// How much of the observations has been taken up.
#[derive(Debug, Clone, Copy, PartialEq, Eq)]
pub struct Cursor {
    pub probes: usize,
    pub listings: usize,
    pub outcomes: usize,
}

/// A [`Cursor`] over numbers without a bound.
pub struct Position {
    pub probes: nat,
    pub listings: nat,
    pub outcomes: nat,
}

impl View for Cursor {
    type V = Position;

    open spec fn view(&self) -> Position {
        Position {
            probes: self.probes as nat,
            listings: self.listings as nat,
            outcomes: self.outcomes as nat,
        }
    }
}

/// How far a sweep has come.
pub struct SweepProgress {
    /// What the sweep has taken up of the observations.
    pub position: Position,
    /// The failure records so far.
    pub errors: Seq<ScriptErrorView>,
    /// The names passed over so far.
    pub skipped: Seq<Seq<char>>,
    /// Whether the directory of the tier was run under some root.
    pub found: bool,
}

impl SweepProgress {
    /// The progress after a root was passed over because the directory of
    /// the tier does not stand under it.
    pub open spec fn passing_over(self) -> SweepProgress {
        SweepProgress {
            position: Position { probes: self.position.probes + 1, ..self.position },
            ..self
        }
    }

    /// The progress after the tier has run under one more root and has left
    /// these records, having taken up `used` outcomes. A decisive tier has
    /// taken up a probe as well.
    pub open spec fn after(
        self,
        tier: Tier,
        errors: Seq<ScriptErrorView>,
        skipped: Seq<Seq<char>>,
        used: nat,
    ) -> SweepProgress {
        SweepProgress {
            position: Position {
                probes: if tier.decisive() {
                    self.position.probes + 1
                } else {
                    self.position.probes
                },
                listings: self.position.listings + 1,
                outcomes: self.position.outcomes + used,
            },
            errors: self.errors + errors,
            skipped: self.skipped + skipped,
            found: true,
        }
    }
}

/// The answer of a sweep.
pub enum SweepView {
    Need(RequestView),
    Finished(SweepProgress),
}

/// A sweep that takes up the observations from `position` on.
pub open spec fn sweep_start(position: Position, skipped: Seq<Seq<char>>) -> SweepProgress {
    SweepProgress { position, errors: Seq::empty(), skipped, found: false }
}

/// The start of the observations.
pub open spec fn origin() -> Position {
    Position { probes: 0, listings: 0, outcomes: 0 }
}

/// The sweep of one tier from the install root `root` on.
///
/// For each root in turn: a decisive tier first asks whether its directory
/// stands, and passes the root over where it does not. Then the directory is
/// enumerated and the tier is run on the listing, with the outcomes that the
/// sweep has not taken up yet. The records of the tier are added to those of
/// the sweep. A decisive tier ends the sweep at the first root with a failure;
/// any other tier goes on to the next root, whatever failed.
pub open spec fn sweep(
    tier: Tier,
    disabled: Option<Seq<Seq<char>>>,
    seen: ObservationsView,
    root: nat,
    progress: SweepProgress,
) -> SweepView
    decreases INSTALL_ROOTS - root,
{
    let at = progress.position;
    if root >= INSTALL_ROOTS {
        SweepView::Finished(progress)
    } else if tier.decisive() && at.probes >= seen.probes.len() {
        SweepView::Need(RequestView::ProbeDir(tier_dir(root, tier)))
    } else if tier.decisive() && !seen.probes[at.probes as int] {
        sweep(tier, disabled, seen, root + 1, progress.passing_over())
    } else if at.listings >= seen.listings.len() {
        SweepView::Need(RequestView::ListDir(tier_pattern(root, tier)))
    } else {
        match tier_step(
            tier.name(),
            seen.listings[at.listings as int],
            disabled,
            seen.outcomes.skip(at.outcomes as int),
        ) {
            TierStepView::Run(entry) => SweepView::Need(RequestView::Execute(entry)),
            TierStepView::Done { errors, skipped, used } => {
                let next = progress.after(tier, errors, skipped, used);
                if tier.decisive() && errors.len() > 0 {
                    SweepView::Finished(next)
                } else {
                    sweep(tier, disabled, seen, root + 1, next)
                }
            },
        }
    }
}

/// The records of a sweep and where it left off.
struct Swept {
    cursor: Cursor,
    errors: Vec<ScriptError>,
    skipped: Vec<String>,
    found: bool,
}

impl View for Swept {
    type V = SweepProgress;

    closed spec fn view(&self) -> SweepProgress {
        SweepProgress {
            position: self.cursor@,
            errors: error_views(self.errors@),
            skipped: name_views(self.skipped@),
            found: self.found,
        }
    }
}

enum SweepStep {
    Need(Request),
    Finished(Swept),
}

impl View for SweepStep {
    type V = SweepView;

    closed spec fn view(&self) -> SweepView {
        match self {
            SweepStep::Need(request) => SweepView::Need(request@),
            SweepStep::Finished(swept) => SweepView::Finished(swept@),
        }
    }
}

#[verifier::loop_isolation(false)]
fn sweep_tier(
    tier: Tier,
    disabled: Option<&[String]>,
    seen: &Observations,
    from: Cursor,
    carried: Vec<String>,
) -> (step: SweepStep)
    requires
        from.outcomes <= seen.outcomes.len(),
    ensures
        step@ == sweep(
            tier,
            disabled_names(disabled),
            seen@,
            0,
            sweep_start(from@, name_views(carried@)),
        ),
        step matches SweepStep::Finished(swept) ==> swept.cursor.outcomes <= seen.outcomes.len(),
{
    let decisive = tier.is_decisive();
    let mut cursor = from;
    let mut errors: Vec<ScriptError> = Vec::new();
    let ghost dv = disabled_names(disabled);
    let ghost start = sweep_start(from@, name_views(carried@));
    let mut skipped = carried;
    let mut found = false;
    let mut root: usize = 0;
    assert(error_views(errors@) =~= Seq::<ScriptErrorView>::empty());
    while root < INSTALL_ROOTS
        invariant
            root <= INSTALL_ROOTS,
            decisive == tier.decisive(),
            dv == disabled_names(disabled),
            cursor.outcomes <= seen.outcomes.len(),
            sweep(tier, dv, seen@, 0, start) == sweep(
                tier,
                dv,
                seen@,
                root as nat,
                SweepProgress {
                    position: cursor@,
                    errors: error_views(errors@),
                    skipped: name_views(skipped@),
                    found,
                },
            ),
        decreases INSTALL_ROOTS - root,
    {
        let mut absent = false;
        let mut probes = cursor.probes;
        if decisive {
            if probes >= seen.probes.len() {
                return SweepStep::Need(Request::ProbeDir(tier_directory(root, tier)));
            }
            absent = !seen.probes[probes];
            probes = probes + 1;
        }
        if absent {
            cursor = Cursor { probes, ..cursor };
        } else {
            let at = cursor.listings;
            if at >= seen.listings.len() {
                return SweepStep::Need(Request::ListDir(tier_directory(root, tier).concat("*")));
            }
            let rest = slice_subrange(
                seen.outcomes.as_slice(),
                cursor.outcomes,
                seen.outcomes.len(),
            );
            assert(outcome_views(rest@) =~= seen@.outcomes.skip(cursor.outcomes as int));
            assert(seen@.listings[at as int] == seen.listings@[at as int]@);
            match run_scripts(tier.name_str(), &seen.listings[at], disabled, rest) {
                TierStep::Run(entry) => {
                    return SweepStep::Need(Request::Execute(entry));
                },
                TierStep::Done { result, used } => {
                    let mut result = result;
                    let failed = result.errors.len() > 0;
                    let ghost old_errors = errors@;
                    let ghost old_skipped = skipped@;
                    let ghost new_errors = result.errors@;
                    let ghost new_skipped = result.skipped@;
                    errors.append(&mut result.errors);
                    skipped.append(&mut result.skipped);
                    assert(error_views(errors@) =~= error_views(old_errors) + error_views(
                        new_errors,
                    ));
                    assert(name_views(skipped@) =~= name_views(old_skipped) + name_views(
                        new_skipped,
                    ));
                    cursor = Cursor { probes, listings: at + 1, outcomes: cursor.outcomes + used };
                    found = true;
                    if decisive && failed {
                        return SweepStep::Finished(Swept { cursor, errors, skipped, found });
                    }
                },
            }
        }
        root = root + 1;
    }
    SweepStep::Finished(Swept { cursor, errors, skipped, found })
}

/// The names of `skip` that `met` does not hold, each of them once, in the
/// order in which `skip` first names them.
pub open spec fn missing_disabled(skip: Seq<Seq<char>>, met: Seq<Seq<char>>) -> Seq<Seq<char>>
    decreases skip.len(),
{
    if skip.len() == 0 {
        Seq::empty()
    } else {
        let rest = missing_disabled(skip.drop_last(), met);
        let name = skip.last();
        if met.contains(name) || rest.contains(name) {
            rest
        } else {
            rest.push(name)
        }
    }
}

fn missing(skip: &[String], met: &Vec<String>) -> (r: Vec<String>)
    ensures
        name_views(r@) == missing_disabled(name_views(skip@), name_views(met@)),
{
    let mut out: Vec<String> = Vec::new();
    let mut i: usize = 0;
    let ghost names = name_views(skip@);
    assert(name_views(out@) =~= Seq::<Seq<char>>::empty());
    assert(names.take(0) =~= Seq::<Seq<char>>::empty());
    while i < skip.len()
        invariant
            i <= skip.len(),
            names == name_views(skip@),
            name_views(out@) == missing_disabled(names.take(i as int), name_views(met@)),
        decreases skip.len() - i,
    {
        let name = &skip[i];
        assert(names.take(i + 1).drop_last() =~= names.take(i as int));
        assert(names.take(i + 1).last() == name@);
        if !holds_name(met.as_slice(), name) && !holds_name(out.as_slice(), name) {
            let ghost before = out@;
            out.push(name.clone());
            assert(name_views(out@) =~= name_views(before).push(name@));
        }
        i += 1;
    }
    assert(names.take(i as int) =~= names);
    out
}

/// Why the diagnostics failed.
#[derive(Debug, Clone, PartialEq, Eq)]
pub enum DiagnosticsError {
    /// Under no install root stands a directory of the required tier.
    NoRequiredFolder,
    /// The required tier failed; the failure records say how.
    RequiredFailed(Vec<ScriptError>),
}

/// A [`DiagnosticsError`] with its texts as sequences of characters.
pub enum DiagnosticsErrorView {
    NoRequiredFolder,
    RequiredFailed(Seq<ScriptErrorView>),
}

impl View for DiagnosticsError {
    type V = DiagnosticsErrorView;

    open spec fn view(&self) -> DiagnosticsErrorView {
        match self {
            DiagnosticsError::NoRequiredFolder => DiagnosticsErrorView::NoRequiredFolder,
            DiagnosticsError::RequiredFailed(errors) => DiagnosticsErrorView::RequiredFailed(
                error_views(errors@),
            ),
        }
    }
}

impl DiagnosticsErrorView {
    /// The message that goes with the error.
    pub open spec fn message(self) -> Seq<char> {
        match self {
            DiagnosticsErrorView::NoRequiredFolder => "cannot find any required.d folder"@,
            DiagnosticsErrorView::RequiredFailed(_) =>
                "required health-check failed, skipping remaining scripts"@,
        }
    }
}

impl DiagnosticsError {
    /// The message that goes with the error.
    pub fn message(&self) -> (text: String)
        ensures
            text@ == self@.message(),
    {
        match self {
            DiagnosticsError::NoRequiredFolder => String::from_str(
                "cannot find any required.d folder",
            ),
            DiagnosticsError::RequiredFailed(_) => String::from_str(
                "required health-check failed, skipping remaining scripts",
            ),
        }
    }
}

/// The verdict of the diagnostics: the names of the skip list that were not
/// met on disk, or why the diagnostics failed.
pub type Verdict = Result<Vec<String>, DiagnosticsError>;

/// A [`Verdict`] with its texts as sequences of characters.
pub type VerdictView = Result<Seq<Seq<char>>, DiagnosticsErrorView>;

/// The answer of the diagnostics and what they have taken up of the
/// observations.
pub struct Diagnosis {
    pub step: StepView<VerdictView>,
    pub position: Position,
}

/// The sweep of the required tier, with which the diagnostics begin.
pub open spec fn required_sweep(skip: Seq<Seq<char>>, seen: ObservationsView) -> SweepView {
    sweep(Tier::Required, Some(skip), seen, 0, sweep_start(origin(), Seq::empty()))
}

/// The diagnostics, given the skip list and the observations so far.
///
/// The required tier is swept first. Where it leaves a failure record the
/// diagnostics fail with the records, and nothing else is run. Where no root
/// has a directory of the required tier they fail too. Otherwise the wanted
/// tier is swept, whose failures change nothing, and the diagnostics pass with
/// the names of the skip list that neither sweep has met.
pub open spec fn diagnose(skip: Seq<Seq<char>>, seen: ObservationsView) -> Diagnosis {
    match required_sweep(skip, seen) {
        SweepView::Need(request) => Diagnosis { step: StepView::Need(request), position: origin() },
        SweepView::Finished(required) => if required.errors.len() > 0 {
            Diagnosis {
                step: StepView::Done(Err(DiagnosticsErrorView::RequiredFailed(required.errors))),
                position: required.position,
            }
        } else if !required.found {
            Diagnosis {
                step: StepView::Done(Err(DiagnosticsErrorView::NoRequiredFolder)),
                position: required.position,
            }
        } else {
            match sweep(
                Tier::Wanted,
                Some(skip),
                seen,
                0,
                sweep_start(required.position, required.skipped),
            ) {
                SweepView::Need(request) => Diagnosis {
                    step: StepView::Need(request),
                    position: origin(),
                },
                SweepView::Finished(wanted) => Diagnosis {
                    step: StepView::Done(Ok(missing_disabled(skip, wanted.skipped))),
                    position: wanted.position,
                },
            }
        },
    }
}

/// Whether an answer of the diagnostics and an answer of the model are the same.
pub open spec fn same_verdict(step: Step<Verdict>, model: StepView<VerdictView>) -> bool {
    match step {
        Step::Need(request) => model == StepView::<VerdictView>::Need(request@),
        Step::Done(Ok(missing)) => model == StepView::<VerdictView>::Done(Ok(name_views(missing@))),
        Step::Done(Err(error)) => model == StepView::<VerdictView>::Done(Err(error@)),
    }
}

/// Whether the records of a sweep and those of the model are the same.
pub open spec fn same_records(
    step: Step<Vec<ScriptError>>,
    model: StepView<Seq<ScriptErrorView>>,
) -> bool {
    match step {
        Step::Need(request) => model == StepView::<Seq<ScriptErrorView>>::Need(request@),
        Step::Done(errors) => model == StepView::<Seq<ScriptErrorView>>::Done(error_views(errors@)),
    }
}

/// The answer of the hooks of a tier, which take up the observations from
/// `from` on: a request, or the failure records of the sweep.
pub open spec fn hooks(tier: Tier, seen: ObservationsView, from: Position) -> StepView<
    Seq<ScriptErrorView>,
> {
    match sweep(tier, None, seen, 0, sweep_start(from, Seq::empty())) {
        SweepView::Need(request) => StepView::Need(request),
        SweepView::Finished(swept) => StepView::Done(swept.errors),
    }
}

/// Where the hooks of a tier leave off once they are done.
pub open spec fn hooks_end(tier: Tier, seen: ObservationsView, from: Position) -> Position {
    match sweep(tier, None, seen, 0, sweep_start(from, Seq::empty())) {
        SweepView::Need(_) => from,
        SweepView::Finished(swept) => swept.position,
    }
}

pub(crate) fn diagnose_from_start(skipped: &[String], seen: &Observations) -> (r: (
    Step<Verdict>,
    Cursor,
))
    ensures
        same_verdict(r.0, diagnose(name_views(skipped@), seen@).step),
        r.1@ == diagnose(name_views(skipped@), seen@).position,
        r.1.outcomes <= seen.outcomes.len(),
{
    let start = Cursor { probes: 0, listings: 0, outcomes: 0 };
    let none: Vec<String> = Vec::new();
    assert(name_views(none@) =~= Seq::<Seq<char>>::empty());
    let required = match sweep_tier(Tier::Required, Some(skipped), seen, start, none) {
        SweepStep::Need(request) => {
            return (Step::Need(request), start);
        },
        SweepStep::Finished(swept) => swept,
    };
    if required.errors.len() > 0 {
        return (Step::Done(Err(DiagnosticsError::RequiredFailed(required.errors))), required.cursor);
    }
    if !required.found {
        return (Step::Done(Err(DiagnosticsError::NoRequiredFolder)), required.cursor);
    }
    match sweep_tier(Tier::Wanted, Some(skipped), seen, required.cursor, required.skipped) {
        SweepStep::Need(request) => (Step::Need(request), start),
        SweepStep::Finished(wanted) => (
            Step::Done(Ok(missing(skipped, &wanted.skipped))),
            wanted.cursor,
        ),
    }
}

pub(crate) fn hooks_from(tier: Tier, seen: &Observations, from: Cursor) -> (r: (
    Step<Vec<ScriptError>>,
    Cursor,
))
    requires
        from.outcomes <= seen.outcomes.len(),
    ensures
        same_records(r.0, hooks(tier, seen@, from@)),
        r.1@ == hooks_end(tier, seen@, from@),
        r.1.outcomes <= seen.outcomes.len(),
{
    let none: Vec<String> = Vec::new();
    assert(name_views(none@) =~= Seq::<Seq<char>>::empty());
    match sweep_tier(tier, None, seen, from, none) {
        SweepStep::Need(request) => (Step::Need(request), from),
        SweepStep::Finished(swept) => (Step::Done(swept.errors), swept.cursor),
    }
}

/// Runs the required and the wanted health checks as far as the observations
/// reach.
///
/// `skipped` names the artifacts that are not to be run. The answer is the
/// next request or, at the end, how the diagnostics went: on success the
/// names of `skipped` that neither tier has met under any root, else the
/// reason why the diagnostics failed.
pub fn run_diagnostics(skipped: &[String], seen: &Observations) -> (step: Step<Verdict>)
    ensures
        same_verdict(step, diagnose(name_views(skipped@), seen@).step),
{
    diagnose_from_start(skipped, seen).0
}

/// Runs the hooks of the red tier as far as the observations reach. The
/// answer is the next request, or the failure records of the hooks.
pub fn run_red(seen: &Observations) -> (step: Step<Vec<ScriptError>>)
    ensures
        same_records(step, hooks(Tier::Red, seen@, origin())),
{
    hooks_from(Tier::Red, seen, Cursor { probes: 0, listings: 0, outcomes: 0 }).0
}

/// Runs the hooks of the green tier as far as the observations reach. The
/// answer is the next request, or the failure records of the hooks.
pub fn run_green(seen: &Observations) -> (step: Step<Vec<ScriptError>>)
    ensures
        same_records(step, hooks(Tier::Green, seen@, origin())),
{
    hooks_from(Tier::Green, seen, Cursor { probes: 0, listings: 0, outcomes: 0 }).0
}

/// Only the required tier fails fast.
pub proof fn lemma_only_required_fails_fast(tier: Tier)
    ensures
        fail_fast(tier.name()) == tier.decisive(),
{
    reveal_strlit("required");
    reveal_strlit("wanted");
    reveal_strlit("red");
    reveal_strlit("green");
    assert("wanted"@.len() != "required"@.len());
    assert("red"@.len() != "required"@.len());
    assert("green"@.len() != "required"@.len());
}

/// Whether some listing of the observations holds an artifact of this name.
pub open spec fn on_disk(seen: ObservationsView, name: Seq<char>) -> bool {
    exists|l: int|
        0 <= l < seen.listings.len() && (#[trigger] seen.listings[l] matches ListingView::Entries(
            candidates,
        ) && named_from(candidates, 0, name))
}

/// Whether some listing of the observations holds this artifact.
pub open spec fn in_listings(seen: ObservationsView, entry: ScriptEntryView) -> bool {
    exists|l: int|
        0 <= l < seen.listings.len() && (#[trigger] seen.listings[l] matches ListingView::Entries(
            candidates,
        ) && listed_from(candidates, 0, entry))
}

/// A sweep obeys the skip list: an artifact that it asks to run stands in one
/// of the listings, and the skip list does not hold its name.
pub proof fn lemma_sweep_obeys_skip_list(
    tier: Tier,
    disabled: Option<Seq<Seq<char>>>,
    seen: ObservationsView,
    root: nat,
    progress: SweepProgress,
)
    ensures
        sweep(tier, disabled, seen, root, progress) matches SweepView::Need(
            RequestView::Execute(entry),
        ) ==> !is_disabled(disabled, entry.file_name) && in_listings(seen, entry),
    decreases INSTALL_ROOTS - root,
{
    let at = progress.position;
    if root >= INSTALL_ROOTS {
    } else if tier.decisive() && at.probes >= seen.probes.len() {
    } else if tier.decisive() && !seen.probes[at.probes as int] {
        lemma_sweep_obeys_skip_list(tier, disabled, seen, root + 1, progress.passing_over());
    } else if at.listings >= seen.listings.len() {
    } else {
        let listing = seen.listings[at.listings as int];
        let rest = seen.outcomes.skip(at.outcomes as int);
        if let ListingView::Entries(candidates) = listing {
            lemma_skip_list_is_obeyed(tier.name(), candidates, disabled, rest, 0, no_progress());
        }
        match tier_step(tier.name(), listing, disabled, rest) {
            TierStepView::Run(entry) => {},
            TierStepView::Done { errors, skipped, used } => {
                let next = progress.after(tier, errors, skipped, used);
                if !(tier.decisive() && errors.len() > 0) {
                    lemma_sweep_obeys_skip_list(tier, disabled, seen, root + 1, next);
                }
            },
        }
    }
}

/// What a sweep records as skipped: besides the names that it started with,
/// only names that the skip list holds and that stand in one of the listings.
pub proof fn lemma_sweep_skips_what_is_on_disk(
    tier: Tier,
    disabled: Option<Seq<Seq<char>>>,
    seen: ObservationsView,
    root: nat,
    progress: SweepProgress,
)
    ensures
        sweep(tier, disabled, seen, root, progress) matches SweepView::Finished(swept)
            ==> forall|n: Seq<char>| #[trigger]
            swept.skipped.contains(n) ==> progress.skipped.contains(n) || (is_disabled(disabled, n)
                && on_disk(seen, n)),
    decreases INSTALL_ROOTS - root,
{
    let at = progress.position;
    if root >= INSTALL_ROOTS {
    } else if tier.decisive() && at.probes >= seen.probes.len() {
    } else if tier.decisive() && !seen.probes[at.probes as int] {
        lemma_sweep_skips_what_is_on_disk(tier, disabled, seen, root + 1, progress.passing_over());
    } else if at.listings >= seen.listings.len() {
    } else {
        let listing = seen.listings[at.listings as int];
        let rest = seen.outcomes.skip(at.outcomes as int);
        if let ListingView::Entries(candidates) = listing {
            lemma_skipped_names(tier.name(), candidates, disabled, rest, 0, no_progress());
        }
        match tier_step(tier.name(), listing, disabled, rest) {
            TierStepView::Run(entry) => {},
            TierStepView::Done { errors, skipped, used } => {
                let next = progress.after(tier, errors, skipped, used);
                assert forall|n: Seq<char>| #[trigger] next.skipped.contains(n) implies
                    progress.skipped.contains(n) || (is_disabled(disabled, n) && on_disk(
                    seen,
                    n,
                )) by {
                    let i = choose|i: int| 0 <= i < next.skipped.len() && next.skipped[i] == n;
                    if i < progress.skipped.len() {
                        assert(progress.skipped[i] == n);
                    } else {
                        assert(skipped[i - progress.skipped.len()] == n);
                        assert(skipped.contains(n));
                        assert(seen.listings[at.listings as int] is Entries);
                    }
                }
                if !(tier.decisive() && errors.len() > 0) {
                    lemma_sweep_skips_what_is_on_disk(tier, disabled, seen, root + 1, next);
                }
            },
        }
    }
}

/// The sweep of a decisive tier ends at the first failure. While it asks to
/// run an artifact, every outcome from its start on was a success. Once it is over,
/// it has added one failure record at most, and every outcome that it took up
/// was a success, but for the last where it has added a record.
pub proof fn lemma_decisive_sweep_fails_fast(
    tier: Tier,
    disabled: Option<Seq<Seq<char>>>,
    seen: ObservationsView,
    root: nat,
    progress: SweepProgress,
)
    requires
        tier.decisive(),
        progress.position.outcomes <= seen.outcomes.len(),
    ensures
        match sweep(tier, disabled, seen, root, progress) {
            SweepView::Need(RequestView::Execute(_)) => forall|j: int|
                progress.position.outcomes <= j < seen.outcomes.len()
                    ==> #[trigger] seen.outcomes[j] is Success,
            SweepView::Need(_) => true,
            SweepView::Finished(swept) => {
                &&& progress.position.outcomes <= swept.position.outcomes <= seen.outcomes.len()
                &&& progress.errors.len() <= swept.errors.len() <= progress.errors.len() + 1
                &&& forall|j: int|
                    progress.position.outcomes <= j < swept.position.outcomes - 1
                        ==> #[trigger] seen.outcomes[j] is Success
                &&& swept.errors.len() == progress.errors.len() ==> forall|j: int|
                    progress.position.outcomes <= j < swept.position.outcomes
                        ==> #[trigger] seen.outcomes[j] is Success
            },
        },
    decreases INSTALL_ROOTS - root,
{
    let at = progress.position;
    if root >= INSTALL_ROOTS {
    } else if at.probes >= seen.probes.len() {
    } else if !seen.probes[at.probes as int] {
        lemma_decisive_sweep_fails_fast(tier, disabled, seen, root + 1, progress.passing_over());
    } else if at.listings >= seen.listings.len() {
    } else {
        let listing = seen.listings[at.listings as int];
        let rest = seen.outcomes.skip(at.outcomes as int);
        lemma_only_required_fails_fast(tier);
        if let ListingView::Entries(candidates) = listing {
            lemma_first_failure_ends_the_tier(
                tier.name(),
                candidates,
                disabled,
                rest,
                0,
                no_progress(),
            );
        }
        assert forall|j: int| 0 <= j < rest.len() implies rest[j] == seen.outcomes[at.outcomes
            + j] by {}
        match tier_step(tier.name(), listing, disabled, rest) {
            TierStepView::Run(entry) => {
                assert forall|j: int| at.outcomes <= j < seen.outcomes.len() implies #[trigger]
                    seen.outcomes[j] is Success by {
                    assert(rest[j - at.outcomes] is Success);
                }
            },
            TierStepView::Done { errors, skipped, used } => {
                let next = progress.after(tier, errors, skipped, used);
                if errors.len() == 0 {
                    assert(next.errors =~= progress.errors);
                    assert forall|j: int| at.outcomes <= j < at.outcomes + used implies #[trigger]
                        seen.outcomes[j] is Success by {
                        assert(rest[j - at.outcomes] is Success);
                    }
                    lemma_decisive_sweep_fails_fast(tier, disabled, seen, root + 1, next);
                } else {
                    assert forall|j: int| at.outcomes <= j < at.outcomes + used - 1 implies
                        #[trigger] seen.outcomes[j] is Success by {
                        assert(rest[j - at.outcomes] is Success);
                    }
                }
            },
        }
    }
}

/// The names that are reported as missing are the names of the skip list
/// that were not met, and none of them is reported twice.
pub proof fn lemma_missing_disabled(skip: Seq<Seq<char>>, met: Seq<Seq<char>>)
    ensures
        forall|n: Seq<char>| #[trigger]
            missing_disabled(skip, met).contains(n) <==> skip.contains(n) && !met.contains(n),
        missing_disabled(skip, met).no_duplicates(),
    decreases skip.len(),
{
    let missing = missing_disabled(skip, met);
    if skip.len() > 0 {
        let rest = missing_disabled(skip.drop_last(), met);
        let name = skip.last();
        lemma_missing_disabled(skip.drop_last(), met);
        assert forall|n: Seq<char>| #[trigger]
            missing.contains(n) <==> skip.contains(n) && !met.contains(n) by {
            if skip.contains(n) {
                let i = choose|i: int| 0 <= i < skip.len() && skip[i] == n;
                if i < skip.len() - 1 {
                    assert(skip.drop_last()[i] == n);
                }
            }
            if skip.drop_last().contains(n) {
                let i = choose|i: int| 0 <= i < skip.drop_last().len() && skip.drop_last()[i] == n;
                assert(skip[i] == n);
            }
            if rest.contains(n) {
                let i = choose|i: int| 0 <= i < rest.len() && rest[i] == n;
                if missing.len() > rest.len() {
                    assert(missing[i] == n);
                }
            }
            if missing.contains(n) {
                let i = choose|i: int| 0 <= i < missing.len() && missing[i] == n;
                if i < rest.len() {
                    assert(rest[i] == n);
                }
            }
            if missing.len() > rest.len() {
                assert(missing.last() == name);
            }
        }
    }
}

/// The diagnostics obey the skip list: whatever has been observed, an
/// artifact that they ask to run stands in one of the listings, and the skip
/// list does not hold its name.
pub proof fn lemma_skipped_artifacts_never_run(skip: Seq<Seq<char>>, seen: ObservationsView)
    ensures
        diagnose(skip, seen).step matches StepView::Need(RequestView::Execute(entry))
            ==> !skip.contains(entry.file_name) && in_listings(seen, entry),
{
    let first = sweep_start(origin(), Seq::empty());
    lemma_sweep_obeys_skip_list(Tier::Required, Some(skip), seen, 0, first);
    if let SweepView::Finished(required) = sweep(Tier::Required, Some(skip), seen, 0, first) {
        lemma_sweep_obeys_skip_list(
            Tier::Wanted,
            Some(skip),
            seen,
            0,
            sweep_start(required.position, required.skipped),
        );
    }
}

/// Where the diagnostics pass, every name of the skip list that stands in
/// none of the listings is reported as missing. Nothing else is reported but
/// names of the skip list, and none of them twice.
pub proof fn lemma_absent_names_are_reported(skip: Seq<Seq<char>>, seen: ObservationsView)
    ensures
        diagnose(skip, seen).step matches StepView::Done(Ok(missing)) ==> {
            &&& forall|n: Seq<char>|
                skip.contains(n) && !on_disk(seen, n) ==> #[trigger] missing.contains(n)
            &&& forall|n: Seq<char>| #[trigger] missing.contains(n) ==> skip.contains(n)
            &&& missing.no_duplicates()
        },
{
    let first = sweep_start(origin(), Seq::empty());
    lemma_sweep_skips_what_is_on_disk(Tier::Required, Some(skip), seen, 0, first);
    if let SweepView::Finished(required) = sweep(Tier::Required, Some(skip), seen, 0, first) {
        let second = sweep_start(required.position, required.skipped);
        lemma_sweep_skips_what_is_on_disk(Tier::Wanted, Some(skip), seen, 0, second);
        if let SweepView::Finished(wanted) = sweep(Tier::Wanted, Some(skip), seen, 0, second) {
            lemma_missing_disabled(skip, wanted.skipped);
            assert forall|n: Seq<char>| wanted.skipped.contains(n) implies on_disk(seen, n) by {
                if required.skipped.contains(n) {
                    assert(!first.skipped.contains(n));
                }
            }
        }
    }
}

/// A failure in the required tier ends the diagnostics at once. Where they
/// fail over the required tier, there is exactly one failure record, and every
/// outcome that was taken up before the last was a success: after the failure
/// nothing was run. Where the required tier has passed, every outcome that it
/// took up was a success.
pub proof fn lemma_required_failure_ends_diagnostics(skip: Seq<Seq<char>>, seen: ObservationsView)
    ensures
        diagnose(skip, seen).step matches StepView::Done(
            Err(DiagnosticsErrorView::RequiredFailed(errors)),
        ) ==> {
            &&& errors.len() == 1
            &&& diagnose(skip, seen).position.outcomes <= seen.outcomes.len()
            &&& forall|j: int|
                0 <= j < diagnose(skip, seen).position.outcomes - 1
                    ==> #[trigger] seen.outcomes[j] is Success
        },
        required_sweep(skip, seen) matches SweepView::Finished(required) ==> (required.errors.len()
            == 0 ==> forall|j: int|
            0 <= j < required.position.outcomes ==> #[trigger] seen.outcomes[j] is Success),
{
    lemma_decisive_sweep_fails_fast(
        Tier::Required,
        Some(skip),
        seen,
        0,
        sweep_start(origin(), Seq::empty()),
    );
}

/// Only the required tier decides. Once its sweep has ended without a failure
/// record, the diagnostics do not fail, whatever the wanted tier does; and
/// they fail only over what the sweep of the required tier has found.
pub proof fn lemma_only_the_required_tier_decides(skip: Seq<Seq<char>>, seen: ObservationsView)
    ensures
        match required_sweep(skip, seen) {
            SweepView::Need(request) => diagnose(skip, seen).step == StepView::<
                VerdictView,
            >::Need(request),
            SweepView::Finished(required) => {
                &&& required.errors.len() == 0 && required.found ==> !(diagnose(
                    skip,
                    seen,
                ).step matches StepView::Done(Err(_)))
                &&& required.errors.len() > 0 ==> diagnose(skip, seen).step == StepView::<
                    VerdictView,
                >::Done(Err(DiagnosticsErrorView::RequiredFailed(required.errors)))
                &&& required.errors.len() == 0 && !required.found ==> diagnose(skip, seen).step
                    == StepView::<VerdictView>::Done(Err(DiagnosticsErrorView::NoRequiredFolder))
            },
        },
{
}

/// The sweep of a tier that is not decisive goes through every install root:
/// once it is over, it has taken up one listing for each root that was left,
/// and no probe, whatever failed on the way.
pub proof fn lemma_other_sweeps_visit_every_root(
    tier: Tier,
    disabled: Option<Seq<Seq<char>>>,
    seen: ObservationsView,
    root: nat,
    progress: SweepProgress,
)
    requires
        !tier.decisive(),
        root <= INSTALL_ROOTS,
    ensures
        sweep(tier, disabled, seen, root, progress) matches SweepView::Finished(swept) ==> {
            &&& swept.position.listings == progress.position.listings + (INSTALL_ROOTS - root)
            &&& swept.position.probes == progress.position.probes
            &&& swept.errors.len() >= progress.errors.len()
        },
    decreases INSTALL_ROOTS - root,
{
    let at = progress.position;
    if root < INSTALL_ROOTS && at.listings < seen.listings.len() {
        match tier_step(
            tier.name(),
            seen.listings[at.listings as int],
            disabled,
            seen.outcomes.skip(at.outcomes as int),
        ) {
            TierStepView::Run(entry) => {},
            TierStepView::Done { errors, skipped, used } => {
                lemma_other_sweeps_visit_every_root(
                    tier,
                    disabled,
                    seen,
                    root + 1,
                    progress.after(tier, errors, skipped, used),
                );
            },
        }
    }
}

/// No directory of the required tier, no diagnostics: where the probe of
/// each install root says that the directory is missing, the diagnostics fail
/// for want of it and run nothing.
pub proof fn lemma_no_required_folder(skip: Seq<Seq<char>>, seen: ObservationsView)
    requires
        seen.probes.len() >= INSTALL_ROOTS,
        forall|i: int| 0 <= i < INSTALL_ROOTS ==> !#[trigger] seen.probes[i],
    ensures
        diagnose(skip, seen).step == StepView::<VerdictView>::Done(
            Err(DiagnosticsErrorView::NoRequiredFolder),
        ),
{
    reveal_with_fuel(sweep, 3);
    assert(!seen.probes[0]);
    assert(!seen.probes[1]);
}

/// A sweep reads no outcome but those that it takes up, and takes them up in
/// order. Where it is over, it is over in the same way on any other
/// observations with the same probes and listings whose outcomes are the same
/// in the places that it took up.
pub proof fn lemma_sweep_reads_what_it_takes_up(
    tier: Tier,
    disabled: Option<Seq<Seq<char>>>,
    first: ObservationsView,
    second: ObservationsView,
    root: nat,
    progress: SweepProgress,
)
    requires
        first.probes == second.probes,
        first.listings == second.listings,
        progress.position.outcomes <= first.outcomes.len(),
        sweep(tier, disabled, first, root, progress) matches SweepView::Finished(swept)
            && swept.position.outcomes <= second.outcomes.len() && forall|j: int|
            progress.position.outcomes <= j < swept.position.outcomes ==> first.outcomes[j]
                == second.outcomes[j],
    ensures
        sweep(tier, disabled, second, root, progress) == sweep(
            tier,
            disabled,
            first,
            root,
            progress,
        ),
        sweep(tier, disabled, first, root, progress) matches SweepView::Finished(swept)
            && progress.position.outcomes <= swept.position.outcomes,
    decreases INSTALL_ROOTS - root,
{
    let at = progress.position;
    if root >= INSTALL_ROOTS {
    } else if tier.decisive() && !first.probes[at.probes as int] {
        lemma_sweep_reads_what_it_takes_up(
            tier,
            disabled,
            first,
            second,
            root + 1,
            progress.passing_over(),
        );
    } else {
        let listing = first.listings[at.listings as int];
        let rest = first.outcomes.skip(at.outcomes as int);
        let other = second.outcomes.skip(at.outcomes as int);
        match tier_step(tier.name(), listing, disabled, rest) {
            TierStepView::Run(entry) => {},
            TierStepView::Done { errors, skipped, used } => {
                let next = progress.after(tier, errors, skipped, used);
                if let ListingView::Entries(candidates) = listing {
                    lemma_failures_halt_no_other_tier(
                        tier.name(),
                        candidates,
                        disabled,
                        rest,
                        0,
                        no_progress(),
                    );
                }
                assert(at.outcomes + used <= first.outcomes.len());
                if !(tier.decisive() && errors.len() > 0) {
                    lemma_sweep_reads_what_it_takes_up(
                        tier,
                        disabled,
                        first,
                        second,
                        root + 1,
                        next,
                    );
                }
                if let ListingView::Entries(candidates) = listing {
                    assert forall|j: int| 0 <= j < used implies rest[j] == other[j] by {
                        assert(first.outcomes[at.outcomes + j] == second.outcomes[at.outcomes + j]);
                    }
                    lemma_tier_reads_what_it_takes_up(
                        tier.name(),
                        candidates,
                        disabled,
                        rest,
                        other,
                        0,
                        no_progress(),
                    );
                }
            },
        }
    }
}

/// In a sweep that is not decisive, what is recorded as skipped rests on the
/// listings and the skip list alone: two sweeps over the same listings that
/// are over have recorded the same names, whatever the outcomes were.
pub proof fn lemma_other_sweeps_skip_the_same(
    tier: Tier,
    disabled: Option<Seq<Seq<char>>>,
    first: ObservationsView,
    second: ObservationsView,
    root: nat,
    one: SweepProgress,
    other: SweepProgress,
)
    requires
        !tier.decisive(),
        first.listings == second.listings,
        one.position.listings == other.position.listings,
        one.skipped == other.skipped,
    ensures
        sweep(tier, disabled, first, root, one) matches SweepView::Finished(left) ==> (sweep(
            tier,
            disabled,
            second,
            root,
            other,
        ) matches SweepView::Finished(right) ==> left.skipped == right.skipped),
    decreases INSTALL_ROOTS - root,
{
    if root < INSTALL_ROOTS && one.position.listings < first.listings.len() {
        let listing = first.listings[one.position.listings as int];
        let rest_one = first.outcomes.skip(one.position.outcomes as int);
        let rest_other = second.outcomes.skip(other.position.outcomes as int);
        lemma_only_required_fails_fast(tier);
        if let ListingView::Entries(candidates) = listing {
            lemma_other_tiers_skip_the_same(
                tier.name(),
                candidates,
                disabled,
                rest_one,
                rest_other,
                0,
                no_progress(),
                no_progress(),
            );
        }
        if let TierStepView::Done { errors, skipped, used } = tier_step(
            tier.name(),
            listing,
            disabled,
            rest_one,
        ) {
            if let TierStepView::Done { errors: errors2, skipped: skipped2, used: used2 } =
                tier_step(tier.name(), listing, disabled, rest_other) {
                lemma_other_sweeps_skip_the_same(
                    tier,
                    disabled,
                    first,
                    second,
                    root + 1,
                    one.after(tier, errors, skipped, used),
                    other.after(tier, errors2, skipped2, used2),
                );
            }
        }
    }
}

/// Only the outcomes of the required tier decide. Take two runs of the
/// diagnostics on the same probes and listings, let the sweep of the required
/// tier be over in the first, and let the second have the same outcomes as far
/// as that sweep took them up. Then the sweep of the required tier ends in the
/// same way in the second; where it has passed neither run fails, whatever the
/// artifacts of the wanted tier did in either; and where both runs are over
/// they end alike.
pub proof fn lemma_wanted_outcomes_decide_nothing(
    skip: Seq<Seq<char>>,
    first: ObservationsView,
    second: ObservationsView,
)
    requires
        first.probes == second.probes,
        first.listings == second.listings,
        required_sweep(skip, first) matches SweepView::Finished(required)
            && required.position.outcomes <= second.outcomes.len() && forall|j: int|
            0 <= j < required.position.outcomes ==> first.outcomes[j] == second.outcomes[j],
    ensures
        required_sweep(skip, second) == required_sweep(skip, first),
        required_sweep(skip, first) matches SweepView::Finished(required) && (required.errors.len()
            == 0 && required.found ==> !(diagnose(skip, first).step matches StepView::Done(Err(_)))
            && !(diagnose(skip, second).step matches StepView::Done(Err(_)))),
        diagnose(skip, first).step matches StepView::Done(one) ==> (diagnose(
            skip,
            second,
        ).step matches StepView::Done(other) ==> one == other),
        diagnose(skip, first).step matches StepView::Done(Err(_)) ==> diagnose(skip, second)
            == diagnose(skip, first),
{
    let start = sweep_start(origin(), Seq::empty());
    lemma_sweep_reads_what_it_takes_up(Tier::Required, Some(skip), first, second, 0, start);
    if let SweepView::Finished(required) = sweep(Tier::Required, Some(skip), first, 0, start) {
        let next = sweep_start(required.position, required.skipped);
        lemma_other_sweeps_skip_the_same(Tier::Wanted, Some(skip), first, second, 0, next, next);
    }
}

} // verus!
