//! The boot-partition mount guard.
//!
//! The guard reads the state of a mount point out of the text of the mount
//! table and decides whether a remount has to be asked for. It never mounts
//! anything itself: the caller reads the table, performs the remount that a
//! [`MountStep::Remount`] asks for, and hands the outcome back.

use crate::text::{
    chars_of, contains, contains_text, field, line_end, line_len, nth_field, same_text,
};
use vstd::prelude::*;
use vstd::slice::slice_subrange;
use vstd::string::*;

verus! {

/// Why the mount guard could not do its work.
#[derive(Debug, Clone, PartialEq, Eq)]
pub enum MountError {
    /// The remount was attempted and refused; the text says why.
    RemountFailed(String),
    /// The mount table could not be read or has no record of the mount point.
    MountInfoError,
}

/// A [`MountError`] with its text as a sequence of characters.
pub enum MountErrorView {
    RemountFailed(Seq<char>),
    MountInfoError,
}

impl View for MountError {
    type V = MountErrorView;

    open spec fn view(&self) -> MountErrorView {
        match self {
            MountError::RemountFailed(detail) => MountErrorView::RemountFailed(detail@),
            MountError::MountInfoError => MountErrorView::MountInfoError,
        }
    }
}

impl MountErrorView {
    /// The message that goes with the error.
    pub open spec fn message(self) -> Seq<char> {
        match self {
            MountErrorView::RemountFailed(detail) => "Failed to remount /boot: "@ + detail,
            MountErrorView::MountInfoError => "Failed to read mount info"@,
        }
    }
}

impl MountError {
    /// The message that goes with the error.
    pub fn message(&self) -> (text: String)
        ensures
            text@ == self@.message(),
    {
        match self {
            MountError::RemountFailed(detail) => String::from_str("Failed to remount /boot: ").concat(
                detail.as_str(),
            ),
            MountError::MountInfoError => String::from_str("Failed to read mount info"),
        }
    }
}

/// The mount point that the guard watches over.
pub open spec fn boot_mount_point() -> Seq<char> {
    "/boot"@
}

/// The option field of the first record of `table`, at or after index `from`,
/// whose mount point is `point`. A record is one line: fields delimited by
/// whitespace, the mount point second and the options fourth; a record without
/// a fourth field has no options.
pub open spec fn mount_options(table: Seq<char>, point: Seq<char>, from: int) -> Option<Seq<char>>
    decreases table.len() - from,
{
    if from < 0 || from >= table.len() {
        None
    } else {
        let end = from + line_len(table, from);
        let line = table.subrange(from, end);
        if field(line, 1) == Some(point) {
            Some(
                match field(line, 3) {
                    Some(options) => options,
                    None => Seq::empty(),
                },
            )
        } else if end >= table.len() {
            None
        } else {
            mount_options(table, point, end + 1)
        }
    }
}

/// Whether an option field stands for a read-write mount: it holds the text
/// `rw` and does not hold the text `ro`, wherever in the field they stand.
pub open spec fn options_read_write(options: Seq<char>) -> bool {
    contains_text(options, seq!['r', 'w']) && !contains_text(options, seq!['r', 'o'])
}

/// Whether `point` is mounted read-write according to `table`; the state is
/// unknown where the table is missing or has no record of `point`.
pub open spec fn mounted_rw(table: Option<Seq<char>>, point: Seq<char>) -> Result<
    bool,
    MountErrorView,
> {
    match table {
        Some(text) => match mount_options(text, point, 0) {
            Some(options) => Ok(options_read_write(options)),
            None => Err(MountErrorView::MountInfoError),
        },
        None => Err(MountErrorView::MountInfoError),
    }
}

/// The text of a mount table that may be missing.
pub open spec fn table_text(table: Option<&str>) -> Option<Seq<char>> {
    match table {
        Some(text) => Some(text@),
        None => None,
    }
}

/// Whether an executable answer and the answer of the model are the same.
pub open spec fn same_state(r: Result<bool, MountError>, model: Result<bool, MountErrorView>) -> bool {
    match r {
        Ok(rw) => model == Ok::<bool, MountErrorView>(rw),
        Err(e) => model == Err::<bool, MountErrorView>(e@),
    }
}

fn read_write(options: &[char]) -> (r: bool)
    ensures
        r == options_read_write(options@),
{
    let rw: Vec<char> = vec!['r', 'w'];
    let ro: Vec<char> = vec!['r', 'o'];
    assert(rw@ =~= seq!['r', 'w']);
    assert(ro@ =~= seq!['r', 'o']);
    contains(options, rw.as_slice()) && !contains(options, ro.as_slice())
}

/// Reads out of the mount table whether `mount_point` is mounted read-write.
///
/// `table` is the text of the mount table, `None` where it could not be read.
/// The first record of the mount point decides. Without such a record the
/// state is not assumed: the answer is [`MountError::MountInfoError`].
pub fn is_mounted_rw(table: Option<&str>, mount_point: &str) -> (r: Result<bool, MountError>)
    ensures
        same_state(r, mounted_rw(table_text(table), mount_point@)),
{
    let text: Vec<char> = match table {
        Some(t) => chars_of(t),
        None => {
            return Err(MountError::MountInfoError);
        },
    };
    let point: Vec<char> = chars_of(mount_point);
    let s = text.as_slice();
    let mut from: usize = 0;
    while from < s.len()
        invariant
            from <= s.len(),
            s@ == table_text(table)->0,
            table is Some,
            point@ == mount_point@,
            mount_options(s@, point@, 0) == mount_options(s@, point@, from as int),
        decreases s.len() - from,
    {
        let end = line_end(s, from);
        let line = slice_subrange(s, from, end);
        let found = match nth_field(line, 1) {
            Some((a, b)) => same_text(slice_subrange(line, a, b), point.as_slice()),
            None => false,
        };
        if found {
            let rw = match nth_field(line, 3) {
                Some((a, b)) => read_write(slice_subrange(line, a, b)),
                None => {
                    let none: Vec<char> = Vec::new();
                    assert(none@ =~= Seq::<char>::empty());
                    read_write(none.as_slice())
                },
            };
            return Ok(rw);
        }
        if end == s.len() {
            return Err(MountError::MountInfoError);
        }
        from = end + 1;
    }
    Err(MountError::MountInfoError)
}

/// Reads out of the mount table whether the boot partition is mounted
/// read-write.
pub fn is_boot_rw(table: Option<&str>) -> (r: Result<bool, MountError>)
    ensures
        same_state(r, mounted_rw(table_text(table), boot_mount_point())),
{
    is_mounted_rw(table, "/boot")
}

/// What a remount is asked to do, one flag for each mount flag that is set.
#[derive(Debug, Clone, Copy, PartialEq, Eq)]
pub struct RemountFlags {
    /// Change an existing mount.
    pub remount: bool,
    /// Make the mount read-only.
    pub read_only: bool,
    /// Treat the mount as a bind mount.
    pub bind: bool,
}

/// What a guarded remount came to.
#[derive(Debug, Clone, Copy, PartialEq, Eq)]
pub enum MountChange {
    /// The mount point was in the wanted state already; nothing was asked for.
    Unchanged,
    /// The mount point was remounted. From here on the process has changed
    /// the mount state of the boot partition.
    Remounted,
}

/// The guard's answer: a remount to perform, or the end.
#[derive(Debug, PartialEq, Eq)]
pub enum MountStep {
    /// Remount the mount point with these flags and report the outcome.
    Remount(RemountFlags),
    /// Nothing is left to do.
    Done(Result<MountChange, MountError>),
}

/// A [`MountStep`] with its texts as sequences of characters.
pub enum MountStepView {
    Remount(RemountFlags),
    Done(Result<MountChange, MountErrorView>),
}

impl View for MountStep {
    type V = MountStepView;

    open spec fn view(&self) -> MountStepView {
        match self {
            MountStep::Remount(flags) => MountStepView::Remount(*flags),
            MountStep::Done(Ok(change)) => MountStepView::Done(Ok(*change)),
            MountStep::Done(Err(e)) => MountStepView::Done(Err(e@)),
        }
    }
}

/// The flags of a remount that makes a mount point read-only.
pub open spec fn read_only_flags() -> RemountFlags {
    RemountFlags { remount: true, read_only: true, bind: false }
}

/// The flags of a remount that makes a mount point read-write.
pub open spec fn read_write_flags() -> RemountFlags {
    RemountFlags { remount: true, read_only: false, bind: true }
}

/// The outcome of a remount that may not have been attempted yet.
pub open spec fn attempt_text(attempt: Option<Result<(), String>>) -> Option<Result<(), Seq<char>>> {
    match attempt {
        Some(Ok(())) => Some(Ok(())),
        Some(Err(detail)) => Some(Err(detail@)),
        None => None,
    }
}

/// The guard's decision. `want_rw` is the state asked for, `state` what the
/// mount table says, `attempt` the outcome of the remount where one was
/// performed. A mount point that is in the wanted state is left alone,
/// whatever `attempt` holds.
pub open spec fn remount_step(
    want_rw: bool,
    state: Result<bool, MountErrorView>,
    attempt: Option<Result<(), Seq<char>>>,
) -> MountStepView {
    match state {
        Err(e) => MountStepView::Done(Err(e)),
        Ok(rw) => if rw == want_rw {
            MountStepView::Done(Ok(MountChange::Unchanged))
        } else {
            match attempt {
                None => MountStepView::Remount(
                    if want_rw {
                        read_write_flags()
                    } else {
                        read_only_flags()
                    },
                ),
                Some(Ok(())) => MountStepView::Done(Ok(MountChange::Remounted)),
                Some(Err(detail)) => MountStepView::Done(Err(MountErrorView::RemountFailed(detail))),
            }
        },
    }
}

fn remount(want_rw: bool, table: Option<&str>, attempt: Option<Result<(), String>>) -> (step:
    MountStep)
    ensures
        step@ == remount_step(
            want_rw,
            mounted_rw(table_text(table), boot_mount_point()),
            attempt_text(attempt),
        ),
{
    match is_boot_rw(table) {
        Err(e) => MountStep::Done(Err(e)),
        Ok(rw) => {
            if rw == want_rw {
                MountStep::Done(Ok(MountChange::Unchanged))
            } else {
                match attempt {
                    None => MountStep::Remount(
                        RemountFlags { remount: true, read_only: !want_rw, bind: want_rw },
                    ),
                    Some(Ok(())) => MountStep::Done(Ok(MountChange::Remounted)),
                    Some(Err(detail)) => MountStep::Done(Err(MountError::RemountFailed(detail))),
                }
            }
        },
    }
}

/// Guards the remount of the boot partition as read-only.
///
/// `table` is the text of the mount table as it was read before any remount
/// (`None` where it could not be read), and `attempt` the outcome of the
/// remount, once the caller has performed it.
/// Where the partition is read-only already the answer is success and no
/// remount is asked for.
pub fn remount_boot_ro(table: Option<&str>, attempt: Option<Result<(), String>>) -> (step:
    MountStep)
    ensures
        step@ == remount_step(
            false,
            mounted_rw(table_text(table), boot_mount_point()),
            attempt_text(attempt),
        ),
        mounted_rw(table_text(table), boot_mount_point()) == Ok::<bool, MountErrorView>(false)
            ==> step@ == MountStepView::Done(Ok(MountChange::Unchanged)),
{
    remount(false, table, attempt)
}

/// Guards the remount of the boot partition as read-write.
///
/// `table` is the text of the mount table as it was read before any remount
/// (`None` where it could not be read), and `attempt` the outcome of the
/// remount, once the caller has performed it.
/// Where the partition is read-write already the answer is success and no
/// remount is asked for.
pub fn remount_boot_rw(table: Option<&str>, attempt: Option<Result<(), String>>) -> (step:
    MountStep)
    ensures
        step@ == remount_step(
            true,
            mounted_rw(table_text(table), boot_mount_point()),
            attempt_text(attempt),
        ),
        mounted_rw(table_text(table), boot_mount_point()) == Ok::<bool, MountErrorView>(true)
            ==> step@ == MountStepView::Done(Ok(MountChange::Unchanged)),
{
    remount(true, table, attempt)
}

/// A mount point that is in the wanted state is never remounted: the guard
/// ends with success and asks for nothing, whether or not an earlier remount
/// was reported. What it asks for otherwise depends on the wanted state alone.
pub proof fn lemma_remount_is_idempotent(
    want_rw: bool,
    state: Result<bool, MountErrorView>,
    attempt: Option<Result<(), Seq<char>>>,
)
    ensures
        state == Ok::<bool, MountErrorView>(want_rw) ==> remount_step(want_rw, state, attempt)
            == MountStepView::Done(Ok(MountChange::Unchanged)),
        remount_step(want_rw, state, attempt) is Remount ==> state == Ok::<bool, MountErrorView>(
            !want_rw,
        ) && attempt is None,
        remount_step(want_rw, state, attempt) == MountStepView::Done(Ok(MountChange::Remounted))
            ==> state == Ok::<bool, MountErrorView>(!want_rw),
{
}

} // verus!
