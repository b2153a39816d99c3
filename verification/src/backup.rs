//! One backup run, phase by phase.
//!
//! A run goes from `Idle` through logging its start, copying, archiving
//! where the rule asks for it, logging its end and noting the time, back
//! to `Idle`. It never goes back and never stops halfway: the copy and the
//! archive are the host's work, and whatever became of them, the next
//! phase is the same. Each step here enters one phase, changes the state
//! as that phase asks, and hands the host what it has to do before the
//! next step.

use crate::clock::{is_hour_stamp, is_log_stamp, local_time_formatted, local_time_text};
use crate::copy::skip_list;
use crate::log::{append_log, log_entry, with_log};
use crate::schedule::{schedule_views, AppState, AppStateView, Schedule, ScheduleView};
use crate::text::{split, texts};
use vstd::prelude::*;

verus! {

/// The phases of a run.
#[derive(Clone, Copy, PartialEq, Eq, Debug, Structural)]
pub enum BackupPhase {
    /// No run is under way.
    Idle,
    /// The start of the run has been logged.
    LoggingStart,
    /// The host copies the source tree.
    Copying,
    /// The host archives the destination.
    Archiving,
    /// The end of the run has been logged.
    LoggingEnd,
    /// The time of the run has been noted in the rule.
    UpdatingTimestamp,
}

/// The phase that follows `phase`. Only the way out of `Copying` depends
/// on the rule: archiving is entered where the rule asks for an archive.
pub open spec fn next_phase(phase: BackupPhase, use_zip: bool) -> BackupPhase {
    match phase {
        BackupPhase::Idle => BackupPhase::LoggingStart,
        BackupPhase::LoggingStart => BackupPhase::Copying,
        BackupPhase::Copying => if use_zip {
            BackupPhase::Archiving
        } else {
            BackupPhase::LoggingEnd
        },
        BackupPhase::Archiving => BackupPhase::LoggingEnd,
        BackupPhase::LoggingEnd => BackupPhase::UpdatingTimestamp,
        BackupPhase::UpdatingTimestamp => BackupPhase::Idle,
    }
}

/// What a step reads from the clock.
#[derive(Clone, Copy, PartialEq, Eq, Debug, Structural)]
pub enum ClockReading {
    /// The step reads no clock.
    Unread,
    /// The time of a log entry, to the second.
    LogStamp,
    /// The hour of an archive's name.
    HourStamp,
    /// The full local time, which becomes the rule's last-run time.
    FullTime,
}

/// What the step out of `phase` reads from the clock.
pub open spec fn clock_reading(phase: BackupPhase, use_zip: bool) -> ClockReading {
    match next_phase(phase, use_zip) {
        BackupPhase::LoggingStart => ClockReading::LogStamp,
        BackupPhase::LoggingEnd => ClockReading::LogStamp,
        BackupPhase::Archiving => ClockReading::HourStamp,
        BackupPhase::UpdatingTimestamp => ClockReading::FullTime,
        _ => ClockReading::Unread,
    }
}

/// The message that opens a run.
pub open spec fn started_message(source: Seq<char>) -> Seq<char> {
    source + " backup started"@
}

/// The message that closes a run.
pub open spec fn completed_message(source: Seq<char>) -> Seq<char> {
    source + " backup completed"@
}

/// The name of the archive of `dest` for the hour `hour`. It depends on
/// these two alone, so there is one archive for each destination and hour.
pub open spec fn archive_name(dest: Seq<char>, hour: Seq<char>) -> Seq<char> {
    dest + "_"@ + hour + ".zip"@
}

/// The program that archives.
pub open spec fn archiver() -> Seq<char> {
    "7z.exe"@
}

/// The arguments that make the archiver add the tree at `dest` to the zip
/// archive `archive`.
pub open spec fn archive_arguments(dest: Seq<char>, archive: Seq<char>) -> Seq<Seq<char>> {
    seq!["a"@, "-tzip"@, archive, dest]
}

/// A copy for the host to make: the tree at `source` is mirrored under
/// `dest`, without the files and directories that the two lists exclude.
pub struct CopyJob {
    /// The root of the source tree.
    pub source: String,
    /// The root of the destination tree.
    pub dest: String,
    /// The patterns of the files that are not copied.
    pub skip_files: Vec<String>,
    /// The names of the directories that are not entered.
    pub skip_folders: Vec<String>,
}

/// The mathematical value of a [`CopyJob`].
pub ghost struct CopyJobView {
    pub source: Seq<char>,
    pub dest: Seq<char>,
    pub skip_files: Seq<Seq<char>>,
    pub skip_folders: Seq<Seq<char>>,
}

impl View for CopyJob {
    type V = CopyJobView;

    open spec fn view(&self) -> CopyJobView {
        CopyJobView {
            source: self.source@,
            dest: self.dest@,
            skip_files: texts(self.skip_files@),
            skip_folders: texts(self.skip_folders@),
        }
    }
}

/// An archive for the host to make: a file named `archive` that is there
/// is deleted, then `program` is run with `arguments`. What the program
/// answers is not looked at.
pub struct ArchiveJob {
    /// The program that archives.
    pub program: String,
    /// The arguments with which it is run.
    pub arguments: Vec<String>,
    /// The name of the archive, which is among the arguments.
    pub archive: String,
}

/// The mathematical value of an [`ArchiveJob`].
pub ghost struct ArchiveJobView {
    pub program: Seq<char>,
    pub arguments: Seq<Seq<char>>,
    pub archive: Seq<char>,
}

impl View for ArchiveJob {
    type V = ArchiveJobView;

    open spec fn view(&self) -> ArchiveJobView {
        ArchiveJobView {
            program: self.program@,
            arguments: texts(self.arguments@),
            archive: self.archive@,
        }
    }
}

/// What the host does after a step and before the next one.
pub enum BackupAction {
    /// Nothing.
    Proceed,
    /// The copy.
    Copy(CopyJob),
    /// The archive.
    Archive(ArchiveJob),
}

/// The mathematical value of a [`BackupAction`].
pub ghost enum BackupActionView {
    Proceed,
    Copy(CopyJobView),
    Archive(ArchiveJobView),
}

impl View for BackupAction {
    type V = BackupActionView;

    open spec fn view(&self) -> BackupActionView {
        match self {
            BackupAction::Proceed => BackupActionView::Proceed,
            BackupAction::Copy(job) => BackupActionView::Copy(job@),
            BackupAction::Archive(job) => BackupActionView::Archive(job@),
        }
    }
}

/// The state after the step out of `phase` for the rule at `index`, where
/// the clock read `clock`: entering a logging phase appends one entry,
/// entering `UpdatingTimestamp` sets the rule's last-run time, and no
/// other phase changes anything.
pub open spec fn step_state(
    state: AppStateView,
    index: int,
    phase: BackupPhase,
    clock: Seq<char>,
) -> AppStateView {
    let rule = state.schedules[index];
    match next_phase(phase, rule.use_zip) {
        BackupPhase::LoggingStart => with_log(state, clock, started_message(rule.source)),
        BackupPhase::LoggingEnd => with_log(state, clock, completed_message(rule.source)),
        BackupPhase::UpdatingTimestamp => AppStateView {
            schedules: state.schedules.update(index, ScheduleView { last_time: clock, ..rule }),
            ..state
        },
        _ => state,
    }
}

/// What the host has to do after the step out of `phase`.
pub open spec fn step_action(
    state: AppStateView,
    index: int,
    phase: BackupPhase,
    clock: Seq<char>,
) -> BackupActionView {
    let rule = state.schedules[index];
    match next_phase(phase, rule.use_zip) {
        BackupPhase::Copying => BackupActionView::Copy(
            CopyJobView {
                source: rule.source,
                dest: rule.dest,
                skip_files: split(rule.skip_file, ' '),
                skip_folders: split(rule.skip_folder, ' '),
            },
        ),
        BackupPhase::Archiving => BackupActionView::Archive(
            ArchiveJobView {
                program: archiver(),
                arguments: archive_arguments(rule.dest, archive_name(rule.dest, clock)),
                archive: archive_name(rule.dest, clock),
            },
        ),
        _ => BackupActionView::Proceed,
    }
}

/// Computes the phase that follows `phase`.
pub fn following_phase(phase: BackupPhase, use_zip: bool) -> (next: BackupPhase)
    ensures
        next == next_phase(phase, use_zip),
{
    match phase {
        BackupPhase::Idle => BackupPhase::LoggingStart,
        BackupPhase::LoggingStart => BackupPhase::Copying,
        BackupPhase::Copying => if use_zip {
            BackupPhase::Archiving
        } else {
            BackupPhase::LoggingEnd
        },
        BackupPhase::Archiving => BackupPhase::LoggingEnd,
        BackupPhase::LoggingEnd => BackupPhase::UpdatingTimestamp,
        BackupPhase::UpdatingTimestamp => BackupPhase::Idle,
    }
}

/// Writes the name of the archive of `dest` for the hour `hour`.
pub fn archive_file_name(dest: &str, hour: &str) -> (name: String)
    ensures
        name@ == archive_name(dest@, hour@),
{
    let mut name = String::from_str(dest);
    name.append("_");
    name.append(hour);
    name.append(".zip");
    name
}

fn archive_job(dest: &str, hour: &str) -> (job: ArchiveJob)
    ensures
        job@ == (ArchiveJobView {
            program: archiver(),
            arguments: archive_arguments(dest@, archive_name(dest@, hour@)),
            archive: archive_name(dest@, hour@),
        }),
{
    let archive = archive_file_name(dest, hour);
    let mut arguments: Vec<String> = Vec::new();
    arguments.push(String::from_str("a"));
    arguments.push(String::from_str("-tzip"));
    arguments.push(archive.clone());
    arguments.push(String::from_str(dest));
    let job = ArchiveJob { program: String::from_str("7z.exe"), arguments, archive };
    proof {
        assert(job@.arguments =~= archive_arguments(dest@, archive_name(dest@, hour@)));
    }
    job
}

fn copy_job(rule: &Schedule) -> (job: CopyJob)
    ensures
        job@ == (CopyJobView {
            source: rule@.source,
            dest: rule@.dest,
            skip_files: split(rule@.skip_file, ' '),
            skip_folders: split(rule@.skip_folder, ' '),
        }),
{
    CopyJob {
        source: rule.s_dir_source.clone(),
        dest: rule.s_dir_dest.clone(),
        skip_files: skip_list(rule.s_skip_file.as_str()),
        skip_folders: skip_list(rule.s_skip_folder.as_str()),
    }
}

/// Takes the step out of `phase` in the run of the rule at
/// `schedule_index`, where the clock read `clock`: enters the next phase,
/// changes the state as that phase asks, and returns the phase together
/// with what the host has to do before the next step. `clock` is what
/// [`clock_reading`] names for this step; a step that reads no clock
/// does not look at it.
pub fn backup_step(
    app_state: &mut AppState,
    schedule_index: usize,
    phase: BackupPhase,
    clock: &str,
) -> (step: (BackupPhase, BackupAction))
    requires
        schedule_index < old(app_state).list_schedule.len(),
    ensures
        step.0 == next_phase(phase, old(app_state)@.schedules[schedule_index as int].use_zip),
        step.1@ == step_action(old(app_state)@, schedule_index as int, phase, clock@),
        final(app_state)@ == step_state(old(app_state)@, schedule_index as int, phase, clock@),
        final(app_state).list_schedule.len() == old(app_state).list_schedule.len(),
        old(app_state).wf() ==> final(app_state).wf(),
{
    let next = following_phase(phase, app_state.list_schedule[schedule_index].b_use_zip);
    match next {
        BackupPhase::LoggingStart => {
            let mut message = app_state.list_schedule[schedule_index].s_dir_source.clone();
            message.append(" backup started");
            append_log(app_state, clock, message.as_str());
            (next, BackupAction::Proceed)
        },
        BackupPhase::Copying => {
            let job = copy_job(&app_state.list_schedule[schedule_index]);
            (next, BackupAction::Copy(job))
        },
        BackupPhase::Archiving => {
            let job = archive_job(app_state.list_schedule[schedule_index].s_dir_dest.as_str(), clock);
            (next, BackupAction::Archive(job))
        },
        BackupPhase::LoggingEnd => {
            let mut message = app_state.list_schedule[schedule_index].s_dir_source.clone();
            message.append(" backup completed");
            append_log(app_state, clock, message.as_str());
            (next, BackupAction::Proceed)
        },
        BackupPhase::UpdatingTimestamp => {
            let mut rule = app_state.list_schedule[schedule_index].clone();
            rule.dt_last_time = String::from_str(clock);
            proof {
                assert(schedule_views(app_state.list_schedule@.update(schedule_index as int, rule))
                    =~= schedule_views(app_state.list_schedule@).update(
                    schedule_index as int,
                    rule@,
                ));
            }
            app_state.list_schedule.set(schedule_index, rule);
            (next, BackupAction::Proceed)
        },
        BackupPhase::Idle => (next, BackupAction::Proceed),
    }
}

/// Computes what the step out of `phase` reads from the clock.
pub fn step_clock_reading(phase: BackupPhase, use_zip: bool) -> (reading: ClockReading)
    ensures
        reading == clock_reading(phase, use_zip),
{
    match following_phase(phase, use_zip) {
        BackupPhase::LoggingStart => ClockReading::LogStamp,
        BackupPhase::LoggingEnd => ClockReading::LogStamp,
        BackupPhase::Archiving => ClockReading::HourStamp,
        BackupPhase::UpdatingTimestamp => ClockReading::FullTime,
        _ => ClockReading::Unread,
    }
}

/// Whether `text` has the form of the reading: a log stamp is a date and
/// a time to the second, an hour stamp is eight digits, and where no
/// clock is read the text is empty. The full time is written as the
/// calendar writes it, date, time and offset, and no form is laid down
/// for it here.
pub open spec fn clock_form(reading: ClockReading, text: Seq<char>) -> bool {
    match reading {
        ClockReading::Unread => text == Seq::<char>::empty(),
        ClockReading::LogStamp => is_log_stamp(text),
        ClockReading::HourStamp => is_hour_stamp(text),
        ClockReading::FullTime => true,
    }
}

/// Reads the local time in the form that `reading` names; no clock is
/// read for `Unread`, and the text is empty.
pub fn read_clock(reading: ClockReading) -> (clock: String)
    ensures
        clock_form(reading, clock@),
{
    match reading {
        ClockReading::Unread => String::new(),
        ClockReading::LogStamp => local_time_formatted("%Y-%m-%d %H:%M:%S"),
        ClockReading::HourStamp => local_time_formatted("%y%m%d%H"),
        ClockReading::FullTime => local_time_text(),
    }
}

/// Takes the step out of `phase` in the run of the rule at
/// `schedule_index`, at the local time at which this is called. Whatever
/// the clock says, the step is the one that [`backup_step`] takes for
/// some reading of it.
pub fn advance_backup(app_state: &mut AppState, schedule_index: usize, phase: BackupPhase) -> (step: (
    BackupPhase,
    BackupAction,
))
    requires
        schedule_index < old(app_state).list_schedule.len(),
    ensures
        step.0 == next_phase(phase, old(app_state)@.schedules[schedule_index as int].use_zip),
        exists|clock: Seq<char>|
            {
                &&& clock_form(
                    clock_reading(phase, old(app_state)@.schedules[schedule_index as int].use_zip),
                    clock,
                )
                &&& step.1@ == #[trigger] step_action(
                    old(app_state)@,
                    schedule_index as int,
                    phase,
                    clock,
                )
                &&& final(app_state)@ == step_state(
                    old(app_state)@,
                    schedule_index as int,
                    phase,
                    clock,
                )
            },
        final(app_state).list_schedule.len() == old(app_state).list_schedule.len(),
        old(app_state).wf() ==> final(app_state).wf(),
{
    let reading = step_clock_reading(phase, app_state.list_schedule[schedule_index].b_use_zip);
    let clock = read_clock(reading);
    let step = backup_step(app_state, schedule_index, phase, clock.as_str());
    assert(step.1@ == step_action(old(app_state)@, schedule_index as int, phase, clock@));
    step
}

/// The state and the phase after as many steps as `clocks` has entries,
/// taken from `phase` for the rule at `index`; each step reads its entry
/// of `clocks`.
pub open spec fn run(
    state: AppStateView,
    index: int,
    phase: BackupPhase,
    clocks: Seq<Seq<char>>,
) -> (AppStateView, BackupPhase)
    decreases clocks.len(),
{
    if clocks.len() == 0 {
        (state, phase)
    } else {
        let before = run(state, index, phase, clocks.drop_last());
        (
            step_state(before.0, index, before.1, clocks.last()),
            next_phase(before.1, before.0.schedules[index].use_zip),
        )
    }
}

/// The number of steps of a run: six with an archive, five without.
pub open spec fn run_length(use_zip: bool) -> nat {
    if use_zip {
        6
    } else {
        5
    }
}

/// Every run logs its start and its end and notes its time. From `Idle`
/// a run is back at `Idle` after `run_length` steps and not before. By
/// then the log has grown by exactly two entries, the start at the time
/// of the first step and the end at the time of the step into
/// `LoggingEnd`; the rule's last-run time is the time of the step behind
/// that; and nothing else has changed. The steps take nothing from the
/// host, so this holds whatever the copy and the archive found or did.
pub proof fn lemma_run_logs_and_stamps(state: AppStateView, index: int, clocks: Seq<Seq<char>>)
    requires
        0 <= index < state.schedules.len(),
        clocks.len() == run_length(state.schedules[index].use_zip),
    ensures
        run(state, index, BackupPhase::Idle, clocks).1 == BackupPhase::Idle,
        forall|k: int|
            0 < k < clocks.len() ==> (#[trigger] run(
                state,
                index,
                BackupPhase::Idle,
                clocks.take(k),
            )).1 != BackupPhase::Idle,
        ({
            let rule = state.schedules[index];
            let end: int = if rule.use_zip {
                3
            } else {
                2
            };
            run(state, index, BackupPhase::Idle, clocks).0 == (AppStateView {
                schedules: state.schedules.update(
                    index,
                    ScheduleView { last_time: clocks[end + 1], ..rule },
                ),
                selected: state.selected,
                logs: state.logs.push(log_entry(clocks[0], started_message(rule.source))).push(
                    log_entry(clocks[end], completed_message(rule.source)),
                ),
            })
        }),
{
    // The run is followed step by step: each prefix of the clock
    // readings is the one before it and one more reading.
    let idle = BackupPhase::Idle;
    let after = |steps: int| run(state, index, idle, clocks.take(steps));
    assert(clocks.take(1).drop_last() =~= clocks.take(0));
    assert(clocks.take(2).drop_last() =~= clocks.take(1));
    assert(clocks.take(3).drop_last() =~= clocks.take(2));
    assert(clocks.take(4).drop_last() =~= clocks.take(3));
    assert(clocks.take(5).drop_last() =~= clocks.take(4));
    assert(after(0) == (state, idle));
    assert(after(1).1 == BackupPhase::LoggingStart);
    assert(after(2).1 == BackupPhase::Copying);
    if state.schedules[index].use_zip {
        assert(clocks.take(6).drop_last() =~= clocks.take(5));
        assert(clocks.take(6) =~= clocks);
        assert(after(3).1 == BackupPhase::Archiving);
        assert(after(4).1 == BackupPhase::LoggingEnd);
        assert(after(5).1 == BackupPhase::UpdatingTimestamp);
    } else {
        assert(clocks.take(5) =~= clocks);
        assert(after(3).1 == BackupPhase::LoggingEnd);
        assert(after(4).1 == BackupPhase::UpdatingTimestamp);
    }
}

/// Two runs for one destination within one hour archive under one name:
/// whatever else the two states hold, the step into `Archiving` asks for
/// the same archive, which the host deletes before it is written again.
pub proof fn lemma_one_archive_per_hour(
    first: AppStateView,
    second: AppStateView,
    index: int,
    hour: Seq<char>,
)
    requires
        0 <= index < first.schedules.len(),
        0 <= index < second.schedules.len(),
        first.schedules[index].use_zip,
        second.schedules[index].use_zip,
        first.schedules[index].dest == second.schedules[index].dest,
    ensures
        step_action(first, index, BackupPhase::Copying, hour) == step_action(
            second,
            index,
            BackupPhase::Copying,
            hour,
        ),
        step_action(first, index, BackupPhase::Copying, hour) is Archive,
{
}

} // verus!
