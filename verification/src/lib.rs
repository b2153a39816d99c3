//! Scheduled backup rules: the schedule list and its text format, the
//! walk that copies a source tree without what is excluded, the phases of
//! one backup run, and the interval between two runs.
//!
//! The library decides and the host acts. Files are read, written and
//! copied by the host, and so is the archiver run; the library says what
//! is written, which directories are read and which files are copied, and
//! which step of a run comes next.

pub mod backup;
pub mod clock;
pub mod copy;
pub mod interval;
pub mod log;
pub mod number;
pub mod schedule;
pub mod store;
pub mod text;
pub mod tree;
pub mod walk;

pub use backup::{
    advance_backup, backup_step, ArchiveJob, BackupAction, BackupPhase, ClockReading, CopyJob,
};
pub use copy::{decide_entry, directory_start, DirEntry, DirectoryStart, EntryAction};
pub use interval::{checked_hour_check, hour_check, instant_hours, IntervalError};
pub use log::{append_log, save_log};
pub use schedule::{AppState, AppStateView, Schedule, ScheduleView};
pub use store::{format_data, parse_data};
pub use walk::{CopyWalk, Frame, WalkEvent, WalkRequest};
