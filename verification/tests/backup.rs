use auto_backup::backup::{archive_file_name, following_phase, read_clock, step_clock_reading};
use auto_backup::log::format_log_entry;
use auto_backup::{
    advance_backup, append_log, backup_step, checked_hour_check, save_log, AppState, BackupAction,
    BackupPhase, ClockReading, Schedule,
};

fn state_with(use_zip: bool) -> AppState {
    let mut state = AppState::new();
    state.add_schedule(Schedule::new(
        "/other".to_string(),
        "/elsewhere".to_string(),
        "1".to_string(),
        String::new(),
        String::new(),
        false,
    ));
    state.add_schedule(Schedule::new(
        "/data".to_string(),
        "/backup/data".to_string(),
        "24".to_string(),
        "*.tmp *.log".to_string(),
        "node_modules".to_string(),
        use_zip,
    ));
    state
}

fn is_log_stamp(stamp: &str) -> bool {
    let bytes = stamp.as_bytes();
    bytes.len() == 19
        && bytes.iter().enumerate().all(|(at, byte)| match at {
            4 | 7 => *byte == b'-',
            10 => *byte == b' ',
            13 | 16 => *byte == b':',
            _ => byte.is_ascii_digit(),
        })
}

#[test]
fn a_log_entry_is_time_in_brackets_and_message() {
    assert_eq!(
        format_log_entry("2024-01-01 05:00:00", "Application started"),
        "[2024-01-01 05:00:00] Application started"
    );
    assert_eq!(format_log_entry("", ""), "[] ");
}

#[test]
fn append_log_adds_one_entry_at_the_end() {
    let mut state = state_with(false);
    append_log(&mut state, "2024-01-01 05:00:00", "first");
    append_log(&mut state, "2024-01-01 05:00:01", "second");
    assert_eq!(state.logs, vec!["[2024-01-01 05:00:00] first", "[2024-01-01 05:00:01] second"]);
    assert_eq!(state.list_schedule.len(), 2);
    assert_eq!(state.n_sel_index, -1);
}

#[test]
fn save_log_stamps_the_entry_with_the_local_time() {
    let mut state = AppState::new();
    save_log(&mut state, "Application started");
    assert_eq!(state.logs.len(), 1);
    let entry = &state.logs[0];
    assert!(entry.starts_with('['));
    assert!(entry.ends_with("] Application started"));
    assert!(is_log_stamp(&entry[1..entry.len() - "] Application started".len()]));
}

#[test]
fn the_phases_follow_one_another() {
    for use_zip in [false, true] {
        assert_eq!(following_phase(BackupPhase::Idle, use_zip), BackupPhase::LoggingStart);
        assert_eq!(following_phase(BackupPhase::LoggingStart, use_zip), BackupPhase::Copying);
        assert_eq!(following_phase(BackupPhase::Archiving, use_zip), BackupPhase::LoggingEnd);
        assert_eq!(following_phase(BackupPhase::LoggingEnd, use_zip), BackupPhase::UpdatingTimestamp);
        assert_eq!(following_phase(BackupPhase::UpdatingTimestamp, use_zip), BackupPhase::Idle);
    }
    assert_eq!(following_phase(BackupPhase::Copying, true), BackupPhase::Archiving);
    assert_eq!(following_phase(BackupPhase::Copying, false), BackupPhase::LoggingEnd);
}

#[test]
fn each_step_reads_the_clock_it_needs() {
    assert_eq!(step_clock_reading(BackupPhase::Idle, false), ClockReading::LogStamp);
    assert_eq!(step_clock_reading(BackupPhase::LoggingStart, true), ClockReading::Unread);
    assert_eq!(step_clock_reading(BackupPhase::Copying, true), ClockReading::HourStamp);
    assert_eq!(step_clock_reading(BackupPhase::Copying, false), ClockReading::LogStamp);
    assert_eq!(step_clock_reading(BackupPhase::Archiving, true), ClockReading::LogStamp);
    assert_eq!(step_clock_reading(BackupPhase::LoggingEnd, false), ClockReading::FullTime);
    assert_eq!(step_clock_reading(BackupPhase::UpdatingTimestamp, false), ClockReading::Unread);
}

#[test]
fn the_clock_is_read_in_the_form_asked_for() {
    assert_eq!(read_clock(ClockReading::Unread), "");
    assert!(is_log_stamp(&read_clock(ClockReading::LogStamp)));
    let hour = read_clock(ClockReading::HourStamp);
    assert_eq!(hour.len(), 8);
    assert!(hour.bytes().all(|byte| byte.is_ascii_digit()));
    let full = read_clock(ClockReading::FullTime);
    assert_eq!(checked_hour_check(&full, &full), Ok(0));
}

#[test]
fn the_archive_is_named_by_destination_and_hour() {
    assert_eq!(archive_file_name("/backup/data", "24010105"), "/backup/data_24010105.zip");
    assert_eq!(archive_file_name("", ""), "_.zip");
}

#[test]
fn a_run_without_archive_takes_five_steps() {
    let mut state = state_with(false);
    let (phase, action) = backup_step(&mut state, 1, BackupPhase::Idle, "2024-01-01 05:00:00");
    assert_eq!(phase, BackupPhase::LoggingStart);
    assert!(matches!(action, BackupAction::Proceed));
    assert_eq!(state.logs, vec!["[2024-01-01 05:00:00] /data backup started"]);

    let (phase, action) = backup_step(&mut state, 1, phase, "");
    assert_eq!(phase, BackupPhase::Copying);
    match action {
        BackupAction::Copy(job) => {
            assert_eq!(job.source, "/data");
            assert_eq!(job.dest, "/backup/data");
            assert_eq!(job.skip_files, vec!["*.tmp", "*.log"]);
            assert_eq!(job.skip_folders, vec!["node_modules"]);
        }
        _ => panic!("the step into Copying asks for the copy"),
    }
    assert_eq!(state.logs.len(), 1);

    let (phase, action) = backup_step(&mut state, 1, phase, "2024-01-01 05:00:07");
    assert_eq!(phase, BackupPhase::LoggingEnd);
    assert!(matches!(action, BackupAction::Proceed));
    assert_eq!(
        state.logs,
        vec![
            "[2024-01-01 05:00:00] /data backup started",
            "[2024-01-01 05:00:07] /data backup completed"
        ]
    );
    assert_eq!(state.list_schedule[1].dt_last_time, "");

    let (phase, action) = backup_step(&mut state, 1, phase, "2024-01-01 05:00:07.5 +00:00");
    assert_eq!(phase, BackupPhase::UpdatingTimestamp);
    assert!(matches!(action, BackupAction::Proceed));
    assert_eq!(state.list_schedule[1].dt_last_time, "2024-01-01 05:00:07.5 +00:00");

    let (phase, action) = backup_step(&mut state, 1, phase, "");
    assert_eq!(phase, BackupPhase::Idle);
    assert!(matches!(action, BackupAction::Proceed));
    assert_eq!(state.logs.len(), 2);
    assert_eq!(state.list_schedule[1].s_dir_source, "/data");
    assert_eq!(state.list_schedule[1].s_skip_file, "*.tmp *.log");
    assert_eq!(state.list_schedule[0].dt_last_time, "");
    assert_eq!(state.list_schedule.len(), 2);
}

#[test]
fn a_run_with_archive_takes_six_steps() {
    let mut state = state_with(true);
    let (phase, _) = backup_step(&mut state, 1, BackupPhase::Idle, "2024-01-01 05:00:00");
    let (phase, _) = backup_step(&mut state, 1, phase, "");
    let (phase, action) = backup_step(&mut state, 1, phase, "24010105");
    assert_eq!(phase, BackupPhase::Archiving);
    match action {
        BackupAction::Archive(job) => {
            assert_eq!(job.program, "7z.exe");
            assert_eq!(job.archive, "/backup/data_24010105.zip");
            assert_eq!(job.arguments, vec!["a", "-tzip", "/backup/data_24010105.zip", "/backup/data"]);
        }
        _ => panic!("the step into Archiving asks for the archive"),
    }
    assert_eq!(state.logs.len(), 1);
    let (phase, _) = backup_step(&mut state, 1, phase, "2024-01-01 05:00:09");
    assert_eq!(phase, BackupPhase::LoggingEnd);
    let (phase, _) = backup_step(&mut state, 1, phase, "2024-01-01 05:00:09 +00:00");
    assert_eq!(phase, BackupPhase::UpdatingTimestamp);
    let (phase, _) = backup_step(&mut state, 1, phase, "");
    assert_eq!(phase, BackupPhase::Idle);
    assert_eq!(
        state.logs,
        vec![
            "[2024-01-01 05:00:00] /data backup started",
            "[2024-01-01 05:00:09] /data backup completed"
        ]
    );
    assert_eq!(state.list_schedule[1].dt_last_time, "2024-01-01 05:00:09 +00:00");
}

#[test]
fn two_runs_within_one_hour_name_one_archive() {
    let mut names = Vec::new();
    for log_stamp in ["2024-01-01 05:01:00", "2024-01-01 05:59:00"] {
        let mut state = state_with(true);
        let (phase, _) = backup_step(&mut state, 1, BackupPhase::Idle, log_stamp);
        let (phase, _) = backup_step(&mut state, 1, phase, "");
        match backup_step(&mut state, 1, phase, "24010105").1 {
            BackupAction::Archive(job) => names.push(job.archive),
            _ => panic!("the step into Archiving asks for the archive"),
        }
    }
    assert_eq!(names[0], names[1]);
    assert_eq!(archive_file_name("/backup/data", "24010106"), "/backup/data_24010106.zip");
    assert_ne!(names[0], archive_file_name("/backup/data", "24010106"));
}

#[test]
fn every_run_logs_start_and_end_and_notes_its_time() {
    for use_zip in [false, true] {
        let mut state = state_with(use_zip);
        state.list_schedule[1].dt_last_time = "2023-12-31 05:00:00 +00:00".to_string();
        let mut phase = BackupPhase::Idle;
        let mut steps = 0;
        loop {
            let (next, _) = advance_backup(&mut state, 1, phase);
            steps += 1;
            phase = next;
            if phase == BackupPhase::Idle {
                break;
            }
        }
        assert_eq!(steps, if use_zip { 6 } else { 5 });
        assert_eq!(state.logs.len(), 2);
        assert!(state.logs[0].ends_with("] /data backup started"));
        assert!(state.logs[1].ends_with("] /data backup completed"));
        assert!(is_log_stamp(&state.logs[0][1..20]));
        assert!(is_log_stamp(&state.logs[1][1..20]));
        let noted = state.list_schedule[1].dt_last_time.clone();
        assert_ne!(noted, "2023-12-31 05:00:00 +00:00");
        assert_eq!(checked_hour_check(&noted, &noted), Ok(0));
        assert!(checked_hour_check("2023-12-31 05:00:00 +00:00", &noted).unwrap() >= 24);
        assert_eq!(state.list_schedule[0].dt_last_time, "");
        assert_eq!(state.list_schedule.len(), 2);
    }
}

#[test]
fn a_step_asks_for_the_archive_under_the_hour_of_the_clock() {
    let mut state = state_with(true);
    let (_, action) = advance_backup(&mut state, 1, BackupPhase::Copying);
    match action {
        BackupAction::Archive(job) => {
            assert!(job.archive.starts_with("/backup/data_"));
            assert!(job.archive.ends_with(".zip"));
            assert_eq!(job.archive.len(), "/backup/data_".len() + 8 + ".zip".len());
            assert_eq!(job.arguments[2], job.archive);
            assert_eq!(job.arguments[3], "/backup/data");
        }
        _ => panic!("the step into Archiving asks for the archive"),
    }
}
