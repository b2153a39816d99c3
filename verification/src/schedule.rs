//! The backup rules and the process-wide state that holds them.

use crate::text::texts;
use vstd::prelude::*;

verus! {

/// One backup rule together with the time of its last run.
pub struct Schedule {
    /// The tree that is backed up.
    pub s_dir_source: String,
    /// The mirror target.
    pub s_dir_dest: String,
    /// The run interval in hours, kept as the text the user entered.
    pub s_period: String,
    /// Space-separated extension patterns such as `*.tmp *.log`.
    pub s_skip_file: String,
    /// Space-separated directory names.
    pub s_skip_folder: String,
    /// Whether the mirror is archived after the copy.
    pub b_use_zip: bool,
    /// The time of the last run, empty until the first one.
    pub dt_last_time: String,
}

/// The mathematical value of a [`Schedule`]: each text field as its characters.
pub ghost struct ScheduleView {
    pub source: Seq<char>,
    pub dest: Seq<char>,
    pub period: Seq<char>,
    pub skip_file: Seq<char>,
    pub skip_folder: Seq<char>,
    pub use_zip: bool,
    pub last_time: Seq<char>,
}

impl View for Schedule {
    type V = ScheduleView;

    open spec fn view(&self) -> ScheduleView {
        ScheduleView {
            source: self.s_dir_source@,
            dest: self.s_dir_dest@,
            period: self.s_period@,
            skip_file: self.s_skip_file@,
            skip_folder: self.s_skip_folder@,
            use_zip: self.b_use_zip,
            last_time: self.dt_last_time@,
        }
    }
}

impl Clone for Schedule {
    fn clone(&self) -> (copy: Schedule)
        ensures
            copy@ == self@,
    {
        Schedule {
            s_dir_source: self.s_dir_source.clone(),
            s_dir_dest: self.s_dir_dest.clone(),
            s_period: self.s_period.clone(),
            s_skip_file: self.s_skip_file.clone(),
            s_skip_folder: self.s_skip_folder.clone(),
            b_use_zip: self.b_use_zip,
            dt_last_time: self.dt_last_time.clone(),
        }
    }
}

impl Schedule {
    /// A rule that has never run: the six given fields and an empty last-run time.
    pub fn new(
        s_dir_source: String,
        s_dir_dest: String,
        s_period: String,
        s_skip_file: String,
        s_skip_folder: String,
        b_use_zip: bool,
    ) -> (schedule: Schedule)
        ensures
            schedule@ == (ScheduleView {
                source: s_dir_source@,
                dest: s_dir_dest@,
                period: s_period@,
                skip_file: s_skip_file@,
                skip_folder: s_skip_folder@,
                use_zip: b_use_zip,
                last_time: Seq::<char>::empty(),
            }),
    {
        Schedule {
            s_dir_source,
            s_dir_dest,
            s_period,
            s_skip_file,
            s_skip_folder,
            b_use_zip,
            dt_last_time: String::new(),
        }
    }
}

/// The values of the rules of a list, in the order of the list.
pub open spec fn schedule_views(list: Seq<Schedule>) -> Seq<ScheduleView> {
    list.map_values(|schedule: Schedule| schedule@)
}

/// The process-wide state: the rules in insertion order, the position of
/// the selected rule, and the log of events.
pub struct AppState {
    /// The rules. A rule is known by its position only.
    pub list_schedule: Vec<Schedule>,
    /// The position of the selected rule, or -1 where none is selected.
    pub n_sel_index: i32,
    /// The event log, oldest entry first.
    pub logs: Vec<String>,
}

/// The mathematical value of an [`AppState`].
pub ghost struct AppStateView {
    pub schedules: Seq<ScheduleView>,
    pub selected: int,
    pub logs: Seq<Seq<char>>,
}

impl View for AppState {
    type V = AppStateView;

    open spec fn view(&self) -> AppStateView {
        AppStateView {
            schedules: schedule_views(self.list_schedule@),
            selected: self.n_sel_index as int,
            logs: texts(self.logs@),
        }
    }
}

impl AppState {
    /// The selection is none or names a rule of the list.
    pub open spec fn wf(&self) -> bool {
        self.n_sel_index == -1 || 0 <= self.n_sel_index < self.list_schedule.len()
    }

    /// The state at startup: no rule, no selection, an empty log.
    pub fn new() -> (state: AppState)
        ensures
            state@ == (AppStateView {
                schedules: Seq::empty(),
                selected: -1,
                logs: Seq::empty(),
            }),
            state.wf(),
    {
        let state = AppState { list_schedule: Vec::new(), n_sel_index: -1, logs: Vec::new() };
        proof {
            assert(state@.schedules =~= Seq::empty());
            assert(state@.logs =~= Seq::empty());
        }
        state
    }

    /// Appends a rule behind the rules that are there.
    pub fn add_schedule(&mut self, schedule: Schedule)
        ensures
            final(self)@ == (AppStateView {
                schedules: old(self)@.schedules.push(schedule@),
                ..old(self)@
            }),
            old(self).wf() ==> final(self).wf(),
    {
        proof {
            assert(schedule_views(self.list_schedule@.push(schedule)) =~= schedule_views(
                self.list_schedule@,
            ).push(schedule@));
        }
        self.list_schedule.push(schedule);
    }

    /// Replaces the six editable fields of the rule at `index`. Its last-run
    /// time stays, and so does every other rule.
    pub fn edit_schedule(
        &mut self,
        index: usize,
        s_dir_source: String,
        s_dir_dest: String,
        s_period: String,
        s_skip_file: String,
        s_skip_folder: String,
        b_use_zip: bool,
    )
        requires
            index < old(self).list_schedule.len(),
        ensures
            final(self)@ == (AppStateView {
                schedules: old(self)@.schedules.update(
                    index as int,
                    ScheduleView {
                        source: s_dir_source@,
                        dest: s_dir_dest@,
                        period: s_period@,
                        skip_file: s_skip_file@,
                        skip_folder: s_skip_folder@,
                        use_zip: b_use_zip,
                        last_time: old(self)@.schedules[index as int].last_time,
                    },
                ),
                ..old(self)@
            }),
            old(self).wf() ==> final(self).wf(),
    {
        let edited = Schedule {
            s_dir_source,
            s_dir_dest,
            s_period,
            s_skip_file,
            s_skip_folder,
            b_use_zip,
            dt_last_time: self.list_schedule[index].dt_last_time.clone(),
        };
        proof {
            assert(schedule_views(self.list_schedule@.update(index as int, edited))
                =~= schedule_views(self.list_schedule@).update(index as int, edited@));
        }
        self.list_schedule.set(index, edited);
    }

    /// Removes the rule at `index` and clears the selection: the rules
    /// behind it move one position forward, so no position is kept.
    pub fn delete_schedule(&mut self, index: usize)
        requires
            index < old(self).list_schedule.len(),
        ensures
            final(self)@ == (AppStateView {
                schedules: old(self)@.schedules.remove(index as int),
                selected: -1,
                logs: old(self)@.logs,
            }),
            final(self).wf(),
    {
        proof {
            assert(schedule_views(self.list_schedule@.remove(index as int)) =~= schedule_views(
                self.list_schedule@,
            ).remove(index as int));
        }
        self.list_schedule.remove(index);
        self.n_sel_index = -1;
    }

    /// Selects the rule at `index`.
    pub fn select_schedule(&mut self, index: usize)
        requires
            index < old(self).list_schedule.len(),
            index <= i32::MAX,
        ensures
            final(self)@ == (AppStateView { selected: index as int, ..old(self)@ }),
            final(self).wf(),
    {
        self.n_sel_index = index as i32;
    }

    /// The position of the selected rule, if the selection names a rule of the list.
    pub fn selected_index(&self) -> (selected: Option<usize>)
        ensures
            selected == if 0 <= self.n_sel_index < self.list_schedule.len() {
                Some(self.n_sel_index as usize)
            } else {
                None::<usize>
            },
    {
        if self.n_sel_index >= 0 && (self.n_sel_index as usize) < self.list_schedule.len() {
            Some(self.n_sel_index as usize)
        } else {
            None
        }
    }
}

impl Default for AppState {
    fn default() -> (state: AppState)
        ensures
            state@ == (AppStateView {
                schedules: Seq::empty(),
                selected: -1,
                logs: Seq::empty(),
            }),
            state.wf(),
    {
        AppState::new()
    }
}

} // verus!
