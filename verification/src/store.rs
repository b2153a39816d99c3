//! The text format in which the rules are kept between runs.
//!
//! The first line is the header `Count`, the second the number of records,
//! and each further line one record: the source, the destination, the
//! period, the two exclusion lists and the archive flag, separated by
//! commas. The last-run time is not kept. A field that holds a comma or a
//! line feed cannot be read back: the format has no way to quote them.

use crate::number::{
    count_value, decimal, format_count, is_digit, lemma_count_value_decimal,
    lemma_decimal_value, parse_count,
};
use crate::schedule::{AppState, AppStateView, Schedule, ScheduleView};
use crate::text::{
    join, lemma_join_last, lemma_join_plain, lemma_lines_terminated, lemma_split_join, lines,
    split, split_lines, split_text, strip_cr, terminated, texts,
};
use vstd::prelude::*;

verus! {

/// The header line.
pub open spec fn header() -> Seq<char> {
    seq!['C', 'o', 'u', 'n', 't']
}

/// How the archive flag is written.
pub open spec fn flag_text(flag: bool) -> Seq<char> {
    if flag {
        seq!['t', 'r', 'u', 'e']
    } else {
        seq!['f', 'a', 'l', 's', 'e']
    }
}

/// The six fields of a record, in the order in which they are written.
pub open spec fn record_fields(schedule: ScheduleView) -> Seq<Seq<char>> {
    seq![
        schedule.source,
        schedule.dest,
        schedule.period,
        schedule.skip_file,
        schedule.skip_folder,
        flag_text(schedule.use_zip),
    ]
}

/// The record of a rule: its six fields with commas between them.
pub open spec fn record_text(schedule: ScheduleView) -> Seq<char> {
    join(record_fields(schedule), ',')
}

/// The rule that a line stands for. A line with fewer than six fields
/// stands for none; fields behind the sixth are not read; the flag is set
/// by the text `true` and by no other.
pub open spec fn record_of(line: Seq<char>) -> Option<ScheduleView> {
    let fields = split(line, ',');
    if fields.len() >= 6 {
        Some(
            ScheduleView {
                source: fields[0],
                dest: fields[1],
                period: fields[2],
                skip_file: fields[3],
                skip_folder: fields[4],
                use_zip: fields[5] == flag_text(true),
                last_time: Seq::empty(),
            },
        )
    } else {
        None
    }
}

/// The rules that a run of lines stands for, in order; lines that stand
/// for no rule are passed over.
pub open spec fn records_of(lines: Seq<Seq<char>>) -> Seq<ScheduleView>
    decreases lines.len(),
{
    if lines.len() == 0 {
        Seq::empty()
    } else {
        let before = records_of(lines.drop_last());
        match record_of(lines.last()) {
            Some(schedule) => before.push(schedule),
            None => before,
        }
    }
}

/// The lines of the file that holds `schedules`.
pub open spec fn file_lines(schedules: Seq<ScheduleView>) -> Seq<Seq<char>> {
    seq![header(), decimal(schedules.len())] + schedules.map_values(
        |schedule: ScheduleView| record_text(schedule),
    )
}

/// The whole file that holds `schedules`.
pub open spec fn file_text(schedules: Seq<ScheduleView>) -> Seq<char> {
    terminated(file_lines(schedules))
}

/// The lines of a file that are read as records: those behind the second
/// line, as many as the second line counts, or fewer where the file ends
/// before.
pub open spec fn record_lines(lines: Seq<Seq<char>>) -> Seq<Seq<char>> {
    if lines.len() < 2 {
        Seq::empty()
    } else {
        let count = count_value(lines[1]);
        let end = if 2 + count <= lines.len() {
            2 + count
        } else {
            lines.len()
        };
        lines.subrange(2, end as int)
    }
}

/// The rules that a file holds. The first line is not looked at.
pub open spec fn parsed_schedules(text: Seq<char>) -> Seq<ScheduleView> {
    records_of(record_lines(lines(text)))
}

/// The value of a rule that may be absent.
pub open spec fn record_view(record: Option<Schedule>) -> Option<ScheduleView> {
    match record {
        Some(schedule) => Some(schedule@),
        None => None,
    }
}

/// Whether a field can be written and read back: it holds neither a
/// comma nor a line feed.
pub open spec fn plain(field: Seq<char>) -> bool {
    !field.contains(',') && !field.contains('\n')
}

/// Whether the format can hold the rule: each of its five text fields is plain.
pub open spec fn storable(schedule: ScheduleView) -> bool {
    &&& plain(schedule.source)
    &&& plain(schedule.dest)
    &&& plain(schedule.period)
    &&& plain(schedule.skip_file)
    &&& plain(schedule.skip_folder)
}

/// What the format keeps of a rule: all but the last-run time.
pub open spec fn stored(schedule: ScheduleView) -> ScheduleView {
    ScheduleView { last_time: Seq::empty(), ..schedule }
}

/// Writes the record of a rule.
pub fn format_record(schedule: &Schedule) -> (line: String)
    ensures
        line@ == record_text(schedule@),
{
    let mut line = schedule.s_dir_source.clone();
    line.append(",");
    line.append(schedule.s_dir_dest.as_str());
    line.append(",");
    line.append(schedule.s_period.as_str());
    line.append(",");
    line.append(schedule.s_skip_file.as_str());
    line.append(",");
    line.append(schedule.s_skip_folder.as_str());
    line.append(",");
    if schedule.b_use_zip {
        line.append("true");
    } else {
        line.append("false");
    }
    proof {
        reveal_strlit(",");
        reveal_strlit("true");
        reveal_strlit("false");
        lemma_join_six(record_fields(schedule@), ',');
    }
    line
}

/// Reads one record.
pub fn parse_record(line: &str) -> (record: Option<Schedule>)
    ensures
        record_view(record) == record_of(line@),
{
    let fields = split_text(line, ',');
    if fields.len() >= 6 {
        proof {
            reveal_strlit("true");
            assert("true"@ =~= flag_text(true));
        }
        let flag = String::from_str("true");
        Some(
            Schedule {
                s_dir_source: fields[0].clone(),
                s_dir_dest: fields[1].clone(),
                s_period: fields[2].clone(),
                s_skip_file: fields[3].clone(),
                s_skip_folder: fields[4].clone(),
                b_use_zip: fields[5] == flag,
                dt_last_time: String::new(),
            },
        )
    } else {
        None
    }
}

/// Writes the file that holds the rules of `app_state`.
pub fn format_data(app_state: &AppState) -> (text: String)
    ensures
        text@ == file_text(app_state@.schedules),
{
    let ghost all = file_lines(app_state@.schedules);
    let len = app_state.list_schedule.len();
    let mut text = String::from_str("Count");
    text.append("\n");
    let count = format_count(len);
    text.append(count.as_str());
    text.append("\n");
    proof {
        reveal_strlit("Count");
        reveal_strlit("\n");
        assert(all.take(1).drop_last() =~= Seq::empty());
        assert(terminated(Seq::empty()) =~= Seq::empty());
        assert(all.take(2).drop_last() =~= all.take(1));
        assert(terminated(all.take(1)) =~= header().push('\n'));
    }
    let mut k: usize = 0;
    while k < len
        invariant
            len == app_state.list_schedule.len(),
            all == file_lines(app_state@.schedules),
            k <= len,
            text@ == terminated(all.take(2 + k)),
        decreases len - k,
    {
        let line = format_record(&app_state.list_schedule[k]);
        text.append(line.as_str());
        text.append("\n");
        proof {
            reveal_strlit("\n");
            assert(all.take(2 + k + 1).drop_last() =~= all.take(2 + k));
        }
        k = k + 1;
    }
    proof {
        assert(all.take(2 + len) =~= all);
    }
    text
}

/// Reads the rules of a file into a state with no selection and an empty
/// log. Nothing makes the reading fail: a file of fewer than two lines
/// holds no rule, a count that cannot be read counts as zero, and a line
/// that is no record is passed over.
pub fn parse_data(text: &str) -> (state: AppState)
    ensures
        state@ == (AppStateView {
            schedules: parsed_schedules(text@),
            selected: -1,
            logs: Seq::empty(),
        }),
        state.wf(),
{
    let mut state = AppState::new();
    let found = split_lines(text);
    if found.len() < 2 {
        return state;
    }
    let count = parse_count(found[1].as_str());
    let behind = found.len() - 2;
    let end = if count <= behind {
        2 + count
    } else {
        found.len()
    };
    let ghost read = record_lines(lines(text@));
    let mut k: usize = 2;
    while k < end
        invariant
            texts(found@) == lines(text@),
            read == lines(text@).subrange(2, end as int),
            2 <= k <= end <= found.len(),
            state@ == (AppStateView {
                schedules: records_of(read.take(k - 2)),
                selected: -1,
                logs: Seq::empty(),
            }),
            state.wf(),
        decreases end - k,
    {
        let record = parse_record(found[k].as_str());
        proof {
            assert(read.take(k - 2 + 1).drop_last() =~= read.take(k - 2));
        }
        match record {
            Some(schedule) => {
                state.add_schedule(schedule);
            },
            None => {},
        }
        k = k + 1;
    }
    proof {
        assert(read.take(end - 2) =~= read);
    }
    state
}

/// Six pieces joined, written out.
proof fn lemma_join_six(fields: Seq<Seq<char>>, sep: char)
    requires
        fields.len() == 6,
    ensures
        join(fields, sep) == fields[0] + seq![sep] + fields[1] + seq![sep] + fields[2] + seq![
            sep,
        ] + fields[3] + seq![sep] + fields[4] + seq![sep] + fields[5],
{
    let f1 = fields.take(1);
    let f2 = fields.take(2);
    let f3 = fields.take(3);
    let f4 = fields.take(4);
    let f5 = fields.take(5);
    assert(f2.drop_last() =~= f1);
    assert(f3.drop_last() =~= f2);
    assert(f4.drop_last() =~= f3);
    assert(f5.drop_last() =~= f4);
    assert(fields.drop_last() =~= f5);
    assert(join(f1, sep) == fields[0]);
    assert(join(f2, sep) =~= join(f1, sep) + seq![sep] + fields[1]);
    assert(join(f3, sep) =~= join(f2, sep) + seq![sep] + fields[2]);
    assert(join(f4, sep) =~= join(f3, sep) + seq![sep] + fields[3]);
    assert(join(f5, sep) =~= join(f4, sep) + seq![sep] + fields[4]);
    assert(join(fields, sep) =~= join(f5, sep) + seq![sep] + fields[5]);
}

/// The record of a storable rule is one line, and reads back as the rule
/// without its last-run time.
pub proof fn lemma_record_round_trip(schedule: ScheduleView)
    requires
        storable(schedule),
    ensures
        record_of(record_text(schedule)) == Some(stored(schedule)),
        !record_text(schedule).contains('\n'),
        strip_cr(record_text(schedule)) == record_text(schedule),
{
    let fields = record_fields(schedule);
    let flag = flag_text(schedule.use_zip);
    assert forall|k: int| 0 <= k < flag.len() implies flag[k] != ',' && flag[k] != '\n' by {}
    assert forall|k: int| 0 <= k < fields.len() implies !(#[trigger] fields[k]).contains(',')
        && !fields[k].contains('\n') by {}
    lemma_split_join(fields, ',');
    lemma_join_plain(fields, ',', '\n');
    lemma_join_last(fields, ',');
}

/// Records of storable rules read back as those rules.
proof fn lemma_records_round_trip(schedules: Seq<ScheduleView>)
    requires
        forall|k: int| 0 <= k < schedules.len() ==> storable(#[trigger] schedules[k]),
    ensures
        records_of(schedules.map_values(|schedule: ScheduleView| record_text(schedule)))
            == schedules.map_values(|schedule: ScheduleView| stored(schedule)),
    decreases schedules.len(),
{
    let written = schedules.map_values(|schedule: ScheduleView| record_text(schedule));
    if schedules.len() > 0 {
        let front = schedules.drop_last();
        lemma_records_round_trip(front);
        lemma_record_round_trip(schedules.last());
        assert(written.drop_last() =~= front.map_values(
            |schedule: ScheduleView| record_text(schedule),
        ));
    }
}

/// Writing the rules and reading the file gives the same rules in the same
/// order, each without its last-run time, and writing those again gives
/// the same file: this holds of every list of storable rules.
pub proof fn lemma_store_round_trip(schedules: Seq<ScheduleView>)
    requires
        schedules.len() <= usize::MAX,
        forall|k: int| 0 <= k < schedules.len() ==> storable(#[trigger] schedules[k]),
    ensures
        parsed_schedules(file_text(schedules)) == schedules.map_values(
            |schedule: ScheduleView| stored(schedule),
        ),
        file_text(parsed_schedules(file_text(schedules))) == file_text(schedules),
{
    let written = file_lines(schedules);
    let records = schedules.map_values(|schedule: ScheduleView| record_text(schedule));
    let kept = schedules.map_values(|schedule: ScheduleView| stored(schedule));
    lemma_decimal_value(schedules.len());
    lemma_count_value_decimal(schedules.len());
    assert forall|k: int| 0 <= k < written.len() implies !(#[trigger] written[k]).contains('\n')
        && strip_cr(written[k]) == written[k] by {
        if k == 0 {
            assert forall|j: int| 0 <= j < header().len() implies header()[j] != '\n' by {}
        } else if k == 1 {
            let digits = decimal(schedules.len());
            assert forall|j: int| 0 <= j < digits.len() implies digits[j] != '\n' by {
                assert(is_digit(digits[j]));
            }
        } else {
            lemma_record_round_trip(schedules[k - 2]);
        }
    }
    lemma_lines_terminated(written);
    assert(record_lines(written) =~= records);
    lemma_records_round_trip(schedules);
    assert(file_lines(kept) =~= written) by {
        assert forall|k: int| 0 <= k < schedules.len() implies record_text(
            #[trigger] kept[k],
        ) == record_text(schedules[k]) by {
            assert(record_fields(kept[k]) =~= record_fields(schedules[k]));
        }
    }
}

} // verus!
