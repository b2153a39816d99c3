//! The event log: lines of text, each with the time at which it was written.

use crate::clock::{is_log_stamp, local_time_formatted};
use crate::schedule::{AppState, AppStateView};
use crate::text::lemma_texts_push;
use vstd::prelude::*;

verus! {

/// A log entry: the time in square brackets, a space, and the message.
pub open spec fn log_entry(stamp: Seq<char>, message: Seq<char>) -> Seq<char> {
    seq!['['] + stamp + seq![']', ' '] + message
}

/// The state after one entry was written behind the entries of `before`.
pub open spec fn with_log(before: AppStateView, stamp: Seq<char>, message: Seq<char>) -> AppStateView {
    AppStateView { logs: before.logs.push(log_entry(stamp, message)), ..before }
}

/// Writes a log entry.
pub fn format_log_entry(stamp: &str, message: &str) -> (entry: String)
    ensures
        entry@ == log_entry(stamp@, message@),
{
    let mut entry = String::from_str("[");
    entry.append(stamp);
    entry.append("] ");
    entry.append(message);
    proof {
        reveal_strlit("[");
        reveal_strlit("] ");
    }
    entry
}

/// Appends the entry of `message`, written at the time `stamp`, to the
/// log. The log only grows: the entries that are there stay as they are,
/// and so do the rules and the selection.
pub fn append_log(app_state: &mut AppState, stamp: &str, message: &str)
    ensures
        final(app_state)@ == with_log(old(app_state)@, stamp@, message@),
        final(app_state).list_schedule.len() == old(app_state).list_schedule.len(),
        old(app_state).wf() ==> final(app_state).wf(),
{
    let entry = format_log_entry(stamp, message);
    proof {
        lemma_texts_push(app_state.logs@, entry);
    }
    app_state.logs.push(entry);
}

/// Appends the entry of `s_msg` to the log, with the local time at which
/// this is called, written as date and time to the second. Whatever the
/// clock says, the log grows by that one entry.
pub fn save_log(app_state: &mut AppState, s_msg: &str)
    ensures
        exists|stamp: Seq<char>|
            is_log_stamp(stamp) && final(app_state)@ == #[trigger] with_log(
                old(app_state)@,
                stamp,
                s_msg@,
            ),
        final(app_state).list_schedule.len() == old(app_state).list_schedule.len(),
        old(app_state).wf() ==> final(app_state).wf(),
{
    let stamp = local_time_formatted("%Y-%m-%d %H:%M:%S");
    append_log(app_state, stamp.as_str(), s_msg);
    assert(app_state@ == with_log(old(app_state)@, stamp@, s_msg@));
}

} // verus!
