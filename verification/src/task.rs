//! Background tasks: the progress of a media conversion as it is reported,
//! and the frame count that the progress is measured against.

use vstd::prelude::*;
use crate::numbers::{decimal, parsed_unsigned, parse_unsigned, u64_to_decimal};

verus! {

/// What to do with the progress text after one progress report: record a new
/// task with it, or update the task's record.
#[derive(Debug)]
pub enum ProgressAction {
    Create(String),
    Update(String),
}

/// The percentage of `frame` out of `total_frames`, rounded down.
pub open spec fn percent(frame: u32, total_frames: u32) -> nat {
    ((frame * 100) / (total_frames as int)) as nat
}

/// The text of one progress report: the percentage and `%`.
pub open spec fn progress_text(frame: u32, total_frames: u32) -> Seq<char> {
    decimal(percent(frame, total_frames)) + "%"@
}

/// One progress report during a conversion: its text is appended to the
/// progress so far; the first report creates the task record, later ones
/// update it, each with the whole progress text.
pub fn progress_step(total_progress: &mut String, frame: u32, total_frames: u32) -> (res: ProgressAction)
    requires
        total_frames > 0,
        frame * 100 <= u32::MAX,
    ensures
        final(total_progress)@ == old(total_progress)@ + progress_text(frame, total_frames),
        old(total_progress)@.len() == 0 ==> (res matches ProgressAction::Create(t) && t@ == final(total_progress)@),
        old(total_progress)@.len() > 0 ==> (res matches ProgressAction::Update(t) && t@ == final(total_progress)@),
{
    proof {
        reveal_strlit("%");
    }
    let p: u32 = frame * 100 / total_frames;
    let mut text = u64_to_decimal(p as u64);
    text.append("%");
    let was_empty = crate::strings::chars_of(total_progress.as_str()).len() == 0;
    total_progress.append(text.as_str());
    if was_empty {
        ProgressAction::Create(total_progress.clone())
    } else {
        ProgressAction::Update(total_progress.clone())
    }
}

/// What a frame count report reads as: the report without its final newline,
/// as a `u32`; nothing when there is no final newline or no such number.
pub open spec fn frame_count_of(report: Seq<char>) -> Option<nat> {
    if report.len() > 0 && report.last() == '\n' {
        parsed_unsigned(report.drop_last(), u32::MAX as nat)
    } else {
        None
    }
}

/// The number of frames that `ffprobe` reported, read from its output.
pub fn frame_count(report: &str) -> (res: Option<u32>)
    ensures
        res is Some <==> frame_count_of(report@) is Some,
        res is Some ==> frame_count_of(report@) == Some(res->Some_0 as nat),
{
    let v = crate::strings::chars_of(report);
    let n: usize = v.len();
    if n == 0 || v[n - 1] != '\n' {
        return None;
    }
    let mut body = String::new();
    let mut k: usize = 0;
    while k < n - 1
        invariant
            v@ == report@,
            n == v@.len(),
            n > 0,
            k <= n - 1,
            body@ == v@.take(k as int),
        decreases n - 1 - k,
    {
        body.push(v[k]);
        k = k + 1;
        assert(body@ =~= v@.take(k as int));
    }
    assert(body@ =~= report@.drop_last());
    match parse_unsigned(body.as_str(), u32::MAX as u64) {
        Some(x) => Some(x as u32),
        None => None,
    }
}

/// A report of a frame count in decimal, ended by a newline, reads back as
/// that count.
pub proof fn lemma_frame_count_roundtrip(n: u32)
    ensures
        frame_count_of(decimal(n as nat).push('\n')) == Some(n as nat),
{
    let r = decimal(n as nat).push('\n');
    assert(r.drop_last() =~= decimal(n as nat));
    crate::numbers::lemma_parse_decimal_roundtrip(n as nat, u32::MAX as nat);
}

/// The query for the tasks of a user.
pub open spec fn task_query_text(username: Seq<char>) -> Seq<char> {
    "SELECT * FROM v_task WHERE username = '"@ + username + "'"@
}

/// The query that lists the tasks of a user.
pub fn task_query(username: &str) -> (res: String)
    ensures
        res@ == task_query_text(username@),
{
    proof {
        reveal_strlit("SELECT * FROM v_task WHERE username = '");
        reveal_strlit("'");
    }
    let mut q = "SELECT * FROM v_task WHERE username = '".to_string();
    q.append(username);
    q.append("'");
    q
}

} // verus!
