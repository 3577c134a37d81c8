//! The queue of projects waiting for their script to be split into shots:
//! each waiting project's place in line, and whether its turn has begun.

use vstd::prelude::*;

use crate::json::{view_items, Json, JsonView};
use crate::text::{chars_of, trim, trimmed};

verus! {

/// The instant that `chrono` reads from an RFC 3339 text: seconds since the
/// Unix epoch and nanoseconds past that second, or `None` when it is not one.
pub uninterp spec fn rfc3339_instant(text: Seq<char>) -> Option<(i64, u32)>;

/// Reads `text` with `chrono::DateTime::parse_from_rfc3339`; the instant is
/// the one that `rfc3339_instant` names.
#[verifier::external_body]
fn parse_instant(text: &str) -> (r: Option<(i64, u32)>)
    ensures
        r == rfc3339_instant(text@),
{
    chrono::DateTime::parse_from_rfc3339(text).ok().map(|t| (t.timestamp(), t.timestamp_subsec_nanos()))
}

/// Whether instant `a` comes after instant `b`.
pub open spec fn later(a: (i64, u32), b: (i64, u32)) -> bool {
    a.0 > b.0 || (a.0 == b.0 && a.1 > b.1)
}

/// The lease instant of a waiting task, when its `poll_lease_until` is an RFC 3339 text.
pub open spec fn lease_of(task: JsonView) -> Option<(i64, u32)> {
    match task.get("poll_lease_until"@) {
        Some(JsonView::Text(t)) => rfc3339_instant(t),
        _ => None,
    }
}

/// A waiting project is being worked on when its lease `until` has not run
/// out at `now`, when it has made progress, or when it has reached a named stage.
pub open spec fn in_progress_with(task: JsonView, until: Option<(i64, u32)>, now: (i64, u32)) -> bool {
    let leased = match until {
        Some(u) => later(u, now),
        None => false,
    };
    let progressed = match task.get("progress"@) {
        Some(JsonView::Int(p)) => p > 0,
        _ => false,
    };
    let staged = match task.get("stage"@) {
        Some(JsonView::Text(s)) => trimmed(s).len() > 0,
        _ => false,
    };
    leased || progressed || staged
}

pub open spec fn in_progress(task: JsonView, now: (i64, u32)) -> bool {
    in_progress_with(task, lease_of(task), now)
}

/// One waiting project: its id, its place in line (from 1) and whether its turn has begun.
#[derive(Debug)]
pub struct QueueEntry {
    pub project_id: String,
    pub position: i64,
    pub processing: bool,
}

/// The queue entry of the task at `index`.
pub open spec fn entry_matches(entry: QueueEntry, tasks: Seq<JsonView>, index: int, now: (i64, u32)) -> bool {
    &&& entry.project_id@ == crate::json::text_or(tasks[index], "drama_id"@, Seq::empty())
    &&& entry.position == index + 1
    &&& entry.processing == in_progress(tasks[index], now)
}

/// Whether a waiting task is being worked on, given its lease instant `until`.
pub fn processing_at(task: &Json, until: Option<(i64, u32)>, now: (i64, u32)) -> (r: bool)
    ensures
        r == in_progress_with(task@, until, now),
{
    let leased = match until {
        Some(u) => u.0 > now.0 || (u.0 == now.0 && u.1 > now.1),
        None => false,
    };
    let progressed = match task.get("progress") {
        Some(Json::Int(p)) => *p > 0,
        other => {
            proof {
                match other {
                    Some(v) => crate::json::lemma_view_variant(*v),
                    None => {},
                }
            }
            false
        },
    };
    let staged = match task.get("stage") {
        Some(Json::Text(s)) => chars_of(trim(s.as_str()).as_str()).len() > 0,
        other => {
            proof {
                match other {
                    Some(v) => crate::json::lemma_view_variant(*v),
                    None => {},
                }
            }
            false
        },
    };
    leased || progressed || staged
}

fn is_processing(task: &Json, now: (i64, u32)) -> (r: bool)
    ensures
        r == in_progress(task@, now),
{
    let until = match task.get("poll_lease_until") {
        Some(Json::Text(t)) => parse_instant(t.as_str()),
        other => {
            proof {
                match other {
                    Some(v) => crate::json::lemma_view_variant(*v),
                    None => {},
                }
            }
            None
        },
    };
    processing_at(task, until, now)
}

/// The queue of waiting script splits, oldest first, as seen at `now`
/// (seconds since the Unix epoch and nanoseconds past that second).
pub fn generation_queue(tasks: &Vec<Json>, now: (i64, u32)) -> (r: Vec<QueueEntry>)
    requires
        tasks.len() < i64::MAX,
    ensures
        r.len() == tasks.len(),
        forall|i: int| 0 <= i < tasks.len() ==> entry_matches(#[trigger] r@[i], view_items(tasks@), i, now),
{
    proof {
        crate::json::lemma_view_items(tasks@);
        reveal_strlit("");
        assert(""@ =~= Seq::<char>::empty());
    }
    let ghost all = view_items(tasks@);
    let mut queue: Vec<QueueEntry> = Vec::new();
    let mut i: usize = 0;
    while i < tasks.len()
        invariant
            i <= tasks.len(),
            tasks.len() < i64::MAX,
            all == view_items(tasks@),
            all.len() == tasks.len(),
            forall|k: int| 0 <= k < tasks.len() ==> #[trigger] all[k] == tasks@[k]@,
            queue.len() == i,
            forall|k: int| 0 <= k < i ==> entry_matches(#[trigger] queue@[k], all, k, now),
        decreases tasks.len() - i,
    {
        let position: i64 = (i as i64) + 1;
        let entry = QueueEntry {
            project_id: tasks[i].text_or("drama_id", ""),
            position,
            processing: is_processing(&tasks[i], now),
        };
        proof {
            reveal_strlit("");
            assert(""@ =~= Seq::<char>::empty());
        }
        queue.push(entry);
        i += 1;
    }
    queue
}

/// The entry that a project's card shows: the last one queued for it.
pub open spec fn last_entry_for(queue: Seq<QueueEntry>, project_id: Seq<char>) -> Option<QueueEntry>
    decreases queue.len(),
{
    if queue.len() == 0 {
        None
    } else if queue.last().project_id@ == project_id {
        Some(queue.last())
    } else {
        last_entry_for(queue.drop_last(), project_id)
    }
}

/// The queue fields a project's card shows, when it waits.
pub open spec fn card_fields(entry: QueueEntry) -> JsonView {
    JsonView::Object(seq![
        ("queue_position"@, JsonView::Int(entry.position)),
        ("queue_state"@, JsonView::Text(if entry.processing { "processing"@ } else { "queued"@ })),
    ])
}

/// The queue fields of a project's card, when the project waits in `queue`.
pub fn queue_fields(queue: &Vec<QueueEntry>, project_id: &str) -> (r: Option<Json>)
    ensures
        crate::json::opt_json(r) == match last_entry_for(queue@, project_id@) {
            Some(e) => Some(card_fields(e)),
            None => None,
        },
{
    let mut i = queue.len();
    proof {
        assert(queue@.subrange(0, queue@.len() as int) =~= queue@);
    }
    while i > 0
        invariant
            i <= queue.len(),
            last_entry_for(queue@, project_id@) == last_entry_for(queue@.subrange(0, i as int), project_id@),
        decreases i,
    {
        let ghost prefix = queue@.subrange(0, i as int);
        proof {
            assert(prefix.last() == queue@[i - 1]);
            assert(prefix.drop_last() =~= queue@.subrange(0, i - 1));
        }
        if crate::json::str_eq(queue[i - 1].project_id.as_str(), project_id) {
            let entry = &queue[i - 1];
            let state = if entry.processing {
                "processing"
            } else {
                "queued"
            };
            let fields: Vec<(String, Json)> = vec![
                ("queue_position".to_owned(), Json::Int(entry.position)),
                ("queue_state".to_owned(), Json::Text(state.to_owned())),
            ];
            proof {
                crate::json::lemma_view_entries(fields@);
                assert(crate::json::view_entries(fields@) =~= card_fields(*entry)->Object_0);
            }
            return Some(Json::Object(fields));
        }
        i -= 1;
    }
    proof {
        assert(queue@.subrange(0, 0) =~= Seq::<QueueEntry>::empty());
    }
    None
}

} // verus!
