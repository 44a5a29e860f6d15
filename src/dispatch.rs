use vstd::prelude::*;

use crate::opts::{classify, EventType, RawKind};
use crate::FSEvent;
use notify_debouncer_full::notify::event::{ModifyKind, RenameMode};
use notify_debouncer_full::notify::EventKind;
use notify_debouncer_full::{DebounceEventResult, DebouncedEvent};

verus! {

/// A raw notification as the notification source hands it over: its kind,
/// and each of its paths as text (`None` where a path is not valid UTF-8).
#[derive(Debug)]
pub struct RawNotification {
    pub kind: RawKind,
    pub paths: Vec<Option<String>>,
}

/// The path an event for `n` reports: its first path, where there is one,
/// it is text and it is not empty.
pub open spec fn first_path(n: RawNotification) -> Option<Seq<char>> {
    if n.paths@.len() > 0 && n.paths@[0] is Some && n.paths@[0]->Some_0@.len() > 0 {
        Some(n.paths@[0]->Some_0@)
    } else {
        None
    }
}

/// The event that session `uid`, interested in `watch_for`, emits for `n`:
/// none where `n` is unclassifiable, filtered out, or has no usable path.
pub open spec fn event_of(uid: usize, watch_for: Seq<EventType>, n: RawNotification) -> Option<
    (usize, EventType, Seq<char>),
> {
    match (classify(n.kind), first_path(n)) {
        (Some(t), Some(p)) => if watch_for.contains(t) {
            Some((uid, t, p))
        } else {
            None
        },
        _ => None,
    }
}

/// The events one flush of `batch` emits, in the batch's order.
pub open spec fn flushed(uid: usize, watch_for: Seq<EventType>, batch: Seq<RawNotification>) -> Seq<
    (usize, EventType, Seq<char>),
>
    decreases batch.len(),
{
    if batch.len() == 0 {
        Seq::empty()
    } else {
        let rest = flushed(uid, watch_for, batch.drop_last());
        match event_of(uid, watch_for, batch.last()) {
            Some(e) => rest.push(e),
            None => rest,
        }
    }
}

/// Whether `t` is in `watch_for`.
pub fn watches(watch_for: &Vec<EventType>, t: EventType) -> (r: bool)
    ensures
        r == watch_for@.contains(t),
{
    let mut i: usize = 0;
    while i < watch_for.len()
        invariant
            0 <= i <= watch_for@.len(),
            forall|j: int| 0 <= j < i ==> watch_for@[j] != t,
        decreases watch_for@.len() - i,
    {
        if watch_for[i] == t {
            return true;
        }
        i += 1;
    }
    false
}

/// The event that session `uid` emits for one raw notification, if any.
pub fn event_for(uid: usize, watch_for: &Vec<EventType>, n: &RawNotification) -> (r: Option<FSEvent>)
    ensures
        match r {
            Some(e) => event_of(uid, watch_for@, *n) == Some(e@),
            None => event_of(uid, watch_for@, *n) is None,
        },
{
    let t = match EventType::from_raw_kind(n.kind) {
        Some(t) => t,
        None => return None,
    };
    if !watches(watch_for, t) {
        return None;
    }
    if n.paths.len() == 0 {
        return None;
    }
    match &n.paths[0] {
        Some(p) => if p.as_str().is_empty() {
            None
        } else {
            Some(FSEvent { uid, event_type: t, path: p.clone() })
        },
        None => None,
    }
}

/// Classifies and filters one debounced batch for session `uid`.
pub fn flush_events(uid: usize, watch_for: &Vec<EventType>, batch: &Vec<RawNotification>) -> (r: Vec<FSEvent>)
    ensures
        r@.map_values(|e: FSEvent| e@) == flushed(uid, watch_for@, batch@),
{
    let mut out: Vec<FSEvent> = Vec::new();
    let mut i: usize = 0;
    while i < batch.len()
        invariant
            0 <= i <= batch@.len(),
            out@.map_values(|e: FSEvent| e@) == flushed(uid, watch_for@, batch@.subrange(0, i as int)),
        decreases batch@.len() - i,
    {
        assert(batch@.subrange(0, i + 1).drop_last() =~= batch@.subrange(0, i as int));
        match event_for(uid, watch_for, &batch[i]) {
            Some(e) => {
                out.push(e);
            },
            None => {},
        }
        assert(out@.map_values(|e: FSEvent| e@) =~= flushed(uid, watch_for@, batch@.subrange(0, i + 1)));
        i += 1;
    }
    assert(batch@.subrange(0, batch@.len() as int) =~= batch@);
    out
}

#[verifier::external_type_specification]
#[verifier::external_body]
pub struct ExDebouncedEvent(DebouncedEvent);

#[verifier::external_type_specification]
#[verifier::external_body]
#[verifier::reject_recursive_types(T)]
pub struct ExSender<T>(std::sync::mpsc::Sender<T>);

/// Relies on the field `kind` of notify's `Event`, behind `DebouncedEvent`:
/// its top-level variant, with the source side of a rename told apart from
/// other modifications.
#[verifier::external_body]
fn event_kind(event: &DebouncedEvent) -> (r: RawKind) {
    match event.kind {
        EventKind::Any => RawKind::Any,
        EventKind::Access(_) => RawKind::Access,
        EventKind::Create(_) => RawKind::Create,
        EventKind::Modify(ModifyKind::Name(RenameMode::From)) => RawKind::RenameFrom,
        EventKind::Modify(_) => RawKind::Modify,
        EventKind::Remove(_) => RawKind::Remove,
        EventKind::Other => RawKind::Other,
    }
}

/// Relies on the field `paths` of notify's `Event`, behind `DebouncedEvent`:
/// how many paths the event carries.
#[verifier::external_body]
fn path_count(event: &DebouncedEvent) -> (r: usize) {
    event.paths.len()
}

/// Relies on the field `paths` of notify's `Event`, behind `DebouncedEvent`,
/// and std's `Path::to_str`: the path at `index` as text, or `None` where
/// there is no such path or it is not valid UTF-8.
#[verifier::external_body]
fn path_text(event: &DebouncedEvent, index: usize) -> (r: Option<String>) {
    event.paths.get(index).and_then(|p| p.to_str()).map(String::from)
}

/// Copies what classification reads out of a debounced notification: its
/// kind and each of its paths as text.
pub fn raw_notification(event: &DebouncedEvent) -> (r: RawNotification) {
    let kind = event_kind(event);
    let count = path_count(event);
    let mut paths: Vec<Option<String>> = Vec::new();
    let mut i: usize = 0;
    while i < count
        invariant
            0 <= i <= count,
        decreases count - i,
    {
        paths.push(path_text(event, i));
        i += 1;
    }
    RawNotification { kind, paths }
}

/// Relies on std's `Sender::send`: hands the event to the channel; false
/// when the receiving side is gone.
#[verifier::external_body]
pub(crate) fn send_event(sender: &std::sync::mpsc::Sender<FSEvent>, event: FSEvent) -> (r: bool) {
    sender.send(event).is_ok()
}

/// The events that one debounced batch of session `uid` yields: those of
/// `flush_events` on the batch's raw notifications, in order. A batch that
/// reports errors of the notification source yields none.
pub fn collect_batch(uid: usize, watch_for: &Vec<EventType>, events: &DebounceEventResult) -> (r: Vec<FSEvent>)
    ensures
        events is Err ==> r@.len() == 0,
        events is Ok ==> exists|batch: Seq<RawNotification>|
            batch.len() == events->Ok_0@.len() && r@.map_values(|e: FSEvent| e@) == flushed(
                uid,
                watch_for@,
                batch,
            ),
{
    match events {
        Ok(events) => {
            let mut batch: Vec<RawNotification> = Vec::new();
            let mut i: usize = 0;
            while i < events.len()
                invariant
                    0 <= i <= events@.len(),
                    batch@.len() == i,
                decreases events@.len() - i,
            {
                batch.push(raw_notification(&events[i]));
                i += 1;
            }
            flush_events(uid, watch_for, &batch)
        },
        Err(_) => Vec::new(),
    }
}

/// Delivers one debounced batch of session `uid` to its event stream, in
/// the order of `collect_batch`, and stops once the stream's reader is gone.
pub fn deliver_batch(
    sender: &std::sync::mpsc::Sender<FSEvent>,
    uid: usize,
    watch_for: &Vec<EventType>,
    events: DebounceEventResult,
) {
    let mut out = collect_batch(uid, watch_for, &events);
    while out.len() > 0
        decreases out@.len(),
    {
        let e = out.remove(0);
        if !send_event(sender, e) {
            break;
        }
    }
}

proof fn lemma_flushed_members(uid: usize, watch_for: Seq<EventType>, batch: Seq<RawNotification>)
    ensures
        forall|i: int|
            0 <= i < flushed(uid, watch_for, batch).len() ==> {
                let e = #[trigger] flushed(uid, watch_for, batch)[i];
                &&& e.0 == uid
                &&& watch_for.contains(e.1)
                &&& exists|j: int| 0 <= j < batch.len() && first_path(batch[j]) == Some(e.2)
            },
    decreases batch.len(),
{
    if batch.len() > 0 {
        let rest = batch.drop_last();
        lemma_flushed_members(uid, watch_for, rest);
        assert forall|i: int| 0 <= i < flushed(uid, watch_for, batch).len() implies {
            let e = #[trigger] flushed(uid, watch_for, batch)[i];
            &&& e.0 == uid
            &&& watch_for.contains(e.1)
            &&& exists|j: int| 0 <= j < batch.len() && first_path(batch[j]) == Some(e.2)
        } by {
            let e = flushed(uid, watch_for, batch)[i];
            if i < flushed(uid, watch_for, rest).len() {
                assert(e == flushed(uid, watch_for, rest)[i]);
                let j = choose|j: int| 0 <= j < rest.len() && first_path(rest[j]) == Some(e.2);
                assert(batch[j] == rest[j]);
            } else {
                assert(first_path(batch[batch.len() - 1]) == Some(e.2));
            }
        }
    }
}

/// A flush of session `uid` emits events of that session only: never one
/// that carries the uid of another session.
pub proof fn lemma_no_cross_session(
    uid: usize,
    other: usize,
    watch_for: Seq<EventType>,
    batch: Seq<RawNotification>,
)
    requires
        uid != other,
    ensures
        forall|i: int|
            0 <= i < flushed(uid, watch_for, batch).len() ==> (#[trigger] flushed(
                uid,
                watch_for,
                batch,
            )[i]).0 != other,
        forall|i: int|
            0 <= i < flushed(uid, watch_for, batch).len() ==> exists|j: int|
                0 <= j < batch.len() && first_path(batch[j]) == Some(
                    (#[trigger] flushed(uid, watch_for, batch)[i]).2,
                ),
{
    lemma_flushed_members(uid, watch_for, batch);
}

/// A flush emits only event types that the session asked for.
pub proof fn lemma_filter_respected(uid: usize, watch_for: Seq<EventType>, batch: Seq<RawNotification>)
    ensures
        forall|i: int|
            0 <= i < flushed(uid, watch_for, batch).len() ==> watch_for.contains(
                (#[trigger] flushed(uid, watch_for, batch)[i]).1,
            ),
{
    lemma_flushed_members(uid, watch_for, batch);
}

} // verus!
