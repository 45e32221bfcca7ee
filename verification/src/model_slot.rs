//! The life cycle of the shared classifier: idle until someone needs it,
//! loading in the background, then ready or failed.
//!
//! A background prewarm starts a load unless the model is loaded or loading
//! (after a failure it starts again); the first request that needs an idle
//! model starts the load itself; a load's end makes the model ready or
//! failed; requests wait while the model is idle or loading. The caller
//! keeps the lock, the threads and the model itself; `SlotState` decides.
use vstd::prelude::*;

use crate::text::{chars_of, string_from_chars};

verus! {

/// Where the classifier stands.
#[derive(Debug)]
pub enum SlotState {
    /// Not loaded, no load started.
    Idle,
    /// A load is under way.
    Loading,
    /// Loaded.
    Ready,
    /// The last load failed with this message.
    Failed(String),
}

/// What a request waiting for the classifier does now.
#[derive(Debug)]
pub enum WaitStatus {
    /// Go on: the model is ready.
    Ready,
    /// Give up with this error message.
    Failed(String),
    /// Keep waiting for the load to end.
    Wait,
}

/// State after a prewarm, and whether it starts a load.
pub open spec fn prewarm_step(s: SlotState) -> (SlotState, bool) {
    match s {
        SlotState::Ready => (s, false),
        SlotState::Loading => (s, false),
        SlotState::Failed(_) => (SlotState::Loading, true),
        SlotState::Idle => (SlotState::Loading, true),
    }
}

/// State after a request's lazy start, and whether it starts a load.
pub open spec fn lazy_load_step(s: SlotState) -> (SlotState, bool) {
    match s {
        SlotState::Idle => (SlotState::Loading, true),
        _ => (s, false),
    }
}

/// State after a load ends with `outcome` (the error message on failure).
pub open spec fn finish_step(outcome: Result<(), String>) -> SlotState {
    match outcome {
        Ok(_) => SlotState::Ready,
        Err(message) => SlotState::Failed(message),
    }
}

/// What a waiting request does in state `s`; on failure, with the message
/// `model load failed: ` and the load's message.
pub open spec fn wait_view(s: SlotState) -> Option<Result<(), Seq<char>>> {
    match s {
        SlotState::Ready => Some(Ok(())),
        SlotState::Failed(message) => Some(Err("model load failed: "@ + message@)),
        _ => None,
    }
}

pub open spec fn wait_status_view(w: WaitStatus) -> Option<Result<(), Seq<char>>> {
    match w {
        WaitStatus::Ready => Some(Ok(())),
        WaitStatus::Failed(message) => Some(Err(message@)),
        WaitStatus::Wait => None,
    }
}

impl SlotState {
    /// A slot with no model and no load.
    pub fn new() -> (s: Self)
        ensures
            s == SlotState::Idle,
    {
        SlotState::Idle
    }

    /// Prewarm: starts a load (returns true, state `Loading`) from `Idle` or
    /// `Failed`; leaves a ready or loading slot alone (returns false).
    pub fn start_prewarm(&mut self) -> (start_load: bool)
        ensures
            (*final(self), start_load) == prewarm_step(*old(self)),
    {
        match self {
            SlotState::Ready => false,
            SlotState::Loading => false,
            _ => {
                *self = SlotState::Loading;
                true
            },
        }
    }

    /// A request's lazy start: starts a load (returns true, state
    /// `Loading`) only from `Idle`.
    pub fn try_begin_lazy_load(&mut self) -> (start_load: bool)
        ensures
            (*final(self), start_load) == lazy_load_step(*old(self)),
    {
        match self {
            SlotState::Idle => {
                *self = SlotState::Loading;
                true
            },
            _ => false,
        }
    }

    /// The end of a load: `Ready` on success, `Failed` with the message
    /// otherwise.
    pub fn finish_load(&mut self, outcome: Result<(), String>)
        ensures
            *final(self) == finish_step(outcome),
    {
        match outcome {
            Ok(()) => {
                *self = SlotState::Ready;
            },
            Err(message) => {
                *self = SlotState::Failed(message);
            },
        }
    }

    /// What a waiting request does now: go on when ready, fail when the
    /// load failed, else wait.
    pub fn wait_status(&self) -> (w: WaitStatus)
        ensures
            wait_status_view(w) == wait_view(*self),
    {
        match self {
            SlotState::Ready => WaitStatus::Ready,
            SlotState::Failed(message) => {
                let mut v = chars_of("model load failed: ");
                let mut m = chars_of(message.as_str());
                v.append(&mut m);
                WaitStatus::Failed(string_from_chars(&v))
            },
            _ => WaitStatus::Wait,
        }
    }

    /// Whether the model can be used: after waiting, anything but `Ready`
    /// is the error `model not ready after wait`.
    pub fn ready_for_use(&self) -> (r: Result<(), String>)
        ensures
            r is Ok <==> *self == SlotState::Ready,
            r matches Err(m) ==> m@ == "model not ready after wait"@,
    {
        match self {
            SlotState::Ready => Ok(()),
            _ => Err("model not ready after wait".to_owned()),
        }
    }
}

/// A load that starts (by prewarm or by a request) leaves the slot
/// loading, and while it is loading no second load starts.
pub proof fn law_single_load_in_flight(s: SlotState)
    ensures
        prewarm_step(s).1 ==> prewarm_step(s).0 == SlotState::Loading,
        lazy_load_step(s).1 ==> lazy_load_step(s).0 == SlotState::Loading,
        !prewarm_step(SlotState::Loading).1,
        !lazy_load_step(SlotState::Loading).1,
        prewarm_step(SlotState::Loading).0 == SlotState::Loading,
        lazy_load_step(SlotState::Loading).0 == SlotState::Loading,
{
}

/// A ready model stays ready under prewarms and requests, and waiting
/// requests go on at once.
pub proof fn law_ready_is_kept()
    ensures
        prewarm_step(SlotState::Ready) == (SlotState::Ready, false),
        lazy_load_step(SlotState::Ready) == (SlotState::Ready, false),
        wait_view(SlotState::Ready) == Some(Ok::<(), Seq<char>>(())),
{
}

/// After a failed load, a prewarm tries again, while a request does not
/// start a load and fails with the load's message.
pub proof fn law_failure_retried_by_prewarm_only(message: String)
    ensures
        prewarm_step(SlotState::Failed(message)) == (SlotState::Loading, true),
        lazy_load_step(SlotState::Failed(message)) == (SlotState::Failed(message), false),
        wait_view(SlotState::Failed(message)) == Some(
            Err::<(), Seq<char>>("model load failed: "@ + message@),
        ),
{
}

/// A request that finds the model idle starts the load and then waits; once
/// the load ends, it goes on or fails, never waits again.
pub proof fn law_request_ends_after_load(outcome: Result<(), String>)
    ensures
        lazy_load_step(SlotState::Idle) == (SlotState::Loading, true),
        wait_view(SlotState::Loading) is None,
        wait_view(finish_step(outcome)) is Some,
        (wait_view(finish_step(outcome)) == Some(Ok::<(), Seq<char>>(()))) <==> outcome is Ok,
{
}

/// Something that happens to the slot: a prewarm, a request's lazy start,
/// or the end of the load under way with its outcome.
#[derive(Debug)]
pub enum SlotEvent {
    Prewarm,
    LazyStart,
    LoadEnd(Result<(), String>),
}

/// The state after `e` in state `s`, and whether `e` starts a load.
pub open spec fn event_step(s: SlotState, e: SlotEvent) -> (SlotState, bool) {
    match e {
        SlotEvent::Prewarm => prewarm_step(s),
        SlotEvent::LazyStart => lazy_load_step(s),
        SlotEvent::LoadEnd(outcome) => (finish_step(outcome), false),
    }
}

/// The state after `events` from `s`, and how many loads they start.
pub open spec fn run_events(s: SlotState, events: Seq<SlotEvent>) -> (SlotState, nat)
    decreases events.len(),
{
    if events.len() == 0 {
        (s, 0)
    } else {
        let (t, n) = run_events(s, events.drop_last());
        let (u, started) = event_step(t, events.last());
        (u, if started { n + 1 } else { n })
    }
}

/// Whether a load ends only while one is under way.
pub open spec fn ends_only_loads(s: SlotState, events: Seq<SlotEvent>) -> bool {
    forall|k: int|
        0 <= k < events.len() && (#[trigger] events[k]) is LoadEnd ==> run_events(s, events.take(k)).0 is Loading
}

proof fn lemma_requests_share_one_load(s: SlotState, events: Seq<SlotEvent>)
    requires
        s is Idle || s is Loading,
        forall|k: int| 0 <= k < events.len() ==> !((#[trigger] events[k]) is Prewarm),
        ends_only_loads(s, events),
    ensures
        (if s is Loading { 1nat } else { 0nat }) + run_events(s, events).1 <= 1,
        run_events(s, events).0 is Idle ==> s is Idle && run_events(s, events).1 == 0,
        run_events(s, events).0 is Idle ==> forall|k: int| 0 <= k < events.len() ==> !((#[trigger] events[k]) is LazyStart),
        s is Idle && !(run_events(s, events).0 is Idle) ==> run_events(s, events).1 == 1,
        run_events(s, events).0 is Loading ==> forall|k: int| 0 <= k < events.len() ==> !((#[trigger] events[k]) is LoadEnd),
        forall|k: int|
            0 <= k < events.len() ==> (#[trigger] events[k] matches SlotEvent::LoadEnd(o) ==> run_events(s, events).0 == finish_step(o)),
    decreases events.len(),
{
    if events.len() > 0 {
        let pre = events.drop_last();
        assert forall|k: int| 0 <= k < pre.len() && (#[trigger] pre[k]) is LoadEnd implies run_events(s, pre.take(k)).0 is Loading by {
            assert(pre.take(k) =~= events.take(k));
            assert(events[k] is LoadEnd);
        }
        assert forall|k: int| 0 <= k < pre.len() implies !((#[trigger] pre[k]) is Prewarm) by {
            assert(pre[k] == events[k]);
        }
        lemma_requests_share_one_load(s, pre);
        let last = events.len() - 1;
        assert(events.take(last) =~= pre);
        assert forall|k: int| 0 <= k < last implies #[trigger] events[k] == pre[k] by {}
        assert(!(events[last] is Prewarm));
    }
}

/// From a slot that is idle, or loading after a prewarm, however the lazy
/// starts of any number of requests and the end of the load interleave (a
/// load ends only while one is under way), at most one load is started in
/// all; from an idle slot, exactly one once any request has come. When the
/// load ends with `outcome`, the slot keeps that outcome, so that every
/// request waiting then or later goes on when it succeeded and fails with
/// its message when it failed.
pub proof fn law_requests_share_one_load(s: SlotState, events: Seq<SlotEvent>)
    requires
        s is Idle || s is Loading,
        forall|k: int| 0 <= k < events.len() ==> !((#[trigger] events[k]) is Prewarm),
        ends_only_loads(s, events),
    ensures
        (if s is Loading { 1nat } else { 0nat }) + run_events(s, events).1 <= 1,
        s is Idle && (exists|k: int| 0 <= k < events.len() && (#[trigger] events[k]) is LazyStart)
            ==> run_events(s, events).1 == 1,
        forall|k: int|
            0 <= k < events.len() ==> (#[trigger] events[k] matches SlotEvent::LoadEnd(o) ==> wait_view(
                run_events(s, events).0,
            ) == wait_view(finish_step(o))),
{
    lemma_requests_share_one_load(s, events);
}

proof fn lemma_ready_and_started_persist(s: SlotState, events: Seq<SlotEvent>)
    requires
        ends_only_loads(s, events),
    ensures
        s is Ready ==> run_events(s, events).0 is Ready,
        !(s is Idle) ==> !(run_events(s, events).0 is Idle),
    decreases events.len(),
{
    if events.len() > 0 {
        let pre = events.drop_last();
        assert forall|k: int| 0 <= k < pre.len() && (#[trigger] pre[k]) is LoadEnd implies run_events(s, pre.take(k)).0 is Loading by {
            assert(pre.take(k) =~= events.take(k));
            assert(events[k] is LoadEnd);
        }
        lemma_ready_and_started_persist(s, pre);
        let last = events.len() - 1;
        assert(events.take(last) =~= pre);
        assert(events[last] == events.last());
    }
}

/// The state after the first `k + 1` events is the step of the `k`-th
/// event from the state after the first `k`.
proof fn lemma_run_events_step(s: SlotState, events: Seq<SlotEvent>, k: int)
    requires
        0 <= k < events.len(),
    ensures
        run_events(s, events.take(k + 1)).0 == event_step(run_events(s, events.take(k)).0, events[k]).0,
{
    assert(events.take(k + 1).drop_last() =~= events.take(k));
    assert(events.take(k + 1).last() == events[k]);
}

/// Over any run of prewarms, lazy starts and load ends (a load ends only
/// while one is under way): a ready slot stays ready; once the slot has
/// left `Idle` it never returns to it; and a failed slot is left only by a
/// prewarm, which starts a new load.
pub proof fn law_slot_run_keeps_progress(s: SlotState, events: Seq<SlotEvent>)
    requires
        ends_only_loads(s, events),
    ensures
        s is Ready ==> run_events(s, events).0 is Ready,
        !(s is Idle) ==> !(run_events(s, events).0 is Idle),
        forall|k: int|
            0 <= k < events.len() && run_events(s, events.take(k)).0 is Failed && !(run_events(
                s,
                #[trigger] events.take(k + 1),
            ).0 is Failed) ==> events[k] is Prewarm && run_events(s, events.take(k + 1)).0 is Loading,
{
    lemma_ready_and_started_persist(s, events);
    assert forall|k: int|
        0 <= k < events.len() && run_events(s, events.take(k)).0 is Failed && !(run_events(
            s,
            #[trigger] events.take(k + 1),
        ).0 is Failed) implies events[k] is Prewarm && run_events(s, events.take(k + 1)).0 is Loading by {
        lemma_run_events_step(s, events, k);
        if events[k] is LoadEnd {
            assert(run_events(s, events.take(k)).0 is Loading);
        }
    }
}

} // verus!
