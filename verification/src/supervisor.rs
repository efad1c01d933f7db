//! The sync supervisor: classification of live replication events and
//! the retry schedule for attaching a document.
//!
//! One subscription task runs per attach attempt, spawned with a
//! snapshot of the attempt counter and the attached flag. The task's
//! loop lives outside; it asks `retry_decision` whether and when to arm
//! the retry timer, feeds each stream event through
//! `subscription_step`, and performs the returned actions: emit an
//! event, or send the worker a command of its own.

use vstd::prelude::*;
use vstd::string::*;
use crate::comms::Command;
use crate::comms::Event;
use crate::comms::MessageType;
use crate::comms::message_event;

verus! {

/// Attach attempts stop after this many tries.
pub const RETRY_LIMIT: u32 = 5;

/// Powers of two: the backoff grows geometrically.
pub open spec fn pow2(e: nat) -> nat
    decreases e,
{
    if e == 0 {
        1
    } else {
        2 * pow2((e - 1) as nat)
    }
}

pub proof fn lemma_pow2_pos(e: nat)
    ensures
        pow2(e) >= 1,
    decreases e,
{
    if e > 0 {
        lemma_pow2_pos((e - 1) as nat);
    }
}

/// Law: the retry intervals strictly increase from one attempt to the
/// next.
pub proof fn lemma_backoff_increases(e: nat)
    ensures
        pow2(e) < pow2(e + 1),
{
    lemma_pow2_pos(e);
}

/// The snapshot a subscription task is spawned with.
#[derive(Clone, Copy, Debug, PartialEq, Eq, Structural)]
pub struct SubscriptionParams {
    /// The per-attach attempt counter, starting at 1.
    pub attempt: u32,
    /// Whether the document was already marked attached at spawn time.
    pub attached: bool,
}

/// A live replication event, reduced to what the supervisor reads.
pub enum SyncEvent {
    /// A remote peer inserted an entry: informational only.
    RemoteInsert,
    /// A sync round finished cleanly.
    SyncFinishedOk,
    /// A sync round failed, with the engine's message.
    SyncFinishedErr(String),
    /// Replicated content finished downloading: reads are consistent.
    PendingContentReady,
    /// The event stream itself failed, with the engine's message.
    StreamError(String),
}

/// Whether the subscription task keeps running after an event.
#[derive(Clone, Copy, Debug, PartialEq, Eq, Structural)]
pub enum SyncControl {
    Continue,
    Stop,
}

/// What the subscription task does in reaction to an event.
pub enum SyncAction {
    Emit(Event),
    SelfCommand(Command),
}

/// Whether to arm the retry timer for this subscription, and for how
/// many seconds: once, after `2^attempt`, and only while the document
/// is not yet attached and attempts remain. On firing, the task sends
/// itself an `Attach` command and terminates.
pub fn retry_decision(p: &SubscriptionParams) -> (r: Option<u64>)
    ensures
        r is Some <==> !p.attached && p.attempt < RETRY_LIMIT,
        r matches Some(d) ==> d == pow2(p.attempt as nat),
{
    if p.attached || p.attempt >= RETRY_LIMIT {
        return None;
    }
    let d: u64 = match p.attempt {
        0 => 1,
        1 => 2,
        2 => 4,
        3 => 8,
        _ => 16,
    };
    proof {
        assert(pow2(0) == 1);
        assert(pow2(1) == 2);
        assert(pow2(2) == 4);
        assert(pow2(3) == 8);
        assert(pow2(4) == 16);
    }
    Some(d)
}

/// The message when a sync round fails and the retry timer still runs.
pub open spec fn sync_failed_text() -> Seq<char> {
    "sync failed; waiting for the retry timer"@
}

/// The message when a sync round fails and no retry is left: the
/// document stays unattached until the operator acts.
pub open spec fn sync_gave_up_text() -> Seq<char> {
    "sync failed; no further automatic retries, document is not attached"@
}

pub open spec fn content_ready_text() -> Seq<char> {
    "Content Ready"@
}

/// Classify one live event.
///
/// - A remote insert is informational and does nothing here.
/// - A clean sync round needs no action.
/// - A failed sync round is surfaced as an error message; the retry
///   timer, not the failure, drives retries, and when no retry is left
///   the message says the document stays unattached.
/// - Ready content triggers a self-addressed note-list refresh.
/// - A stream error is surfaced and ends the task.
pub fn subscription_step(p: &SubscriptionParams, ev: SyncEvent) -> (r: (
    Vec<SyncAction>,
    SyncControl,
))
    ensures
        match ev {
            SyncEvent::RemoteInsert => r.0@.len() == 0 && r.1 == SyncControl::Continue,
            SyncEvent::SyncFinishedOk => r.0@.len() == 0 && r.1 == SyncControl::Continue,
            SyncEvent::SyncFinishedErr(msg) => r.0@.len() == 2 && r.1 == SyncControl::Continue
                && (r.0@[0] matches SyncAction::Emit(Event::Message(m)) && m.text == msg && m.mtype
                == MessageType::Error) && (r.0@[1] matches SyncAction::Emit(Event::Message(m))
                && m.mtype == MessageType::Error && m.text@ == if !p.attached && p.attempt
                >= RETRY_LIMIT {
                sync_gave_up_text()
            } else {
                sync_failed_text()
            }),
            SyncEvent::PendingContentReady => r.0@.len() == 2 && r.1 == SyncControl::Continue && (
            r.0@[0] matches SyncAction::Emit(Event::Message(m)) && m.text@ == content_ready_text()
                && m.mtype == MessageType::Good) && (r.0@[1] matches SyncAction::SelfCommand(
                Command::GetNotes,
            )),
            SyncEvent::StreamError(msg) => r.0@.len() == 1 && r.1 == SyncControl::Stop && (r.0@[0]
                matches SyncAction::Emit(Event::Message(m)) && m.text == msg && m.mtype
                == MessageType::Error),
        },
{
    let mut acts: Vec<SyncAction> = Vec::new();
    match ev {
        SyncEvent::RemoteInsert => (acts, SyncControl::Continue),
        SyncEvent::SyncFinishedOk => (acts, SyncControl::Continue),
        SyncEvent::SyncFinishedErr(msg) => {
            acts.push(SyncAction::Emit(message_event(msg, MessageType::Error)));
            let follow_up = if !p.attached && p.attempt >= RETRY_LIMIT {
                String::from_str("sync failed; no further automatic retries, document is not attached")
            } else {
                String::from_str("sync failed; waiting for the retry timer")
            };
            acts.push(SyncAction::Emit(message_event(follow_up, MessageType::Error)));
            (acts, SyncControl::Continue)
        },
        SyncEvent::PendingContentReady => {
            acts.push(
                SyncAction::Emit(
                    message_event(String::from_str("Content Ready"), MessageType::Good),
                ),
            );
            acts.push(SyncAction::SelfCommand(Command::GetNotes));
            (acts, SyncControl::Continue)
        },
        SyncEvent::StreamError(msg) => {
            acts.push(SyncAction::Emit(message_event(msg, MessageType::Error)));
            (acts, SyncControl::Stop)
        },
    }
}

} // verus!
