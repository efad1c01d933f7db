//! The worker's command dispatch, the attach protocol, the retry
//! schedule, and the timer, on concrete values.

use liminal_docs::comms::Command;
use liminal_docs::comms::Config;
use liminal_docs::comms::Event;
use liminal_docs::comms::MessageType;
use liminal_docs::store::NoteStore;
use liminal_docs::supervisor::retry_decision;
use liminal_docs::supervisor::subscription_step;
use liminal_docs::supervisor::SubscriptionParams;
use liminal_docs::supervisor::SyncAction;
use liminal_docs::supervisor::SyncControl;
use liminal_docs::supervisor::SyncEvent;
use liminal_docs::timer::TimerCommands;
use liminal_docs::timer::TimerTask;
use liminal_docs::worker::Effect;
use liminal_docs::worker::EngineOp;
use liminal_docs::worker::Worker;

fn test_config() -> Config {
    Config {
        dark_mode: true,
        download_path: "downloads".to_string(),
        store_path: "store".to_string(),
        secret_key: "00".to_string(),
        doc_key: None,
        author: None,
        mothership: None,
    }
}

fn message_of(e: &Effect) -> Option<(String, MessageType)> {
    match e {
        Effect::Emit(Event::Message(m)) => Some((m.text.clone(), m.mtype)),
        _ => None,
    }
}

#[test]
fn retry_schedule_is_four_growing_intervals_then_stop() {
    // An attach that never succeeds: the supervisor arms the timer for
    // attempts 1 through 4 and refuses a fifth retry.
    let mut delays: Vec<u64> = Vec::new();
    let mut reattaches = 0;
    let mut attempt: u32 = 1;
    loop {
        let p = SubscriptionParams { attempt, attached: false };
        match retry_decision(&p) {
            Some(d) => {
                delays.push(d);
                reattaches += 1;
                attempt += 1;
            }
            None => break,
        }
    }
    assert_eq!(delays, vec![2, 4, 8, 16]);
    assert_eq!(reattaches, 4);
    assert_eq!(attempt, 5);
    assert_eq!(
        retry_decision(&SubscriptionParams { attempt: 5, attached: false }),
        None
    );
    // An attached document never retries.
    assert_eq!(
        retry_decision(&SubscriptionParams { attempt: 1, attached: true }),
        None
    );
}

#[test]
fn exhausted_retries_surface_a_persistent_error() {
    let p = SubscriptionParams { attempt: 5, attached: false };
    let (acts, ctl) = subscription_step(&p, SyncEvent::SyncFinishedErr("boom".to_string()));
    assert_eq!(ctl, SyncControl::Continue);
    assert_eq!(acts.len(), 2);
    match &acts[0] {
        SyncAction::Emit(Event::Message(m)) => {
            assert_eq!(m.text, "boom");
            assert_eq!(m.mtype, MessageType::Error);
        }
        _ => panic!("expected the engine message"),
    }
    match &acts[1] {
        SyncAction::Emit(Event::Message(m)) => {
            assert!(m.text.contains("no further automatic retries"));
            assert_eq!(m.mtype, MessageType::Error);
        }
        _ => panic!("expected the terminal message"),
    }

    // With attempts left the follow-up message defers to the timer.
    let p = SubscriptionParams { attempt: 2, attached: false };
    let (acts, _) = subscription_step(&p, SyncEvent::SyncFinishedErr("boom".to_string()));
    match &acts[1] {
        SyncAction::Emit(Event::Message(m)) => {
            assert!(m.text.contains("waiting for the retry timer"));
        }
        _ => panic!("expected the retry note"),
    }
}

#[test]
fn ticket_flow_emits_config_then_sync_then_notes() {
    let mut w = Worker::new(test_config());

    let effs = w.announce_ready();
    assert!(matches!(&effs[0], Effect::Emit(Event::SetReady)));

    let effs = w.handle_command(Command::Setup, 0);
    assert!(matches!(&effs[0], Effect::Emit(Event::Message(m)) if m.text == "Ready..."));

    // Submitting a ticket asks the engine to import it.
    let effs = w.handle_command(Command::DocTicket("TICKET".to_string()), 0);
    assert_eq!(effs.len(), 1);
    match &effs[0] {
        Effect::Engine(EngineOp::ImportTicket { ticket, author }) => {
            assert_eq!(ticket, "TICKET");
            assert_eq!(author, &None);
        }
        _ => panic!("expected an import"),
    }

    // The engine answers: a config change (author bound) comes first,
    // then the sync spawn, then the persisted binding.
    let effs = w.on_attached(
        "DOC".to_string(),
        "SHARE".to_string(),
        "AUTHOR".to_string(),
        NoteStore::new(),
    );
    assert_eq!(effs.len(), 3);
    match &effs[0] {
        Effect::Emit(Event::SendConfig(c)) => {
            assert_eq!(c.author.as_deref(), Some("AUTHOR"));
            assert_eq!(c.doc_key.as_deref(), Some("DOC"));
        }
        _ => panic!("expected the config event first"),
    }
    match &effs[1] {
        Effect::SpawnSync(p) => {
            assert_eq!(p.attempt, 1);
            assert!(!p.attached);
        }
        _ => panic!("expected the sync spawn"),
    }
    assert!(matches!(&effs[2], Effect::Emit(Event::SendConfig(_))));
    assert!(w.bound);
    assert_eq!(w.retry, 2);

    // Populate the bound store, then let replication finish.
    let effs = w.handle_command(Command::NewNote("n1".to_string(), "hi".to_string()), 10);
    assert!(effs.is_empty());

    let p = SubscriptionParams { attempt: 1, attached: false };
    let (acts, ctl) = subscription_step(&p, SyncEvent::PendingContentReady);
    assert_eq!(ctl, SyncControl::Continue);
    match &acts[0] {
        SyncAction::Emit(Event::Message(m)) => {
            assert_eq!(m.text, "Content Ready");
            assert_eq!(m.mtype, MessageType::Good);
        }
        _ => panic!("expected the ready message"),
    }
    let follow_up = match &acts[1] {
        SyncAction::SelfCommand(c) => c,
        _ => panic!("expected a self-command"),
    };
    assert!(matches!(follow_up, Command::GetNotes));

    // The self-addressed refresh ends in a note list.
    let effs = w.handle_command(Command::GetNotes, 11);
    assert_eq!(effs.len(), 1);
    match &effs[0] {
        Effect::Emit(Event::NoteList(ids)) => assert_eq!(ids, &vec!["n1".to_string()]),
        _ => panic!("expected the note list"),
    }
}

#[test]
fn author_is_never_regenerated() {
    let mut cfg = test_config();
    cfg.author = Some("KEEP".to_string());
    let mut w = Worker::new(cfg);
    w.handle_command(Command::DocId("DOC".to_string()), 0);
    let effs = w.on_attached(
        "DOC".to_string(),
        "SHARE".to_string(),
        "FRESH".to_string(),
        NoteStore::new(),
    );
    assert_eq!(w.config.author.as_deref(), Some("KEEP"));
    // Opening by id persists nothing: only the spawn comes back.
    assert_eq!(effs.len(), 1);
    assert!(matches!(&effs[0], Effect::SpawnSync(_)));
    assert_eq!(w.config.doc_key, None);
}

#[test]
fn unbound_commands_are_quiet_or_placeholder() {
    let mut w = Worker::new(test_config());
    assert!(w
        .handle_command(Command::NewNote("a".to_string(), "t".to_string()), 0)
        .is_empty());
    assert!(w
        .handle_command(Command::SaveNote("a".to_string(), "t".to_string()), 0)
        .is_empty());
    assert!(w.handle_command(Command::DeleteHidden, 0).is_empty());
    assert!(w.handle_command(Command::Attach, 0).is_empty());

    let effs = w.handle_command(Command::GetNotes, 0);
    assert!(matches!(&effs[0], Effect::Emit(Event::NoteList(ids)) if ids.is_empty()));

    let effs = w.handle_command(Command::GetNote("a".to_string()), 0);
    match &effs[0] {
        Effect::Emit(Event::SendNote(n)) => {
            assert_eq!(n.id, "a");
            assert_eq!(n.text, "");
        }
        _ => panic!("expected the placeholder note"),
    }

    let effs = w.handle_command(Command::GetShareTicket, 0);
    assert!(matches!(&effs[0], Effect::Emit(Event::SendShareTicket(t)) if t.is_empty()));
}

#[test]
fn failed_command_emits_error_then_finished() {
    let mut w = Worker::new(test_config());
    w.handle_command(Command::DocId("DOC".to_string()), 0);
    w.on_attached(
        "DOC".to_string(),
        "SHARE".to_string(),
        "A".to_string(),
        NoteStore::new(),
    );
    let long = "x".repeat(2001);
    let effs = w.handle_command(Command::NewNote("a".to_string(), long), 0);
    assert_eq!(effs.len(), 3);
    let (text, sev) = message_of(&effs[0]).expect("error message");
    assert_eq!(text, "text is too long");
    assert_eq!(sev, MessageType::Error);
    let (text, sev) = message_of(&effs[1]).expect("finish message");
    assert_eq!(text, "Finished...");
    assert_eq!(sev, MessageType::Good);
    assert!(matches!(&effs[2], Effect::Emit(Event::Finished)));
}

#[test]
fn attach_command_respawns_with_growing_attempts() {
    let mut w = Worker::new(test_config());
    w.handle_command(Command::DocId("DOC".to_string()), 0);
    w.on_attached(
        "DOC".to_string(),
        "SHARE".to_string(),
        "A".to_string(),
        NoteStore::new(),
    );
    assert_eq!(w.retry, 2);
    let effs = w.handle_command(Command::Attach, 0);
    match &effs[0] {
        Effect::SpawnSync(p) => {
            assert_eq!(p.attempt, 2);
            assert!(!p.attached);
        }
        _ => panic!("expected a spawn"),
    }
    assert_eq!(w.retry, 3);
    w.mark_attached();
    let effs = w.handle_command(Command::Attach, 0);
    match &effs[0] {
        Effect::SpawnSync(p) => assert!(p.attached),
        _ => panic!("expected a spawn"),
    }
}

#[test]
fn attach_failure_uses_the_error_convention() {
    let mut w = Worker::new(test_config());
    w.handle_command(Command::DocTicket("T".to_string()), 0);
    let effs = w.on_attach_failed("no such document".to_string());
    assert_eq!(effs.len(), 3);
    let (text, sev) = message_of(&effs[0]).expect("error message");
    assert_eq!(text, "no such document");
    assert_eq!(sev, MessageType::Error);
    assert!(!w.bound);
}

#[test]
fn timer_ticks_while_running_and_stops_once() {
    let mut t = TimerTask::new(100);
    match t.on_tick(130) {
        Some(Event::Tick(s)) => assert_eq!(s, 30),
        _ => panic!("expected a tick"),
    }
    let stop = t.on_command(TimerCommands::Reset, 140);
    assert!(matches!(stop, Some(Event::StopTick)));
    assert!(t.on_tick(150).is_none());
    assert!(t.on_command(TimerCommands::Start, 200).is_none());
    match t.on_tick(205) {
        Some(Event::Tick(s)) => assert_eq!(s, 5),
        _ => panic!("expected a tick"),
    }
}
