//! The worker actor's core: one command in, a new state and a list of
//! effects out.
//!
//! The surrounding loop lives outside: it receives commands from a
//! bounded queue, calls `handle_command`, and performs the effects in
//! order — emitting events to the UI, relaying timer control, invoking
//! the document engine, or spawning a sync subscription task. Engine
//! calls report back through `on_attached` and `on_attach_failed`.
//! Every failure is converted to events at this boundary; the worker
//! itself never panics.

use vstd::prelude::*;
use vstd::string::*;
use crate::comms::config_dup;
use crate::comms::message_event;
use crate::comms::Command;
use crate::comms::Config;
use crate::comms::Event;
use crate::comms::MessageType;
use crate::keys::id_ok;
use crate::note::NoteView;
use crate::note::MAX_TEXT_LEN;
use crate::store::deleted_ids;
use crate::store::fresh_view;
use crate::store::model_note;
use crate::store::storable;
use crate::store::NoteError;
use crate::store::NoteStore;
use crate::supervisor::SubscriptionParams;
use crate::timer::TimerCommands;

verus! {

/// What the worker has asked the engine to do.
pub enum EngineOp {
    /// Open an existing document by identifier, with the author to use
    /// if one is already bound.
    OpenById { id: String, author: Option<String> },
    /// Import a document from an invitation ticket.
    ImportTicket { ticket: String, author: Option<String> },
}

/// One step's output, performed by the surrounding loop in order.
pub enum Effect {
    /// Deliver an event to the UI.
    Emit(Event),
    /// Relay a control message to the timer task.
    Timer(TimerCommands),
    /// Call the document engine; it answers through `on_attached` or
    /// `on_attach_failed`.
    Engine(EngineOp),
    /// Spawn a sync subscription task with this snapshot.
    SpawnSync(SubscriptionParams),
}

/// The attach request the worker is waiting on.
pub enum PendingAttach {
    ByTicket(String),
    ById(String),
}

/// The worker's state between commands.
pub struct Worker {
    pub config: Config,
    pub store: NoteStore,
    /// Whether a document is bound; while false the store is ignored.
    pub bound: bool,
    /// Whether the bound document has been marked attached.
    pub attached: bool,
    /// The attach attempt counter: starts at 1, grows with every spawned
    /// subscription, and resets only when a new document is bound.
    pub retry: u32,
    /// The share ticket of the bound document; empty while unbound.
    pub share_ticket: String,
    pub pending: Option<PendingAttach>,
}

/// The error-and-finish convention: a failed command emits its message
/// at error severity, then the finish pair that resets the UI.
pub open spec fn failure_effects_spec(effs: Seq<Effect>, text: Seq<char>) -> bool {
    &&& effs.len() == 3
    &&& effs[0] matches Effect::Emit(Event::Message(m)) && m.text@ == text && m.mtype
        == MessageType::Error
    &&& effs[1] matches Effect::Emit(Event::Message(m)) && m.text@ == "Finished..."@ && m.mtype
        == MessageType::Good
    &&& effs[2] matches Effect::Emit(Event::Finished)
}

/// Which error a create with these inputs reports.
pub open spec fn create_err(id: Seq<char>, text: Seq<char>) -> NoteError {
    if text.len() > MAX_TEXT_LEN {
        NoteError::TextTooLong
    } else if !id_ok(id) {
        NoteError::InvalidId
    } else {
        NoteError::NoteTooLarge
    }
}

/// Which error a tombstone toggle with this id reports.
pub open spec fn hide_err(id: Seq<char>) -> NoteError {
    if !id_ok(id) {
        NoteError::InvalidId
    } else {
        NoteError::NoteTooLarge
    }
}

/// The note a text update writes over the note `base` stored for `id`.
pub open spec fn updated_view(base: NoteView, id: Seq<char>, text: Seq<char>, now: i64) -> NoteView {
    NoteView {
        id: id,
        text: text,
        created: base.created,
        updated: now,
        is_delete: base.is_delete,
    }
}

/// The note a tombstone toggle writes over the note `base` stored for
/// `id`.
pub open spec fn toggled_view(base: NoteView, id: Seq<char>) -> NoteView {
    NoteView {
        id: id,
        text: base.text,
        created: base.created,
        updated: base.updated,
        is_delete: !base.is_delete,
    }
}

fn failure_effects(msg: String) -> (r: Vec<Effect>)
    ensures
        failure_effects_spec(r@, msg@),
{
    let mut r: Vec<Effect> = Vec::new();
    r.push(Effect::Emit(message_event(msg, MessageType::Error)));
    r.push(Effect::Emit(message_event(String::from_str("Finished..."), MessageType::Good)));
    r.push(Effect::Emit(Event::Finished));
    r
}

impl Worker {
    pub open spec fn wf(self) -> bool {
        &&& self.store.wf()
        &&& self.retry >= 1
    }

    /// All state that `handle_command` leaves alone for read-only
    /// commands.
    pub open spec fn same_binding(a: Worker, b: Worker) -> bool {
        &&& a.store == b.store
        &&& a.bound == b.bound
        &&& a.attached == b.attached
        &&& a.retry == b.retry
        &&& a.share_ticket == b.share_ticket
    }

    /// A worker with the given configuration and nothing bound.
    pub fn new(config: Config) -> (r: Worker)
        ensures
            r.wf(),
            r.config == config,
            !r.bound,
            !r.attached,
            r.retry == 1,
            r.share_ticket@ == Seq::<char>::empty(),
            r.pending is None,
            r.store.model() == Map::<Seq<char>, NoteView>::empty(),
    {
        Worker {
            config,
            store: NoteStore::new(),
            bound: false,
            attached: false,
            retry: 1,
            share_ticket: String::new(),
            pending: None,
        }
    }

    /// What a freshly started worker tells the UI: it is safe to issue
    /// document commands now.
    pub fn announce_ready(&self) -> (effs: Vec<Effect>)
        ensures
            effs@.len() == 1,
            effs@[0] matches Effect::Emit(Event::SetReady),
    {
        let mut effs: Vec<Effect> = Vec::new();
        effs.push(Effect::Emit(Event::SetReady));
        effs
    }

    /// Restart the sync subscription against the bound document: spawn a
    /// task with the current attempt counter and attached flag, then
    /// advance the counter.
    fn run_sync(&mut self) -> (effs: Vec<Effect>)
        requires
            old(self).wf(),
        ensures
            final(self).wf(),
            final(self).config == old(self).config,
            final(self).store == old(self).store,
            final(self).bound == old(self).bound,
            final(self).attached == old(self).attached,
            final(self).share_ticket == old(self).share_ticket,
            final(self).pending == old(self).pending,
            final(self).retry == if old(self).retry < u32::MAX {
                (old(self).retry + 1) as u32
            } else {
                old(self).retry
            },
            effs@.len() == 1,
            effs@[0] matches Effect::SpawnSync(p) && p.attempt == old(self).retry && p.attached
                == old(self).attached,
    {
        let mut effs: Vec<Effect> = Vec::new();
        effs.push(
            Effect::SpawnSync(SubscriptionParams { attempt: self.retry, attached: self.attached }),
        );
        if self.retry < u32::MAX {
            self.retry = self.retry + 1;
        }
        effs
    }

    /// Dispatch one command. Failures never escape: they become the
    /// error-and-finish event convention in the returned effects.
    pub fn handle_command(&mut self, cmd: Command, now: i64) -> (effs: Vec<Effect>)
        requires
            old(self).wf(),
        ensures
            final(self).wf(),
            match cmd {
                Command::Setup => *final(self) == *old(self) && effs@.len() == 1 && (effs@[0]
                    matches Effect::Emit(Event::Message(m)) && m.text@ == "Ready..."@ && m.mtype
                    == MessageType::Good),
                Command::SendConfig(c) => final(self).config == c && Worker::same_binding(
                    *final(self),
                    *old(self),
                ) && final(self).pending == old(self).pending && effs@.len() == 0,
                Command::ResetTimer => *final(self) == *old(self) && effs@.len() == 1 && (effs@[0]
                    matches Effect::Timer(TimerCommands::Reset)),
                Command::GetShareTicket => *final(self) == *old(self) && effs@.len() == 1 && (
                effs@[0] matches Effect::Emit(Event::SendShareTicket(t)) && t == old(self).share_ticket),
                Command::GetNotes => *final(self) == *old(self) && effs@.len() == 1 && (effs@[0]
                    matches Effect::Emit(Event::NoteList(ids)) && (if old(self).bound {
                    old(self).store.id_listing_ok(ids@)
                } else {
                    ids@.len() == 0
                })),
                Command::GetNote(id) => *final(self) == *old(self) && effs@.len() == 1 && (effs@[0]
                    matches Effect::Emit(Event::SendNote(n)) && n@ == (if old(self).bound {
                    model_note(old(self).store.model(), id@)
                } else {
                    crate::note::missing_view(id@)
                })),
                Command::NewNote(id, text) => final(self).config == old(self).config && final(self).bound == old(self).bound && final(self).attached == old(self).attached && final(self).retry == old(self).retry && final(self).share_ticket == old(self).share_ticket
                    && (if !old(self).bound {
                    *final(self) == *old(self) && effs@.len() == 0
                } else if storable(fresh_view(id@, text@, now)) {
                    final(self).store.model() == old(self).store.model().insert(
                        id@,
                        fresh_view(id@, text@, now),
                    ) && effs@.len() == 0
                } else {
                    final(self).store.model() == old(self).store.model() && failure_effects_spec(
                        effs@,
                        create_err(id@, text@).message_spec(),
                    )
                }),
                Command::SaveNote(id, text) => final(self).config == old(self).config && final(self).bound == old(self).bound && final(self).attached == old(self).attached && final(self).retry == old(self).retry && final(self).share_ticket == old(self).share_ticket
                    && ({
                    let newv = updated_view(
                        model_note(old(self).store.model(), id@),
                        id@,
                        text@,
                        now,
                    );
                    if !old(self).bound {
                        *final(self) == *old(self) && effs@.len() == 0
                    } else if storable(newv) {
                        final(self).store.model() == old(self).store.model().insert(id@, newv)
                            && effs@.len() == 0
                    } else {
                        final(self).store.model() == old(self).store.model()
                            && failure_effects_spec(
                            effs@,
                            create_err(id@, text@).message_spec(),
                        )
                    }
                }),
                Command::HideNote(id) => final(self).config == old(self).config && final(self).bound == old(self).bound && final(self).attached == old(self).attached && final(self).retry == old(self).retry && final(self).share_ticket == old(self).share_ticket
                    && ({
                    let newv = toggled_view(model_note(old(self).store.model(), id@), id@);
                    if !old(self).bound {
                        *final(self) == *old(self) && effs@.len() == 0
                    } else if id_ok(id@) && crate::codec::note_enc(newv).len()
                        < crate::note::MAX_NOTE_SIZE {
                        final(self).store.model() == old(self).store.model().insert(id@, newv)
                            && effs@.len() == 1 && (effs@[0] matches Effect::Emit(
                            Event::Message(m),
                        ) && m.text@ == "hide note"@ && m.mtype == MessageType::Info)
                    } else {
                        final(self).store.model() == old(self).store.model()
                            && failure_effects_spec(effs@, hide_err(id@).message_spec())
                    }
                }),
                Command::DeleteHidden => final(self).config == old(self).config && final(self).bound == old(self).bound && final(self).attached == old(self).attached && final(self).retry == old(self).retry && final(self).share_ticket == old(self).share_ticket
                    && (if !old(self).bound {
                    *final(self) == *old(self) && effs@.len() == 0
                } else {
                    final(self).store.model() == old(self).store.model().remove_keys(
                        deleted_ids(old(self).store.model()),
                    ) && effs@.len() == 1 && (effs@[0] matches Effect::Emit(Event::Message(m))
                        && m.text@ == "delete hidden"@ && m.mtype == MessageType::Info)
                }),
                Command::DocId(id) => Worker::same_binding(*final(self), *old(self)) && final(self).config == old(self).config && (final(self).pending matches Some(
                    PendingAttach::ById(i2),
                ) && i2 == id) && effs@.len() == 1 && (effs@[0] matches Effect::Engine(
                    EngineOp::OpenById { id: eid, author },
                ) && eid == id && author == old(self).config.author),
                Command::DocTicket(t) => Worker::same_binding(*final(self), *old(self)) && final(self).config == old(self).config && (final(self).pending matches Some(
                    PendingAttach::ByTicket(t2),
                ) && t2 == t) && effs@.len() == 1 && (effs@[0] matches Effect::Engine(
                    EngineOp::ImportTicket { ticket, author },
                ) && ticket == t && author == old(self).config.author),
                Command::Attach => final(self).config == old(self).config && final(self).pending
                    == old(self).pending && (if !old(self).bound {
                    *final(self) == *old(self) && effs@.len() == 0
                } else {
                    final(self).store == old(self).store && final(self).bound && final(self).attached == old(self).attached && final(self).share_ticket == old(self).share_ticket && final(self).retry == (if old(self).retry < u32::MAX {
                        (old(self).retry + 1) as u32
                    } else {
                        old(self).retry
                    }) && effs@.len() == 1 && (effs@[0] matches Effect::SpawnSync(p) && p.attempt
                        == old(self).retry && p.attached == old(self).attached)
                }),
            },
    {
        match cmd {
            Command::Setup => {
                let mut effs: Vec<Effect> = Vec::new();
                effs.push(
                    Effect::Emit(message_event(String::from_str("Ready..."), MessageType::Good)),
                );
                effs
            },
            Command::SendConfig(c) => {
                self.config = c;
                Vec::new()
            },
            Command::ResetTimer => {
                let mut effs: Vec<Effect> = Vec::new();
                effs.push(Effect::Timer(TimerCommands::Reset));
                effs
            },
            Command::GetShareTicket => {
                let mut effs: Vec<Effect> = Vec::new();
                effs.push(Effect::Emit(Event::SendShareTicket(self.share_ticket.clone())));
                effs
            },
            Command::GetNotes => {
                let mut effs: Vec<Effect> = Vec::new();
                if self.bound {
                    let ids = self.store.get_note_vec();
                    effs.push(Effect::Emit(Event::NoteList(ids)));
                } else {
                    effs.push(Effect::Emit(Event::NoteList(Vec::new())));
                }
                effs
            },
            Command::GetNote(id) => {
                let mut effs: Vec<Effect> = Vec::new();
                if self.bound {
                    let n = self.store.get_note(id);
                    effs.push(Effect::Emit(Event::SendNote(n)));
                } else {
                    effs.push(Effect::Emit(Event::SendNote(crate::note::Note::missing_note(id))));
                }
                effs
            },
            Command::NewNote(id, text) => {
                if self.bound {
                    match self.store.create(id, text, now) {
                        Ok(_) => Vec::new(),
                        Err(e) => failure_effects(e.message()),
                    }
                } else {
                    Vec::new()
                }
            },
            Command::SaveNote(id, text) => {
                if self.bound {
                    match self.store.update_note(id, text, now) {
                        Ok(()) => Vec::new(),
                        Err(e) => failure_effects(e.message()),
                    }
                } else {
                    Vec::new()
                }
            },
            Command::HideNote(id) => {
                if self.bound {
                    match self.store.set_delete(id) {
                        Ok(()) => {
                            let mut effs: Vec<Effect> = Vec::new();
                            effs.push(
                                Effect::Emit(
                                    message_event(
                                        String::from_str("hide note"),
                                        MessageType::Info,
                                    ),
                                ),
                            );
                            effs
                        },
                        Err(e) => failure_effects(e.message()),
                    }
                } else {
                    Vec::new()
                }
            },
            Command::DeleteHidden => {
                if self.bound {
                    self.store.delete_hidden();
                    let mut effs: Vec<Effect> = Vec::new();
                    effs.push(
                        Effect::Emit(
                            message_event(String::from_str("delete hidden"), MessageType::Info),
                        ),
                    );
                    effs
                } else {
                    Vec::new()
                }
            },
            Command::DocId(id) => {
                let author = match &self.config.author {
                    Some(a) => Some(a.clone()),
                    None => None,
                };
                self.pending = Some(PendingAttach::ById(id.clone()));
                let mut effs: Vec<Effect> = Vec::new();
                effs.push(Effect::Engine(EngineOp::OpenById { id, author }));
                effs
            },
            Command::DocTicket(t) => {
                let author = match &self.config.author {
                    Some(a) => Some(a.clone()),
                    None => None,
                };
                self.pending = Some(PendingAttach::ByTicket(t.clone()));
                let mut effs: Vec<Effect> = Vec::new();
                effs.push(Effect::Engine(EngineOp::ImportTicket { ticket: t, author }));
                effs
            },
            Command::Attach => {
                if self.bound {
                    self.run_sync()
                } else {
                    Vec::new()
                }
            },
        }
    }

    /// The engine attached a document: bind its store, persist the
    /// binding, and start the sync subscription with a fresh attempt
    /// counter. An author identity, once bound, is never replaced.
    pub fn on_attached(
        &mut self,
        doc_id: String,
        ticket: String,
        author: String,
        store: NoteStore,
    ) -> (effs: Vec<Effect>)
        requires
            old(self).wf(),
            store.wf(),
        ensures
            final(self).wf(),
            final(self).bound,
            !final(self).attached,
            final(self).retry == 2,
            final(self).store == store,
            final(self).share_ticket == ticket,
            final(self).pending is None,
            final(self).config.author == (if old(self).config.author is Some {
                old(self).config.author
            } else {
                Some(author)
            }),
            final(self).config.doc_key == (if old(self).pending matches Some(
                PendingAttach::ByTicket(_),
            ) {
                Some(doc_id)
            } else {
                old(self).config.doc_key
            }),
            final(self).config.dark_mode == old(self).config.dark_mode,
            final(self).config.download_path == old(self).config.download_path,
            final(self).config.store_path == old(self).config.store_path,
            final(self).config.secret_key == old(self).config.secret_key,
            final(self).config.mothership == old(self).config.mothership,
            ({
                let fresh_author = old(self).config.author is None;
                let by_ticket = old(self).pending matches Some(PendingAttach::ByTicket(_));
                let spawn_at: int = if fresh_author {
                    1
                } else {
                    0
                };
                &&& effs@.len() == 1 + spawn_at + (if by_ticket {
                    1int
                } else {
                    0
                })
                &&& (fresh_author ==> (effs@[0] matches Effect::Emit(Event::SendConfig(c)) && c
                    == final(self).config))
                &&& (effs@[spawn_at] matches Effect::SpawnSync(p) && p.attempt == 1 && !p.attached)
                &&& (by_ticket ==> (effs@[effs@.len() - 1] matches Effect::Emit(
                    Event::SendConfig(c),
                ) && c == final(self).config))
            }),
    {
        let mut effs: Vec<Effect> = Vec::new();
        let fresh_author = match &self.config.author {
            Some(_) => false,
            None => true,
        };
        let by_ticket = match &self.pending {
            Some(PendingAttach::ByTicket(_)) => true,
            _ => false,
        };
        if by_ticket {
            self.config.doc_key = Some(doc_id);
        }
        if fresh_author {
            self.config.author = Some(author);
        }
        self.store = store;
        self.bound = true;
        self.attached = false;
        self.retry = 1;
        self.share_ticket = ticket;
        self.pending = None;
        if fresh_author {
            effs.push(Effect::Emit(Event::SendConfig(config_dup(&self.config))));
        }
        effs.push(
            Effect::SpawnSync(SubscriptionParams { attempt: self.retry, attached: self.attached }),
        );
        self.retry = 2;
        if by_ticket {
            effs.push(Effect::Emit(Event::SendConfig(config_dup(&self.config))));
        }
        effs
    }

    /// The engine could not attach: surface the failure with the
    /// error-and-finish convention and drop the pending request.
    pub fn on_attach_failed(&mut self, msg: String) -> (effs: Vec<Effect>)
        requires
            old(self).wf(),
        ensures
            final(self).wf(),
            Worker::same_binding(*final(self), *old(self)),
            final(self).config == old(self).config,
            final(self).pending is None,
            failure_effects_spec(effs@, msg@),
    {
        self.pending = None;
        failure_effects(msg)
    }

    /// The engine reports the document as attached: retries stop.
    pub fn mark_attached(&mut self)
        requires
            old(self).wf(),
        ensures
            final(self).wf(),
            *final(self) == (Worker { attached: true, ..*old(self) }),
    {
        self.attached = true;
    }
}

} // verus!
