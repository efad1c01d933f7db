//! The worker's surface: its configuration, the commands it accepts and
//! the events it emits.

use vstd::prelude::*;
use vstd::string::*;
use crate::note::Note;
use crate::render::hex_spec;
use crate::render::hex_lower;

verus! {

/// The persisted application configuration.
#[derive(Clone, Debug)]
pub struct Config {
    pub dark_mode: bool,
    pub download_path: String,
    pub store_path: String,
    pub secret_key: String,
    pub doc_key: Option<String>,
    pub author: Option<String>,
    pub mothership: Option<String>,
}

/// A field-for-field copy whose fields equal the source's.
pub fn config_dup(c: &Config) -> (r: Config)
    ensures
        r == *c,
{
    Config {
        dark_mode: c.dark_mode,
        download_path: c.download_path.clone(),
        store_path: c.store_path.clone(),
        secret_key: c.secret_key.clone(),
        doc_key: match &c.doc_key {
            Some(s) => Some(s.clone()),
            None => None,
        },
        author: match &c.author {
            Some(s) => Some(s.clone()),
            None => None,
        },
        mothership: match &c.mothership {
            Some(s) => Some(s.clone()),
            None => None,
        },
    }
}

/// The configuration of a first run: dark mode on, the given paths, the
/// peer identity hex-encoded from the given secret bytes, and no
/// document or author bound yet.
pub fn initial_config(download_path: String, store_path: String, secret: &Vec<u8>) -> (c: Config)
    ensures
        c.dark_mode,
        c.download_path == download_path,
        c.store_path == store_path,
        c.secret_key@ == hex_spec(secret@),
        c.doc_key is None,
        c.author is None,
        c.mothership is None,
{
    Config {
        dark_mode: true,
        download_path,
        store_path,
        secret_key: hex_lower(secret),
        doc_key: None,
        author: None,
        mothership: None,
    }
}

/// The severity of a displayed message.
#[derive(Clone, Copy, Debug, PartialEq, Eq, Structural)]
pub enum MessageType {
    Good,
    Info,
    Error,
}

/// A message for the UI's log area.
#[derive(Clone, Debug)]
pub struct MessageDisplay {
    pub text: String,
    pub mtype: MessageType,
}

/// Worker-to-UI notifications, delivered in emission order.
#[derive(Debug)]
pub enum Event {
    Message(MessageDisplay),
    SendConfig(Config),
    SendShareTicket(String),
    NoteList(Vec<String>),
    SendNote(Note),
    Tick(u64),
    StopTick,
    Finished,
    SetReady,
}

/// UI-to-worker commands, processed in submission order.
pub enum Command {
    /// The UI announces itself; the repaint hook is registered outside.
    Setup,
    DocTicket(String),
    DocId(String),
    GetShareTicket,
    GetNotes,
    GetNote(String),
    SendConfig(Config),
    SaveNote(String, String),
    NewNote(String, String),
    ResetTimer,
    DeleteHidden,
    HideNote(String),
    Attach,
}

/// A message event with the given text and severity.
pub fn message_event(text: String, mtype: MessageType) -> (r: Event)
    ensures
        r matches Event::Message(m) && m.text == text && m.mtype == mtype,
{
    Event::Message(MessageDisplay { text, mtype })
}

} // verus!
