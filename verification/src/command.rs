//! The structured protocol: a request is a tagged command, and so is the
//! reply. How a command is framed and encoded on the wire is left to the
//! program; a frame that decodes to no command is dropped there without a
//! reply, and the connection stays open.
//!
//! A `Fetch` is always answered. A `Put` or a `BatchPut` is answered only
//! where its snapshot could not be written: with a `Reply` that holds
//! neither key nor value.

use vstd::prelude::*;
use crate::store::{lookup, pairs_text, put_all, text_of, KeyValueStore, TextMap, TextPair};

verus! {

/// A message of the structured protocol.
#[allow(inconsistent_fields)]
#[derive(Debug, PartialEq, Eq)]
pub enum Command {
    /// Give a key a value.
    Put { key: String, value: String },
    /// Give each key of an ordered list its value, as one operation.
    BatchPut(Vec<(String, String)>),
    /// Ask for the value of a key.
    Fetch { key: String },
    /// The answer to a `Fetch`; as a request it asks for nothing.
    Reply { key: Option<String>, value: Option<String> },
}

/// A command as mathematical text.
#[allow(inconsistent_fields)]
pub enum CommandText {
    Put { key: Seq<char>, value: Seq<char> },
    BatchPut(Seq<TextPair>),
    Fetch { key: Seq<char> },
    Reply { key: Option<Seq<char>>, value: Option<Seq<char>> },
}

impl View for Command {
    type V = CommandText;

    open spec fn view(&self) -> CommandText {
        match *self {
            Command::Put { key, value } => CommandText::Put { key: key@, value: value@ },
            Command::BatchPut(pairs) => CommandText::BatchPut(pairs_text(pairs@)),
            Command::Fetch { key } => CommandText::Fetch { key: key@ },
            Command::Reply { key, value } => CommandText::Reply {
                key: text_of(key),
                value: text_of(value),
            },
        }
    }
}

/// The view of an optional command.
pub open spec fn command_text(c: Option<Command>) -> Option<CommandText> {
    match c {
        Some(command) => Some(command@),
        None => None,
    }
}

/// The mapping after `command` was processed on the mapping `m`.
pub open spec fn command_effect(m: TextMap, command: CommandText) -> TextMap {
    match command {
        CommandText::Put { key, value } => m.insert(key, value),
        CommandText::BatchPut(pairs) => put_all(m, pairs),
        CommandText::Fetch { key } => m,
        CommandText::Reply { key, value } => m,
    }
}

/// The reply to `command` processed on the mapping `m`. Every `Fetch` is
/// answered with the key asked for and the value it has; for an absent key
/// the reply holds the key and no value, which differs from a key whose
/// value is the empty text. No other command is answered.
pub open spec fn command_reply(m: TextMap, command: CommandText) -> Option<CommandText> {
    match command {
        CommandText::Fetch { key } => Some(
            CommandText::Reply { key: Some(key), value: lookup(m, key) },
        ),
        _ => None,
    }
}

/// Whether `command` is one that may change the mapping: a `Put` or a
/// `BatchPut`.
pub open spec fn command_mutates(command: CommandText) -> bool {
    command is Put || command is BatchPut
}

/// The reply that says that a change was not saved: it holds neither key
/// nor value.
pub open spec fn not_saved() -> CommandText {
    CommandText::Reply { key: None, value: None }
}

impl Command {
    /// Decides `command_mutates`.
    pub fn is_mutation(&self) -> (r: bool)
        ensures
            r == command_mutates(self@),
    {
        match self {
            Command::Put { .. } => true,
            Command::BatchPut(_) => true,
            _ => false,
        }
    }
}

/// The reply that is sent once the snapshot for a command was written, or
/// could not be. `reply` is what processing the command gave and `mutated`
/// whether the command was a mutation; where it was one and the snapshot
/// was not written, the reply says that the change was not saved. The
/// store keeps the change.
pub fn reply_after_save(reply: Option<Command>, mutated: bool, saved: bool) -> (r: Option<
    Command,
>)
    ensures
        command_text(r) == if mutated && !saved {
            Some(not_saved())
        } else {
            command_text(reply)
        },
{
    if mutated && !saved {
        Some(Command::Reply { key: None, value: None })
    } else {
        reply
    }
}

impl KeyValueStore {
    /// Processes one command. `Put` and `BatchPut` change the store and are
    /// not answered; `Fetch` is answered with the key and its value, or
    /// with the key and no value where the key is absent; a `Reply` that
    /// arrives as a request is ignored.
    pub fn process_command(&mut self, command: Command) -> (reply: Option<Command>)
        ensures
            final(self)@ == command_effect(old(self)@, command@),
            command_text(reply) == command_reply(old(self)@, command@),
    {
        match command {
            Command::Put { key, value } => {
                self.put(key, value);
                None
            },
            Command::BatchPut(pairs) => {
                self.batch_put(&pairs);
                None
            },
            Command::Fetch { key } => {
                let value = self.get(key.as_str());
                Some(Command::Reply { key: Some(key), value })
            },
            Command::Reply { key, value } => None,
        }
    }
}

} // verus!
