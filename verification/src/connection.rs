//! One connection's cycle of reading, serving and writing, as a machine that
//! the program drives.
//!
//! The worker never touches a socket or a file. The program performs the
//! action that the worker asks for and reports what came of it as the next
//! event; it holds the store exclusively for the length of each step, and
//! keeps holding it while it writes a snapshot, so that snapshots reach the
//! backing file in the order in which the store changed. That puts every
//! connection behind the disk for the length of a write: consistency of the
//! file is bought with throughput.
//!
//! Requests are lines of the text protocol. Bytes are gathered until a line
//! feed arrives; the line before it is served and leaves the buffer, and
//! what follows it waits for its turn.

use vstd::prelude::*;
use vstd::slice::slice_subrange;
use vstd::utf8::*;
use crate::protocol::{dispatch, mutates, Response, ResponseText};
use crate::snapshot::{save, snapshot_json};
use crate::store::{KeyValueStore, TextMap};
use crate::text::{
    decode,
    decode_lossy,
    encode,
    line_effect,
    line_response,
    lossy_text,
    parse_line,
    reply_text,
};

verus! {

/// Where a connection stands in its cycle.
#[derive(Debug, PartialEq, Eq)]
enum Phase {
    /// Waiting for bytes from the peer.
    AwaitingInput,
    /// Waiting for the snapshot to reach the backing file, with the reply
    /// that is sent once it has.
    Saving { reply: String },
    /// Waiting for a reply to be written to the peer.
    Writing,
    /// Finished: the peer left, or reading or writing failed.
    Closed,
}

/// A phase as mathematical text.
pub enum PhaseText {
    AwaitingInput,
    Saving { reply: Seq<char> },
    Writing,
    Closed,
}

impl View for Phase {
    type V = PhaseText;

    closed spec fn view(&self) -> PhaseText {
        match *self {
            Phase::AwaitingInput => PhaseText::AwaitingInput,
            Phase::Saving { reply } => PhaseText::Saving { reply: reply@ },
            Phase::Writing => PhaseText::Writing,
            Phase::Closed => PhaseText::Closed,
        }
    }
}

/// What the program reports to the worker.
#[derive(Debug, PartialEq, Eq)]
pub enum Event {
    /// A read returned these bytes; none means that the peer has closed.
    Received(Vec<u8>),
    /// A read failed.
    ReadFailed,
    /// The snapshot is in the backing file.
    Saved,
    /// The snapshot could not be written.
    SaveFailed,
    /// The reply was written to the peer.
    Written,
    /// The reply could not be written.
    WriteFailed,
}

/// An event as mathematical data.
pub enum EventText {
    Received(Seq<u8>),
    ReadFailed,
    Saved,
    SaveFailed,
    Written,
    WriteFailed,
}

impl View for Event {
    type V = EventText;

    open spec fn view(&self) -> EventText {
        match *self {
            Event::Received(bytes) => EventText::Received(bytes@),
            Event::ReadFailed => EventText::ReadFailed,
            Event::Saved => EventText::Saved,
            Event::SaveFailed => EventText::SaveFailed,
            Event::Written => EventText::Written,
            Event::WriteFailed => EventText::WriteFailed,
        }
    }
}

/// What the worker asks the program to do next.
#[derive(Debug, PartialEq, Eq)]
pub enum Action {
    /// Read from the peer and report `Received` or `ReadFailed`.
    Read,
    /// Replace the backing file by this snapshot and report `Saved` or
    /// `SaveFailed`.
    Save { snapshot: String },
    /// Write this reply to the peer and report `Written` or `WriteFailed`.
    Write { reply: String },
    /// Release the connection; the worker is finished.
    Close,
}

/// An action as mathematical text.
pub enum ActionText {
    Read,
    Save { snapshot: Seq<char> },
    Write { reply: Seq<char> },
    Close,
}

impl View for Action {
    type V = ActionText;

    open spec fn view(&self) -> ActionText {
        match *self {
            Action::Read => ActionText::Read,
            Action::Save { snapshot } => ActionText::Save { snapshot: snapshot@ },
            Action::Write { reply } => ActionText::Write { reply: reply@ },
            Action::Close => ActionText::Close,
        }
    }
}

/// The state of one connection.
pub struct Worker {
    phase: Phase,
    buffer: Vec<u8>,
    persistent: bool,
}

/// A worker as mathematical data.
pub struct WorkerText {
    /// Where the connection stands.
    pub phase: PhaseText,
    /// The bytes received and not yet served.
    pub buffer: Seq<u8>,
    /// Whether a snapshot is saved after each request that may have changed
    /// the store.
    pub persistent: bool,
}

impl View for Worker {
    type V = WorkerText;

    closed spec fn view(&self) -> WorkerText {
        WorkerText { phase: self.phase@, buffer: self.buffer@, persistent: self.persistent }
    }
}

/// The outcome of one step: the worker and the mapping after it, and the
/// action asked for.
pub struct Step {
    pub worker: WorkerText,
    pub store: TextMap,
    pub action: ActionText,
}

/// The line feed that ends a request.
pub open spec fn line_feed() -> u8 {
    10u8
}

/// The first position from `i` on that holds a line feed, or the length of
/// `buffer` where none follows.
pub open spec fn frame_end(buffer: Seq<u8>, i: int) -> int
    decreases buffer.len() - i,
{
    if 0 <= i < buffer.len() && buffer[i] != line_feed() {
        frame_end(buffer, i + 1)
    } else {
        i
    }
}

/// Whether `buffer` holds a whole request: a line feed.
pub open spec fn has_frame(buffer: Seq<u8>) -> bool {
    frame_end(buffer, 0) < buffer.len()
}

/// The first request of `buffer`: the bytes before its first line feed.
pub open spec fn first_frame(buffer: Seq<u8>) -> Seq<u8> {
    buffer.subrange(0, frame_end(buffer, 0))
}

/// What is left of `buffer` without its first request and the line feed
/// that ends it.
pub open spec fn after_frame(buffer: Seq<u8>) -> Seq<u8> {
    buffer.subrange(frame_end(buffer, 0) + 1, buffer.len() as int)
}

/// A finished worker, which asks for the connection to be released and
/// leaves the mapping alone.
pub open spec fn closed(w: WorkerText, m: TextMap) -> Step {
    Step {
        worker: WorkerText {
            phase: PhaseText::Closed,
            buffer: Seq::empty(),
            persistent: w.persistent,
        },
        store: m,
        action: ActionText::Close,
    }
}

/// Serves the first request of the buffer, which holds one. Where the
/// worker is persistent and the request may have changed the mapping, the
/// new mapping's snapshot is to be saved before the reply is written.
pub open spec fn serve(w: WorkerText, m: TextMap) -> Step {
    let line = lossy_text(first_frame(w.buffer));
    let rest = after_frame(w.buffer);
    let after = line_effect(m, line);
    let reply = reply_text(line_response(m, line));
    let changes = match parse_line(line) {
        Some(request) => mutates(request),
        None => false,
    };
    if w.persistent && changes {
        Step {
            worker: WorkerText {
                phase: PhaseText::Saving { reply },
                buffer: rest,
                persistent: w.persistent,
            },
            store: after,
            action: ActionText::Save { snapshot: snapshot_json(after) },
        }
    } else {
        Step {
            worker: WorkerText {
                phase: PhaseText::Writing,
                buffer: rest,
                persistent: w.persistent,
            },
            store: after,
            action: ActionText::Write { reply },
        }
    }
}

/// Goes on with what the buffer holds: serves its first request if it holds
/// a whole one, and asks for more bytes if it does not.
pub open spec fn resume(w: WorkerText, m: TextMap) -> Step {
    if has_frame(w.buffer) {
        serve(w, m)
    } else {
        Step {
            worker: WorkerText {
                phase: PhaseText::AwaitingInput,
                buffer: w.buffer,
                persistent: w.persistent,
            },
            store: m,
            action: ActionText::Read,
        }
    }
}

/// The step that the worker `w` takes on the event `e` with the mapping `m`.
/// An event that does not answer the action last asked for finishes the
/// worker, and so does every event once it is finished.
pub open spec fn next(w: WorkerText, m: TextMap, e: EventText) -> Step {
    match (w.phase, e) {
        (PhaseText::AwaitingInput, EventText::Received(bytes)) => {
            if bytes.len() == 0 {
                closed(w, m)
            } else {
                resume(
                    WorkerText {
                        phase: w.phase,
                        buffer: w.buffer + bytes,
                        persistent: w.persistent,
                    },
                    m,
                )
            }
        },
        (PhaseText::Saving { reply }, EventText::Saved) => Step {
            worker: WorkerText {
                phase: PhaseText::Writing,
                buffer: w.buffer,
                persistent: w.persistent,
            },
            store: m,
            action: ActionText::Write { reply },
        },
        (PhaseText::Saving { reply }, EventText::SaveFailed) => Step {
            worker: WorkerText {
                phase: PhaseText::Writing,
                buffer: w.buffer,
                persistent: w.persistent,
            },
            store: m,
            action: ActionText::Write { reply: reply_text(ResponseText::NotSaved) },
        },
        (PhaseText::Writing, EventText::Written) => resume(w, m),
        _ => closed(w, m),
    }
}

/// The bytes of the request that the worker `w` serves on the event `e`,
/// if it serves one: the first request of what it then holds.
pub open spec fn served_frame(w: WorkerText, e: EventText) -> Option<Seq<u8>> {
    match (w.phase, e) {
        (PhaseText::AwaitingInput, EventText::Received(bytes)) => {
            if bytes.len() > 0 && has_frame(w.buffer + bytes) {
                Some(first_frame(w.buffer + bytes))
            } else {
                None
            }
        },
        (PhaseText::Writing, EventText::Written) => {
            if has_frame(w.buffer) {
                Some(first_frame(w.buffer))
            } else {
                None
            }
        },
        _ => None,
    }
}

/// Whether the bytes of a request are read as the text they encode, where
/// they are valid UTF-8.
pub open spec fn reads_own_text(frame: Seq<u8>) -> bool {
    valid_utf8(frame) ==> lossy_text(frame) == decode_utf8(frame)
}

impl Worker {
    /// A worker for a connection that was just accepted: it waits for input
    /// with an empty buffer. The first action to perform is a read.
    pub fn new(persistent: bool) -> (w: Worker)
        ensures
            w@ == (WorkerText {
                phase: PhaseText::AwaitingInput,
                buffer: Seq::empty(),
                persistent,
            }),
    {
        Worker { phase: Phase::AwaitingInput, buffer: Vec::new(), persistent }
    }

    /// Whether the worker is finished.
    pub fn is_closed(&self) -> (r: bool)
        ensures
            r == (self@.phase is Closed),
    {
        match self.phase {
            Phase::Closed => true,
            _ => false,
        }
    }

    /// The number of bytes received and not yet served.
    pub fn buffered(&self) -> (n: usize)
        ensures
            n == self@.buffer.len(),
    {
        self.buffer.len()
    }

    /// The position of the first line feed of the buffer, if it has one.
    fn find_frame(&self) -> (r: Option<usize>)
        ensures
            match r {
                Some(p) => p == frame_end(self.buffer@, 0) && p < self.buffer@.len(),
                None => !has_frame(self.buffer@),
            },
    {
        let mut i: usize = 0;
        while i < self.buffer.len()
            invariant
                i <= self.buffer@.len(),
                frame_end(self.buffer@, 0) == frame_end(self.buffer@, i as int),
            decreases self.buffer@.len() - i,
        {
            if self.buffer[i] == 10u8 {
                return Some(i);
            }
            i += 1;
        }
        None
    }

    /// Finishes the worker.
    fn close(&mut self) -> (action: Action)
        ensures
            (Step { worker: final(self)@, store: Map::empty(), action: action@ }) == closed(
                old(self)@,
                Map::empty(),
            ),
    {
        self.phase = Phase::Closed;
        self.buffer = Vec::new();
        Action::Close
    }

    /// Serves the first request of the buffer, which ends at `p`.
    fn serve_frame(&mut self, p: usize, store: &mut KeyValueStore) -> (action: Action)
        requires
            p == frame_end(old(self).buffer@, 0),
            p < old(self).buffer@.len(),
        ensures
            (Step { worker: final(self)@, store: final(store)@, action: action@ }) == serve(
                old(self)@,
                old(store)@,
            ),
            reads_own_text(first_frame(old(self)@.buffer)),
    {
        let held: usize = self.buffer.len();
        let rest = self.buffer.split_off(p + 1);
        let line = decode_lossy(slice_subrange(self.buffer.as_slice(), 0, p));
        proof {
            assert(self.buffer@.subrange(0, p as int) =~= first_frame(old(self).buffer@));
        }
        self.buffer = rest;
        let (response, changes) = match decode(line.as_str()) {
            Some(request) => {
                let changes = request.is_mutation();
                (dispatch(store, request), changes)
            },
            None => (Response::Unsupported, false),
        };
        let reply = encode(&response);
        if self.persistent && changes {
            self.phase = Phase::Saving { reply };
            Action::Save { snapshot: save(store) }
        } else {
            self.phase = Phase::Writing;
            Action::Write { reply }
        }
    }

    /// Goes on with what the buffer holds.
    fn resume(&mut self, store: &mut KeyValueStore) -> (action: Action)
        ensures
            (Step { worker: final(self)@, store: final(store)@, action: action@ }) == resume(
                old(self)@,
                old(store)@,
            ),
            has_frame(old(self)@.buffer) ==> reads_own_text(first_frame(old(self)@.buffer)),
    {
        match self.find_frame() {
            Some(p) => self.serve_frame(p, store),
            None => {
                self.phase = Phase::AwaitingInput;
                Action::Read
            },
        }
    }

    /// Takes one step: the worker is told what came of the action it asked
    /// for last, acts on the store if a whole request has arrived, and says
    /// what to do next. A finished worker leaves the store alone. The bytes
    /// of a request are read as UTF-8: where they are valid, the line that
    /// is served is the text they encode.
    pub fn step(&mut self, event: Event, store: &mut KeyValueStore) -> (action: Action)
        ensures
            (Step { worker: final(self)@, store: final(store)@, action: action@ }) == next(
                old(self)@,
                old(store)@,
                event@,
            ),
            match served_frame(old(self)@, event@) {
                Some(frame) => reads_own_text(frame),
                None => true,
            },
    {
        let mut phase = Phase::Closed;
        std::mem::swap(&mut phase, &mut self.phase);
        match (phase, event) {
            (Phase::AwaitingInput, Event::Received(bytes)) => {
                if bytes.len() == 0 {
                    self.close()
                } else {
                    let mut bytes = bytes;
                    self.buffer.append(&mut bytes);
                    self.phase = Phase::AwaitingInput;
                    self.resume(store)
                }
            },
            (Phase::Saving { reply }, Event::Saved) => {
                self.phase = Phase::Writing;
                Action::Write { reply }
            },
            (Phase::Saving { reply }, Event::SaveFailed) => {
                self.phase = Phase::Writing;
                Action::Write { reply: encode(&Response::NotSaved) }
            },
            (Phase::Writing, Event::Written) => {
                self.phase = Phase::Writing;
                self.resume(store)
            },
            _ => self.close(),
        }
    }
}

} // verus!
