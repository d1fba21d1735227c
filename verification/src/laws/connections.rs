//! What holds of a connection's worker.

use vstd::prelude::*;
use crate::connection::{
    after_frame,
    closed,
    first_frame,
    frame_end,
    has_frame,
    line_feed,
    next,
    resume,
    ActionText,
    EventText,
    PhaseText,
    Step,
    WorkerText,
};
use crate::protocol::{mutates, RequestText};
use crate::snapshot::snapshot_json;
use crate::store::TextMap;
use crate::text::{line_effect, line_response, lossy_text, parse_line, reply_text};

verus! {

/// Whether `frame` holds no line feed.
pub open spec fn is_frame(frame: Seq<u8>) -> bool {
    forall|j: int| 0 <= j < frame.len() ==> #[trigger] frame[j] != line_feed()
}

/// A frame and its line feed at the start of a buffer are the buffer's
/// first request, and what follows them is what is left.
pub proof fn lemma_first_frame(frame: Seq<u8>, rest: Seq<u8>)
    requires
        is_frame(frame),
    ensures
        has_frame(frame + seq![line_feed()] + rest),
        first_frame(frame + seq![line_feed()] + rest) == frame,
        after_frame(frame + seq![line_feed()] + rest) == rest,
{
    let buffer = frame + seq![line_feed()] + rest;
    lemma_frame_end_run(frame, rest, 0);
    assert(buffer.subrange(0, frame.len() as int) =~= frame);
    assert(buffer.subrange(frame.len() as int + 1, buffer.len() as int) =~= rest);
}

/// Inside a frame that a line feed follows, `frame_end` is the frame's end.
proof fn lemma_frame_end_run(frame: Seq<u8>, rest: Seq<u8>, j: int)
    requires
        is_frame(frame),
        0 <= j <= frame.len(),
    ensures
        frame_end(frame + seq![line_feed()] + rest, j) == frame.len(),
    decreases frame.len() - j,
{
    let buffer = frame + seq![line_feed()] + rest;
    if j < frame.len() {
        assert(buffer[j] == frame[j]);
        lemma_frame_end_run(frame, rest, j + 1);
    } else {
        assert(buffer[j] == line_feed());
    }
}

/// A buffer without a line feed holds no request.
pub proof fn lemma_no_frame(buffer: Seq<u8>, j: int)
    requires
        is_frame(buffer),
        0 <= j <= buffer.len(),
    ensures
        frame_end(buffer, j) == buffer.len(),
    decreases buffer.len() - j,
{
    if j < buffer.len() {
        lemma_no_frame(buffer, j + 1);
    }
}

/// A finished worker stays finished whatever it is told, asks only for the
/// connection to be released, and leaves the store alone.
pub proof fn law_closed_is_final(w: WorkerText, m: TextMap, e: EventText)
    requires
        w.phase is Closed,
    ensures
        next(w, m, e) == closed(w, m),
        next(w, m, e).store == m,
        next(w, m, e).worker.phase is Closed,
        next(w, m, e).action is Close,
{
}

/// The peer's leaving, a failed read and a failed write each finish the
/// worker without a change to the store.
pub proof fn law_transport_errors_close(w: WorkerText, m: TextMap)
    ensures
        w.phase is AwaitingInput ==> next(w, m, EventText::Received(Seq::empty())) == closed(
            w,
            m,
        ),
        next(w, m, EventText::ReadFailed) == closed(w, m),
        next(w, m, EventText::WriteFailed) == closed(w, m),
        closed(w, m).store == m,
{
}

/// Bytes that do not complete a line are kept, and more are asked for: the
/// store is as it was.
pub proof fn law_incomplete_request_waits(w: WorkerText, m: TextMap, bytes: Seq<u8>)
    requires
        w.phase is AwaitingInput,
        bytes.len() > 0,
        is_frame(w.buffer + bytes),
    ensures
        next(w, m, EventText::Received(bytes)).store == m,
        next(w, m, EventText::Received(bytes)).action is Read,
        next(w, m, EventText::Received(bytes)).worker == (WorkerText {
            phase: PhaseText::AwaitingInput,
            buffer: w.buffer + bytes,
            persistent: w.persistent,
        }),
{
    lemma_no_frame(w.buffer + bytes, 0);
}

/// A malformed request is answered and the connection goes on: the line is
/// answered with `Unsupported command`, the store is as it was, nothing is
/// saved, and once the answer is written the worker serves what follows.
pub proof fn law_malformed_request_keeps_connection(
    w: WorkerText,
    m: TextMap,
    frame: Seq<u8>,
    rest: Seq<u8>,
)
    requires
        w.phase is AwaitingInput,
        w.buffer.len() == 0,
        is_frame(frame),
        parse_line(lossy_text(frame)) is None,
    ensures
        ({
            let s = next(w, m, EventText::Received(frame + seq![line_feed()] + rest));
            &&& s.store == m
            &&& s.action == (ActionText::Write { reply: "Unsupported command\n"@ })
            &&& s.worker.phase is Writing
            &&& s.worker.buffer == rest
            &&& !(next(s.worker, m, EventText::Written).worker.phase is Closed)
        }),
{
    let bytes = frame + seq![line_feed()] + rest;
    lemma_first_frame(frame, rest);
    assert(w.buffer + bytes =~= bytes);
}

/// Requests of one connection are answered in the order in which they
/// arrived: of two lines received together, the first is served on the
/// store as it is and answered first, and the second is served on the store
/// that the first has left, once the first answer is written.
pub proof fn law_requests_are_served_in_order(
    w: WorkerText,
    m: TextMap,
    first: Seq<u8>,
    second: Seq<u8>,
)
    requires
        w.phase is AwaitingInput,
        w.buffer.len() == 0,
        !w.persistent,
        is_frame(first),
        is_frame(second),
    ensures
        ({
            let bytes = first + seq![line_feed()] + (second + seq![line_feed()]);
            let one = next(w, m, EventText::Received(bytes));
            let two = next(one.worker, one.store, EventText::Written);
            &&& one.store == line_effect(m, lossy_text(first))
            &&& one.action == (ActionText::Write {
                reply: reply_text(line_response(m, lossy_text(first))),
            })
            &&& two.store == line_effect(one.store, lossy_text(second))
            &&& two.action == (ActionText::Write {
                reply: reply_text(line_response(one.store, lossy_text(second))),
            })
            &&& two.worker.buffer.len() == 0
        }),
{
    let tail = second + seq![line_feed()];
    let bytes = first + seq![line_feed()] + tail;
    lemma_first_frame(first, tail);
    assert(w.buffer + bytes =~= bytes);
    lemma_first_frame(second, Seq::empty());
    assert(tail + Seq::<u8>::empty() =~= tail);
}

/// A snapshot is asked for only by a persistent worker, and then it is the
/// snapshot of the store as the step has left it.
pub proof fn law_saves_are_whole_snapshots(w: WorkerText, m: TextMap, e: EventText)
    requires
        next(w, m, e).action is Save,
    ensures
        w.persistent,
        snapshot_json(next(w, m, e).store) == next(w, m, e).action->snapshot,
        next(w, m, e).worker.phase is Saving,
{
}

/// A read is never followed by a snapshot: a step that serves a line which
/// is no mutation asks for no save.
pub proof fn law_reads_are_not_saved(w: WorkerText, m: TextMap, frame: Seq<u8>, rest: Seq<u8>)
    requires
        w.phase is AwaitingInput,
        w.buffer.len() == 0,
        is_frame(frame),
        match parse_line(lossy_text(frame)) {
            Some(request) => !mutates(request),
            None => true,
        },
    ensures
        !(next(w, m, EventText::Received(frame + seq![line_feed()] + rest)).action is Save),
        next(w, m, EventText::Received(frame + seq![line_feed()] + rest)).store == m,
{
    let bytes = frame + seq![line_feed()] + rest;
    lemma_first_frame(frame, rest);
    assert(w.buffer + bytes =~= bytes);
}

/// A snapshot that could not be written is reported and nothing is rolled
/// back: the reply says that the change was not saved, and the store keeps
/// the change. One that was written is followed by the reply that was held.
pub proof fn law_failed_save_is_reported(w: WorkerText, m: TextMap)
    requires
        w.phase is Saving,
    ensures
        next(w, m, EventText::SaveFailed).store == m,
        next(w, m, EventText::SaveFailed).action == (ActionText::Write {
            reply: "Persistence failed\n"@,
        }),
        next(w, m, EventText::Saved).store == m,
        next(w, m, EventText::Saved).action == (ActionText::Write { reply: w.phase->reply }),
{
}

/// A persistent worker saves a write and then acknowledges it: the line
/// `SET key value` changes the store, the snapshot of the changed store is
/// asked for, and once it is saved the reply is `Value set successfully`.
pub proof fn law_set_is_saved_then_answered(
    w: WorkerText,
    m: TextMap,
    frame: Seq<u8>,
    rest: Seq<u8>,
    key: Seq<char>,
    value: Seq<char>,
)
    requires
        w.phase is AwaitingInput,
        w.buffer.len() == 0,
        w.persistent,
        is_frame(frame),
        parse_line(lossy_text(frame)) == Some(RequestText::Put { key, value }),
    ensures
        ({
            let one = next(w, m, EventText::Received(frame + seq![line_feed()] + rest));
            let two = next(one.worker, one.store, EventText::Saved);
            &&& one.store == m.insert(key, value)
            &&& one.action == (ActionText::Save { snapshot: snapshot_json(m.insert(key, value)) })
            &&& two.store == m.insert(key, value)
            &&& two.action == (ActionText::Write { reply: "Value set successfully\n"@ })
        }),
{
    let bytes = frame + seq![line_feed()] + rest;
    lemma_first_frame(frame, rest);
    assert(w.buffer + bytes =~= bytes);
}

/// The bytes of the requests `frames`, each followed by its line feed.
pub open spec fn joined_frames(frames: Seq<Seq<u8>>) -> Seq<u8>
    decreases frames.len(),
{
    if frames.len() == 0 {
        Seq::empty()
    } else {
        frames.first() + seq![line_feed()] + joined_frames(frames.drop_first())
    }
}

/// The mapping after the first `n` of the requests `frames` were served on
/// the mapping `m`, one after the other.
pub open spec fn store_after(m: TextMap, frames: Seq<Seq<u8>>, n: nat) -> TextMap
    decreases n,
{
    if n == 0 {
        m
    } else {
        line_effect(store_after(m, frames, (n - 1) as nat), lossy_text(frames[n - 1]))
    }
}

/// A step with its snapshot written: where the step asks for a save, the
/// step that follows when the save is reported as done; otherwise the step
/// itself.
pub open spec fn settled(s: Step) -> Step {
    if s.action is Save {
        next(s.worker, s.store, EventText::Saved)
    } else {
        s
    }
}

/// The `n`-th step, from 0, of a worker that goes on with what its buffer
/// holds while every save and every write succeeds.
pub open spec fn nth_step(w: WorkerText, m: TextMap, n: nat) -> Step
    decreases n,
{
    if n == 0 {
        settled(resume(w, m))
    } else {
        let before = nth_step(w, m, (n - 1) as nat);
        settled(next(before.worker, before.store, EventText::Written))
    }
}

/// Serving the first request of a buffer, with its snapshot written where
/// one is due, answers that request, leaves what follows it in the buffer
/// and waits for the write.
proof fn lemma_settled_serve(w: WorkerText, m: TextMap, frame: Seq<u8>, rest: Seq<u8>)
    requires
        is_frame(frame),
        w.buffer == frame + seq![line_feed()] + rest,
    ensures
        settled(resume(w, m)) == (Step {
            worker: WorkerText { phase: PhaseText::Writing, buffer: rest, persistent: w.persistent },
            store: line_effect(m, lossy_text(frame)),
            action: ActionText::Write { reply: reply_text(line_response(m, lossy_text(frame))) },
        }),
{
    lemma_first_frame(frame, rest);
}

/// Requests are answered one by one, in the order in which they arrived,
/// none dropped and none answered twice: when a worker holds any number of
/// requests and every save and write succeeds, its `i`-th step writes the
/// reply to the `i`-th request, served on the store as the requests before
/// it have left it, and the step after the last asks for more input.
pub proof fn law_every_request_is_answered_in_order(
    w: WorkerText,
    m: TextMap,
    frames: Seq<Seq<u8>>,
    i: nat,
)
    requires
        forall|j: int| 0 <= j < frames.len() ==> is_frame(#[trigger] frames[j]),
        w.buffer == joined_frames(frames),
        i <= frames.len(),
    ensures
        nth_step(w, m, i).worker.persistent == w.persistent,
        i < frames.len() ==> ({
            &&& nth_step(w, m, i).store == store_after(m, frames, (i + 1) as nat)
            &&& nth_step(w, m, i).action == (ActionText::Write {
                reply: reply_text(
                    line_response(store_after(m, frames, i), lossy_text(frames[i as int])),
                ),
            })
            &&& nth_step(w, m, i).worker.phase is Writing
            &&& nth_step(w, m, i).worker.buffer == joined_frames(frames.skip(i as int + 1))
        }),
        i == frames.len() ==> ({
            &&& nth_step(w, m, i).store == store_after(m, frames, i)
            &&& nth_step(w, m, i).action is Read
            &&& nth_step(w, m, i).worker.phase is AwaitingInput
            &&& nth_step(w, m, i).worker.buffer.len() == 0
        }),
    decreases i,
{
    let at = if i == 0 {
        w
    } else {
        nth_step(w, m, (i - 1) as nat).worker
    };
    let store = store_after(m, frames, i);
    if i > 0 {
        law_every_request_is_answered_in_order(w, m, frames, (i - 1) as nat);
        assert(at.buffer == joined_frames(frames.skip(i as int)));
        assert(nth_step(w, m, i) == settled(resume(at, store)));
    } else {
        assert(frames.skip(0) =~= frames);
    }
    let left = frames.skip(i as int);
    if i < frames.len() {
        assert(left.first() == frames[i as int]);
        assert(left.drop_first() =~= frames.skip(i as int + 1));
        lemma_settled_serve(at, store, frames[i as int], joined_frames(frames.skip(i as int + 1)));
    } else {
        assert(left.len() == 0);
    }
}

/// The bytes that a waiting worker with an empty buffer receives are what
/// it goes on with.
pub proof fn law_received_bytes_are_served(w: WorkerText, m: TextMap, bytes: Seq<u8>)
    requires
        w.phase is AwaitingInput,
        w.buffer.len() == 0,
        bytes.len() > 0,
    ensures
        next(w, m, EventText::Received(bytes)) == resume(
            WorkerText { phase: w.phase, buffer: bytes, persistent: w.persistent },
            m,
        ),
{
    assert(w.buffer + bytes =~= bytes);
}

} // verus!
