use crate::models::{ServerEvent, StreamKind};
use vstd::prelude::*;
use vstd::string::StringExecFns;

verus! {

/// The channel on which the events of server `id` are published.
pub open spec fn channel_of(id: Seq<char>) -> Seq<char> {
    "mcp://message/"@ + id
}

/// Names the event channel of server `server_id`.
pub fn event_channel(server_id: &String) -> (r: String)
    ensures
        r@ == channel_of(server_id@),
{
    let mut channel = String::from_str("mcp://message/");
    channel.append(server_id.as_str());
    channel
}

/// The event for one chunk read from a server's output stream.
pub fn output_event(stream: StreamKind, chunk: Vec<u8>) -> (r: ServerEvent)
    ensures
        match stream {
            StreamKind::Stdout => r == ServerEvent::Stdout(chunk),
            StreamKind::Stderr => r == ServerEvent::Stderr(chunk),
        },
{
    match stream {
        StreamKind::Stdout => ServerEvent::Stdout(chunk),
        StreamKind::Stderr => ServerEvent::Stderr(chunk),
    }
}

/// What one read of a server's output stream produced.
#[derive(Debug)]
pub enum ReadOutcome {
    /// Some bytes, in the order the stream delivered them.
    Data(Vec<u8>),
    /// The orderly end of the stream.
    Eof,
    /// A read error; the stream is abandoned.
    Failed,
}

/// What a stream reader does after a read: publish a chunk and read on, or
/// stop. Neither the end of the stream nor an error produces an event: the
/// exit of the server is reported by whoever waits on the process.
#[derive(Debug)]
pub enum ReaderStep {
    Emit(ServerEvent),
    Stop,
}

pub fn reader_step(stream: StreamKind, outcome: ReadOutcome) -> (r: ReaderStep)
    ensures
        match outcome {
            ReadOutcome::Data(chunk) => chunk@.len() == 0 ==> r is Stop,
            _ => r is Stop,
        },
        match outcome {
            ReadOutcome::Data(chunk) => chunk@.len() > 0 ==> match stream {
                StreamKind::Stdout => r == ReaderStep::Emit(ServerEvent::Stdout(chunk)),
                StreamKind::Stderr => r == ReaderStep::Emit(ServerEvent::Stderr(chunk)),
            },
            _ => true,
        },
{
    match outcome {
        ReadOutcome::Data(chunk) => {
            if chunk.len() == 0 {
                ReaderStep::Stop
            } else {
                ReaderStep::Emit(output_event(stream, chunk))
            }
        },
        _ => ReaderStep::Stop,
    }
}

/// Whether `log` holds an exit event only as its last element, if at all.
pub open spec fn exit_only_last(log: Seq<ServerEvent>) -> bool {
    forall|i: int| 0 <= i < log.len() && (#[trigger] log[i] is Exit) ==> i == log.len() - 1
}

pub open spec fn ends_with_exit(log: Seq<ServerEvent>) -> bool {
    log.len() > 0 && log.last() is Exit
}

/// The order of the events published for one server: output chunks while
/// the server runs, then its exit, once, and nothing after it.
pub struct EventGate {
    exited: bool,
    published: Ghost<Seq<ServerEvent>>,
}

impl EventGate {
    /// The events published so far, in order.
    pub closed spec fn log(&self) -> Seq<ServerEvent> {
        self.published@
    }

    /// Whether the exit has been published.
    pub closed spec fn has_exited(&self) -> bool {
        self.exited
    }

    pub closed spec fn wf(&self) -> bool {
        &&& exit_only_last(self.published@)
        &&& self.exited == ends_with_exit(self.published@)
    }

    /// A gate for a server that has published nothing yet.
    pub fn new() -> (r: Self)
        ensures
            r.wf(),
            r.log() == Seq::<ServerEvent>::empty(),
            !r.has_exited(),
    {
        EventGate { exited: false, published: Ghost(Seq::empty()) }
    }

    /// Whether the exit has been published.
    pub fn exited(&self) -> (r: bool)
        ensures
            r == self.has_exited(),
    {
        self.exited
    }

    /// Admits a chunk read from `stream` for publication, unless the exit
    /// has already been published.
    pub fn admit_output(&mut self, stream: StreamKind, chunk: Vec<u8>) -> (r: Option<ServerEvent>)
        requires
            old(self).wf(),
        ensures
            final(self).wf(),
            final(self).has_exited() == old(self).has_exited(),
            old(self).has_exited() ==> r is None && final(self).log() == old(self).log(),
            !old(self).has_exited() ==> {
                &&& r == Some(
                    match stream {
                        StreamKind::Stdout => ServerEvent::Stdout(chunk),
                        StreamKind::Stderr => ServerEvent::Stderr(chunk),
                    },
                )
                &&& final(self).log() == old(self).log().push(r->Some_0)
            },
    {
        if self.exited {
            return None;
        }
        let event = output_event(stream, chunk);
        let ghost before = self.published@;
        self.published = Ghost(self.published@.push(event));
        assert forall|i: int|
            0 <= i < self.published@.len() && (#[trigger] self.published@[i] is Exit) implies i
            == self.published@.len() - 1 by {
            if i < before.len() {
                assert(self.published@[i] == before[i]);
                assert(!ends_with_exit(before));
            }
        }
        Some(event)
    }

    /// Admits the exit of the server, with its exit code, for publication:
    /// the first exit is published, any later one is dropped.
    pub fn admit_exit(&mut self, code: Option<i32>) -> (r: Option<ServerEvent>)
        requires
            old(self).wf(),
        ensures
            final(self).wf(),
            final(self).has_exited(),
            old(self).has_exited() ==> r is None && final(self).log() == old(self).log(),
            !old(self).has_exited() ==> {
                &&& r == Some(ServerEvent::Exit(code))
                &&& final(self).log() == old(self).log().push(ServerEvent::Exit(code))
            },
    {
        if self.exited {
            return None;
        }
        let ghost before = self.published@;
        self.published = Ghost(self.published@.push(ServerEvent::Exit(code)));
        self.exited = true;
        assert forall|i: int|
            0 <= i < self.published@.len() && (#[trigger] self.published@[i] is Exit) implies i
            == self.published@.len() - 1 by {
            if i < before.len() {
                assert(self.published@[i] == before[i]);
                assert(!ends_with_exit(before));
            }
        }
        Some(ServerEvent::Exit(code))
    }
}

/// Each server publishes exactly one exit, whether its process ended on its
/// own or was killed: once the exit is admitted it is the last event of the
/// log and no other event of the log is an exit; every later admission is
/// refused.
pub proof fn lemma_exactly_one_exit(gate: EventGate)
    requires
        gate.wf(),
        gate.has_exited(),
    ensures
        ends_with_exit(gate.log()),
        forall|i: int| 0 <= i < gate.log().len() - 1 ==> !(#[trigger] gate.log()[i] is Exit),
{
}

} // verus!
