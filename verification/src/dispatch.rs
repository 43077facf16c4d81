//! The observer's side: registry, decoding and dispatch.
//!
//! The observer consumes one stream of named records. A registry, built
//! once, says which record shape a channel name stands for; a record that
//! arrives under a registered name is decoded and handed to the handler of
//! its shape, and one that arrives under any other name is ignored. A
//! handler turns an event into the line that reports it; emitting the line
//! is left to the caller.

use vstd::prelude::*;
use vstd::string::StringExecFns;
use crate::fd::{FdWriteEvent, SocketConnectEvent};
use crate::layout::{CONNECT_CHANNEL, FD_WRITE_CHANNEL};
use crate::text::{decimal, push_decimal, push_signed_decimal, signed_decimal};
use crate::transport::{
    backlog, drained, lemma_backlog_next, ready_from, taken_from, Transport,
};

verus! {

/// The record shapes that the observer knows.
#[derive(Clone, Copy, Debug, PartialEq, Eq)]
pub enum RecordKind {
    Connect,
    FdWrite,
}

/// A decoded event of either shape.
#[derive(Clone, Copy, Debug, PartialEq, Eq)]
pub enum Event {
    Connect(SocketConnectEvent),
    FdWrite(FdWriteEvent),
}

/// Where the observer stands in its dealings with its channels.
#[derive(Clone, Copy, Debug, PartialEq, Eq)]
pub enum State {
    /// No registry has been built yet.
    Unattached,
    /// Waiting for the next record.
    Listening,
    /// A record has arrived and is being decoded and handled.
    Decoding,
    /// The stream has ended. Nothing leads out of this state.
    Closed,
}

/// What moves the observer from one state to the next.
#[derive(Clone, Copy, Debug, PartialEq, Eq)]
pub enum Signal {
    /// The registry has been built.
    Attached,
    /// The transport has yielded a record.
    Delivered,
    /// The record has been dealt with.
    Handled,
    /// The transport's stream has ended.
    Ended,
}

/// The state that follows `state` on `signal`. A signal that a state does
/// not expect changes nothing.
pub open spec fn next_state(state: State, signal: Signal) -> State {
    match (state, signal) {
        (State::Closed, _) => State::Closed,
        (_, Signal::Ended) => State::Closed,
        (State::Unattached, Signal::Attached) => State::Listening,
        (State::Listening, Signal::Delivered) => State::Decoding,
        (State::Decoding, Signal::Handled) => State::Listening,
        (_, _) => state,
    }
}

/// The line that reports a connect event.
pub open spec fn connect_line(event: SocketConnectEvent) -> Seq<char> {
    "Connect event, fd: "@ + signed_decimal(event.fd as int) + ", address: "@
        + event.address.text() + ", port: "@ + decimal(event.port as nat)
}

/// The line that reports a descriptor-write event.
pub open spec fn fd_write_line(event: FdWriteEvent) -> Seq<char> {
    "FD write event, fd: "@ + signed_decimal(event.fd as int) + ", bytes: "@ + decimal(
        event.bytes as nat,
    )
}

/// What a record of a registered shape leads to: the line of the event that
/// it decodes to, or nothing where it cannot be decoded.
pub open spec fn handled(kind: RecordKind, record: Seq<u8>) -> Option<Seq<char>> {
    match kind.parse(record) {
        Some(event) => Some(event.line()),
        None => None,
    }
}

/// What the delivery of one record leads to: a listening observer that has
/// the channel's name registered decodes the record and handles it; in any
/// other case nothing happens.
pub open spec fn dispatched(
    state: State,
    registry: Map<Seq<char>, RecordKind>,
    name: Seq<char>,
    record: Seq<u8>,
) -> Option<Seq<char>> {
    if state == State::Listening && registry.contains_key(name) {
        handled(registry[name], record)
    } else {
        None
    }
}

/// The lines that a listening observer emits for a run of deliveries, in
/// the order of the deliveries.
pub open spec fn emitted(registry: Map<Seq<char>, RecordKind>, items: Seq<(Seq<char>, Seq<u8>)>) -> Seq<
    Seq<char>,
>
    decreases items.len(),
{
    if items.len() == 0 {
        Seq::empty()
    } else {
        let before = emitted(registry, items.drop_last());
        match dispatched(State::Listening, registry, items.last().0, items.last().1) {
            Some(line) => before.push(line),
            None => before,
        }
    }
}

/// The characters of each of some lines.
pub open spec fn texts(lines: Seq<String>) -> Seq<Seq<char>> {
    lines.map_values(|line: String| line@)
}

/// The registry that the observer works with: each of the two channels
/// under its name, and nothing else.
pub open spec fn standard_kinds() -> Map<Seq<char>, RecordKind> {
    Map::<Seq<char>, RecordKind>::empty().insert(CONNECT_CHANNEL@, RecordKind::Connect).insert(
        FD_WRITE_CHANNEL@,
        RecordKind::FdWrite,
    )
}

impl State {
    /// Takes one step of the state machine.
    pub fn on(self, signal: Signal) -> (next: State)
        ensures
            next == next_state(self, signal),
    {
        match (self, signal) {
            (State::Closed, _) => State::Closed,
            (_, Signal::Ended) => State::Closed,
            (State::Unattached, Signal::Attached) => State::Listening,
            (State::Listening, Signal::Delivered) => State::Decoding,
            (State::Decoding, Signal::Handled) => State::Listening,
            (state, _) => state,
        }
    }
}

impl RecordKind {
    /// The event that `bytes` carry when read as a record of this shape.
    pub open spec fn parse(self, bytes: Seq<u8>) -> Option<Event> {
        match self {
            RecordKind::Connect => match SocketConnectEvent::parse(bytes) {
                Some(event) => Some(Event::Connect(event)),
                None => None,
            },
            RecordKind::FdWrite => match FdWriteEvent::parse(bytes) {
                Some(event) => Some(Event::FdWrite(event)),
                None => None,
            },
        }
    }

    /// Decodes a record of this shape.
    pub fn decode(&self, bytes: &[u8]) -> (event: Option<Event>)
        ensures
            event == self.parse(bytes@),
    {
        match self {
            RecordKind::Connect => match SocketConnectEvent::decode(bytes) {
                Some(event) => Some(Event::Connect(event)),
                None => None,
            },
            RecordKind::FdWrite => match FdWriteEvent::decode(bytes) {
                Some(event) => Some(Event::FdWrite(event)),
                None => None,
            },
        }
    }
}

impl Event {
    /// The line that reports the event.
    pub open spec fn line(self) -> Seq<char> {
        match self {
            Event::Connect(event) => connect_line(event),
            Event::FdWrite(event) => fd_write_line(event),
        }
    }

    /// Hands the event to the handler of its shape.
    pub fn handle(&self) -> (line: String)
        ensures
            line@ == self.line(),
    {
        match self {
            Event::Connect(event) => process_connect_event(*event),
            Event::FdWrite(event) => process_fd_write_event(*event),
        }
    }
}

/// Handler of connect events: the line that reports one.
pub fn process_connect_event(event: SocketConnectEvent) -> (line: String)
    ensures
        line@ == connect_line(event),
{
    let mut line = String::from_str("Connect event, fd: ");
    push_signed_decimal(&mut line, event.fd);
    line.append(", address: ");
    let address = event.address.to_text();
    line.append(address.as_str());
    line.append(", port: ");
    push_decimal(&mut line, event.port as u64);
    assert(line@ =~= connect_line(event));
    line
}

/// Handler of descriptor-write events: the line that reports one.
pub fn process_fd_write_event(event: FdWriteEvent) -> (line: String)
    ensures
        line@ == fd_write_line(event),
{
    let mut line = String::from_str("FD write event, fd: ");
    push_signed_decimal(&mut line, event.fd);
    line.append(", bytes: ");
    push_decimal(&mut line, event.bytes);
    assert(line@ =~= fd_write_line(event));
    line
}

/// Stands between the transport, which carries bytes, and a handler, which
/// takes an event: decodes `event` as a record of shape `kind` and hands
/// the result to that shape's handler. A record that cannot be decoded
/// reaches no handler.
pub fn proxy(kind: RecordKind, event: &[u8]) -> (line: Option<String>)
    ensures
        match line {
            Some(line) => handled(kind, event@) == Some(line@),
            None => handled(kind, event@) is None,
        },
{
    match kind.decode(event) {
        Some(parsed_event) => Some(parsed_event.handle()),
        None => None,
    }
}

/// One registrant: a channel name and the shape of its records.
struct Registration {
    name: String,
    kind: RecordKind,
}

/// The mapping from channel names to record shapes.
pub struct Registry {
    entries: Vec<Registration>,
}

/// The mapping that the entries at and after `start` make up. An entry
/// takes precedence over those behind it.
spec fn kinds_from(entries: Seq<Registration>, start: int) -> Map<Seq<char>, RecordKind>
    decreases entries.len() - start,
{
    if start >= entries.len() {
        Map::empty()
    } else {
        kinds_from(entries, start + 1).insert(entries[start].name@, entries[start].kind)
    }
}

/// An entry added behind all others, under a name that none of them has,
/// adds its name and shape to the mapping and changes nothing else.
proof fn lemma_kinds_push(entries: Seq<Registration>, entry: Registration, start: int)
    requires
        0 <= start <= entries.len(),
        !kinds_from(entries, start).contains_key(entry.name@),
    ensures
        kinds_from(entries.push(entry), start) == kinds_from(entries, start).insert(
            entry.name@,
            entry.kind,
        ),
    decreases entries.len() - start,
{
    let pushed = entries.push(entry);
    if start < entries.len() {
        assert(kinds_from(entries, start + 1).contains_key(entry.name@) ==> kinds_from(
            entries,
            start,
        ).contains_key(entry.name@));
        lemma_kinds_push(entries, entry, start + 1);
        assert(pushed[start] == entries[start]);
        assert(kinds_from(pushed, start) =~= kinds_from(entries, start).insert(
            entry.name@,
            entry.kind,
        ));
    } else {
        assert(kinds_from(pushed, start + 1) =~= Map::empty());
        assert(kinds_from(pushed, start) =~= kinds_from(entries, start).insert(
            entry.name@,
            entry.kind,
        ));
    }
}

impl View for Registry {
    type V = Map<Seq<char>, RecordKind>;

    closed spec fn view(&self) -> Map<Seq<char>, RecordKind> {
        kinds_from(self.entries@, 0)
    }
}

impl Registry {
    /// A registry without registrants.
    pub fn new() -> (registry: Registry)
        ensures
            registry@ == Map::<Seq<char>, RecordKind>::empty(),
    {
        Registry { entries: Vec::new() }
    }

    /// The registry of the two channels that the probes feed.
    pub fn standard() -> (registry: Registry)
        ensures
            registry@ == standard_kinds(),
    {
        let mut registry = Registry::new();
        registry.register(CONNECT_CHANNEL, RecordKind::Connect);
        proof {
            lemma_standard_kinds(FD_WRITE_CHANNEL@);
        }
        registry.register(FD_WRITE_CHANNEL, RecordKind::FdWrite);
        registry
    }

    /// The shape registered under `name`, if any. Names match exactly or
    /// not at all.
    pub fn lookup(&self, name: &str) -> (kind: Option<RecordKind>)
        ensures
            kind == (if self@.contains_key(name@) {
                Some(self@[name@])
            } else {
                None
            }),
    {
        let key = String::from_str(name);
        let mut i: usize = 0;
        while i < self.entries.len()
            invariant
                i <= self.entries.len(),
                key@ == name@,
                self@.contains_key(name@) == kinds_from(self.entries@, i as int).contains_key(
                    name@,
                ),
                self@.contains_key(name@) ==> self@[name@] == kinds_from(self.entries@, i as int)[name@],
            decreases self.entries.len() - i,
        {
            if self.entries[i].name == key {
                return Some(self.entries[i].kind);
            }
            i += 1;
        }
        None
    }

    /// Registers `kind` under `name`. A name has one registrant: where it
    /// is taken already, nothing changes and the answer is `false`.
    pub fn register(&mut self, name: &str, kind: RecordKind) -> (registered: bool)
        ensures
            registered <==> !old(self)@.contains_key(name@),
            registered ==> final(self)@ == old(self)@.insert(name@, kind),
            !registered ==> final(self)@ == old(self)@,
    {
        match self.lookup(name) {
            Some(_) => false,
            None => {
                let entry = Registration { name: String::from_str(name), kind };
                proof {
                    lemma_kinds_push(self.entries@, entry, 0);
                }
                self.entries.push(entry);
                true
            },
        }
    }
}

/// What a dispatcher is, as contracts see it.
pub struct DispatcherView {
    /// The shapes registered, by channel name.
    pub registry: Map<Seq<char>, RecordKind>,
    /// The state of the observer.
    pub state: State,
}

/// The observer's consumption loop, one delivery at a time.
pub struct Dispatcher {
    registry: Registry,
    state: State,
}

impl View for Dispatcher {
    type V = DispatcherView;

    closed spec fn view(&self) -> DispatcherView {
        DispatcherView { registry: self.registry@, state: self.state }
    }
}

impl Dispatcher {
    /// A dispatcher that listens with `registry`. The registry is fixed
    /// from here on.
    pub fn new(registry: Registry) -> (dispatcher: Dispatcher)
        ensures
            dispatcher@.registry == registry@,
            dispatcher@.state == State::Listening,
    {
        Dispatcher { registry, state: State::Unattached.on(Signal::Attached) }
    }

    /// The state that the dispatcher is in.
    pub fn state(&self) -> (state: State)
        ensures
            state == self@.state,
    {
        self.state
    }

    /// Takes one record that the transport yielded under `name`. Where the
    /// name is registered the record is decoded and handled, and the line
    /// of its handler is returned for the caller to emit. A record under an
    /// unregistered name, one that cannot be decoded, and any record that
    /// arrives after the stream was closed lead to nothing. The dispatcher
    /// is left as it was.
    pub fn deliver(&mut self, name: &str, record: &[u8]) -> (line: Option<String>)
        ensures
            final(self)@ == old(self)@,
            !old(self)@.registry.contains_key(name@) ==> line is None,
            match line {
                Some(line) => dispatched(old(self)@.state, old(self)@.registry, name@, record@)
                    == Some(line@),
                None => dispatched(old(self)@.state, old(self)@.registry, name@, record@) is None,
            },
    {
        match self.state {
            State::Listening => {},
            _ => {
                return None;
            },
        }
        self.state = self.state.on(Signal::Delivered);
        let line = match self.registry.lookup(name) {
            Some(kind) => proxy(kind, record),
            None => None,
        };
        self.state = self.state.on(Signal::Handled);
        line
    }

    /// Notes that the transport's stream has ended.
    pub fn close(&mut self)
        ensures
            final(self)@.registry == old(self)@.registry,
            final(self)@.state == State::Closed,
    {
        self.state = self.state.on(Signal::Ended);
    }
}

/// The consumption loop over a transport: takes record after record until
/// none waits, dispatches each under the registry of the two channels, and
/// returns the lines of the handlers in the order in which they ran.
pub fn process_events(loaded: &mut Transport) -> (lines: Vec<String>)
    requires
        old(loaded).wf(),
    ensures
        final(loaded).wf(),
        final(loaded)@ == drained(old(loaded)@),
        texts(lines@) == emitted(
            standard_kinds(),
            backlog(old(loaded)@),
        ),
{
    let mut dispatcher = Dispatcher::new(Registry::standard());
    let mut lines: Vec<String> = Vec::new();
    let ghost mut done: Seq<(Seq<char>, Seq<u8>)> = Seq::empty();
    proof {
        assert(done + backlog(loaded@) =~= backlog(old(loaded)@));
        assert(texts(lines@) =~= emitted(standard_kinds(), done));
    }
    loop
        invariant
            loaded.wf(),
            dispatcher@.registry == standard_kinds(),
            dispatcher@.state == State::Listening,
            done + backlog(loaded@) == backlog(old(loaded)@),
            texts(lines@) == emitted(standard_kinds(), done),
            drained(loaded@) == drained(old(loaded)@),
        ensures
            loaded.wf(),
            loaded@ == drained(old(loaded)@),
            texts(lines@) == emitted(
                standard_kinds(),
                backlog(old(loaded)@),
            ),
        decreases backlog(loaded@).len(),
    {
        let ghost before = loaded@;
        let ghost lines_before = texts(lines@);
        proof {
            lemma_backlog_next(before, 0);
        }
        match loaded.next() {
            None => {
                proof {
                    assert forall|i: int| 0 <= i < before.len() implies before[i] == drained(
                        before,
                    )[i] by {
                        assert(before[i].pending =~= Seq::empty());
                    }
                    assert(loaded@ =~= drained(loaded@));
                    assert(done =~= backlog(old(loaded)@));
                }
                break ;
            },
            Some((name, record)) => {
                let ghost item = (name@, record@);
                proof {
                    let position = ready_from(before, 0);
                    assert(drained(taken_from(before, position)) =~= drained(before));
                    assert(done.push(item) + backlog(loaded@) =~= done + backlog(before));
                    assert(done.push(item).drop_last() =~= done);
                }
                match dispatcher.deliver(name.as_str(), record.as_slice()) {
                    Some(line) => {
                        lines.push(line);
                        assert(texts(lines@) =~= lines_before.push(
                            line@,
                        ));
                    },
                    None => {},
                }
                proof {
                    done = done.push(item);
                }
            },
        }
    }
    dispatcher.close();
    lines
}

/// The registry of the two channels maps the name of each to its shape,
/// and no other name to anything.
pub proof fn lemma_standard_kinds(name: Seq<char>)
    ensures
        CONNECT_CHANNEL@ != FD_WRITE_CHANNEL@,
        standard_kinds().contains_key(name) <==> name == CONNECT_CHANNEL@ || name
            == FD_WRITE_CHANNEL@,
        standard_kinds()[CONNECT_CHANNEL@] == RecordKind::Connect,
        standard_kinds()[FD_WRITE_CHANNEL@] == RecordKind::FdWrite,
{
    reveal_strlit("connect_event");
    reveal_strlit("fd_write_event");
    assert(CONNECT_CHANNEL@.len() != FD_WRITE_CHANNEL@.len());
}

/// The closed state is final: no signal leads out of it.
pub proof fn lemma_closed_is_final(signal: Signal)
    ensures
        next_state(State::Closed, signal) == State::Closed,
{
}

/// Handling a delivery brings a listening observer back to listening.
pub proof fn lemma_delivery_returns_to_listening()
    ensures
        next_state(State::Unattached, Signal::Attached) == State::Listening,
        next_state(next_state(State::Listening, Signal::Delivered), Signal::Handled)
            == State::Listening,
{
}

/// The lines of two runs of deliveries, one after the other, are the lines
/// of the first followed by the lines of the second.
pub proof fn lemma_emitted_concat(
    registry: Map<Seq<char>, RecordKind>,
    first: Seq<(Seq<char>, Seq<u8>)>,
    second: Seq<(Seq<char>, Seq<u8>)>,
)
    ensures
        emitted(registry, first + second) == emitted(registry, first) + emitted(registry, second),
    decreases second.len(),
{
    if second.len() == 0 {
        assert(first + second =~= first);
        assert(emitted(registry, first) + emitted(registry, second) =~= emitted(registry, first));
    } else {
        lemma_emitted_concat(registry, first, second.drop_last());
        assert((first + second).drop_last() =~= first + second.drop_last());
        assert((first + second).last() == second.last());
        assert(emitted(registry, first + second) =~= emitted(registry, first) + emitted(
            registry,
            second,
        ));
    }
}

/// A record that arrives under a name that is not registered reaches no
/// handler and holds nothing up: the deliveries before and after it lead
/// to the same lines as if it had not arrived.
pub proof fn lemma_unregistered_is_ignored(
    registry: Map<Seq<char>, RecordKind>,
    before: Seq<(Seq<char>, Seq<u8>)>,
    name: Seq<char>,
    record: Seq<u8>,
    after: Seq<(Seq<char>, Seq<u8>)>,
)
    requires
        !registry.contains_key(name),
    ensures
        dispatched(State::Listening, registry, name, record) is None,
        emitted(registry, before + seq![(name, record)] + after) == emitted(
            registry,
            before + after,
        ),
{
    let single = seq![(name, record)];
    assert(single.drop_last() =~= Seq::empty());
    assert(emitted(registry, single) =~= Seq::empty()) by {
        assert(emitted(registry, single.drop_last()) =~= Seq::empty());
    }
    lemma_emitted_concat(registry, before, single);
    lemma_emitted_concat(registry, before + single, after);
    lemma_emitted_concat(registry, before, after);
    assert(emitted(registry, before) + emitted(registry, single) =~= emitted(registry, before));
}

} // verus!
