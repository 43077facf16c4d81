//! Bounded channels between the traced context and the observer.
//!
//! A channel is a named queue of records with a fixed capacity. Inserting
//! never waits and never fails: when the queue is full the record that was
//! to be inserted is dropped, and the producer is told nothing. Whatever a
//! channel does hold leaves it in the order in which it was inserted.

use std::collections::VecDeque;
use vstd::prelude::*;
use vstd::slice::slice_to_vec;
use vstd::string::StringExecFns;

verus! {

/// What a channel is, as contracts see it.
pub struct ChannelState {
    /// The name by which the observer finds the channel.
    pub name: Seq<char>,
    /// How many records the channel holds at most.
    pub capacity: nat,
    /// The records waiting for the observer, oldest first.
    pub pending: Seq<Seq<u8>>,
}

/// The queue after an attempt to insert `record`: the record stands last
/// where there was room, and is dropped where there was none.
pub open spec fn inserted(pending: Seq<Seq<u8>>, capacity: nat, record: Seq<u8>) -> Seq<Seq<u8>> {
    if pending.len() < capacity {
        pending.push(record)
    } else {
        pending
    }
}

/// A named queue of records with a fixed capacity.
pub struct Channel {
    name: String,
    capacity: usize,
    queue: VecDeque<Vec<u8>>,
}

impl View for Channel {
    type V = ChannelState;

    closed spec fn view(&self) -> ChannelState {
        ChannelState {
            name: self.name@,
            capacity: self.capacity as nat,
            pending: self.queue@.map_values(|record: Vec<u8>| record@),
        }
    }
}

impl Channel {
    /// A channel never holds more records than its capacity.
    pub open spec fn wf(&self) -> bool {
        self@.pending.len() <= self@.capacity
    }

    /// An empty channel called `name` that holds up to `max_entries` records.
    pub fn with_max_entries(name: &str, max_entries: usize) -> (channel: Channel)
        ensures
            channel.wf(),
            channel@.name == name@,
            channel@.capacity == max_entries,
            channel@.pending == Seq::<Seq<u8>>::empty(),
    {
        let channel = Channel {
            name: String::from_str(name),
            capacity: max_entries,
            queue: VecDeque::new(),
        };
        assert(channel@.pending =~= Seq::empty());
        channel
    }

    /// The channel's name.
    pub fn name(&self) -> (name: &str)
        ensures
            name@ == self@.name,
    {
        self.name.as_str()
    }

    /// Whether the channel is called `name`.
    pub fn is_named(&self, name: &String) -> (named: bool)
        ensures
            named <==> self@.name == name@,
    {
        self.name == *name
    }

    /// The most records that the channel holds at once.
    pub fn capacity(&self) -> (capacity: usize)
        ensures
            capacity == self@.capacity,
    {
        self.capacity
    }

    /// How many records are waiting.
    pub fn len(&self) -> (len: usize)
        ensures
            len == self@.pending.len(),
    {
        self.queue.len()
    }

    /// Whether no record is waiting.
    pub fn is_empty(&self) -> (empty: bool)
        ensures
            empty <==> self@.pending.len() == 0,
    {
        self.queue.len() == 0
    }

    /// Whether the next insert would be dropped.
    pub fn is_full(&self) -> (full: bool)
        ensures
            full <==> self@.pending.len() >= self@.capacity,
    {
        self.queue.len() >= self.capacity
    }

    /// Tries to insert a record. Where the channel is full the record is
    /// dropped and the channel stays as it was.
    pub fn insert(&mut self, record: &[u8])
        requires
            old(self).wf(),
        ensures
            final(self).wf(),
            final(self)@.name == old(self)@.name,
            final(self)@.capacity == old(self)@.capacity,
            final(self)@.pending == inserted(old(self)@.pending, old(self)@.capacity, record@),
    {
        if self.queue.len() < self.capacity {
            self.queue.push_back(slice_to_vec(record));
            assert(self@.pending =~= old(self)@.pending.push(record@));
        }
    }

    /// Takes the oldest waiting record out, if there is one.
    pub fn take(&mut self) -> (record: Option<Vec<u8>>)
        requires
            old(self).wf(),
        ensures
            final(self).wf(),
            final(self)@.name == old(self)@.name,
            final(self)@.capacity == old(self)@.capacity,
            old(self)@.pending.len() == 0 ==> record is None && final(self)@.pending == old(
                self,
            )@.pending,
            old(self)@.pending.len() > 0 ==> record is Some && record->0@ == old(self)@.pending[0]
                && final(self)@.pending == old(self)@.pending.drop_first(),
    {
        let record = self.queue.pop_front();
        assert(self@.pending =~= if old(self)@.pending.len() > 0 {
            old(self)@.pending.drop_first()
        } else {
            old(self)@.pending
        });
        record
    }
}

/// Whether no two channels share a name.
pub open spec fn names_distinct(channels: Seq<ChannelState>) -> bool {
    forall|i: int, j: int|
        0 <= i < j < channels.len() ==> (#[trigger] channels[i]).name != (#[trigger] channels[j]).name
}

/// Whether every channel is within its capacity.
pub open spec fn within_capacity(channels: Seq<ChannelState>) -> bool {
    forall|i: int|
        0 <= i < channels.len() ==> (#[trigger] channels[i]).pending.len() <= channels[i].capacity
}

/// Whether one of the channels is called `name`.
pub open spec fn has_channel(channels: Seq<ChannelState>, name: Seq<char>) -> bool {
    exists|i: int| 0 <= i < channels.len() && (#[trigger] channels[i]).name == name
}

/// The channels after an attempt to insert `record` into the one called
/// `name`: that channel takes or drops the record, every other channel is
/// as it was. Where no channel has that name, nothing changes.
pub open spec fn inserted_into(channels: Seq<ChannelState>, name: Seq<char>, record: Seq<u8>) -> Seq<
    ChannelState,
> {
    Seq::new(
        channels.len(),
        |i: int|
            if channels[i].name == name {
                ChannelState {
                    name: channels[i].name,
                    capacity: channels[i].capacity,
                    pending: inserted(channels[i].pending, channels[i].capacity, record),
                }
            } else {
                channels[i]
            },
    )
}

/// The position of the first channel at or after `start` that has a record
/// waiting; the number of channels where there is none.
pub open spec fn ready_from(channels: Seq<ChannelState>, start: int) -> int
    decreases channels.len() - start,
{
    if start >= channels.len() {
        channels.len() as int
    } else if channels[start].pending.len() > 0 {
        start
    } else {
        ready_from(channels, start + 1)
    }
}

/// The channels after the oldest record of the channel at `position` has
/// been taken out.
pub open spec fn taken_from(channels: Seq<ChannelState>, position: int) -> Seq<ChannelState>
    recommends
        0 <= position < channels.len(),
        channels[position].pending.len() > 0,
{
    channels.update(
        position,
        ChannelState {
            name: channels[position].name,
            capacity: channels[position].capacity,
            pending: channels[position].pending.drop_first(),
        },
    )
}

/// The channels with every waiting record taken out.
pub open spec fn drained(channels: Seq<ChannelState>) -> Seq<ChannelState> {
    Seq::new(
        channels.len(),
        |i: int|
            ChannelState {
                name: channels[i].name,
                capacity: channels[i].capacity,
                pending: Seq::empty(),
            },
    )
}

/// The records that wait in one channel as the consumer meets them: each
/// under the channel's name, oldest first.
pub open spec fn batch(channel: ChannelState) -> Seq<(Seq<char>, Seq<u8>)> {
    Seq::new(channel.pending.len(), |k: int| (channel.name, channel.pending[k]))
}

/// What waits in the channels at and after `start`, channel after channel.
pub open spec fn backlog_from(channels: Seq<ChannelState>, start: int) -> Seq<(Seq<char>, Seq<u8>)>
    decreases channels.len() - start,
{
    if start >= channels.len() {
        Seq::empty()
    } else {
        batch(channels[start]) + backlog_from(channels, start + 1)
    }
}

/// Everything that waits in the channels, in the order in which the
/// consumer is handed it: channel after channel, and within a channel in
/// the order of insertion.
pub open spec fn backlog(channels: Seq<ChannelState>) -> Seq<(Seq<char>, Seq<u8>)> {
    backlog_from(channels, 0)
}

/// The test that picks out of a backlog what came through the channel
/// called `name`.
pub open spec fn came_through(name: Seq<char>) -> spec_fn((Seq<char>, Seq<u8>)) -> bool {
    |item: (Seq<char>, Seq<u8>)| item.0 == name
}

/// The channels of one observation session, multiplexed for one consumer.
pub struct Transport {
    channels: Vec<Channel>,
}

impl View for Transport {
    type V = Seq<ChannelState>;

    closed spec fn view(&self) -> Seq<ChannelState> {
        self.channels@.map_values(|channel: Channel| channel@)
    }
}

impl Transport {
    /// Channels have distinct names, and none is over its capacity.
    pub open spec fn wf(&self) -> bool {
        names_distinct(self@) && within_capacity(self@)
    }

    /// A transport without channels.
    pub fn new() -> (transport: Transport)
        ensures
            transport.wf(),
            transport@.len() == 0,
    {
        Transport { channels: Vec::new() }
    }

    /// The position of the channel called `name`, if there is one.
    fn position(&self, name: &String) -> (position: Option<usize>)
        ensures
            match position {
                Some(i) => i < self@.len() && self@[i as int].name == name@,
                None => !has_channel(self@, name@),
            },
    {
        let mut i: usize = 0;
        while i < self.channels.len()
            invariant
                i <= self.channels.len(),
                forall|j: int| 0 <= j < i ==> (#[trigger] self@[j]).name != name@,
            decreases self.channels.len() - i,
        {
            if self.channels[i].is_named(name) {
                return Some(i);
            }
            i += 1;
        }
        None
    }

    /// Opens an empty channel called `name` that holds up to `max_entries`
    /// records. A name stands for one channel: where it is taken already,
    /// nothing changes and the answer is `false`.
    pub fn open(&mut self, name: &str, max_entries: usize) -> (opened: bool)
        requires
            old(self).wf(),
        ensures
            final(self).wf(),
            opened <==> !has_channel(old(self)@, name@),
            opened ==> final(self)@ == old(self)@.push(
                ChannelState { name: name@, capacity: max_entries as nat, pending: Seq::empty() },
            ),
            !opened ==> final(self)@ == old(self)@,
    {
        let key = String::from_str(name);
        match self.position(&key) {
            Some(_) => false,
            None => {
                let channel = Channel::with_max_entries(name, max_entries);
                self.channels.push(channel);
                assert(self@ =~= old(self)@.push(channel@));
                true
            },
        }
    }

    /// How many records wait in the channel called `name`; `None` where no
    /// channel has that name.
    pub fn waiting(&self, name: &str) -> (count: Option<usize>)
        requires
            self.wf(),
        ensures
            match count {
                Some(n) => exists|i: int|
                    0 <= i < self@.len() && (#[trigger] self@[i]).name == name@ && n
                        == self@[i].pending.len(),
                None => !has_channel(self@, name@),
            },
    {
        let key = String::from_str(name);
        match self.position(&key) {
            Some(i) => Some(self.channels[i].len()),
            None => None,
        }
    }

    /// Tries to insert a record into the channel called `name`. The record
    /// is dropped where that channel is full, and where there is no such
    /// channel; the caller is not told.
    pub fn insert(&mut self, name: &str, record: &[u8])
        requires
            old(self).wf(),
        ensures
            final(self).wf(),
            final(self)@ == inserted_into(old(self)@, name@, record@),
    {
        let key = String::from_str(name);
        match self.position(&key) {
            Some(i) => {
                self.channels[i].insert(record);
                assert(self@ =~= inserted_into(old(self)@, name@, record@));
            },
            None => {
                assert(self@ =~= inserted_into(old(self)@, name@, record@));
            },
        }
    }

    /// Takes the next record out: the oldest one of the first channel that
    /// has any, with that channel's name. `None` where nothing waits.
    pub fn next(&mut self) -> (item: Option<(String, Vec<u8>)>)
        requires
            old(self).wf(),
        ensures
            final(self).wf(),
            match item {
                Some((name, record)) => {
                    let position = ready_from(old(self)@, 0);
                    &&& position < old(self)@.len()
                    &&& name@ == old(self)@[position].name
                    &&& record@ == old(self)@[position].pending[0]
                    &&& final(self)@ == taken_from(old(self)@, position)
                },
                None => ready_from(old(self)@, 0) == old(self)@.len() && final(self)@ == old(
                    self,
                )@,
            },
    {
        let mut i: usize = 0;
        while i < self.channels.len()
            invariant
                i <= self.channels.len(),
                self@ == old(self)@,
                self.wf(),
                ready_from(self@, 0) == ready_from(self@, i as int),
            decreases self.channels.len() - i,
        {
            assert(self@[i as int] == self.channels@[i as int]@);
            match self.channels[i].take() {
                Some(record) => {
                    let name = String::from_str(self.channels[i].name());
                    assert(self@ =~= taken_from(old(self)@, i as int));
                    return Some((name, record));
                },
                None => {
                    assert(self@ =~= old(self)@);
                },
            }
            i += 1;
        }
        None
    }
}

/// Records leave a channel in the order in which they entered it: of two
/// records inserted one after the other where there is room for both, the
/// first stands ahead of the second, behind what was waiting before.
pub proof fn lemma_insertion_order(
    pending: Seq<Seq<u8>>,
    capacity: nat,
    first: Seq<u8>,
    second: Seq<u8>,
)
    requires
        pending.len() + 2 <= capacity,
    ensures
        inserted(inserted(pending, capacity, first), capacity, second) == pending + seq![
            first,
            second,
        ],
{
    assert(pending.push(first).push(second) =~= pending + seq![first, second]);
}

/// What waits at and after `start` does not depend on the channels before.
pub proof fn lemma_backlog_frame(a: Seq<ChannelState>, b: Seq<ChannelState>, start: int)
    requires
        0 <= start,
        a.len() == b.len(),
        forall|i: int| start <= i < a.len() ==> a[i] == b[i],
    ensures
        backlog_from(a, start) == backlog_from(b, start),
    decreases a.len() - start,
{
    if start < a.len() {
        lemma_backlog_frame(a, b, start + 1);
    }
}

/// The record that `next` hands out is the head of the backlog, and what
/// it leaves behind is the rest of the backlog. Where no channel has a
/// record waiting, the backlog is empty.
pub proof fn lemma_backlog_next(channels: Seq<ChannelState>, start: int)
    requires
        0 <= start <= channels.len(),
    ensures
        start <= ready_from(channels, start) <= channels.len(),
        ready_from(channels, start) < channels.len() ==> {
            let position = ready_from(channels, start);
            &&& channels[position].pending.len() > 0
            &&& backlog_from(channels, start) == seq![
                (channels[position].name, channels[position].pending[0]),
            ] + backlog_from(taken_from(channels, position), start)
        },
        ready_from(channels, start) == channels.len() ==> {
            &&& backlog_from(channels, start).len() == 0
            &&& forall|i: int| start <= i < channels.len() ==> (#[trigger] channels[i]).pending.len() == 0
        },
    decreases channels.len() - start,
{
    if start < channels.len() {
        if channels[start].pending.len() > 0 {
            let taken = taken_from(channels, start);
            lemma_backlog_frame(channels, taken, start + 1);
            assert(batch(channels[start]) =~= seq![
                (channels[start].name, channels[start].pending[0]),
            ] + batch(taken[start]));
            assert(backlog_from(channels, start) =~= seq![
                (channels[start].name, channels[start].pending[0]),
            ] + backlog_from(taken, start));
        } else {
            lemma_backlog_next(channels, start + 1);
            let position = ready_from(channels, start);
            if position < channels.len() {
                let taken = taken_from(channels, position);
                assert(batch(channels[start]) =~= Seq::empty());
                assert(taken[start] == channels[start]);
                assert(backlog_from(channels, start) =~= seq![
                    (channels[position].name, channels[position].pending[0]),
                ] + backlog_from(taken, start));
            } else {
                assert(batch(channels[start]) =~= Seq::empty());
            }
        }
    }
}

/// An overflow is no more than the loss of the record that met it. An
/// insert into a full channel changes nothing, in that channel or any
/// other; the consumer is still handed a record; every other channel with
/// room takes a record as before; and once the consumer has taken a record
/// out of the full channel, that channel takes one again.
pub proof fn lemma_overflow_is_transient(
    channels: Seq<ChannelState>,
    full: int,
    other: int,
    dropped: Seq<u8>,
    later: Seq<u8>,
)
    requires
        names_distinct(channels),
        0 <= full < channels.len(),
        0 <= other < channels.len(),
        other != full,
        channels[full].capacity > 0,
        channels[full].pending.len() == channels[full].capacity,
        channels[other].pending.len() < channels[other].capacity,
    ensures
        inserted_into(channels, channels[full].name, dropped) == channels,
        ready_from(channels, 0) < channels.len(),
        inserted_into(channels, channels[other].name, later) == channels.update(
            other,
            ChannelState {
                name: channels[other].name,
                capacity: channels[other].capacity,
                pending: channels[other].pending.push(later),
            },
        ),
        inserted_into(taken_from(channels, full), channels[full].name, later) == channels.update(
            full,
            ChannelState {
                name: channels[full].name,
                capacity: channels[full].capacity,
                pending: channels[full].pending.drop_first().push(later),
            },
        ),
{
    assert(forall|i: int|
        0 <= i < channels.len() && i != full ==> (#[trigger] channels[i]).name
            != channels[full].name);
    assert(forall|i: int|
        0 <= i < channels.len() && i != other ==> (#[trigger] channels[i]).name
            != channels[other].name);
    assert(inserted_into(channels, channels[full].name, dropped) =~= channels);
    lemma_backlog_next(channels, 0);
    assert(inserted_into(channels, channels[other].name, later) =~= channels.update(
        other,
        ChannelState {
            name: channels[other].name,
            capacity: channels[other].capacity,
            pending: channels[other].pending.push(later),
        },
    ));
    let taken = taken_from(channels, full);
    assert(inserted_into(taken, channels[full].name, later) =~= channels.update(
        full,
        ChannelState {
            name: channels[full].name,
            capacity: channels[full].capacity,
            pending: channels[full].pending.drop_first().push(later),
        },
    ));
}

/// A filter keeps a sequence whole where every item passes, and keeps
/// nothing of it where none does.
proof fn lemma_filter_all_or_none<A>(items: Seq<A>, test: spec_fn(A) -> bool)
    ensures
        (forall|i: int| 0 <= i < items.len() ==> test(#[trigger] items[i])) ==> items.filter(test)
            == items,
        (forall|i: int| 0 <= i < items.len() ==> !test(#[trigger] items[i])) ==> items.filter(
            test,
        ) == Seq::<A>::empty(),
    decreases items.len(),
{
    reveal(Seq::filter);
    if items.len() > 0 {
        lemma_filter_all_or_none(items.drop_last(), test);
        if forall|i: int| 0 <= i < items.len() ==> test(#[trigger] items[i]) {
            assert(forall|i: int|
                0 <= i < items.drop_last().len() ==> items.drop_last()[i] == items[i]);
            assert(items.drop_last().push(items.last()) =~= items);
        }
        if forall|i: int| 0 <= i < items.len() ==> !test(#[trigger] items[i]) {
            assert(forall|i: int|
                0 <= i < items.drop_last().len() ==> items.drop_last()[i] == items[i]);
        }
    } else {
        assert(items =~= Seq::<A>::empty());
    }
}

/// Of what waits at and after `start`, the part that came through one
/// channel is what waits in that channel.
proof fn lemma_channel_order_from(channels: Seq<ChannelState>, position: int, start: int)
    requires
        names_distinct(channels),
        0 <= position < channels.len(),
        0 <= start <= channels.len(),
    ensures
        backlog_from(channels, start).filter(came_through(channels[position].name)) == (if start
            <= position {
            batch(channels[position])
        } else {
            Seq::empty()
        }),
    decreases channels.len() - start,
{
    let test = came_through(channels[position].name);
    if start < channels.len() {
        let head = batch(channels[start]);
        let tail = backlog_from(channels, start + 1);
        lemma_channel_order_from(channels, position, start + 1);
        lemma_filter_all_or_none(head, test);
        Seq::filter_distributes_over_add(head, tail, test);
        if start == position {
            assert(head.filter(test) + tail.filter(test) =~= head);
        } else {
            assert(channels[start].name != channels[position].name);
            assert(head.filter(test) + tail.filter(test) =~= tail.filter(test));
        }
    } else {
        lemma_filter_all_or_none(backlog_from(channels, start), test);
    }
}

/// The order of delivery within a channel is the order of insertion:
/// what the consumer is handed under the name of a channel, taken by
/// itself, is what waits in that channel, oldest first. Nothing is said of
/// the order between records of different channels.
pub proof fn lemma_channel_order(channels: Seq<ChannelState>, position: int)
    requires
        names_distinct(channels),
        0 <= position < channels.len(),
    ensures
        backlog(channels).filter(came_through(channels[position].name)) == batch(
            channels[position],
        ),
{
    lemma_channel_order_from(channels, position, 0);
}

} // verus!
