//! The event multiplexer: independent producers (the keyboard reader, a
//! timer slot, an external message injector) feed one ordered channel, and
//! a single consumer takes events out one at a time.

use vstd::prelude::*;

verus! {

/// A logical terminal key, as the keyboard producer reports it.
#[derive(Clone, Copy, Debug, PartialEq, Eq, Structural)]
pub enum Key {
    /// A character key; Enter arrives as `Char('\n')`.
    Char(char),
    Up,
    Down,
    Left,
    Right,
    /// Any other key the terminal can report; the browser ignores it.
    Other,
}

/// One event on the shared channel, tagged with the producer kind that
/// alone emits it.
#[derive(Debug)]
pub enum Event {
    /// A key from the keyboard producer.
    KeyInput(Key),
    /// A beat from the timer producer slot; consumers must accept it,
    /// a no-op is an acceptable handling.
    Tick,
    /// A message injected from outside the event system.
    Kafka(String),
}

/// The options of the event system.
#[derive(Clone, Copy, Debug)]
pub struct Config {
    /// The key on which the keyboard producer stops reading.
    pub exit_key: Key,
    /// The cadence of the timer producer slot, in milliseconds.
    pub tick_rate_ms: u64,
}

impl Default for Config {
    /// The default options: exit on `q`, one tick per second.
    fn default() -> (c: Config)
        ensures
            c.exit_key == Key::Char('q'),
            c.tick_rate_ms == 1000,
    {
        Config { exit_key: Key::Char('q'), tick_rate_ms: 1000 }
    }
}

/// Why an event could not be sent or received.
#[derive(Clone, Copy, Debug, PartialEq, Eq, Structural)]
pub enum EventsError {
    /// The consumer side of the channel is gone; nothing can be injected.
    ChannelClosed,
    /// Every producer has terminated and no event is pending; fatal to the
    /// consumer loop.
    Disconnected,
}

/// The multiplexer: an unbounded first-in-first-out channel shared by all
/// producers, together with the liveness of its two endpoints.
///
/// The surrounding program runs each producer on a thread of its own and
/// serializes their sends; the order of the queue is the order in which the
/// sends arrived, which across producers is an arbitrary interleaving, not
/// a causal order.
pub struct Events {
    pending: Vec<Event>,
    receiver_open: bool,
    input_running: bool,
    config: Config,
}

impl View for Events {
    type V = Seq<Event>;

    /// The events sent and not yet consumed, oldest first.
    closed spec fn view(&self) -> Seq<Event> {
        self.pending@
    }
}

impl Events {
    /// The consumer side of the channel has not been dropped.
    pub closed spec fn receiver_attached(&self) -> bool {
        self.receiver_open
    }

    /// The keyboard producer has not terminated.
    pub closed spec fn input_live(&self) -> bool {
        self.input_running
    }

    /// The options the multiplexer was built with.
    pub closed spec fn options(&self) -> Config {
        self.config
    }

    /// The options the multiplexer was built with.
    pub fn config(&self) -> (c: Config)
        ensures
            c == self.options(),
    {
        self.config
    }

    /// A new multiplexer with the given options: no event pending, both
    /// endpoints live.  The caller starts the keyboard producer and hands
    /// it every key it reads, through [`Events::on_key_read`].
    pub fn with_config(config: Config) -> (e: Events)
        ensures
            e@ == Seq::<Event>::empty(),
            e.receiver_attached(),
            e.input_live(),
            e.options() == config,
    {
        Events { pending: Vec::new(), receiver_open: true, input_running: true, config }
    }

    /// A new multiplexer with the default options.
    pub fn new() -> (e: Events)
        ensures
            e@ == Seq::<Event>::empty(),
            e.receiver_attached(),
            e.input_live(),
            e.options().exit_key == Key::Char('q'),
            e.options().tick_rate_ms == 1000,
    {
        Events::with_config(Config::default())
    }

    /// One step of the keyboard producer, for one key successfully read
    /// from the terminal.  The key is sent as long as the consumer is
    /// attached; the producer stops — and never reads again — once it has
    /// sent the configured exit key, or once sending fails.  A key that
    /// could not be decoded is simply not offered here: the producer skips
    /// it and reads on.
    pub fn on_key_read(&mut self, key: Key) -> (stop: bool)
        requires
            old(self).input_live(),
        ensures
            final(self)@ == if old(self).receiver_attached() {
                old(self)@.push(Event::KeyInput(key))
            } else {
                old(self)@
            },
            stop == (!old(self).receiver_attached() || key == old(self).options().exit_key),
            final(self).input_live() == !stop,
            final(self).receiver_attached() == old(self).receiver_attached(),
            final(self).options() == old(self).options(),
    {
        if !self.receiver_open {
            self.input_running = false;
            return true;
        }
        self.pending.push(Event::KeyInput(key));
        if key == self.config.exit_key {
            self.input_running = false;
            true
        } else {
            false
        }
    }

    /// The keyboard producer has ended on its own (a hard read failure
    /// silently ends it); nothing pending is lost.
    pub fn end_input(&mut self)
        ensures
            final(self)@ == old(self)@,
            !final(self).input_live(),
            final(self).receiver_attached() == old(self).receiver_attached(),
            final(self).options() == old(self).options(),
    {
        self.input_running = false;
    }

    /// Inject a message from outside the event system.  This is the one
    /// producer path open to other data sources; it fails, with
    /// [`EventsError::ChannelClosed`], exactly when the consumer side has
    /// been dropped, and otherwise appends the message behind everything
    /// already pending.
    pub fn push_kafka_event(&mut self, message: String) -> (r: Result<(), EventsError>)
        ensures
            old(self).receiver_attached() ==> r == Ok::<(), EventsError>(())
                && final(self)@ == old(self)@.push(Event::Kafka(message)),
            !old(self).receiver_attached() ==> r == Err::<(), EventsError>(EventsError::ChannelClosed)
                && final(self)@ == old(self)@,
            final(self).receiver_attached() == old(self).receiver_attached(),
            final(self).input_live() == old(self).input_live(),
            final(self).options() == old(self).options(),
    {
        if self.receiver_open {
            self.pending.push(Event::Kafka(message));
            Ok(())
        } else {
            Err(EventsError::ChannelClosed)
        }
    }

    /// The consumer drops its side of the channel; from here on every
    /// injection fails.  Events already pending stay where they are, but no
    /// consumer remains to take them.
    pub fn drop_receiver(&mut self)
        ensures
            final(self)@ == old(self)@,
            !final(self).receiver_attached(),
            final(self).input_live() == old(self).input_live(),
            final(self).options() == old(self).options(),
    {
        self.receiver_open = false;
    }

    /// Whether a call of [`Events::next`] would return at once.  While this
    /// is false — nothing pending, but a producer still live — the consumer
    /// must block and wait; it never polls.
    pub fn can_recv(&self) -> (b: bool)
        ensures
            b == (self@.len() > 0 || !self.input_live()),
    {
        self.pending.len() > 0 || !self.input_running
    }

    /// Take the next event, oldest first; every call consumes exactly one.
    /// Fails, with [`EventsError::Disconnected`], exactly when nothing is
    /// pending and every producer has terminated — fatal to the consumer
    /// loop.  The case with nothing pending and a producer still live is
    /// the blocking one and is left to the caller: wait until
    /// [`Events::can_recv`] holds.
    pub fn next(&mut self) -> (r: Result<Event, EventsError>)
        requires
            old(self)@.len() > 0 || !old(self).input_live(),
        ensures
            old(self)@.len() > 0 ==> (r matches Ok(e) && e == old(self)@[0]
                && final(self)@ == old(self)@.drop_first()),
            old(self)@.len() == 0 ==> r == Err::<Event, EventsError>(EventsError::Disconnected)
                && final(self)@ == old(self)@,
            final(self).receiver_attached() == old(self).receiver_attached(),
            final(self).input_live() == old(self).input_live(),
            final(self).options() == old(self).options(),
    {
        if self.pending.len() > 0 {
            let ghost pre = self.pending@;
            let e = self.pending.remove(0);
            assert(self.pending@ =~= pre.drop_first());
            Ok(e)
        } else {
            Err(EventsError::Disconnected)
        }
    }
}

/// Law: no event is lost while the channel is open.  If the keyboard
/// producer has already sent events — the pending queue of `before` — and a
/// message is then injected, reaching the state `after` that
/// [`Events::push_kafka_event`] promises, then everything previously
/// pending is still pending, in its old order and position, and the
/// injected message stands right behind it.  Since [`Events::next`] only
/// ever removes the oldest pending event, all of them, the injected one
/// included, are delivered to the consumer in this order.
pub proof fn lemma_inject_loses_nothing(before: Events, after: Events, message: String)
    requires
        before.receiver_attached(),
        after@ == before@.push(Event::Kafka(message)),
    ensures
        after@.len() == before@.len() + 1,
        forall|i: int| 0 <= i < before@.len() ==> after@[i] == before@[i],
        after@.last() == Event::Kafka(message),
{
}

} // verus!
