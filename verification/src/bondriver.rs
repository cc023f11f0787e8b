//! What BonDriver_Tunelith, a BonDriver (IBonDriver2) receiving through tunelithd,
//! answers its host.

use vstd::prelude::*;

use crate::config::Config;
use crate::types::TuneParams;

verus! {

pub const WAIT_OBJECT_0: u32 = 0;

pub const WAIT_ABANDONED: u32 = 0x80;

pub const WAIT_TIMEOUT: u32 = 0x102;

/// The most bytes handed out at a time, which the buffer of a host copying them is
/// made for, as with the other BonDrivers.
pub const CHUNK: usize = 48_128;

/// The chunks kept for the host to read, a second or so; tunelithd drops what
/// comes beyond.
pub const QUEUE: usize = 128;

/// The data of a channel for the host to read, behind the chunks still queued.
pub struct Data {
    /// Whether a channel is being received.
    pub receiving: bool,
    /// A chunk a wait took.
    pub pending: Option<Vec<u8>>,
    /// The chunk last handed out by pointer, alive until the next one.
    pub last: Vec<u8>,
}

/// What a host that waits for data is to do.
#[derive(Clone, Copy, Debug, PartialEq, Eq, Structural)]
pub enum Waiting {
    /// Nothing: this is the answer.
    Over(u32),
    /// To wait for a chunk for so many milliseconds, for ever if `None`.
    For(Option<u32>),
}

/// What waiting for a chunk came to.
pub enum Waited {
    Chunk(Vec<u8>),
    /// No more chunks come.
    Closed,
    TimedOut,
}

impl Data {
    /// No channel.
    pub fn new() -> (r: Self)
        ensures
            !r.receiving,
            r.pending is None,
            r.last@.len() == 0,
    {
        Data { receiving: false, pending: None, last: Vec::new() }
    }

    /// Takes a new channel.
    pub fn receive(&mut self)
        ensures
            final(self).receiving,
            final(self).pending is None,
            final(self).last@.len() == 0,
    {
        self.receiving = true;
        self.pending = None;
        self.last = Vec::new();
    }

    /// Leaves the channel; the chunk last handed out stays alive.
    pub fn clear(&mut self)
        ensures
            !final(self).receiving,
            final(self).pending is None,
            final(self).last == old(self).last,
    {
        self.receiving = false;
        self.pending = None;
    }

    /// The chunks there are to read, `queued` of them still in the queue.
    pub fn ready_count(&self, queued: usize) -> (r: u32)
        requires
            queued < usize::MAX,
        ensures
            r == (queued + if self.pending is Some {
                1int
            } else {
                0
            }) as u32,
    {
        let more: usize = if self.pending.is_some() {
            1
        } else {
            0
        };
        (queued + more) as u32
    }

    /// The next chunk: the one a wait took, or else the first of the queue, if any.
    pub fn next(&mut self, queued: Option<Vec<u8>>) -> (r: Option<Vec<u8>>)
        requires
            old(self).pending is Some ==> queued is None,
        ensures
            final(self).pending is None,
            final(self).receiving == old(self).receiving,
            final(self).last == old(self).last,
            r == if old(self).pending is Some {
                old(self).pending
            } else {
                queued
            },
    {
        match self.pending.take() {
            Some(chunk) => Some(chunk),
            None => queued,
        }
    }

    /// What a host that waits for data is to do; a timeout of 0 waits for ever, as
    /// with the other BonDrivers.
    pub fn wait(&self, queued: usize, timeout_ms: u32) -> (r: Waiting)
        ensures
            r == if queued > 0 || self.pending is Some {
                Waiting::Over(WAIT_OBJECT_0)
            } else if !self.receiving {
                Waiting::Over(WAIT_ABANDONED)
            } else if timeout_ms == 0 {
                Waiting::For(None)
            } else {
                Waiting::For(Some(timeout_ms))
            },
    {
        if queued > 0 || self.pending.is_some() {
            return Waiting::Over(WAIT_OBJECT_0);
        }
        if !self.receiving {
            return Waiting::Over(WAIT_ABANDONED);
        }
        Waiting::For(
            if timeout_ms == 0 {
                None
            } else {
                Some(timeout_ms)
            },
        )
    }

    /// What a host that waited is answered.
    pub fn waited(&mut self, waited: Waited) -> (r: u32)
        ensures
            final(self).receiving == old(self).receiving,
            final(self).last == old(self).last,
            match waited {
                Waited::Chunk(chunk) => r == WAIT_OBJECT_0 && final(self).pending == Some(chunk),
                Waited::Closed => r == WAIT_ABANDONED && final(self).pending
                    == old(self).pending,
                Waited::TimedOut => r == WAIT_TIMEOUT && final(self).pending
                    == old(self).pending,
            },
    {
        match waited {
            Waited::Chunk(chunk) => {
                self.pending = Some(chunk);
                WAIT_OBJECT_0
            },
            Waited::Closed => WAIT_ABANDONED,
            Waited::TimedOut => WAIT_TIMEOUT,
        }
    }

    /// Hands a chunk out by pointer, an empty one if there is none; its size.
    pub fn hand_out(&mut self, chunk: Option<Vec<u8>>) -> (r: usize)
        ensures
            final(self).receiving == old(self).receiving,
            final(self).pending == old(self).pending,
            r == final(self).last@.len(),
            match chunk {
                Some(chunk) => final(self).last == chunk,
                None => final(self).last@.len() == 0,
            },
    {
        self.last = match chunk {
            Some(chunk) => chunk,
            None => Vec::new(),
        };
        self.last.len()
    }
}

/// The space a host is told it is on.
pub fn cur_space(current: Option<(u32, u32)>) -> (r: u32)
    ensures
        r == match current {
            Some(c) => c.0,
            None => u32::MAX,
        },
{
    match current {
        Some(c) => c.0,
        None => u32::MAX,
    }
}

/// The channel a host is told it is on.
pub fn cur_channel(current: Option<(u32, u32)>) -> (r: u32)
    ensures
        r == match current {
            Some(c) => c.1,
            None => u32::MAX,
        },
{
    match current {
        Some(c) => c.1,
        None => u32::MAX,
    }
}

/// What a host that picks a channel is to get.
#[derive(Clone, Copy, Debug, PartialEq, Eq, Structural)]
pub enum Picked {
    /// Nothing, there being no such channel; it stays where it is.
    NoSuchChannel,
    /// Nothing, the tuner not being open; it leaves the channel it is on.
    NotOpen,
    /// What the parameters tune to; it leaves the channel it is on.
    Tune(TuneParams),
}

/// What a host that picks a channel is to get.
pub fn pick(config: &Config, space: u32, channel: u32, open: bool) -> (r: Picked)
    ensures
        r == match config.at(space, channel) {
            None => Picked::NoSuchChannel,
            Some(found) => if open {
                Picked::Tune(found.params)
            } else {
                Picked::NotOpen
            },
        },
{
    match config.channel(space, channel) {
        None => Picked::NoSuchChannel,
        Some(found) => if open {
            Picked::Tune(found.params)
        } else {
            Picked::NotOpen
        },
    }
}

} // verus!
