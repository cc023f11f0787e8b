//! USB transfers for the drivers that run the device in user space, behind a
//! trait so that a chip driver can be used without one.

use vstd::prelude::*;

use crate::error::Error;
use crate::traits;
use crate::traits::Ran;

verus! {

/// An interface of a USB device.
///
/// `State` stands for whatever decides what a transfer brings, as it does for
/// [`I2c`](crate::traits::I2c).
pub trait UsbTransport: Sized {
    type State;

    type BulkIn: BulkIn;

    closed spec fn state(&self) -> Self::State {
        arbitrary()
    }

    /// What sending `data` on an endpoint does and gives.
    closed spec fn on_out(s: Self::State, ep: u8, data: Seq<u8>, timeout_ms: u64) -> Ran<Self::State, ()> {
        arbitrary()
    }

    /// What receiving one transfer of up to `len` bytes does and gives.
    closed spec fn on_in(s: Self::State, ep: u8, len: usize, timeout_ms: u64) -> Ran<
        Self::State,
        Seq<u8>,
    > {
        arbitrary()
    }

    /// What opening a bulk IN endpoint does and gives.
    closed spec fn on_open(s: Self::State, ep: u8) -> Ran<
        Self::State,
        <Self::BulkIn as BulkIn>::State,
    > {
        arbitrary()
    }

    /// What letting `ms` milliseconds pass does.
    closed spec fn on_delay(s: Self::State, ms: u64) -> Self::State {
        arbitrary()
    }

    fn bulk_out(&mut self, ep: u8, data: Vec<u8>, timeout_ms: u64) -> (r: Result<(), Error>)
        ensures
            (final(self).state(), r) == Self::on_out(old(self).state(), ep, data@, timeout_ms),
    ;

    /// Receives one transfer of up to `len` bytes.
    fn bulk_in(&mut self, ep: u8, len: usize, timeout_ms: u64) -> (r: Result<Vec<u8>, Error>)
        ensures
            (final(self).state(), traits::seen(r)) == Self::on_in(
                old(self).state(),
                ep,
                len,
                timeout_ms,
            ),
    ;

    /// Opens a bulk IN endpoint to keep transfers in flight on.
    fn bulk_in_queue(&mut self, ep: u8) -> (r: Result<Self::BulkIn, Error>)
        ensures
            ({
                let (s, opened) = Self::on_open(old(self).state(), ep);
                &&& final(self).state() == s
                &&& match opened {
                    Ok(q) => r matches Ok(queue) && queue.state() == q
                        && queue.in_flight().len() == 0,
                    Err(e) => r matches Err(told) && told == e,
                }
            }),
    ;

    fn delay_ms(&mut self, ms: u64)
        ensures
            final(self).state() == Self::on_delay(old(self).state(), ms),
    ;
}

/// A bulk IN endpoint, whose transfers complete in the order submitted.
/// Dropping it cancels the ones in flight.
///
/// `State` stands for whatever decides what its transfers bring.
pub trait BulkIn: Sized {
    type State;

    closed spec fn state(&self) -> Self::State {
        arbitrary()
    }

    /// The bytes of the transfers submitted that have not completed, in order.
    closed spec fn in_flight(&self) -> Seq<usize> {
        arbitrary()
    }

    /// What submitting a transfer of up to `len` bytes does.
    closed spec fn on_submit(s: Self::State, len: usize) -> Self::State {
        arbitrary()
    }

    /// What waiting for the first of the transfers in flight does and gives.
    closed spec fn on_complete(s: Self::State) -> Ran<Self::State, Seq<u8>> {
        arbitrary()
    }

    /// What waiting for the first of the transfers in flight does and gives, for
    /// so long.
    closed spec fn on_complete_within(s: Self::State, timeout_ms: u64) -> Ran<
        Self::State,
        Seq<u8>,
    > {
        arbitrary()
    }

    /// Submits a transfer of up to `len` bytes, rounded up to whole packets.
    fn submit(&mut self, len: usize)
        ensures
            final(self).state() == Self::on_submit(old(self).state(), len),
            final(self).in_flight() == old(self).in_flight().push(len),
    ;

    /// Waits for the first of the transfers in flight.
    fn next_complete(&mut self) -> (r: Result<Vec<u8>, Error>)
        requires
            old(self).in_flight().len() > 0,
        ensures
            (final(self).state(), traits::seen(r)) == Self::on_complete(old(self).state()),
            final(self).in_flight() == old(self).in_flight().skip(1),
    ;

    /// Waits for the first of the transfers in flight, which fails with
    /// [`TimedOut`](crate::error::ErrorKind::TimedOut) if it takes longer than
    /// `timeout_ms`.
    fn next_complete_within(&mut self, timeout_ms: u64) -> (r: Result<Vec<u8>, Error>)
        requires
            old(self).in_flight().len() > 0,
        ensures
            (final(self).state(), traits::seen(r)) == Self::on_complete_within(
                old(self).state(),
                timeout_ms,
            ),
    ;
}

} // verus!
