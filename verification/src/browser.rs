//! A tuner as a page in the browser drives it.

use vstd::prelude::*;

use crate::error::{error, Error};
use crate::types::{Polarization, StreamId, System, TuneParams};

verus! {

/// What a page asks to tune to, where right-hand circular goes without saying.
pub fn params(
    system: System,
    frequency_khz: u32,
    stream_id: Option<u16>,
    polarization: Option<Polarization>,
) -> (r: Result<TuneParams, Error>)
    ensures
        ({
            let asked = TuneParams {
                system,
                frequency_khz,
                stream_id: match stream_id {
                    Some(id) => Some(StreamId(id)),
                    None => None,
                },
                polarization: if polarization == Some(Polarization::Left) {
                    polarization
                } else {
                    None
                },
            };
            if asked.valid() {
                r == Ok::<TuneParams, Error>(asked)
            } else {
                r == Err::<TuneParams, Error>(
                    Error::InvalidParams(
                        if system.satellite() {
                            "a satellite stream needs a stream id"
                        } else {
                            "ISDB-T takes no stream id"
                        },
                    ),
                )
            }
        }),
{
    let asked: TuneParams = TuneParams {
        system,
        frequency_khz,
        stream_id: match stream_id {
            Some(id) => Some(StreamId(id)),
            None => None,
        },
        polarization: match polarization {
            Some(Polarization::Left) => Some(Polarization::Left),
            _ => None,
        },
    };
    match asked.validate() {
        Ok(_) => Ok(asked),
        Err(e) => Err(e),
    }
}

/// The read of a stream in progress, of which there is one at most.
pub struct Reading {
    pub in_progress: bool,
}

impl Reading {
    pub fn new() -> (r: Self)
        ensures
            !r.in_progress,
    {
        Reading { in_progress: false }
    }

    /// Starts a read.
    pub fn start(&mut self) -> (r: Result<(), Error>)
        ensures
            final(self).in_progress,
            r is Ok <==> !old(self).in_progress,
            r is Err ==> r == Err::<(), Error>(error("a read is in progress")),
    {
        if self.in_progress {
            return Err(error("a read is in progress"));
        }
        self.in_progress = true;
        Ok(())
    }

    /// Takes note that the read came to its end.
    pub fn finish(&mut self)
        ensures
            !final(self).in_progress,
    {
        self.in_progress = false;
    }

    /// Ends the stream, by a tune or by closing the tuner; whether a read is to be
    /// aborted, after which another may start.
    pub fn end_stream(&mut self) -> (r: bool)
        ensures
            r == old(self).in_progress,
            !final(self).in_progress,
    {
        let reading: bool = self.in_progress;
        self.in_progress = false;
        reading
    }
}

} // verus!
