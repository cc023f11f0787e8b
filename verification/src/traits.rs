//! The bus over which the chips of a device are reached.

use vstd::prelude::*;

use crate::error::Error;

verus! {

/// What came of something done on a bus: how it left the bus, and the result.
pub type Ran<S, T> = (S, Result<T, Error>);

/// An I2C bus, over which a bridge reaches the tuner and demodulator chips.
///
/// `State` stands for whatever decides what a transfer brings: the chips, the
/// cables and the time that passes. Nothing is said of it here. What the chip
/// drivers promise is stated over it: which transfers they make, in which order,
/// and what they make of each answer.
pub trait I2c: Sized {
    type State;

    closed spec fn state(&self) -> Self::State {
        arbitrary()
    }

    /// What writing `data` to the chip at `addr` does and gives.
    closed spec fn on_write(s: Self::State, addr: u8, data: Seq<u8>) -> Ran<Self::State, ()> {
        arbitrary()
    }

    /// What writing `data` and reading `len` bytes back does and gives.
    closed spec fn on_read(s: Self::State, addr: u8, data: Seq<u8>, len: usize) -> Ran<
        Self::State,
        Seq<u8>,
    > {
        arbitrary()
    }

    /// What letting `ms` milliseconds pass does.
    closed spec fn on_delay(s: Self::State, ms: u64) -> Self::State {
        arbitrary()
    }

    fn write(&mut self, addr: u8, data: &[u8]) -> (r: Result<(), Error>)
        ensures
            (final(self).state(), r) == Self::on_write(old(self).state(), addr, data@),
    ;

    /// Writes `data`, then reads `len` bytes back.
    fn write_read(&mut self, addr: u8, data: &[u8], len: usize) -> (r: Result<Vec<u8>, Error>)
        ensures
            (final(self).state(), seen(r)) == Self::on_read(old(self).state(), addr, data@, len),
            r matches Ok(bytes) ==> bytes@.len() == len,
    ;

    fn delay_ms(&mut self, ms: u64)
        ensures
            final(self).state() == Self::on_delay(old(self).state(), ms),
    ;
}

/// The bytes of a result.
pub open spec fn seen(r: Result<Vec<u8>, Error>) -> Result<Seq<u8>, Error> {
    match r {
        Ok(bytes) => Ok(bytes@),
        Err(e) => Err(e),
    }
}

/// What a write does and gives, if nothing failed before it.
#[verifier::opaque]
pub open spec fn write_then<B: I2c>(p: Ran<B::State, ()>, addr: u8, data: Seq<u8>) -> Ran<
    B::State,
    (),
> {
    match p.1 {
        Err(e) => (p.0, Err(e)),
        Ok(_) => B::on_write(p.0, addr, data),
    }
}

/// What writing a register does and gives, if nothing failed before it.
#[verifier::opaque]
pub open spec fn reg_then<B: I2c>(p: Ran<B::State, ()>, addr: u8, reg: u8, value: u8) -> Ran<
    B::State,
    (),
> {
    write_then::<B>(p, addr, seq![reg].push(value))
}

/// What writing registers from one on does and gives, if nothing failed before
/// it.
#[verifier::opaque]
pub open spec fn block_then<B: I2c>(
    p: Ran<B::State, ()>,
    addr: u8,
    reg: u8,
    data: Seq<u8>,
) -> Ran<B::State, ()> {
    write_then::<B>(p, addr, seq![reg] + data)
}

/// What writing the bits `mask` of a register does and gives, if nothing failed
/// before it: the rest of it is read first, unless there is none.
#[verifier::opaque]
pub open spec fn bits_then<B: I2c>(
    p: Ran<B::State, ()>,
    addr: u8,
    reg: u8,
    value: u8,
    mask: u8,
) -> Ran<B::State, ()> {
    match p.1 {
        Err(e) => (p.0, Err(e)),
        Ok(_) => if mask == 0xff {
            reg_then::<B>(p, addr, reg, value)
        } else {
            let (s1, r1) = B::on_read(p.0, addr, seq![reg], 1);
            match r1 {
                Err(e) => (s1, Err(e)),
                Ok(b) => reg_then::<B>(
                    (s1, Ok(())),
                    addr,
                    reg,
                    (b[0] & !mask) | (value & mask),
                ),
            }
        },
    }
}

/// What letting time pass does and gives, if nothing failed before it.
#[verifier::opaque]
pub open spec fn delay_then<B: I2c>(p: Ran<B::State, ()>, ms: u64) -> Ran<B::State, ()> {
    match p.1 {
        Err(e) => (p.0, Err(e)),
        Ok(_) => (B::on_delay(p.0, ms), Ok(())),
    }
}

/// Writes, unless something failed before.
pub fn write_if_ok<B: I2c>(i2c: &mut B, before: Result<(), Error>, addr: u8, data: &[u8]) -> (r:
    Result<(), Error>)
    ensures
        (final(i2c).state(), r) == write_then::<B>((old(i2c).state(), before), addr, data@),
{
    reveal(write_then);
    match before {
        Ok(_) => i2c.write(addr, data),
        Err(e) => Err(e),
    }
}

/// Writes a register, unless something failed before.
pub fn reg_if_ok<B: I2c>(
    i2c: &mut B,
    before: Result<(), Error>,
    addr: u8,
    reg: u8,
    value: u8,
) -> (r: Result<(), Error>)
    ensures
        (final(i2c).state(), r) == reg_then::<B>((old(i2c).state(), before), addr, reg, value),
{
    reveal(reg_then);
    let mut data: Vec<u8> = Vec::new();
    data.push(reg);
    data.push(value);
    write_if_ok(i2c, before, addr, data.as_slice())
}

/// Writes registers from one on, unless something failed before.
pub fn block_if_ok<B: I2c>(
    i2c: &mut B,
    before: Result<(), Error>,
    addr: u8,
    reg: u8,
    data: &[u8],
) -> (r: Result<(), Error>)
    ensures
        (final(i2c).state(), r) == block_then::<B>((old(i2c).state(), before), addr, reg, data@),
{
    reveal(block_then);
    let mut buf: Vec<u8> = Vec::new();
    buf.push(reg);
    buf.extend_from_slice(data);
    assert(buf@ =~= seq![reg] + data@);
    write_if_ok(i2c, before, addr, buf.as_slice())
}

/// Writes some bits of a register, unless something failed before.
pub fn bits_if_ok<B: I2c>(
    i2c: &mut B,
    before: Result<(), Error>,
    addr: u8,
    reg: u8,
    value: u8,
    mask: u8,
) -> (r: Result<(), Error>)
    ensures
        (final(i2c).state(), r) == bits_then::<B>(
            (old(i2c).state(), before),
            addr,
            reg,
            value,
            mask,
        ),
{
    reveal(bits_then);
    match before {
        Ok(_) => {},
        Err(e) => return Err(e),
    }
    if mask == 0xff {
        return reg_if_ok(i2c, before, addr, reg, value);
    }
    let mut which: Vec<u8> = Vec::new();
    which.push(reg);
    let current: u8 = match i2c.write_read(addr, which.as_slice(), 1) {
        Ok(b) => b[0],
        Err(e) => return Err(e),
    };
    reg_if_ok(i2c, Ok(()), addr, reg, (current & !mask) | (value & mask))
}

/// Lets time pass, unless something failed before.
pub fn delay_if_ok<B: I2c>(i2c: &mut B, before: Result<(), Error>, ms: u64) -> (r: Result<
    (),
    Error,
>)
    ensures
        (final(i2c).state(), r) == delay_then::<B>((old(i2c).state(), before), ms),
{
    reveal(delay_then);
    match before {
        Ok(_) => {
            i2c.delay_ms(ms);
            Ok(())
        },
        Err(e) => Err(e),
    }
}

} // verus!
