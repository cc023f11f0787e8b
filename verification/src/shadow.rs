//! Programs over the registers of a chip that is written from a shadow: the
//! driver keeps a copy of the registers, changes fields of it, and writes out
//! what the chip is to see.

use vstd::prelude::*;

use crate::error::Error;
use crate::traits;
use crate::traits::{I2c, Ran};

verus! {

/// A step of a program.
#[derive(Clone, Copy, Debug, PartialEq, Eq, Structural)]
pub enum Op {
    /// Keeps the bits `keep` of a register of the shadow and sets `bits`.
    Put { reg: u8, keep: u8, bits: u8 },
    /// Writes `len` registers from `reg` on out of the shadow.
    Flush { reg: u8, len: u8 },
    /// Waits.
    Delay { ms: u64 },
}

/// A change of a field.
pub open spec fn put(reg: u8, keep: u8, bits: u8) -> Op {
    Op::Put { reg, keep, bits }
}

/// A register written out.
pub open spec fn flush(reg: u8, len: u8) -> Op {
    Op::Flush { reg, len }
}

/// The shadow once a field is changed.
pub open spec fn changed(regs: Seq<u8>, reg: u8, keep: u8, bits: u8) -> Seq<u8> {
    regs.update(reg as int, (regs[reg as int] & keep) | bits)
}

/// A change of a field.
#[verifier::when_used_as_spec(put)]
pub fn field(reg: u8, keep: u8, bits: u8) -> (r: Op)
    ensures
        r == put(reg, keep, bits),
{
    Op::Put { reg, keep, bits }
}

/// A register written out.
#[verifier::when_used_as_spec(flush)]
pub fn out(reg: u8, len: u8) -> (r: Op)
    ensures
        r == flush(reg, len),
{
    Op::Flush { reg, len }
}

/// Whether a program stays within `n` registers.
#[verifier::opaque]
pub open spec fn fits(ops: Seq<Op>, n: nat) -> bool {
    forall|i: int| 0 <= i < ops.len() ==> op_fits(#[trigger] ops[i], n)
}

pub open spec fn op_fits(op: Op, n: nat) -> bool {
    match op {
        Op::Put { reg, .. } => reg < n,
        Op::Flush { reg, len } => reg + len <= n,
        Op::Delay { .. } => true,
    }
}

/// Whether `ops` is a program, and the program stays within `n` registers.
pub open spec fn built(ops: Vec<Op>, program: Seq<Op>, n: nat) -> bool {
    ops@ == program && fits(program, n)
}

/// The empty program stays within any registers.
pub broadcast proof fn fits_nothing(n: nat)
    ensures
        #[trigger] fits(Seq::<Op>::empty(), n),
{
    reveal(fits);
}

/// A program stays within the registers if each of its steps does.
pub broadcast proof fn fits_one_more(ops: Seq<Op>, op: Op, n: nat)
    ensures
        #[trigger] fits(ops.push(op), n) == (fits(ops, n) && op_fits(op, n)),
{
    reveal(fits);
    if fits(ops.push(op), n) {
        assert forall|i: int| 0 <= i < ops.len() implies op_fits(#[trigger] ops[i], n) by {
            assert(ops.push(op)[i] == ops[i]);
        }
        assert(ops.push(op)[ops.len() as int] == op);
    }
}

/// Two programs in a row stay within the registers if both do.
pub broadcast proof fn fits_both(a: Seq<Op>, b: Seq<Op>, n: nat)
    ensures
        #[trigger] fits(a + b, n) == (fits(a, n) && fits(b, n)),
{
    reveal(fits);
    if fits(a + b, n) {
        assert forall|i: int| 0 <= i < a.len() implies op_fits(#[trigger] a[i], n) by {
            assert((a + b)[i] == a[i]);
        }
        assert forall|i: int| 0 <= i < b.len() implies op_fits(#[trigger] b[i], n) by {
            assert((a + b)[a.len() + i] == b[i]);
        }
    }
}

/// How a program leaves the bus and the shadow, and its result: it stops at the
/// first transfer that fails, with the error of that transfer.
pub open spec fn run<B: I2c>(s: B::State, addr: u8, regs: Seq<u8>, ops: Seq<Op>) -> (
    B::State,
    Seq<u8>,
    Result<(), Error>,
)
    decreases ops.len(),
{
    if ops.len() == 0 {
        (s, regs, Ok(()))
    } else {
        match ops[0] {
            Op::Put { reg, keep, bits } => run::<B>(
                s,
                addr,
                changed(regs, reg, keep, bits),
                ops.skip(1),
            ),
            Op::Flush { reg, len } => {
                let (s1, r) = B::on_write(
                    s,
                    addr,
                    seq![reg] + regs.subrange(reg as int, reg + len),
                );
                match r {
                    Err(e) => (s1, regs, Err(e)),
                    Ok(_) => run::<B>(s1, addr, regs, ops.skip(1)),
                }
            },
            Op::Delay { ms } => run::<B>(B::on_delay(s, ms), addr, regs, ops.skip(1)),
        }
    }
}

/// Runs a program over a shadow, against the chip at `addr`.
pub fn perform<B: I2c>(i2c: &mut B, addr: u8, regs: &mut Vec<u8>, ops: &Vec<Op>) -> (r: Result<
    (),
    Error,
>)
    requires
        fits(ops@, old(regs)@.len()),
    ensures
        (final(i2c).state(), final(regs)@, r) == run::<B>(
            old(i2c).state(),
            addr,
            old(regs)@,
            ops@,
        ),
        final(regs)@.len() == old(regs)@.len(),
{
    let ghost s0 = i2c.state();
    let ghost regs0 = regs@;
    let n: usize = ops.len();
    let mut i: usize = 0;
    assert(ops@.skip(0) =~= ops@);
    while i < n
        invariant
            i <= n,
            n == ops@.len(),
            s0 == old(i2c).state(),
            regs0 == old(regs)@,
            regs@.len() == regs0.len(),
            fits(ops@, regs0.len()),
            run::<B>(i2c.state(), addr, regs@, ops@.skip(i as int)) == run::<B>(
                s0,
                addr,
                regs0,
                ops@,
            ),
        decreases n - i,
    {
        let ghost rest = ops@.skip(i as int);
        reveal(fits);
        assert(rest[0] == ops@[i as int]);
        assert(rest.skip(1) =~= ops@.skip(i + 1));
        assert(op_fits(ops@[i as int], regs0.len()));
        match ops[i] {
            Op::Put { reg, keep, bits } => {
                let value: u8 = (regs[reg as usize] & keep) | bits;
                regs.set(reg as usize, value);
            },
            Op::Flush { reg, len } => {
                let mut data: Vec<u8> = Vec::new();
                data.push(reg);
                let from: usize = reg as usize;
                let to: usize = from + len as usize;
                data.extend_from_slice(vstd::slice::slice_subrange(regs.as_slice(), from, to));
                assert(data@ =~= seq![reg] + regs@.subrange(reg as int, reg + len));
                match i2c.write(addr, data.as_slice()) {
                    Ok(_) => {},
                    Err(e) => return Err(e),
                }
            },
            Op::Delay { ms } => i2c.delay_ms(ms),
        }
        i = i + 1;
    }
    assert(ops@.skip(n as int).len() == 0);
    Ok(())
}

/// The registers of a chip after a write to it: the first byte is the register that
/// the second goes to, and the others go to those after it.
pub open spec fn written(file: Seq<u8>, data: Seq<u8>) -> Seq<u8> {
    Seq::new(
        file.len(),
        |i: int|
            if data[0] <= i < data[0] + data.len() - 1 {
                data[1 + i - data[0]]
            } else {
                file[i]
            },
    )
}

/// Whether the chip at `addr` of a bus takes what is written to it: `file` is what its
/// registers hold, which a write that succeeds changes and time does not.
pub open spec fn takes_writes<B: I2c>(addr: u8, file: spec_fn(B::State) -> Seq<u8>) -> bool {
    &&& forall|s: B::State, data: Seq<u8>|
        data.len() > 0 && (#[trigger] B::on_write(s, addr, data)).1 is Ok ==> file(
            B::on_write(s, addr, data).0,
        ) == written(file(s), data)
    &&& forall|s: B::State, ms: u64| file(#[trigger] B::on_delay(s, ms)) == file(s)
}

/// What the shadow and the chip hold in register `r` after a step, from what they held
/// in it before.
pub open spec fn at_step(p: (u8, u8), op: Op, r: u8) -> (u8, u8) {
    match op {
        Op::Put { reg, keep, bits } => if reg == r {
            ((p.0 & keep) | bits, p.1)
        } else {
            p
        },
        Op::Flush { reg, len } => if reg <= r < reg + len {
            (p.0, p.0)
        } else {
            p
        },
        Op::Delay { .. } => p,
    }
}

/// What the shadow and the chip hold in register `r` after a program.
pub open spec fn at_end(p: (u8, u8), ops: Seq<Op>, r: u8) -> (u8, u8)
    decreases ops.len(),
{
    if ops.len() == 0 {
        p
    } else {
        at_step(at_end(p, ops.drop_last(), r), ops.last(), r)
    }
}

pub broadcast proof fn at_end_of_nothing(p: (u8, u8), r: u8)
    ensures
        #[trigger] at_end(p, Seq::<Op>::empty(), r) == p,
{
}

pub broadcast proof fn at_end_of_one_more(p: (u8, u8), ops: Seq<Op>, op: Op, r: u8)
    ensures
        #[trigger] at_end(p, ops.push(op), r) == at_step(at_end(p, ops, r), op, r),
{
    assert(ops.push(op).drop_last() =~= ops);
}

pub broadcast proof fn at_end_of_both(p: (u8, u8), a: Seq<Op>, b: Seq<Op>, r: u8)
    ensures
        #[trigger] at_end(p, a + b, r) == at_end(at_end(p, a, r), b, r),
    decreases b.len(),
{
    if b.len() == 0 {
        assert(a + b =~= a);
    } else {
        at_end_of_both(p, a, b.drop_last(), r);
        assert((a + b).drop_last() =~= a + b.drop_last());
    }
}

/// A program leaves in the registers of a chip what its steps put and write out: the
/// chip holds in each what the last write of it held, the shadow what was last put.
pub proof fn programs_reach_the_chip<B: I2c>(
    s: B::State,
    addr: u8,
    regs: Seq<u8>,
    ops: Seq<Op>,
    file: spec_fn(B::State) -> Seq<u8>,
    r: u8,
)
    requires
        takes_writes::<B>(addr, file),
        fits(ops, regs.len()),
        file(s).len() == regs.len(),
        r < regs.len(),
        run::<B>(s, addr, regs, ops).2 is Ok,
    ensures
        ({
            let (s1, regs1, done) = run::<B>(s, addr, regs, ops);
            &&& regs1.len() == regs.len()
            &&& file(s1).len() == regs.len()
            &&& (regs1[r as int], file(s1)[r as int]) == at_end(
                (regs[r as int], file(s)[r as int]),
                ops,
                r,
            )
        }),
    decreases ops.len(),
{
    reveal(fits);
    if ops.len() > 0 {
        let rest = ops.skip(1);
        assert(op_fits(ops[0], regs.len()));
        assert forall|i: int| 0 <= i < rest.len() implies op_fits(
            #[trigger] rest[i],
            regs.len(),
        ) by {
            assert(rest[i] == ops[i + 1]);
        }
        let p = (regs[r as int], file(s)[r as int]);
        assert(ops =~= Seq::<Op>::empty().push(ops[0]) + rest);
        at_end_of_both(p, Seq::<Op>::empty().push(ops[0]), rest, r);
        at_end_of_one_more(p, Seq::<Op>::empty(), ops[0], r);
        match ops[0] {
            Op::Put { reg, keep, bits } => {
                programs_reach_the_chip::<B>(
                    s,
                    addr,
                    changed(regs, reg, keep, bits),
                    rest,
                    file,
                    r,
                );
            },
            Op::Flush { reg, len } => {
                let data = seq![reg] + regs.subrange(reg as int, reg + len);
                let s1 = B::on_write(s, addr, data).0;
                assert(file(s1) == written(file(s), data));
                programs_reach_the_chip::<B>(s1, addr, regs, rest, file, r);
            },
            Op::Delay { ms } => {
                programs_reach_the_chip::<B>(B::on_delay(s, ms), addr, regs, rest, file, r);
            },
        }
    }
}

/// Whether reading the chip at `addr` of a bus shows what `file` says its registers
/// hold, and leaves them as they are.
pub open spec fn shows_registers<B: I2c>(addr: u8, file: spec_fn(B::State) -> Seq<u8>) -> bool {
    &&& forall|s: B::State, data: Seq<u8>, len: usize|
        file((#[trigger] B::on_read(s, addr, data, len)).0) == file(s)
    &&& forall|s: B::State, data: Seq<u8>, len: usize|
        data.len() == 1 && (#[trigger] B::on_read(s, addr, data, len)).1 is Ok ==> B::on_read(
            s,
            addr,
            data,
            len,
        ).1->Ok_0 == Seq::new(len as nat, |i: int| file(s)[data[0] + i])
}

/// Whether what goes on with the other chips of a bus leaves the one at `addr` alone.
pub open spec fn stands_alone<B: I2c>(addr: u8, file: spec_fn(B::State) -> Seq<u8>) -> bool {
    forall|s: B::State, other: u8, data: Seq<u8>|
        other != addr ==> file((#[trigger] B::on_write(s, other, data)).0) == file(s)
}

/// A register that is written holds what was written.
pub broadcast proof fn register_lands<B: I2c>(
    p: Ran<B::State, ()>,
    addr: u8,
    reg: u8,
    value: u8,
    file: spec_fn(B::State) -> Seq<u8>,
)
    requires
        #[trigger] takes_writes::<B>(addr, file),
        (#[trigger] traits::reg_then::<B>(p, addr, reg, value)).1 is Ok,
    ensures
        p.1 is Ok,
        file(traits::reg_then::<B>(p, addr, reg, value).0) == written(
            file(p.0),
            seq![reg].push(value),
        ),
{
    reveal(traits::reg_then);
    reveal(traits::write_then);
}

/// Registers that are written together hold what was written.
pub broadcast proof fn block_lands<B: I2c>(
    p: Ran<B::State, ()>,
    addr: u8,
    reg: u8,
    data: Seq<u8>,
    file: spec_fn(B::State) -> Seq<u8>,
)
    requires
        #[trigger] takes_writes::<B>(addr, file),
        (#[trigger] traits::block_then::<B>(p, addr, reg, data)).1 is Ok,
    ensures
        p.1 is Ok,
        file(traits::block_then::<B>(p, addr, reg, data).0) == written(
            file(p.0),
            seq![reg] + data,
        ),
{
    reveal(traits::block_then);
    reveal(traits::write_then);
}

/// Bits that are written are what was written, and the others of their register are what
/// they were.
pub broadcast proof fn bits_land<B: I2c>(
    p: Ran<B::State, ()>,
    addr: u8,
    reg: u8,
    value: u8,
    mask: u8,
    file: spec_fn(B::State) -> Seq<u8>,
)
    requires
        #[trigger] takes_writes::<B>(addr, file),
        shows_registers::<B>(addr, file),
        (#[trigger] traits::bits_then::<B>(p, addr, reg, value, mask)).1 is Ok,
    ensures
        p.1 is Ok,
        file(traits::bits_then::<B>(p, addr, reg, value, mask).0) == written(
            file(p.0),
            seq![reg].push((file(p.0)[reg as int] & !mask) | (value & mask)),
        ),
{
    reveal(traits::bits_then);
    let now = file(p.0)[reg as int];
    if mask == 0xff {
        register_lands::<B>(p, addr, reg, value, file);
        assert((now & !mask) | (value & mask) == value) by (bit_vector)
            requires
                mask == 0xff,
        ;
    } else {
        let (s1, r1) = B::on_read(p.0, addr, seq![reg], 1);
        register_lands::<B>((s1, Ok(())), addr, reg, (now & !mask) | (value & mask), file);
    }
}

/// Time that passes changes no register.
pub broadcast proof fn delay_changes_nothing<B: I2c>(
    p: Ran<B::State, ()>,
    addr: u8,
    ms: u64,
    file: spec_fn(B::State) -> Seq<u8>,
)
    requires
        #[trigger] takes_writes::<B>(addr, file),
        (#[trigger] traits::delay_then::<B>(p, ms)).1 is Ok,
    ensures
        p.1 is Ok,
        file(traits::delay_then::<B>(p, ms).0) == file(p.0),
{
    reveal(traits::delay_then);
}

/// A byte with the order of its bits reversed.
pub open spec fn reversed(b: u8) -> u8 {
    ((b & 0x01) << 7) | ((b & 0x02) << 5) | ((b & 0x04) << 3) | ((b & 0x08) << 1) | ((b & 0x10)
        >> 1) | ((b & 0x20) >> 3) | ((b & 0x40) >> 5) | ((b & 0x80) >> 7)
}

fn reverse(b: u8) -> (r: u8)
    ensures
        r == reversed(b),
{
    ((b & 0x01) << 7) | ((b & 0x02) << 5) | ((b & 0x04) << 3) | ((b & 0x08) << 1) | ((b & 0x10)
        >> 1) | ((b & 0x20) >> 3) | ((b & 0x40) >> 5) | ((b & 0x80) >> 7)
}

/// Bit `i` of a reversed byte is bit `7 - i` of the byte, and reversing it again
/// gives the byte back.
pub proof fn reversed_mirrors(b: u8, i: u8)
    requires
        i < 8,
    ensures
        (reversed(b) >> i) & 1 == (b >> (7 - i)) & 1,
        reversed(reversed(b)) == b,
{
    let j: u8 = (7 - i) as u8;
    assert((reversed(b) >> i) & 1 == (b >> j) & 1) by (bit_vector)
        requires
            i < 8,
            j == 7 - i,
    ;
    assert(reversed(reversed(b)) == b) by (bit_vector);
}

/// What reading `len` registers from `reg` on does and gives: the chip sends
/// from register 0 on, with the bits of each byte reversed.
pub open spec fn read<B: I2c>(s: B::State, addr: u8, reg: usize, len: usize) -> Ran<
    B::State,
    Seq<u8>,
> {
    let (s1, r) = B::on_read(s, addr, seq![0u8], (reg + len) as usize);
    match r {
        Ok(bytes) => (s1, Ok(Seq::new(len as nat, |i: int| reversed(bytes[reg + i])))),
        Err(e) => (s1, Err(e)),
    }
}

/// Reads `len` registers from `reg` on.
pub fn read_back<B: I2c>(i2c: &mut B, addr: u8, reg: usize, len: usize) -> (r: Result<
    Vec<u8>,
    Error,
>)
    requires
        reg + len <= usize::MAX,
    ensures
        (final(i2c).state(), crate::traits::seen(r)) == read::<B>(
            old(i2c).state(),
            addr,
            reg,
            len,
        ),
        r matches Ok(bytes) ==> bytes@.len() == len,
{
    let from: [u8; 1] = [0];
    assert(from@ =~= seq![0u8]);
    let sent: Vec<u8> = match i2c.write_read(addr, &from, reg + len) {
        Ok(bytes) => bytes,
        Err(e) => return Err(e),
    };
    let mut got: Vec<u8> = Vec::new();
    let mut i: usize = 0;
    while i < len
        invariant
            i <= len,
            reg + len <= usize::MAX,
            sent@.len() == reg + len,
            got@.len() == i,
            forall|k: int| 0 <= k < i ==> got@[k] == reversed(sent@[reg + k]),
        decreases len - i,
    {
        got.push(reverse(sent[reg + i]));
        i = i + 1;
    }
    assert(got@ =~= Seq::new(len as nat, |k: int| reversed(sent@[reg + k])));
    Ok(got)
}

/// What reading one register does and gives.
pub open spec fn read_one<B: I2c>(s: B::State, addr: u8, reg: usize) -> Ran<B::State, u8> {
    let (s1, r) = read::<B>(s, addr, reg, 1);
    match r {
        Ok(bytes) => (s1, Ok(bytes[0])),
        Err(e) => (s1, Err(e)),
    }
}

/// Reads one register.
pub fn read_reg<B: I2c>(i2c: &mut B, addr: u8, reg: usize) -> (r: Result<u8, Error>)
    requires
        reg < usize::MAX,
    ensures
        (final(i2c).state(), r) == read_one::<B>(old(i2c).state(), addr, reg),
{
    match read_back(i2c, addr, reg, 1) {
        Ok(bytes) => Ok(bytes[0]),
        Err(e) => Err(e),
    }
}

/// Whether the chip at `addr` of a bus sends its registers from register 0 on, the bits of
/// each mirrored: bit `k` of what is sent is bit `7 - k` of the register.
pub open spec fn sends_mirrored<B: I2c>(addr: u8, file: spec_fn(B::State) -> Seq<u8>) -> bool {
    forall|s: B::State, len: usize, i: int, k: u8|
        #![trigger (B::on_read(s, addr, seq![0u8], len).1->Ok_0[i] >> k)]
        B::on_read(s, addr, seq![0u8], len).1 is Ok && 0 <= i < len && k < 8 ==> (B::on_read(
            s,
            addr,
            seq![0u8],
            len,
        ).1->Ok_0[i] >> k) & 1 == (file(s)[i] >> ((7 - k) as u8)) & 1
}

/// What is read of such a chip is what its registers hold.
pub proof fn registers_are_read<B: I2c>(
    s: B::State,
    addr: u8,
    reg: usize,
    len: usize,
    i: int,
    file: spec_fn(B::State) -> Seq<u8>,
)
    requires
        sends_mirrored::<B>(addr, file),
        reg + len <= usize::MAX,
        0 <= i < len,
        read::<B>(s, addr, reg, len).1 is Ok,
    ensures
        read::<B>(s, addr, reg, len).1->Ok_0.len() == len,
        read::<B>(s, addr, reg, len).1->Ok_0[i] == file(s)[reg + i],
{
    let sent = B::on_read(s, addr, seq![0u8], (reg + len) as usize).1->Ok_0[reg + i];
    let held = file(s)[reg + i];
    assert(reversed(sent) == held) by (bit_vector)
        requires
            (sent >> 0u8) & 1 == (held >> 7u8) & 1,
            (sent >> 1u8) & 1 == (held >> 6u8) & 1,
            (sent >> 2u8) & 1 == (held >> 5u8) & 1,
            (sent >> 3u8) & 1 == (held >> 4u8) & 1,
            (sent >> 4u8) & 1 == (held >> 3u8) & 1,
            (sent >> 5u8) & 1 == (held >> 2u8) & 1,
            (sent >> 6u8) & 1 == (held >> 1u8) & 1,
            (sent >> 7u8) & 1 == (held >> 0u8) & 1,
    ;
}

} // verus!
