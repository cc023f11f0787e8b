//! What tuning a tuner of the series comes to.

use vstd::prelude::*;

use crate::cxd2856er;
use crate::cxd2856er::Mode;
use crate::cxd2858er;
use crate::pxmlt;
use crate::pxmlt::Chip;
use crate::shadow;
use crate::traits;
use crate::traits::{I2c, Ran};
use crate::types::StreamId;

verus! {

proof fn other_registers_pass<B: I2c>(
    p: Ran<B::State, ()>,
    other: u8,
    reg: u8,
    value: u8,
    addr: u8,
    file: spec_fn(B::State) -> Seq<u8>,
)
    requires
        shadow::stands_alone::<B>(addr, file),
        other != addr,
    ensures
        file(traits::reg_then::<B>(p, other, reg, value).0) == file(p.0),
{
    reveal(traits::reg_then);
    reveal(traits::write_then);
}

/// A tuner that was tuned is on the frequency: the number in the registers of its tuner
/// chip is it, in kHz for ISDB-T and in steps of 4 kHz, to within half a step, for ISDB-S.
pub proof fn tuning_lands_on_the_frequency<B: I2c>(
    s: B::State,
    c: Chip,
    mode: Mode,
    khz: u32,
    stream_id: Option<StreamId>,
    file: spec_fn(B::State) -> Seq<u8>,
)
    requires
        mode == Mode::T ==> khz < 0x10_0000,
        mode == Mode::S ==> khz <= 4_194_301,
        c.demod.slvx != cxd2858er::ADDR,
        c.demod.slvt != cxd2858er::ADDR,
        shadow::takes_writes::<B>(cxd2858er::ADDR, file),
        shadow::shows_registers::<B>(cxd2858er::ADDR, file),
        shadow::stands_alone::<B>(cxd2858er::ADDR, file),
        forall|s: B::State| (#[trigger] file(s)).len() == 0x100,
        pxmlt::chip_tuned::<B>(s, c, mode, khz, stream_id).2 is Ok,
    ensures
        ({
            let left = file(pxmlt::chip_tuned::<B>(s, c, mode, khz, stream_id).0);
            match mode {
                Mode::T => left[0x01] == 0 && cxd2858er::number_in(left, 0x70) == khz,
                Mode::S => left[0x01] == 1 && -2 <= cxd2858er::number_in(left, 0x10) * 4 - khz <= 2,
            }
        }),
{
    let (s1, r1) = match stream_id {
        Some(id) => cxd2856er::tsid_set::<B>(s, c.demod, id.0),
        None => (s, Ok(())),
    };
    let (s2, demod, r2) = cxd2856er::woken::<B>(s1, c.demod, mode);
    let (s3, tuner, r3) = cxd2858er::tuned::<B>(s2, c.tuner, demod, mode, khz);
    cxd2858er::tuning_lands_on_the_frequency::<B>(s2, c.tuner, demod, mode, khz, file);
    reveal(cxd2856er::post_tune_done);
    let p1 = traits::reg_then::<B>(cxd2856er::begun(s3), demod.slvt, 0x00, 0x00);
    let p2 = traits::reg_then::<B>(p1, demod.slvt, 0xfe, 0x01);
    other_registers_pass::<B>(
        cxd2856er::begun(s3),
        demod.slvt,
        0x00,
        0x00,
        cxd2858er::ADDR,
        file,
    );
    other_registers_pass::<B>(p1, demod.slvt, 0xfe, 0x01, cxd2858er::ADDR, file);
    other_registers_pass::<B>(p2, demod.slvt, 0xc3, 0x00, cxd2858er::ADDR, file);
}

} // verus!
