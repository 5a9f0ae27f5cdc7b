//! The coordinate and window engine: what is sent to latch an address window,
//! to select an orientation and to open a pixel stream.

use vstd::prelude::*;
use crate::command::{Instruction, Orientation};
use crate::transaction::{
    be_bytes, begin_data_ops, command_ops, lemma_begin_data_transmits, lemma_command_transmits,
    lemma_data_transmits, word_ops,
};
use crate::wire::{lemma_concat, transmitted, Op};

verus! {

/// Whether every corner of the window, moved by the offset, is still a 16-bit
/// coordinate.
pub open spec fn window_fits(
    offset_x: u16,
    offset_y: u16,
    sx: u16,
    sy: u16,
    ex: u16,
    ey: u16,
) -> bool {
    &&& sx + offset_x <= u16::MAX
    &&& ex + offset_x <= u16::MAX
    &&& sy + offset_y <= u16::MAX
    &&& ey + offset_y <= u16::MAX
}

/// Latching the window from (`sx`, `sy`) to (`ex`, `ey`), both inclusive, moved
/// by the offset: the column range under column-address-set, then the row range
/// under row-address-set, each bound as a 16-bit word.
pub open spec fn window_ops(
    offset_x: u16,
    offset_y: u16,
    sx: u16,
    sy: u16,
    ex: u16,
    ey: u16,
) -> Seq<Op> {
    command_ops(Instruction::CASET.spec_code(), Seq::empty())
        + begin_data_ops()
        + word_ops((sx + offset_x) as u16)
        + word_ops((ex + offset_x) as u16)
        + command_ops(Instruction::RASET.spec_code(), Seq::empty())
        + begin_data_ops()
        + word_ops((sy + offset_y) as u16)
        + word_ops((ey + offset_y) as u16)
}

/// The bytes that latching a window puts on the bus: the column-address-set
/// opcode and the two column bounds, then the row-address-set opcode and the
/// two row bounds, each bound most significant byte first.
pub open spec fn window_bytes(
    offset_x: u16,
    offset_y: u16,
    sx: u16,
    sy: u16,
    ex: u16,
    ey: u16,
) -> Seq<u8> {
    seq![Instruction::CASET.spec_code()]
        + be_bytes((sx + offset_x) as u16)
        + be_bytes((ex + offset_x) as u16)
        + seq![Instruction::RASET.spec_code()]
        + be_bytes((sy + offset_y) as u16)
        + be_bytes((ey + offset_y) as u16)
}

/// Latching a window puts [`window_bytes`] on the bus.
pub proof fn lemma_window_transmits(
    offset_x: u16,
    offset_y: u16,
    sx: u16,
    sy: u16,
    ex: u16,
    ey: u16,
)
    ensures
        transmitted(window_ops(offset_x, offset_y, sx, sy, ex, ey)) == window_bytes(
            offset_x,
            offset_y,
            sx,
            sy,
            ex,
            ey,
        ),
{
    let none = Seq::<u8>::empty();
    let a = command_ops(Instruction::CASET.spec_code(), none);
    let b = begin_data_ops();
    let c = word_ops((sx + offset_x) as u16);
    let d = word_ops((ex + offset_x) as u16);
    let e = command_ops(Instruction::RASET.spec_code(), none);
    let f = word_ops((sy + offset_y) as u16);
    let g = word_ops((ey + offset_y) as u16);
    lemma_command_transmits(Instruction::CASET.spec_code(), none);
    lemma_command_transmits(Instruction::RASET.spec_code(), none);
    lemma_begin_data_transmits();
    lemma_data_transmits(be_bytes((sx + offset_x) as u16));
    lemma_data_transmits(be_bytes((ex + offset_x) as u16));
    lemma_data_transmits(be_bytes((sy + offset_y) as u16));
    lemma_data_transmits(be_bytes((ey + offset_y) as u16));
    lemma_concat(a, b);
    lemma_concat(a + b, c);
    lemma_concat(a + b + c, d);
    lemma_concat(a + b + c + d, e);
    lemma_concat(a + b + c + d + e, b);
    lemma_concat(a + b + c + d + e + b, f);
    lemma_concat(a + b + c + d + e + b + f, g);
    assert(transmitted(a + b + c + d + e + b + f + g) =~= window_bytes(
        offset_x,
        offset_y,
        sx,
        sy,
        ex,
        ey,
    ));
}

/// The bit of the memory-access-control register that tells the controller
/// that the panel's colour components come in the order blue, green, red.
pub const BGR_BIT: u8 = 0x08;

/// The value of the memory-access-control register for an orientation on a
/// panel of the given colour order.
pub open spec fn access_control(rgb: bool, orientation: Orientation) -> u8 {
    if rgb {
        orientation.spec_bits()
    } else {
        orientation.spec_bits() | BGR_BIT
    }
}

/// The colour-order bit is set in the register value exactly when the panel is
/// not RGB, and the orientation's own bits are the same either way: the value
/// is the orientation's pattern for an RGB panel, and that pattern with
/// [`BGR_BIT`] set for a BGR panel, which is never the pattern itself.
pub proof fn lemma_color_order_bit(rgb: bool, orientation: Orientation)
    ensures
        rgb ==> access_control(rgb, orientation) == orientation.spec_bits(),
        !rgb ==> access_control(rgb, orientation) == orientation.spec_bits() | BGR_BIT,
        (access_control(rgb, orientation) & BGR_BIT == BGR_BIT) <==> !rgb,
        access_control(rgb, orientation) & !BGR_BIT == orientation.spec_bits(),
{
    assert(0x00u8 & 0x08u8 == 0 && (0x00u8 | 0x08u8) & 0x08u8 == 0x08u8 && (0x00u8 | 0x08u8)
        & !0x08u8 == 0x00u8 && 0x00u8 & !0x08u8 == 0x00u8) by (bit_vector);
    assert(0x60u8 & 0x08u8 == 0 && (0x60u8 | 0x08u8) & 0x08u8 == 0x08u8 && (0x60u8 | 0x08u8)
        & !0x08u8 == 0x60u8 && 0x60u8 & !0x08u8 == 0x60u8) by (bit_vector);
    assert(0xC0u8 & 0x08u8 == 0 && (0xC0u8 | 0x08u8) & 0x08u8 == 0x08u8 && (0xC0u8 | 0x08u8)
        & !0x08u8 == 0xC0u8 && 0xC0u8 & !0x08u8 == 0xC0u8) by (bit_vector);
    assert(0xA0u8 & 0x08u8 == 0 && (0xA0u8 | 0x08u8) & 0x08u8 == 0x08u8 && (0xA0u8 | 0x08u8)
        & !0x08u8 == 0xA0u8 && 0xA0u8 & !0x08u8 == 0xA0u8) by (bit_vector);
}

/// Selecting an orientation: the memory-access-control command with its one
/// parameter.
pub open spec fn orientation_ops(rgb: bool, orientation: Orientation) -> Seq<Op> {
    command_ops(Instruction::MADCTL.spec_code(), seq![access_control(rgb, orientation)])
}

/// Opening a pixel stream into the latched window: the memory-write command,
/// then the selector raised for the data that follows.
pub open spec fn memory_write_ops() -> Seq<Op> {
    command_ops(Instruction::RAMWR.spec_code(), Seq::empty()) + begin_data_ops()
}

} // verus!
