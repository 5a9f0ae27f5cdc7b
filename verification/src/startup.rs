//! The power-on sequence: the hardware reset and the register program that
//! follows it.

use vstd::prelude::*;
use crate::command::Instruction;
use crate::transaction::command_ops;
use crate::wire::{Line, Op};

verus! {

/// How long each level of the reset line is held, in milliseconds.
pub const RESET_HOLD_MS: u8 = 10;

/// How long the panel is given to settle after the register program, in
/// milliseconds.
pub const SETTLE_MS: u8 = 200;

/// The number of entries in the register program.
pub const INIT_COMMANDS: usize = 50;

/// The reset pulse: the line high, low and high again, each level held for
/// [`RESET_HOLD_MS`].
pub open spec fn hard_reset_ops() -> Seq<Op> {
    seq![
        Op::SetHigh(Line::Reset),
        Op::DelayMs(RESET_HOLD_MS),
        Op::SetLow(Line::Reset),
        Op::DelayMs(RESET_HOLD_MS),
        Op::SetHigh(Line::Reset),
        Op::DelayMs(RESET_HOLD_MS),
    ]
}

/// The register program of the controller: each entry an opcode and its
/// parameter bytes, in the order in which they must be issued.
pub open spec fn init_table() -> Seq<(u8, Seq<u8>)> {
    seq![
        (0xEFu8, Seq::<u8>::empty()),
        (0xEBu8, seq![0x14u8]),
        (0xFEu8, Seq::<u8>::empty()),
        (0xEFu8, Seq::<u8>::empty()),
        (0xEBu8, seq![0x14u8]),
        (0x84u8, seq![0x40u8]),
        (0x85u8, seq![0xFFu8]),
        (0x86u8, seq![0xFFu8]),
        (0x87u8, seq![0xFFu8]),
        (0x88u8, seq![0x0Au8]),
        (0x89u8, seq![0x21u8]),
        (0x8Au8, seq![0x00u8]),
        (0x8Bu8, seq![0x80u8]),
        (0x8Cu8, seq![0x01u8]),
        (0x8Du8, seq![0x01u8]),
        (0x8Eu8, seq![0xFFu8]),
        (0x8Fu8, seq![0xFFu8]),
        (0xB6u8, seq![0x00u8, 0x20u8]),
        (0x36u8, seq![0x98u8]),
        (0x3Au8, seq![0x05u8]),
        (0x90u8, seq![0x08u8, 0x08u8, 0x08u8, 0x08u8]),
        (0xBDu8, seq![0x06u8]),
        (0xBCu8, seq![0x00u8]),
        (0xFFu8, seq![0x60u8, 0x01u8, 0x04u8]),
        (0xC3u8, seq![0x13u8]),
        (0xC4u8, seq![0x13u8]),
        (0xC9u8, seq![0x22u8]),
        (0xBEu8, seq![0x11u8]),
        (0xE1u8, seq![0x10u8, 0x0Eu8]),
        (0xDFu8, seq![0x21u8, 0x0Cu8, 0x02u8]),
        (0xF0u8, seq![0x45u8, 0x09u8, 0x08u8, 0x08u8, 0x26u8, 0x2Au8]),
        (0xF1u8, seq![0x43u8, 0x70u8, 0x72u8, 0x36u8, 0x37u8, 0x6Fu8]),
        (0xF2u8, seq![0x45u8, 0x09u8, 0x08u8, 0x08u8, 0x26u8, 0x2Au8]),
        (0xF3u8, seq![0x43u8, 0x70u8, 0x72u8, 0x36u8, 0x37u8, 0x6Fu8]),
        (0xEDu8, seq![0x1Bu8, 0x0Bu8]),
        (0xAEu8, seq![0x77u8]),
        (0xCDu8, seq![0x63u8]),
        (0x70u8, seq![0x07u8, 0x07u8, 0x04u8, 0x0Eu8, 0x0Fu8, 0x09u8, 0x07u8, 0x08u8, 0x03u8]),
        (0xE8u8, seq![0x34u8]),
        (
            0x62u8,
            seq![
                0x18u8, 0x0Du8, 0x71u8, 0xEDu8, 0x70u8, 0x70u8, 0x18u8, 0x0Fu8,
                0x71u8, 0xEFu8, 0x70u8, 0x70u8,
            ],
        ),
        (
            0x63u8,
            seq![
                0x18u8, 0x11u8, 0x71u8, 0xF1u8, 0x70u8, 0x70u8, 0x18u8, 0x13u8,
                0x71u8, 0xF3u8, 0x70u8, 0x70u8,
            ],
        ),
        (0x64u8, seq![0x28u8, 0x29u8, 0xF1u8, 0x01u8, 0xF1u8, 0x00u8, 0x07u8]),
        (
            0x66u8,
            seq![
                0x3Cu8, 0x00u8, 0xCDu8, 0x67u8, 0x45u8, 0x45u8, 0x10u8, 0x00u8,
                0x00u8, 0x00u8,
            ],
        ),
        (
            0x67u8,
            seq![
                0x00u8, 0x3Cu8, 0x00u8, 0x00u8, 0x00u8, 0x01u8, 0x54u8, 0x10u8,
                0x32u8, 0x98u8,
            ],
        ),
        (0x74u8, seq![0x10u8, 0x85u8, 0x80u8, 0x00u8, 0x00u8, 0x4Eu8, 0x00u8]),
        (0x98u8, seq![0x3Eu8, 0x07u8]),
        (0x35u8, Seq::<u8>::empty()),
        (0x21u8, Seq::<u8>::empty()),
        (0x11u8, Seq::<u8>::empty()),
        (0x29u8, Seq::<u8>::empty()),
    ]
}

/// The command transactions of `commands`, one after the other.
pub open spec fn commands_ops(commands: Seq<(u8, Seq<u8>)>) -> Seq<Op>
    decreases commands.len(),
{
    if commands.len() == 0 {
        Seq::empty()
    } else {
        commands_ops(commands.drop_last()) + command_ops(commands.last().0, commands.last().1)
    }
}

/// Bringing the controller up: the reset pulse, the whole register program,
/// then the settling delay.
pub open spec fn init_ops() -> Seq<Op> {
    hard_reset_ops() + commands_ops(init_table()) + seq![Op::DelayMs(SETTLE_MS)]
}

/// Bringing the controller up always begins with the reset pulse, goes
/// through the register program in its fixed order, and ends with sleep-out,
/// then display-on, then the settling delay.
pub proof fn lemma_init_order()
    ensures
        init_table().len() == INIT_COMMANDS,
        init_ops().take(hard_reset_ops().len() as int) == hard_reset_ops(),
        init_ops() == hard_reset_ops() + commands_ops(init_table().take(INIT_COMMANDS - 2))
            + command_ops(Instruction::SLPOUT.spec_code(), Seq::empty()) + command_ops(
            Instruction::DISPON.spec_code(),
            Seq::empty(),
        ) + seq![Op::DelayMs(SETTLE_MS)],
{
    let table = init_table();
    assert(table.drop_last() =~= table.take(INIT_COMMANDS - 1));
    assert(table.take(INIT_COMMANDS - 1).drop_last() =~= table.take(INIT_COMMANDS - 2));
    assert(table.last() == (Instruction::DISPON.spec_code(), Seq::<u8>::empty()));
    assert(table.take(INIT_COMMANDS - 1).last() == (
        Instruction::SLPOUT.spec_code(),
        Seq::<u8>::empty(),
    ));
    assert(commands_ops(table) == commands_ops(table.take(INIT_COMMANDS - 1)) + command_ops(
        Instruction::DISPON.spec_code(),
        Seq::empty(),
    ));
    assert(commands_ops(table.take(INIT_COMMANDS - 1)) == commands_ops(
        table.take(INIT_COMMANDS - 2),
    ) + command_ops(Instruction::SLPOUT.spec_code(), Seq::empty()));
    assert(init_ops().take(hard_reset_ops().len() as int) =~= hard_reset_ops());
    assert(init_ops() =~= hard_reset_ops() + commands_ops(table.take(INIT_COMMANDS - 2))
        + command_ops(Instruction::SLPOUT.spec_code(), Seq::empty()) + command_ops(
        Instruction::DISPON.spec_code(),
        Seq::empty(),
    ) + seq![Op::DelayMs(SETTLE_MS)]);
}

/// The entry of the register program at `index`.
pub fn init_command(index: usize) -> (entry: (u8, Vec<u8>))
    requires
        index < INIT_COMMANDS,
    ensures
        entry.0 == init_table()[index as int].0,
        entry.1@ == init_table()[index as int].1,
{
    match index {
        0 => (0xEF, Vec::new()),
        1 => (0xEB, vec![0x14]),
        2 => (0xFE, Vec::new()),
        3 => (0xEF, Vec::new()),
        4 => (0xEB, vec![0x14]),
        5 => (0x84, vec![0x40]),
        6 => (0x85, vec![0xFF]),
        7 => (0x86, vec![0xFF]),
        8 => (0x87, vec![0xFF]),
        9 => (0x88, vec![0x0A]),
        10 => (0x89, vec![0x21]),
        11 => (0x8A, vec![0x00]),
        12 => (0x8B, vec![0x80]),
        13 => (0x8C, vec![0x01]),
        14 => (0x8D, vec![0x01]),
        15 => (0x8E, vec![0xFF]),
        16 => (0x8F, vec![0xFF]),
        17 => (0xB6, vec![0x00, 0x20]),
        18 => (0x36, vec![0x98]),
        19 => (0x3A, vec![0x05]),
        20 => (0x90, vec![0x08, 0x08, 0x08, 0x08]),
        21 => (0xBD, vec![0x06]),
        22 => (0xBC, vec![0x00]),
        23 => (0xFF, vec![0x60, 0x01, 0x04]),
        24 => (0xC3, vec![0x13]),
        25 => (0xC4, vec![0x13]),
        26 => (0xC9, vec![0x22]),
        27 => (0xBE, vec![0x11]),
        28 => (0xE1, vec![0x10, 0x0E]),
        29 => (0xDF, vec![0x21, 0x0C, 0x02]),
        30 => (0xF0, vec![0x45, 0x09, 0x08, 0x08, 0x26, 0x2A]),
        31 => (0xF1, vec![0x43, 0x70, 0x72, 0x36, 0x37, 0x6F]),
        32 => (0xF2, vec![0x45, 0x09, 0x08, 0x08, 0x26, 0x2A]),
        33 => (0xF3, vec![0x43, 0x70, 0x72, 0x36, 0x37, 0x6F]),
        34 => (0xED, vec![0x1B, 0x0B]),
        35 => (0xAE, vec![0x77]),
        36 => (0xCD, vec![0x63]),
        37 => (0x70, vec![0x07, 0x07, 0x04, 0x0E, 0x0F, 0x09, 0x07, 0x08, 0x03]),
        38 => (0xE8, vec![0x34]),
        39 => (0x62, vec![0x18, 0x0D, 0x71, 0xED, 0x70, 0x70, 0x18, 0x0F, 0x71, 0xEF, 0x70, 0x70]),
        40 => (0x63, vec![0x18, 0x11, 0x71, 0xF1, 0x70, 0x70, 0x18, 0x13, 0x71, 0xF3, 0x70, 0x70]),
        41 => (0x64, vec![0x28, 0x29, 0xF1, 0x01, 0xF1, 0x00, 0x07]),
        42 => (0x66, vec![0x3C, 0x00, 0xCD, 0x67, 0x45, 0x45, 0x10, 0x00, 0x00, 0x00]),
        43 => (0x67, vec![0x00, 0x3C, 0x00, 0x00, 0x00, 0x01, 0x54, 0x10, 0x32, 0x98]),
        44 => (0x74, vec![0x10, 0x85, 0x80, 0x00, 0x00, 0x4E, 0x00]),
        45 => (0x98, vec![0x3E, 0x07]),
        46 => (0x35, Vec::new()),
        47 => (0x21, Vec::new()),
        48 => (0x11, Vec::new()),
        _ => (0x29, Vec::new()),
    }
}

} // verus!
