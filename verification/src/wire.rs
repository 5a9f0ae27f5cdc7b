//! The steps a program is made of, and their mathematical model.

use vstd::prelude::*;
use vstd::slice::slice_to_vec;

verus! {

/// One of the three digital output lines between the host and the controller.
#[derive(Clone, Copy, Debug, PartialEq, Eq)]
pub enum Line {
    /// Command/data selector: low announces an opcode, high announces data.
    Select,
    /// Chip select: low while a transaction is in flight.
    ChipEnable,
    /// Hardware reset.
    Reset,
}

/// One primitive action on the hardware.
#[derive(Debug, PartialEq, Eq)]
pub enum Step {
    /// Drive a line high.
    SetHigh(Line),
    /// Drive a line low.
    SetLow(Line),
    /// Transmit a run of bytes over the serial bus in one call.
    Write(Vec<u8>),
    /// Block for at least this many milliseconds.
    DelayMs(u8),
}

/// The model of a [`Step`]: the same action with its bytes as a sequence.
pub enum Op {
    SetHigh(Line),
    SetLow(Line),
    Write(Seq<u8>),
    DelayMs(u8),
}

impl View for Step {
    type V = Op;

    open spec fn view(&self) -> Op {
        match *self {
            Step::SetHigh(line) => Op::SetHigh(line),
            Step::SetLow(line) => Op::SetLow(line),
            Step::Write(bytes) => Op::Write(bytes@),
            Step::DelayMs(ms) => Op::DelayMs(ms),
        }
    }
}

impl Clone for Step {
    fn clone(&self) -> (copy: Step)
        ensures
            copy@ == self@,
    {
        match self {
            Step::SetHigh(line) => Step::SetHigh(*line),
            Step::SetLow(line) => Step::SetLow(*line),
            Step::Write(bytes) => Step::Write(slice_to_vec(bytes.as_slice())),
            Step::DelayMs(ms) => Step::DelayMs(*ms),
        }
    }
}

/// The model of a program: the model of each of its steps, in order.
pub open spec fn ops(program: Seq<Step>) -> Seq<Op> {
    Seq::new(program.len(), |i: int| program[i]@)
}

/// The bytes a single step puts on the bus: those of a write, none otherwise.
pub open spec fn op_bytes(op: Op) -> Seq<u8> {
    match op {
        Op::Write(bytes) => bytes,
        _ => Seq::empty(),
    }
}

/// Every byte a program puts on the bus, in order, whatever the framing.
pub open spec fn transmitted(program: Seq<Op>) -> Seq<u8>
    decreases program.len(),
{
    if program.len() == 0 {
        Seq::empty()
    } else {
        transmitted(program.drop_last()) + op_bytes(program.last())
    }
}

/// How many bus writes a program makes.
pub open spec fn writes(program: Seq<Op>) -> nat
    decreases program.len(),
{
    if program.len() == 0 {
        0
    } else {
        writes(program.drop_last()) + (if program.last() is Write { 1nat } else { 0nat })
    }
}

/// Adding a step at the end adds its bytes at the end, and one write if it is
/// a write.
pub proof fn lemma_push(program: Seq<Op>, op: Op)
    ensures
        transmitted(program.push(op)) == transmitted(program) + op_bytes(op),
        writes(program.push(op)) == writes(program) + (if op is Write { 1nat } else { 0nat }),
{
    assert(program.push(op).drop_last() =~= program);
}

/// The bytes of two programs run back to back are the bytes of the first, then
/// those of the second; their writes add up.
pub proof fn lemma_concat(first: Seq<Op>, second: Seq<Op>)
    ensures
        transmitted(first + second) == transmitted(first) + transmitted(second),
        writes(first + second) == writes(first) + writes(second),
    decreases second.len(),
{
    if second.len() == 0 {
        assert(first + second =~= first);
        assert(transmitted(first) + transmitted(second) =~= transmitted(first));
    } else {
        lemma_concat(first, second.drop_last());
        assert((first + second).drop_last() =~= first + second.drop_last());
        assert(transmitted(first + second) =~= transmitted(first) + transmitted(second));
    }
}

/// Appends `more` to `program`.
pub(crate) fn extend(program: &mut Vec<Step>, more: Vec<Step>)
    ensures
        ops(final(program)@) == ops(old(program)@) + ops(more@),
{
    let ghost added = more@;
    let mut more = more;
    program.append(&mut more);
    assert(ops(program@) =~= ops(old(program)@) + ops(added));
}

} // verus!
