//! The transaction primitive: how opcodes and data runs are framed by the
//! chip-select and command/data lines.

use vstd::prelude::*;
use vstd::slice::{slice_subrange, slice_to_vec};
use crate::wire::{
    extend, lemma_concat, lemma_push, ops, transmitted, writes, Line, Op, Step,
};

verus! {

/// Switching the selector to data, with chip select left as it is.
pub open spec fn begin_data_ops() -> Seq<Op> {
    seq![Op::SetHigh(Line::Select)]
}

/// A standalone data transaction carrying `bytes` in one bus write.
pub open spec fn data_ops(bytes: Seq<u8>) -> Seq<Op> {
    seq![
        Op::SetHigh(Line::ChipEnable),
        Op::SetHigh(Line::Select),
        Op::SetLow(Line::ChipEnable),
        Op::Write(bytes),
        Op::SetHigh(Line::ChipEnable),
    ]
}

/// A command transaction: the opcode under a low selector, then, only when
/// there are parameters, the selector raised and the parameters as a data
/// transaction, and chip select released at the end.
pub open spec fn command_ops(opcode: u8, params: Seq<u8>) -> Seq<Op> {
    seq![
        Op::SetHigh(Line::ChipEnable),
        Op::SetLow(Line::Select),
        Op::SetLow(Line::ChipEnable),
        Op::Write(seq![opcode]),
    ] + (if params.len() > 0 {
        begin_data_ops() + data_ops(params)
    } else {
        Seq::empty()
    }) + seq![Op::SetHigh(Line::ChipEnable)]
}

/// The two bytes of a 16-bit value, most significant first.
pub open spec fn be_bytes(value: u16) -> Seq<u8> {
    seq![(value / 256) as u8, (value % 256) as u8]
}

/// A data transaction carrying one 16-bit value.
pub open spec fn word_ops(value: u16) -> Seq<Op> {
    data_ops(be_bytes(value))
}

/// The bytes of a sequence of 16-bit values, each most significant byte first.
pub open spec fn words_bytes(words: Seq<u16>) -> Seq<u8> {
    Seq::new(
        2 * words.len(),
        |i: int| if i % 2 == 0 { (words[i / 2] / 256) as u8 } else { (words[i / 2] % 256) as u8 },
    )
}

/// One data transaction per value.
pub open spec fn words_ops(words: Seq<u16>) -> Seq<Op>
    decreases words.len(),
{
    if words.len() == 0 {
        Seq::empty()
    } else {
        words_ops(words.drop_last()) + word_ops(words.last())
    }
}

/// The size of the buffer that packs 16-bit values into data transactions, in
/// bytes.
pub const BUFFER_BYTES: usize = 32;

/// How many 16-bit values one buffered data transaction carries at most.
pub open spec fn words_per_flush() -> nat {
    16
}

/// The values packed sixteen to a data transaction, and one more transaction
/// for those left over; that last one is sent even when nothing is left.
pub open spec fn words_buffered_ops(words: Seq<u16>) -> Seq<Op>
    decreases words.len(),
{
    if words.len() >= words_per_flush() {
        data_ops(words_bytes(words.take(words_per_flush() as int))) + words_buffered_ops(
            words.skip(words_per_flush() as int),
        )
    } else {
        data_ops(words_bytes(words))
    }
}

/// Raising the selector puts nothing on the bus.
pub proof fn lemma_begin_data_transmits()
    ensures
        transmitted(begin_data_ops()) == Seq::<u8>::empty(),
        writes(begin_data_ops()) == 0,
{
    lemma_push(Seq::empty(), Op::SetHigh(Line::Select));
    assert(begin_data_ops() =~= Seq::<Op>::empty().push(Op::SetHigh(Line::Select)));
}

/// A data transaction puts exactly its bytes on the bus, in one write.
pub proof fn lemma_data_transmits(bytes: Seq<u8>)
    ensures
        transmitted(data_ops(bytes)) == bytes,
        writes(data_ops(bytes)) == 1,
{
    let s0 = Seq::<Op>::empty();
    let s1 = s0.push(Op::SetHigh(Line::ChipEnable));
    let s2 = s1.push(Op::SetHigh(Line::Select));
    let s3 = s2.push(Op::SetLow(Line::ChipEnable));
    let s4 = s3.push(Op::Write(bytes));
    let s5 = s4.push(Op::SetHigh(Line::ChipEnable));
    lemma_push(s0, Op::SetHigh(Line::ChipEnable));
    lemma_push(s1, Op::SetHigh(Line::Select));
    lemma_push(s2, Op::SetLow(Line::ChipEnable));
    lemma_push(s3, Op::Write(bytes));
    lemma_push(s4, Op::SetHigh(Line::ChipEnable));
    assert(data_ops(bytes) =~= s5);
    assert(transmitted(s5) =~= bytes);
}

/// A command transaction puts the opcode on the bus, then its parameters: in
/// one write when there are none, in two when there are some.
pub proof fn lemma_command_transmits(opcode: u8, params: Seq<u8>)
    ensures
        transmitted(command_ops(opcode, params)) == seq![opcode] + params,
        writes(command_ops(opcode, params)) == (if params.len() > 0 { 2nat } else { 1nat }),
{
    let s0 = Seq::<Op>::empty();
    let s1 = s0.push(Op::SetHigh(Line::ChipEnable));
    let s2 = s1.push(Op::SetLow(Line::Select));
    let s3 = s2.push(Op::SetLow(Line::ChipEnable));
    let s4 = s3.push(Op::Write(seq![opcode]));
    lemma_push(s0, Op::SetHigh(Line::ChipEnable));
    lemma_push(s1, Op::SetLow(Line::Select));
    lemma_push(s2, Op::SetLow(Line::ChipEnable));
    lemma_push(s3, Op::Write(seq![opcode]));
    assert(transmitted(s4) =~= seq![opcode]);
    let body = if params.len() > 0 {
        begin_data_ops() + data_ops(params)
    } else {
        Seq::<Op>::empty()
    };
    if params.len() > 0 {
        lemma_begin_data_transmits();
        lemma_data_transmits(params);
        lemma_concat(begin_data_ops(), data_ops(params));
    }
    assert(transmitted(body) =~= params);
    lemma_concat(s4, body);
    lemma_push(s4 + body, Op::SetHigh(Line::ChipEnable));
    assert(command_ops(opcode, params) =~= (s4 + body).push(Op::SetHigh(Line::ChipEnable)));
    assert(transmitted(s4 + body) + Seq::<u8>::empty() =~= seq![opcode] + params);
}

/// One transaction per value puts the values' bytes on the bus in order, in
/// one write each.
pub proof fn lemma_words_transmit(words: Seq<u16>)
    ensures
        transmitted(words_ops(words)) == words_bytes(words),
        writes(words_ops(words)) == words.len(),
    decreases words.len(),
{
    if words.len() == 0 {
        assert(words_bytes(words) =~= Seq::<u8>::empty());
    } else {
        lemma_words_transmit(words.drop_last());
        lemma_data_transmits(be_bytes(words.last()));
        lemma_concat(words_ops(words.drop_last()), word_ops(words.last()));
        assert(words_bytes(words.drop_last()) + be_bytes(words.last()) =~= words_bytes(words));
    }
}

/// The buffered stream puts the values' bytes on the bus in order, in one
/// write for every full buffer and one more.
pub proof fn lemma_words_buffered_transmit(words: Seq<u16>)
    ensures
        transmitted(words_buffered_ops(words)) == words_bytes(words),
        writes(words_buffered_ops(words)) == words.len() / words_per_flush() + 1,
    decreases words.len(),
{
    if words.len() >= words_per_flush() {
        let full = words.take(words_per_flush() as int);
        let rest = words.skip(words_per_flush() as int);
        lemma_words_buffered_transmit(rest);
        lemma_data_transmits(words_bytes(full));
        lemma_concat(data_ops(words_bytes(full)), words_buffered_ops(rest));
        assert(words_bytes(full) + words_bytes(rest) =~= words_bytes(words));
    } else {
        lemma_data_transmits(words_bytes(words));
    }
}

/// Buffering changes how the bytes are grouped into bus writes and nothing
/// else. For any values, the buffered stream carries the same bytes in the same
/// order as one transaction per value does. It makes one write for every
/// sixteen values and one more for the remainder, where the other makes one
/// write per value.
pub proof fn lemma_buffering_keeps_the_stream(words: Seq<u16>)
    ensures
        transmitted(words_buffered_ops(words)) == transmitted(words_ops(words)),
        writes(words_buffered_ops(words)) == words.len() / 16 + 1,
        writes(words_ops(words)) == words.len(),
{
    lemma_words_transmit(words);
    lemma_words_buffered_transmit(words);
}

/// Switches the selector line to data. Chip select is not touched, so the
/// transaction in flight stays open.
pub fn begin_data() -> (program: Vec<Step>)
    ensures
        ops(program@) == begin_data_ops(),
{
    let mut program: Vec<Step> = Vec::new();
    program.push(Step::SetHigh(Line::Select));
    assert(ops(program@) =~= begin_data_ops());
    program
}

/// Sends `data` as one standalone data transaction.
pub fn write_data(data: &[u8]) -> (program: Vec<Step>)
    ensures
        ops(program@) == data_ops(data@),
{
    let mut program: Vec<Step> = Vec::new();
    program.push(Step::SetHigh(Line::ChipEnable));
    program.push(Step::SetHigh(Line::Select));
    program.push(Step::SetLow(Line::ChipEnable));
    program.push(Step::Write(slice_to_vec(data)));
    program.push(Step::SetHigh(Line::ChipEnable));
    assert(ops(program@) =~= data_ops(data@));
    program
}

/// Sends `opcode` as a command, followed by `params` as its data when there
/// are any.
pub fn write_command(opcode: u8, params: &[u8]) -> (program: Vec<Step>)
    ensures
        ops(program@) == command_ops(opcode, params@),
{
    let mut program: Vec<Step> = Vec::new();
    program.push(Step::SetHigh(Line::ChipEnable));
    program.push(Step::SetLow(Line::Select));
    program.push(Step::SetLow(Line::ChipEnable));
    let announce: Vec<u8> = vec![opcode];
    assert(announce@ =~= seq![opcode]);
    program.push(Step::Write(announce));
    assert(ops(program@) =~= seq![
        Op::SetHigh(Line::ChipEnable),
        Op::SetLow(Line::Select),
        Op::SetLow(Line::ChipEnable),
        Op::Write(seq![opcode]),
    ]);
    if params.len() > 0 {
        extend(&mut program, begin_data());
        extend(&mut program, write_data(params));
    }
    let ghost framed = ops(program@);
    program.push(Step::SetHigh(Line::ChipEnable));
    assert(ops(program@) =~= framed + seq![Op::SetHigh(Line::ChipEnable)]);
    assert(ops(program@) =~= command_ops(opcode, params@));
    program
}

/// The high and the low byte of a 16-bit value.
pub fn split_word(value: u16) -> (bytes: (u8, u8))
    ensures
        bytes.0 == value / 256,
        bytes.1 == value % 256,
{
    assert(value >> 8 == value / 256 && value >> 8 <= 0xFF) by (bit_vector);
    assert(value & 0xFF == value % 256 && value & 0xFF <= 0xFF) by (bit_vector);
    ((value >> 8) as u8, (value & 0xFF) as u8)
}

/// Sends one 16-bit value, most significant byte first, as a data transaction.
pub fn write_word(value: u16) -> (program: Vec<Step>)
    ensures
        ops(program@) == word_ops(value),
{
    let (high, low) = split_word(value);
    let bytes: [u8; 2] = [high, low];
    assert(bytes@ =~= be_bytes(value));
    write_data(&bytes)
}

/// Sends `words` packed through a fixed buffer of [`BUFFER_BYTES`] bytes: a data
/// transaction each time the buffer is full, and one more for what is left in
/// it at the end.
pub fn write_words_buffered(words: &[u16]) -> (program: Vec<Step>)
    ensures
        ops(program@) == words_buffered_ops(words@),
{
    let mut program: Vec<Step> = Vec::new();
    let mut buffer: [u8; 32] = [0; 32];
    let mut index: usize = 0;
    let mut taken: usize = 0;
    let ghost mut flushed: int = 0;
    assert(words@.skip(0) =~= words@);
    assert(ops(program@) + words_buffered_ops(words@) =~= words_buffered_ops(words@));
    while taken < words.len()
        invariant
            taken <= words.len(),
            0 <= flushed <= taken,
            index == 2 * (taken - flushed),
            index < BUFFER_BYTES,
            buffer@.take(index as int) == words_bytes(words@.subrange(flushed, taken as int)),
            ops(program@) + words_buffered_ops(words@.skip(flushed)) == words_buffered_ops(words@),
        decreases words.len() - taken,
    {
        let word: u16 = words[taken];
        let (high, low) = split_word(word);
        let ghost before = buffer@;
        buffer[index] = high;
        buffer[index + 1] = low;
        index += 2;
        taken += 1;
        assert(buffer@.take(index as int) =~= words_bytes(words@.subrange(flushed, taken as int))) by {
            let packed = words_bytes(words@.subrange(flushed, taken as int));
            let earlier = words_bytes(words@.subrange(flushed, taken - 1));
            assert forall|i: int| 0 <= i < index implies buffer@[i] == packed[i] by {
                if i < index - 2 {
                    assert(buffer@[i] == before.take(index - 2)[i]);
                    assert(earlier[i] == packed[i]);
                }
            }
        }
        if index >= BUFFER_BYTES {
            extend(&mut program, write_data(&buffer));
            proof {
                let rest = words@.skip(flushed);
                assert(rest.take(words_per_flush() as int) =~= words@.subrange(flushed, taken as int));
                assert(rest.skip(words_per_flush() as int) =~= words@.skip(taken as int));
                assert(buffer@.take(index as int) =~= buffer@);
                flushed = taken as int;
            }
            index = 0;
            assert(buffer@.take(0) =~= words_bytes(words@.subrange(flushed, taken as int)));
        }
    }
    extend(&mut program, write_data(slice_subrange(buffer.as_slice(), 0, index)));
    proof {
        assert(words@.skip(flushed) =~= words@.subrange(flushed, taken as int));
        assert(buffer@.subrange(0, index as int) =~= buffer@.take(index as int));
    }
    program
}

} // verus!
