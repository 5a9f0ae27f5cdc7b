//! Streaming a byte buffer to the controller in bounded data transactions.

use vstd::prelude::*;
use vstd::slice::slice_subrange;
use crate::transaction::{data_ops, write_data};
use crate::transaction::lemma_data_transmits;
use crate::wire::{extend, lemma_concat, ops, transmitted, Op, Step};

verus! {

/// The most bytes one data transaction of a streamed buffer carries.
pub const CHUNK_BYTES: usize = 32;

/// `bytes` cut into runs of [`CHUNK_BYTES`], the last one shorter where the
/// length leaves a remainder, each run a data transaction. No bytes, no
/// transaction.
pub open spec fn chunked_ops(bytes: Seq<u8>) -> Seq<Op>
    decreases bytes.len(),
{
    if bytes.len() == 0 {
        Seq::empty()
    } else if bytes.len() <= CHUNK_BYTES {
        data_ops(bytes)
    } else {
        data_ops(bytes.take(CHUNK_BYTES as int)) + chunked_ops(bytes.skip(CHUNK_BYTES as int))
    }
}

/// Where the pixel at column `x` of row `y` starts in a buffer of two bytes a
/// pixel whose rows are `stride` pixels long.
pub open spec fn pixel_index(stride: int, x: int, y: int) -> int {
    (y * stride + x) * 2
}

/// The stretch of `width` pixels that starts at column `x` of row `y`.
pub open spec fn row_bytes(buffer: Seq<u8>, stride: int, x: int, y: int, width: int) -> Seq<u8> {
    buffer.subrange(pixel_index(stride, x, y), pixel_index(stride, x, y) + width * 2)
}

/// `rows` consecutive rows of a region, from row `y` down, each streamed in
/// chunks of its own.
pub open spec fn rows_ops(
    buffer: Seq<u8>,
    stride: int,
    x: int,
    y: int,
    width: int,
    rows: int,
) -> Seq<Op>
    decreases rows,
{
    if rows <= 0 {
        Seq::empty()
    } else {
        rows_ops(buffer, stride, x, y, width, rows - 1) + chunked_ops(
            row_bytes(buffer, stride, x, y + rows - 1, width),
        )
    }
}

/// Chunking puts exactly the bytes of the buffer on the bus, in order.
pub proof fn lemma_chunks_transmit(bytes: Seq<u8>)
    ensures
        transmitted(chunked_ops(bytes)) == bytes,
    decreases bytes.len(),
{
    if bytes.len() == 0 {
        assert(bytes =~= Seq::<u8>::empty());
    } else if bytes.len() <= CHUNK_BYTES {
        lemma_data_transmits(bytes);
    } else {
        let chunk = bytes.take(CHUNK_BYTES as int);
        let rest = bytes.skip(CHUNK_BYTES as int);
        lemma_data_transmits(chunk);
        lemma_chunks_transmit(rest);
        lemma_concat(data_ops(chunk), chunked_ops(rest));
        assert(chunk + rest =~= bytes);
    }
}

/// Rows that span the whole width of the buffer, taken from its top, put the
/// start of the buffer on the bus: `rows` times `width` pixels of two bytes.
pub proof fn lemma_full_rows_transmit(buffer: Seq<u8>, width: int, rows: int)
    requires
        0 <= width,
        0 <= rows,
        rows * width * 2 <= buffer.len(),
    ensures
        transmitted(rows_ops(buffer, width, 0, 0, width, rows)) == buffer.take(rows * width * 2),
    decreases rows,
{
    if rows == 0 {
        assert(rows * width * 2 == 0) by (nonlinear_arith)
            requires
                rows == 0,
        ;
        assert(buffer.take(0) =~= Seq::<u8>::empty());
    } else {
        let start = pixel_index(width, 0, rows - 1);
        assert(start == (rows - 1) * width * 2 && start + width * 2 == rows * width * 2 && 0 <= start)
            by (nonlinear_arith)
            requires
                start == ((rows - 1) * width + 0) * 2,
                rows >= 1,
                width >= 0,
        ;
        lemma_full_rows_transmit(buffer, width, rows - 1);
        let row = row_bytes(buffer, width, 0, rows - 1, width);
        lemma_chunks_transmit(row);
        lemma_concat(rows_ops(buffer, width, 0, 0, width, rows - 1), chunked_ops(row));
        assert(rows_ops(buffer, width, 0, 0, width, rows) == rows_ops(
            buffer,
            width,
            0,
            0,
            width,
            rows - 1,
        ) + chunked_ops(row));
        assert(buffer.take(start) + row =~= buffer.take(rows * width * 2));
    }
}

/// Streams `data` in data transactions of at most [`CHUNK_BYTES`] bytes.
pub fn write_chunks(data: &[u8]) -> (program: Vec<Step>)
    ensures
        ops(program@) == chunked_ops(data@),
{
    let mut program: Vec<Step> = Vec::new();
    let mut start: usize = 0;
    assert(data@.skip(0) =~= data@);
    assert(ops(program@) + chunked_ops(data@) =~= chunked_ops(data@));
    while start < data.len()
        invariant
            start <= data.len(),
            ops(program@) + chunked_ops(data@.skip(start as int)) == chunked_ops(data@),
        decreases data.len() - start,
    {
        let end: usize = if data.len() - start > CHUNK_BYTES {
            start + CHUNK_BYTES
        } else {
            data.len()
        };
        extend(&mut program, write_data(slice_subrange(data, start, end)));
        proof {
            let rest = data@.skip(start as int);
            if rest.len() <= CHUNK_BYTES {
                assert(data@.subrange(start as int, end as int) =~= rest);
                assert(chunked_ops(data@.skip(end as int)) =~= Seq::<Op>::empty());
            } else {
                assert(data@.subrange(start as int, end as int) =~= rest.take(CHUNK_BYTES as int));
                assert(data@.skip(end as int) =~= rest.skip(CHUNK_BYTES as int));
            }
        }
        start = end;
    }
    assert(chunked_ops(data@.skip(start as int)) =~= Seq::<Op>::empty());
    program
}

} // verus!
