//! File metadata: how a file of a given size is split into blocks.

use vstd::prelude::*;
use vstd::arithmetic::div_mod::{
    lemma_fundamental_div_mod, lemma_fundamental_div_mod_converse, lemma_div_is_ordered,
};
use crate::protocol::UFT_DATA_SIZE;

verus! {

/// Number of blocks needed for a file of `size` bytes cut into blocks of
/// `data` bytes each: the ceiling of `size / data`.
pub open spec fn spec_total_blocks(size: int, data: int) -> int
    recommends
        data >= 1,
{
    (size + data - 1) / data
}

/// Payload size of the last block: the remainder of the division, or a full
/// block when the file size is an exact multiple of the block size.
pub open spec fn spec_final_block_size(size: int, data: int) -> int
    recommends
        data >= 1,
        size >= 1,
{
    if size % data == 0 {
        data
    } else {
        size % data
    }
}

/// For every positive file size and block size: the block count is at least
/// one, the final block holds exactly what the full blocks before it do not,
/// and its size lies between one byte and a full block.
pub proof fn lemma_block_math(size: int, data: int)
    requires
        size >= 1,
        data >= 1,
    ensures
        spec_total_blocks(size, data) >= 1,
        spec_final_block_size(size, data) == size - (spec_total_blocks(size, data) - 1) * data,
        1 <= spec_final_block_size(size, data) <= data,
{
    let q = size / data;
    let r = size % data;
    lemma_fundamental_div_mod(size, data);
    assert(size == q * data + r);
    if r == 0 {
        // size + data - 1 == q * data + (data - 1), with 0 <= data - 1 < data
        lemma_fundamental_div_mod_converse(size + data - 1, data, q, data - 1);
        assert(spec_total_blocks(size, data) == q);
        // size == q * data and size >= 1 force q >= 1
        if q < 1 {
            assert(q * data <= 0) by (nonlinear_arith)
                requires
                    q <= 0,
                    data >= 1,
            ;
        }
        assert(size - (q - 1) * data == data) by (nonlinear_arith)
            requires
                size == q * data,
        ;
    } else {
        // size + data - 1 == (q + 1) * data + (r - 1), with 0 <= r - 1 < data
        assert(size + data - 1 == (q + 1) * data + (r - 1)) by (nonlinear_arith)
            requires
                size == q * data + r,
        ;
        lemma_fundamental_div_mod_converse(size + data - 1, data, q + 1, r - 1);
        assert(spec_total_blocks(size, data) == q + 1);
        assert(size - ((q + 1) - 1) * data == r) by (nonlinear_arith)
            requires
                size == q * data + r,
        ;
        if q + 1 < 1 {
            lemma_div_is_ordered(0, size, data);
        }
    }
}

/// Metadata announced to the client before a transfer begins.
pub struct FileMetadata {
    /// The file name: at most 127 bytes, none of them zero.
    pub name: Vec<u8>,
    /// Total number of blocks in the transfer.
    pub total_blocks: u64,
    /// Payload size of the final block.
    pub final_block_size: u16,
}

impl FileMetadata {
    /// The metadata is consistent with some positive file size.
    pub open spec fn wf(self) -> bool {
        &&& crate::protocol::valid_name(self.name@)
        &&& self.total_blocks >= 1
        &&& 1 <= self.final_block_size <= UFT_DATA_SIZE
    }
}

/// The number of blocks a file of `size` bytes needs.
pub fn total_blocks(size: u64) -> (r: u64)
    requires
        size >= 1,
    ensures
        r == spec_total_blocks(size as int, UFT_DATA_SIZE as int),
        r >= 1,
{
    let d: u64 = UFT_DATA_SIZE as u64;
    let q = size / d;
    let rem = size % d;
    proof {
        lemma_block_math(size as int, d as int);
        lemma_fundamental_div_mod(size as int, d as int);
        if rem == 0 {
            lemma_fundamental_div_mod_converse(
                size as int + d as int - 1, d as int, q as int, d as int - 1);
        } else {
            assert(size as int + d as int - 1 == (q as int + 1) * (d as int) + (rem as int - 1))
                by (nonlinear_arith)
                requires
                    size as int == (q as int) * (d as int) + rem as int,
            ;
            lemma_fundamental_div_mod_converse(
                size as int + d as int - 1, d as int, q as int + 1, rem as int - 1);
            lemma_div_is_ordered(size as int, u64::MAX as int, d as int);
        }
    }
    if rem == 0 {
        q
    } else {
        q + 1
    }
}

/// The payload size of the final block of a file of `size` bytes.
pub fn final_block_size(size: u64) -> (r: u16)
    requires
        size >= 1,
    ensures
        r == spec_final_block_size(size as int, UFT_DATA_SIZE as int),
        1 <= r <= UFT_DATA_SIZE,
{
    let d: u64 = UFT_DATA_SIZE as u64;
    let rem = size % d;
    proof {
        lemma_block_math(size as int, d as int);
    }
    if rem == 0 {
        d as u16
    } else {
        rem as u16
    }
}

/// Computes the metadata for a file: block count and final block size, per
/// the ceiling division law.
pub fn compute_metadata(name: Vec<u8>, size: u64) -> (r: FileMetadata)
    requires
        size >= 1,
        crate::protocol::valid_name(name@),
    ensures
        r.name@ == name@,
        r.total_blocks == spec_total_blocks(size as int, UFT_DATA_SIZE as int),
        r.final_block_size == spec_final_block_size(size as int, UFT_DATA_SIZE as int),
        r.wf(),
        size as int == (r.total_blocks - 1) * (UFT_DATA_SIZE as int) + r.final_block_size,
{
    proof {
        lemma_block_math(size as int, UFT_DATA_SIZE as int);
    }
    let tb = total_blocks(size);
    let fbs = final_block_size(size);
    FileMetadata { name, total_blocks: tb, final_block_size: fbs }
}

} // verus!
