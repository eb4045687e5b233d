//! Files that survive a restart: what was sent to the executor last, and the
//! executor's last block.
use crate::wire::{get_le, le_bytes, le_value, put_le, put_uvarint, uvarint};
use vstd::prelude::*;

verus! {

/// Name of the file whose presence enables the executor.
pub open spec fn enable_file() -> Seq<char> {
    "enable_executor.toml"@
}

/// Whether the executor is enabled: the configuration directory holds the
/// file `enable_executor.toml`.
pub fn is_executor_enabled(config_files: &Vec<String>) -> (b: bool)
    ensures
        b <==> exists|i: int|
            0 <= i < config_files@.len() && (#[trigger] config_files@[i])@ == enable_file(),
{
    let mut i: usize = 0;
    while i < config_files.len()
        invariant
            i <= config_files@.len(),
            forall|j: int| 0 <= j < i ==> (#[trigger] config_files@[j])@ != enable_file(),
        decreases config_files.len() - i,
    {
        if crate::text::same_text(config_files[i].as_str(), "enable_executor.toml") {
            return true;
        }
        i += 1;
    }
    false
}

/// Appends a number in groups of seven bits, see [`uvarint`].
pub fn write_uvarint(buf: &mut Vec<u8>, value: u64)
    ensures
        final(buf)@ == old(buf)@ + uvarint(value as nat),
{
    put_uvarint(buf, value);
}

/// The record of what was sent last: the index in eight bytes and the commit
/// index in four, least significant byte first.
pub open spec fn last_sent_record(index: u64, commit_index: u32) -> Seq<u8> {
    le_bytes(index as nat, 8) + le_bytes(commit_index as nat, 4)
}

/// What a record of the last index says. Records of eight bytes hold no commit
/// index; those of any other length than eight or twelve are damaged.
pub open spec fn last_sent_of(bytes: Seq<u8>) -> Option<(u64, u32)> {
    if bytes.len() == 12 {
        Some(
            (
                le_value(bytes.subrange(0, 8)) as u64,
                le_value(bytes.subrange(8, 12)) as u32,
            ),
        )
    } else if bytes.len() == 8 {
        Some((le_value(bytes.subrange(0, 8)) as u64, 0))
    } else {
        None
    }
}

/// The bytes to keep after a block was sent.
pub fn persist_last_sent_index(index: u64, commit_index: u32) -> (r: Vec<u8>)
    ensures
        r@ == last_sent_record(index, commit_index),
{
    let mut r: Vec<u8> = Vec::new();
    put_le(&mut r, index, 8);
    assert(r@ =~= le_bytes(index as nat, 8));
    put_le(&mut r, commit_index as u64, 4);
    r
}

/// Reads what was sent last, see [`last_sent_of`].
pub fn load_persisted_last_index(bytes: &[u8]) -> (r: Option<(u64, u32)>)
    ensures
        r == last_sent_of(bytes@),
{
    if bytes.len() == 12 {
        let index: u64 = get_le(bytes, 0, 8);
        let commit: u64 = get_le(bytes, 8, 4);
        proof {
            crate::wire::lemma_width_bounds(bytes@.subrange(8, 12));
        }
        Some((index, commit as u32))
    } else if bytes.len() == 8 {
        Some((get_le(bytes, 0, 8), 0))
    } else {
        None
    }
}

/// The bytes to keep of the executor's last block number.
pub fn persist_last_block_number(block_number: u64) -> (r: Vec<u8>)
    ensures
        r@ == le_bytes(block_number as nat, 8),
{
    let mut r: Vec<u8> = Vec::new();
    put_le(&mut r, block_number, 8);
    assert(r@ =~= le_bytes(block_number as nat, 8));
    r
}

/// The executor's last block number from its file; none if the file is too
/// short.
pub fn read_last_block_number(bytes: &[u8]) -> (r: Option<u64>)
    ensures
        r == if bytes@.len() < 8 {
            None
        } else {
            Some(le_value(bytes@.subrange(0, 8)) as u64)
        },
{
    if bytes.len() < 8 {
        None
    } else {
        Some(get_le(bytes, 0, 8))
    }
}

/// What was kept of the last index is read back; so is a record without
/// commit index, with commit index 0.
pub proof fn law_last_sent_roundtrip(index: u64, commit_index: u32)
    ensures
        last_sent_of(last_sent_record(index, commit_index)) == Some((index, commit_index)),
        last_sent_of(le_bytes(index as nat, 8)) == Some((index, 0u32)),
{
    crate::wire::lemma_u64_roundtrip(index);
    crate::wire::lemma_u32_roundtrip(commit_index);
    crate::wire::lemma_le_len(commit_index as nat, 4);
    let r = last_sent_record(index, commit_index);
    assert(r.subrange(0, 8) =~= le_bytes(index as nat, 8));
    assert(r.subrange(8, 12) =~= le_bytes(commit_index as nat, 4));
    let s = le_bytes(index as nat, 8);
    assert(s.subrange(0, 8) =~= s);
}

/// What was kept of the last block number is read back.
pub proof fn law_last_block_roundtrip(block_number: u64)
    ensures
        le_bytes(block_number as nat, 8).len() == 8,
        le_value(le_bytes(block_number as nat, 8).subrange(0, 8)) == block_number,
{
    crate::wire::lemma_u64_roundtrip(block_number);
    let s = le_bytes(block_number as nat, 8);
    assert(s.subrange(0, 8) =~= s);
}

/// A record of the last index has twelve bytes: the index in the first eight, and
/// the commit index in the last four.
pub proof fn law_last_sent_layout(index: u64, commit_index: u32, damaged: Seq<u8>)
    ensures
        last_sent_record(index, commit_index).len() == 12,
        last_sent_record(index, commit_index).subrange(0, 8) == le_bytes(index as nat, 8),
        last_sent_record(index, commit_index).subrange(8, 12) == le_bytes(commit_index as nat, 4),
        damaged.len() != 8 && damaged.len() != 12 ==> last_sent_of(damaged) is None,
{
    crate::wire::lemma_le_len(index as nat, 8);
    crate::wire::lemma_le_len(commit_index as nat, 4);
    let r = last_sent_record(index, commit_index);
    assert(r.subrange(0, 8) =~= le_bytes(index as nat, 8));
    assert(r.subrange(8, 12) =~= le_bytes(commit_index as nat, 4));
}

} // verus!
