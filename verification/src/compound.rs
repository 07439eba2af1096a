//! Compound files: the container of password-protected and of older workbooks.
//!
//! Such a file is cut into sectors of 512 bytes, behind a header of the same
//! size. A table holds, for each sector, the one that follows it. What is told
//! here is whether the sectors of the directory, and those of the small streams,
//! can be followed to their end.

use vstd::prelude::*;

verus! {

/// The entry of a sector that no other follows.
pub const END_OF_CHAIN: u32 = 0xffff_fffe;

/// From here on an entry of the header's list is no sector of the table.
pub const NO_TABLE_SECTOR: u32 = 0xffff_fffc;

/// From here on the header names no further list of sectors of the table.
pub const NO_FURTHER_LIST: u32 = 0xffff_fffa;

/// The entries of the list in the header.
pub const HEADER_ENTRIES: usize = 109;

/// The most sectors that the table of the small streams can have.
pub const MAX_SMALL_TABLE: u32 = 0x3f_ffff;

/// Whether a file begins like a compound file.
pub open spec fn ole_like(bytes: Seq<u8>) -> bool {
    &&& bytes.len() >= 8
    &&& bytes[0] == 0xd0 && bytes[1] == 0xcf && bytes[2] == 0x11 && bytes[3] == 0xe0
    &&& bytes[4] == 0xa1 && bytes[5] == 0xb1 && bytes[6] == 0x1a && bytes[7] == 0xe1
}

/// The number of two bytes at a place, the lower byte first.
pub open spec fn half_at(bytes: Seq<u8>, at: int) -> int {
    bytes[at] + 0x100 * bytes[at + 1]
}

/// The number of four bytes at a place, the lowest byte first.
pub open spec fn word_at(bytes: Seq<u8>, at: int) -> u32 {
    (bytes[at] + 0x100 * bytes[at + 1] + 0x1_0000 * bytes[at + 2] + 0x100_0000 * bytes[at + 3]) as u32
}

/// Where a sector begins.
pub open spec fn sector_start(id: u32) -> int {
    (id + 1) * 512
}

/// Whether a sector lies in the file with all of its bytes.
pub open spec fn in_file(bytes: Seq<u8>, id: u32) -> bool {
    sector_start(id) + 512 <= bytes.len()
}

/// The sectors of the table among the first `n` entries of the header's list.
pub open spec fn table_sectors(bytes: Seq<u8>, n: nat) -> Seq<u32>
    decreases n,
{
    if n == 0 {
        Seq::empty()
    } else {
        let before = table_sectors(bytes, (n - 1) as nat);
        let id = word_at(bytes, 76 + 4 * (n - 1));
        if id < NO_TABLE_SECTOR {
            before.push(id)
        } else {
            before
        }
    }
}

/// The sector that follows one; each sector of the table has 128 entries.
pub open spec fn next_sector(bytes: Seq<u8>, table: Seq<u32>, id: u32) -> u32 {
    word_at(bytes, sector_start(table[id as int / 128]) + 4 * (id as int % 128))
}

/// Whether the sectors from one on come to an end in so many steps, and all lie
/// in the file and in the table.
pub open spec fn chain_ends(bytes: Seq<u8>, table: Seq<u32>, id: u32, steps: nat) -> bool
    decreases steps,
{
    id == END_OF_CHAIN || {
        &&& steps > 0
        &&& in_file(bytes, id)
        &&& id < 128 * table.len()
        &&& chain_ends(bytes, table, next_sector(bytes, table, id), (steps - 1) as nat)
    }
}

/// Whether all sectors of the table lie in the file.
pub open spec fn table_in_file(bytes: Seq<u8>, table: Seq<u32>) -> bool {
    forall|i: int| 0 <= i < table.len() ==> in_file(bytes, #[trigger] table[i])
}

/// Whether the sectors of a compound file can be followed: those of the
/// directory, and, where there are small streams, those that hold them and
/// those of their table. The file is one of small sectors, and its table is
/// listed in its header alone.
pub open spec fn ole_sound(bytes: Seq<u8>) -> bool {
    let table = table_sectors(bytes, HEADER_ENTRIES as nat);
    let steps = 128 * table.len();
    let directory = word_at(bytes, 48);
    &&& bytes.len() >= 512
    &&& half_at(bytes, 30) == 9
    &&& word_at(bytes, 68) >= NO_FURTHER_LIST
    &&& word_at(bytes, 64) <= MAX_SMALL_TABLE
    &&& table_in_file(bytes, table)
    &&& chain_ends(bytes, table, directory, steps)
    &&& word_at(bytes, 64) > 0 && directory != END_OF_CHAIN ==> {
        &&& chain_ends(bytes, table, word_at(bytes, sector_start(directory) + 116), steps)
        &&& chain_ends(bytes, table, word_at(bytes, 60), steps)
    }
}

/// Whether a file begins like a compound file.
pub fn is_ole_like(bytes: &Vec<u8>) -> (b: bool)
    ensures
        b == ole_like(bytes@),
{
    bytes.len() >= 8 && bytes[0] == 0xd0 && bytes[1] == 0xcf && bytes[2] == 0x11 && bytes[3] == 0xe0 && bytes[4]
        == 0xa1 && bytes[5] == 0xb1 && bytes[6] == 0x1a && bytes[7] == 0xe1
}

fn word(bytes: &Vec<u8>, at: usize) -> (n: u32)
    requires
        at + 4 <= bytes.len(),
    ensures
        n == word_at(bytes@, at as int),
{
    bytes[at] as u32 + 0x100 * bytes[at + 1] as u32 + 0x1_0000 * bytes[at + 2] as u32 + 0x100_0000 * bytes[at
        + 3] as u32
}

fn is_in_file(bytes: &Vec<u8>, id: u32) -> (b: bool)
    ensures
        b == in_file(bytes@, id),
{
    (id as u64 + 2) * 512 <= bytes.len() as u64
}

fn get_table(bytes: &Vec<u8>) -> (table: Vec<u32>)
    requires
        bytes@.len() >= 512,
    ensures
        table@ == table_sectors(bytes@, HEADER_ENTRIES as nat),
{
    let mut table: Vec<u32> = Vec::new();
    let mut i: usize = 0;
    while i < HEADER_ENTRIES
        invariant
            i <= HEADER_ENTRIES,
            bytes@.len() >= 512,
            table@ == table_sectors(bytes@, i as nat),
        decreases HEADER_ENTRIES - i,
    {
        let id: u32 = word(bytes, 76 + 4 * i);
        if id < NO_TABLE_SECTOR {
            table.push(id);
        }
        i = i + 1;
    }
    table
}

proof fn lemma_table_is_short(bytes: Seq<u8>, n: nat)
    ensures
        table_sectors(bytes, n).len() <= n,
    decreases n,
{
    if n > 0 {
        lemma_table_is_short(bytes, (n - 1) as nat);
    }
}

fn is_table_in_file(bytes: &Vec<u8>, table: &Vec<u32>) -> (b: bool)
    ensures
        b == table_in_file(bytes@, table@),
{
    let mut i: usize = 0;
    while i < table.len()
        invariant
            i <= table@.len(),
            forall|k: int| 0 <= k < i ==> in_file(bytes@, #[trigger] table@[k]),
        decreases table@.len() - i,
    {
        if !is_in_file(bytes, table[i]) {
            return false;
        }
        i = i + 1;
    }
    true
}

fn does_chain_end(bytes: &Vec<u8>, table: &Vec<u32>, start: u32) -> (b: bool)
    requires
        table_in_file(bytes@, table@),
        table@.len() <= HEADER_ENTRIES,
    ensures
        b == chain_ends(bytes@, table@, start, 128 * table@.len()),
{
    let entries: u32 = 128 * table.len() as u32;
    let mut id: u32 = start;
    let mut steps: u32 = entries;
    while id != END_OF_CHAIN
        invariant
            table_in_file(bytes@, table@),
            table@.len() <= HEADER_ENTRIES,
            entries == 128 * table@.len(),
            chain_ends(bytes@, table@, start, 128 * table@.len()) == chain_ends(bytes@, table@, id, steps as nat),
        decreases steps,
    {
        if steps == 0 || !is_in_file(bytes, id) || id >= entries {
            return false;
        }
        let at: usize = (id / 128) as usize;
        assert(in_file(bytes@, table@[at as int]) && bytes@.len() == bytes.len());
        id = word(bytes, (table[at] as usize + 1) * 512 + 4 * (id % 128) as usize);
        steps = steps - 1;
    }
    true
}

/// Whether the sectors of a compound file can be followed.
pub fn is_ole_sound(bytes: &Vec<u8>) -> (b: bool)
    ensures
        b == ole_sound(bytes@),
{
    if bytes.len() < 512 || bytes[30] != 9 || bytes[31] != 0 {
        return false;
    }
    let small: u32 = word(bytes, 64);
    if word(bytes, 68) < NO_FURTHER_LIST || small > MAX_SMALL_TABLE {
        return false;
    }
    let table = get_table(bytes);
    proof {
        lemma_table_is_short(bytes@, HEADER_ENTRIES as nat);
    }
    let directory: u32 = word(bytes, 48);
    if !is_table_in_file(bytes, &table) || !does_chain_end(bytes, &table, directory) {
        return false;
    }
    if small == 0 || directory == END_OF_CHAIN {
        return true;
    }
    assert(in_file(bytes@, directory) && bytes@.len() == bytes.len());
    let root: u32 = word(bytes, (directory as usize + 1) * 512 + 116);
    does_chain_end(bytes, &table, root) && does_chain_end(bytes, &table, word(bytes, 60))
}

} // verus!
