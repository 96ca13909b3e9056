//! Directory change records, as `ReadDirectoryChangesW` writes them into a buffer.
//!
//! Each record holds, little-endian: the offset of the next record (`u32`, 0 for the
//! last), the action (`u32`), the length of the file name in bytes (`u32`), then the
//! file name in UTF-16 code units.

use vstd::prelude::*;
use crate::text::{decode_utf16_lossy, utf16_lossy};

verus! {

/// The little-endian `u32` at `at`.
pub open spec fn le_u32(buf: Seq<u8>, at: int) -> int {
    buf[at] + buf[at + 1] * 0x100 + buf[at + 2] * 0x1_0000 + buf[at + 3] * 0x100_0000
}

/// The `n` little-endian UTF-16 code units from `at` on.
pub open spec fn le_units(buf: Seq<u8>, at: int, n: nat) -> Seq<u16> {
    Seq::new(n, |k: int| (buf[at + 2 * k] + buf[at + 2 * k + 1] * 0x100) as u16)
}

/// Size of a record's fixed part, before the file name.
pub const RECORD_HEADER_LEN: usize = 12;

/// Whether a record at or after `offset`, and before `limit`, names the file `name`.
/// A record that does not fit in the buffer ends the scan.
pub open spec fn names_file_from(buf: Seq<u8>, limit: int, offset: int, name: Seq<char>) -> bool
    decreases limit - offset,
{
    if offset < 0 || offset >= limit || offset + 12 > buf.len() {
        false
    } else {
        let units = le_u32(buf, offset + 8) / 2;
        if offset + 12 + 2 * units > buf.len() {
            false
        } else if utf16_lossy(le_units(buf, offset + 12, units as nat)) == name {
            true
        } else {
            let next = le_u32(buf, offset);
            if next <= 0 || offset + next >= limit {
                false
            } else {
                names_file_from(buf, limit, offset + next, name)
            }
        }
    }
}

fn read_le_u32(buf: &[u8], at: usize) -> (v: u32)
    requires
        at + 4 <= buf.len(),
    ensures
        v == le_u32(buf@, at as int),
{
    buf[at] as u32 + buf[at + 1] as u32 * 0x100 + buf[at + 2] as u32 * 0x1_0000 + buf[at + 3] as u32 * 0x100_0000
}

fn read_le_units(buf: &[u8], at: usize, n: usize) -> (units: Vec<u16>)
    requires
        at + 2 * n <= buf.len(),
    ensures
        units@ == le_units(buf@, at as int, n as nat),
{
    let mut units: Vec<u16> = Vec::new();
    let mut k: usize = 0;
    while k < n
        invariant
            0 <= k <= n,
            at + 2 * n <= buf.len(),
            units@.len() == k,
            forall|j: int| 0 <= j < k ==> units@[j] == le_units(buf@, at as int, n as nat)[j],
        decreases n - k,
    {
        let lo = buf[at + 2 * k] as u16;
        let hi = buf[at + 2 * k + 1] as u16;
        units.push(lo + hi * 0x100);
        k = k + 1;
    }
    proof {
        assert(units@ =~= le_units(buf@, at as int, n as nat));
    }
    units
}

/// Whether the change records in the first `bytes_returned` bytes of `buffer` name the
/// file `file_name`. Records are followed by their next-record offsets until a record
/// names the file, the last record is reached or a record does not fit in the buffer.
pub fn records_name_file(buffer: &[u8], bytes_returned: usize, file_name: &String) -> (found: bool)
    ensures
        found == names_file_from(buffer@, bytes_returned as int, 0, file_name@),
        found == exists|offsets: Seq<int>| #[trigger] record_chain(buffer@, bytes_returned as int, offsets)
            && offsets[0] == 0 && record_name(buffer@, offsets.last()) == file_name@,
{
    proof {
        lemma_names_file_iff_chain(buffer@, bytes_returned as int, file_name@);
    }
    let mut offset: usize = 0;
    loop
        invariant
            names_file_from(buffer@, bytes_returned as int, 0, file_name@)
                == exists|offsets: Seq<int>| #[trigger] record_chain(buffer@, bytes_returned as int, offsets)
                    && offsets[0] == 0 && record_name(buffer@, offsets.last()) == file_name@,
            names_file_from(buffer@, bytes_returned as int, 0, file_name@)
                == names_file_from(buffer@, bytes_returned as int, offset as int, file_name@),
        decreases bytes_returned - offset,
    {
        if offset >= bytes_returned || buffer.len() < RECORD_HEADER_LEN || offset > buffer.len() - RECORD_HEADER_LEN {
            return false;
        }
        let name_len = read_le_u32(buffer, offset + 8) as usize;
        let units = name_len / 2;
        if units > (buffer.len() - offset - RECORD_HEADER_LEN) / 2 {
            return false;
        }
        let name_units = read_le_units(buffer, offset + RECORD_HEADER_LEN, units);
        let name = decode_utf16_lossy(name_units.as_slice());
        if name == *file_name {
            return true;
        }
        let next = read_le_u32(buffer, offset) as usize;
        if next == 0 || next > bytes_returned - offset {
            proof {
                if next != 0 {
                    assert(names_file_from(buffer@, bytes_returned as int, offset + next, file_name@) == false);
                }
            }
            return false;
        }
        offset = offset + next;
    }
}

/// The record at `offset` lies before `limit` and wholly within the buffer.
pub open spec fn record_fits(buf: Seq<u8>, limit: int, offset: int) -> bool {
    &&& 0 <= offset < limit
    &&& offset + 12 <= buf.len()
    &&& offset + 12 + 2 * (le_u32(buf, offset + 8) / 2) <= buf.len()
}

/// The file name of the record at `offset`.
pub open spec fn record_name(buf: Seq<u8>, offset: int) -> Seq<char> {
    utf16_lossy(le_units(buf, offset + 12, (le_u32(buf, offset + 8) / 2) as nat))
}

/// `offsets` is a chain of records: each fits, and each but the last links to the next
/// one by its nonzero next-record offset.
pub open spec fn record_chain(buf: Seq<u8>, limit: int, offsets: Seq<int>) -> bool {
    &&& offsets.len() > 0
    &&& forall|i: int| 0 <= i < offsets.len() ==> record_fits(buf, limit, #[trigger] offsets[i])
    &&& forall|i: int| 0 <= i < offsets.len() - 1 ==> {
        &&& le_u32(buf, #[trigger] offsets[i]) != 0
        &&& offsets[i + 1] == offsets[i] + le_u32(buf, offsets[i])
    }
}

/// Records reached from `offsets[0]` and not naming the file before the last one lead
/// the scan to the last one.
proof fn lemma_chain_found(buf: Seq<u8>, limit: int, offsets: Seq<int>, name: Seq<char>)
    requires
        record_chain(buf, limit, offsets),
        record_name(buf, offsets.last()) == name,
    ensures
        names_file_from(buf, limit, offsets[0], name),
    decreases offsets.len(),
{
    let o = offsets[0];
    assert(record_fits(buf, limit, offsets[0]));
    if offsets.len() > 1 && record_name(buf, o) != name {
        let rest = offsets.skip(1);
        assert forall|i: int| 0 <= i < rest.len() implies record_fits(buf, limit, #[trigger] rest[i]) by {
            assert(rest[i] == offsets[i + 1]);
        }
        assert forall|i: int| 0 <= i < rest.len() - 1 implies {
            &&& le_u32(buf, #[trigger] rest[i]) != 0
            &&& rest[i + 1] == rest[i] + le_u32(buf, rest[i])
        } by {
            assert(rest[i] == offsets[i + 1]);
            assert(rest[i + 1] == offsets[i + 2]);
        }
        assert(le_u32(buf, offsets[0]) != 0);
        assert(record_fits(buf, limit, offsets[1]));
        lemma_chain_found(buf, limit, rest, name);
    }
}

/// The scan from `offset` finding the file yields a chain from `offset` to a record
/// that names it.
proof fn lemma_found_chain(buf: Seq<u8>, limit: int, offset: int, name: Seq<char>) -> (offsets: Seq<int>)
    requires
        names_file_from(buf, limit, offset, name),
    ensures
        record_chain(buf, limit, offsets),
        offsets[0] == offset,
        record_name(buf, offsets.last()) == name,
    decreases limit - offset,
{
    if record_name(buf, offset) == name {
        seq![offset]
    } else {
        let next = le_u32(buf, offset);
        let rest = lemma_found_chain(buf, limit, offset + next, name);
        let offsets = seq![offset] + rest;
        assert(offsets[0] == offset);
        assert(offsets.last() == rest.last());
        assert forall|i: int| 0 <= i < offsets.len() implies record_fits(buf, limit, #[trigger] offsets[i]) by {
            if i > 0 {
                assert(offsets[i] == rest[i - 1]);
            }
        }
        assert forall|i: int| 0 <= i < offsets.len() - 1 implies {
            &&& le_u32(buf, #[trigger] offsets[i]) != 0
            &&& offsets[i + 1] == offsets[i] + le_u32(buf, offsets[i])
        } by {
            if i > 0 {
                assert(offsets[i] == rest[i - 1]);
                assert(offsets[i + 1] == rest[i]);
            } else {
                assert(offsets[1] == rest[0]);
            }
        }
        offsets
    }
}

/// Law: the scan finds the file exactly when some chain of records, starting at the
/// first record and following nonzero next-record offsets within the returned bytes and
/// the buffer, reaches a record that names it; however many records come before it.
pub proof fn lemma_names_file_iff_chain(buf: Seq<u8>, limit: int, name: Seq<char>)
    ensures
        names_file_from(buf, limit, 0, name) <==> exists|offsets: Seq<int>|
            #[trigger] record_chain(buf, limit, offsets) && offsets[0] == 0 && record_name(buf, offsets.last()) == name,
{
    if names_file_from(buf, limit, 0, name) {
        let offsets = lemma_found_chain(buf, limit, 0, name);
        assert(record_chain(buf, limit, offsets));
    }
    if exists|offsets: Seq<int>|
        #[trigger] record_chain(buf, limit, offsets) && offsets[0] == 0 && record_name(buf, offsets.last()) == name {
        let offsets = choose|offsets: Seq<int>|
            #[trigger] record_chain(buf, limit, offsets) && offsets[0] == 0 && record_name(buf, offsets.last()) == name;
        lemma_chain_found(buf, limit, offsets, name);
    }
}

} // verus!
