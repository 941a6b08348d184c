//! Locating and parsing the end-of-central-directory (EOCD) record.
//!
//! The EOCD record is found by scanning a fixed-size window at the tail of
//! the archive for its 4-byte signature, from the highest offset downward,
//! so that when the literal signature bytes also occur earlier (for example
//! inside an embedded comment) the match closest to the true end of the
//! file wins. Absence of the signature signals "not a ZIP archive" rather
//! than an error.

use vstd::prelude::*;

verus! {

use crate::bytes::{le16, le32, read_le16, read_le32};

/// Little-endian value of the EOCD signature bytes `50 4B 05 06`.
pub const EOCD_SIGNATURE: u32 = 0x06054b50;

/// Width of the tail window searched for the EOCD signature. An archive
/// whose EOCD comment pushes the signature further than this from the end
/// of the file is reported as not an archive; this fixed window is a
/// deliberate limitation.
pub const EOCD_SEARCH_WINDOW: usize = 1024;

/// Fixed size of the EOCD record: 4 signature bytes plus 18 field bytes.
pub const EOCD_RECORD_SIZE: usize = 22;

/// The fixed fields of the EOCD record, in the order they are stored.
pub struct EndOfCentralDirectory {
    pub disk_number: u16,
    pub start_disk: u16,
    pub entries_on_this_disk: u16,
    pub total_entries: u16,
    pub central_directory_size: u32,
    pub central_directory_offset: u32,
    pub comment_length: u16,
}

/// First offset of the tail window in which the EOCD signature is sought.
pub open spec fn window_start(a: Seq<u8>) -> int {
    if a.len() <= EOCD_SEARCH_WINDOW {
        0
    } else {
        a.len() - EOCD_SEARCH_WINDOW
    }
}

/// A position that can hold the EOCD record: it lies in the tail window,
/// the whole 22-byte record fits, and the signature matches.
pub open spec fn eocd_candidate(a: Seq<u8>, p: int) -> bool {
    &&& window_start(a) <= p
    &&& p + EOCD_RECORD_SIZE <= a.len()
    &&& le32(a, p) == EOCD_SIGNATURE
}

/// The highest candidate position at or below `p`, scanning downward to the
/// start of the tail window.
pub open spec fn find_eocd_from(a: Seq<u8>, p: int) -> Option<int>
    decreases p - window_start(a) + 1,
{
    if p < window_start(a) {
        None
    } else if eocd_candidate(a, p) {
        Some(p)
    } else {
        find_eocd_from(a, p - 1)
    }
}

/// The position of the EOCD record that the backward scan settles on, if any.
pub open spec fn eocd_pos(a: Seq<u8>) -> Option<int> {
    if a.len() >= EOCD_RECORD_SIZE {
        find_eocd_from(a, a.len() - EOCD_RECORD_SIZE)
    } else {
        None
    }
}

/// The EOCD record fields stored at position `p` (the signature occupies
/// bytes `p..p + 4`; the 18 field bytes follow).
pub open spec fn parse_eocd(a: Seq<u8>, p: int) -> EndOfCentralDirectory
    recommends
        0 <= p,
        p + EOCD_RECORD_SIZE <= a.len(),
{
    EndOfCentralDirectory {
        disk_number: le16(a, p + 4) as u16,
        start_disk: le16(a, p + 6) as u16,
        entries_on_this_disk: le16(a, p + 8) as u16,
        total_entries: le16(a, p + 10) as u16,
        central_directory_size: le32(a, p + 12) as u32,
        central_directory_offset: le32(a, p + 16) as u32,
        comment_length: le16(a, p + 20) as u16,
    }
}

proof fn lemma_find_eocd_from_properties(a: Seq<u8>, p: int)
    ensures
        match find_eocd_from(a, p) {
            Some(q) => eocd_candidate(a, q) && q <= p && (forall|r: int|
                q < r <= p ==> !eocd_candidate(a, r)),
            None => forall|r: int| r <= p ==> !eocd_candidate(a, r),
        },
    decreases p - window_start(a) + 1,
{
    if p < window_start(a) {
    } else if eocd_candidate(a, p) {
    } else {
        lemma_find_eocd_from_properties(a, p - 1);
    }
}

/// The backward scan reports the signature match closest to the end of the
/// file: when `eocd_pos` settles on a position, no candidate position lies
/// above it, and when it reports none, no candidate position exists at all.
pub proof fn lemma_eocd_pos_is_last_candidate(a: Seq<u8>)
    ensures
        match eocd_pos(a) {
            Some(p) => eocd_candidate(a, p) && (forall|q: int|
                eocd_candidate(a, q) ==> q <= p),
            None => forall|q: int| !eocd_candidate(a, q),
        },
{
    if a.len() >= EOCD_RECORD_SIZE {
        let top = a.len() - EOCD_RECORD_SIZE;
        lemma_find_eocd_from_properties(a, top);
        assert(forall|q: int| eocd_candidate(a, q) ==> q <= top);
    } else {
        assert(forall|q: int| !eocd_candidate(a, q));
    }
}

/// Parse the fixed EOCD record whose signature sits at offset `p`.
fn parse_record(a: &Vec<u8>, p: usize) -> (r: EndOfCentralDirectory)
    requires
        p + EOCD_RECORD_SIZE <= a.len(),
    ensures
        r == parse_eocd(a@, p as int),
{
    EndOfCentralDirectory {
        disk_number: read_le16(a, p + 4),
        start_disk: read_le16(a, p + 6),
        entries_on_this_disk: read_le16(a, p + 8),
        total_entries: read_le16(a, p + 10),
        central_directory_size: read_le32(a, p + 12),
        central_directory_offset: read_le32(a, p + 16),
        comment_length: read_le16(a, p + 20),
    }
}

/// Scan the tail window of the archive, from the highest offset downward,
/// for the EOCD signature, and parse the record found there. Returns `None`
/// when the window holds no EOCD record, which signals "not a ZIP archive".
pub fn locate(archive: &Vec<u8>) -> (r: Option<EndOfCentralDirectory>)
    ensures
        match eocd_pos(archive@) {
            Some(p) => r == Some(parse_eocd(archive@, p)),
            None => r is None,
        },
{
    if archive.len() < EOCD_RECORD_SIZE {
        return None;
    }
    let ws: usize = if archive.len() <= EOCD_SEARCH_WINDOW {
        0
    } else {
        archive.len() - EOCD_SEARCH_WINDOW
    };
    let mut p: usize = archive.len() - EOCD_RECORD_SIZE;
    loop
        invariant
            EOCD_RECORD_SIZE <= archive.len(),
            ws as int == window_start(archive@),
            ws <= p,
            p + EOCD_RECORD_SIZE <= archive.len(),
            find_eocd_from(archive@, archive@.len() - EOCD_RECORD_SIZE) == find_eocd_from(
                archive@,
                p as int,
            ),
        decreases p,
    {
        if read_le32(archive, p) == EOCD_SIGNATURE {
            assert(eocd_candidate(archive@, p as int));
            assert(find_eocd_from(archive@, p as int) == Some(p as int));
            return Some(parse_record(archive, p));
        }
        assert(!eocd_candidate(archive@, p as int));
        assert(find_eocd_from(archive@, p as int) == find_eocd_from(archive@, p as int - 1));
        if p == ws {
            assert(find_eocd_from(archive@, p as int - 1) is None);
            return None;
        }
        p = p - 1;
    }
}

} // verus!
