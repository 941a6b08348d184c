//! A ZIP container decoder: locates the end-of-central-directory record,
//! walks the central directory to enumerate the stored entries, and
//! materializes each entry's bytes by dispatching on its compression method.
//!
//! The decoder works over an in-memory byte image of the archive; reading
//! that image from disk and writing extracted bytes back out are left to the
//! caller. Only the "store" and "deflate" compression methods are supported;
//! deflate decompression is delegated to the `flate2` crate.

use vstd::prelude::*;

pub mod bytes;
pub mod central;
pub mod eocd;
pub mod extract;

verus! {

use crate::central::{
    lemma_wellformed_directory_count,
    walk,
    walk_items,
    wellformed_directory,
    WalkItem,
    WalkItemView,
};
use crate::eocd::{eocd_pos, locate, parse_eocd};

/// What `open` yields for a given archive image: nothing when no
/// end-of-central-directory record is found (the bytes are not a ZIP
/// archive), otherwise the items enumerated from the central directory at
/// the offset that record declares.
pub open spec fn open_spec(a: Seq<u8>) -> Option<Seq<WalkItemView>> {
    match eocd_pos(a) {
        None => None,
        Some(p) => Some(walk_items(a, parse_eocd(a, p).central_directory_offset as int)),
    }
}

/// Decode the archive's table of contents: locate the end-of-central-directory
/// record by the backward tail scan and enumerate the entries of the central
/// directory it points at. Returns `None` when the archive holds no such
/// record, which signals "not a ZIP archive" rather than an error.
pub fn open(archive: &Vec<u8>) -> (r: Option<Vec<WalkItem>>)
    ensures
        r is Some <==> open_spec(archive@) is Some,
        r matches Some(items) ==> Some(items@.map_values(|it: WalkItem| it@)) == open_spec(
            archive@,
        ),
{
    match locate(archive) {
        None => None,
        Some(record) => Some(walk(archive, record.central_directory_offset as usize)),
    }
}

/// When an archive's central directory — at the offset the located EOCD
/// record declares — is well formed and untruncated with exactly the
/// record's declared total entry count, opening the archive yields exactly
/// that many items, every one of them a parsed entry.
pub proof fn lemma_open_count_matches_eocd_total(a: Seq<u8>)
    requires
        eocd_pos(a) is Some,
        wellformed_directory(
            a,
            parse_eocd(a, eocd_pos(a)->0).central_directory_offset as int,
            parse_eocd(a, eocd_pos(a)->0).total_entries as nat,
        ),
    ensures
        open_spec(a) matches Some(items) && items.len() == parse_eocd(
            a,
            eocd_pos(a)->0,
        ).total_entries && (forall|i: int| 0 <= i < items.len() ==> items[i] is Entry),
{
    let record = parse_eocd(a, eocd_pos(a)->0);
    lemma_wellformed_directory_count(
        a,
        record.central_directory_offset as int,
        record.total_entries as nat,
    );
}

} // verus!
