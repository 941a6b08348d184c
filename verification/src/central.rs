//! Walking the central directory: starting at the offset the EOCD record
//! declares, parse one central directory header per entry until a
//! non-matching signature or the end of the input is reached.
//!
//! The walk never fails wholesale: a signature mismatch or a truncated
//! header simply ends the enumeration with the items gathered so far. An
//! entry whose name bytes are not valid UTF-8 is recorded as a
//! malformed-name item at its header offset, and the walk continues with
//! the next header, since the declared name length is still trusted for
//! seeking.

use vstd::prelude::*;

verus! {

use vstd::utf8::{valid_utf8, decode_utf8};
use crate::bytes::{le16, le32, read_le16, read_le32, copy_range};

/// Little-endian value of the central directory header signature `50 4B 01 02`.
pub const CDH_SIGNATURE: u32 = 0x02014b50;

/// Fixed size of a central directory header: 4 signature bytes plus 42
/// field bytes, before the variable-length name, extra field and comment.
pub const CDH_FIXED_SIZE: usize = 46;

/// One file stored in the archive, as the central directory describes it.
pub struct ArchiveEntry {
    /// The stored path, decoded as strict UTF-8.
    pub name: String,
    /// Byte count of the stored payload, as the central directory declares it.
    pub compressed_size: u32,
    /// Byte count the payload should decompress to; advisory.
    pub uncompressed_size: u32,
    /// Compression method code; only 0 (store) and 8 (deflate) are supported.
    pub compression_method: u16,
    /// Absolute byte offset of this entry's local file header.
    pub local_header_offset: u32,
}

/// The mathematical image of an `ArchiveEntry`.
pub struct EntryView {
    pub name: Seq<char>,
    pub compressed_size: u32,
    pub uncompressed_size: u32,
    pub compression_method: u16,
    pub local_header_offset: u32,
}

impl View for ArchiveEntry {
    type V = EntryView;

    open spec fn view(&self) -> EntryView {
        EntryView {
            name: self.name@,
            compressed_size: self.compressed_size,
            uncompressed_size: self.uncompressed_size,
            compression_method: self.compression_method,
            local_header_offset: self.local_header_offset,
        }
    }
}

/// One item of the enumeration: a parsed entry, or the record that the
/// header at `header_offset` carries a name that is not valid UTF-8.
pub enum WalkItem {
    Entry(ArchiveEntry),
    MalformedName { header_offset: usize },
}

/// The mathematical image of a `WalkItem`.
pub enum WalkItemView {
    Entry(EntryView),
    MalformedName { header_offset: int },
}

impl View for WalkItem {
    type V = WalkItemView;

    open spec fn view(&self) -> WalkItemView {
        match self {
            WalkItem::Entry(e) => WalkItemView::Entry(e@),
            WalkItem::MalformedName { header_offset } => WalkItemView::MalformedName {
                header_offset: *header_offset as int,
            },
        }
    }
}

/// A full central directory header sits at position `p`: the 46 fixed bytes
/// are present and the signature matches.
pub open spec fn cdh_at(a: Seq<u8>, p: int) -> bool {
    &&& 0 <= p
    &&& p + CDH_FIXED_SIZE <= a.len()
    &&& le32(a, p) == CDH_SIGNATURE
}

/// Declared length of the entry name of the header at `p`.
pub open spec fn cdh_name_len(a: Seq<u8>, p: int) -> int {
    le16(a, p + 28)
}

/// The name bytes of the header at `p`.
pub open spec fn cdh_name_bytes(a: Seq<u8>, p: int) -> Seq<u8> {
    a.subrange(p + CDH_FIXED_SIZE, p + CDH_FIXED_SIZE + cdh_name_len(a, p))
}

/// Position of the next header: past the fixed bytes, the name, the extra
/// field and the comment of the header at `p`.
pub open spec fn cdh_next(a: Seq<u8>, p: int) -> int {
    p + CDH_FIXED_SIZE + cdh_name_len(a, p) + le16(a, p + 30) + le16(a, p + 32)
}

/// The item produced for the header at `p`: an entry with the decoded name
/// when the name bytes are valid UTF-8, else a malformed-name record.
pub open spec fn cdh_item(a: Seq<u8>, p: int) -> WalkItemView {
    if valid_utf8(cdh_name_bytes(a, p)) {
        WalkItemView::Entry(
            EntryView {
                name: decode_utf8(cdh_name_bytes(a, p)),
                compressed_size: le32(a, p + 20) as u32,
                uncompressed_size: le32(a, p + 24) as u32,
                compression_method: le16(a, p + 10) as u16,
                local_header_offset: le32(a, p + 42) as u32,
            },
        )
    } else {
        WalkItemView::MalformedName { header_offset: p }
    }
}

/// The ordered items that walking the directory from position `p` yields.
/// The enumeration ends cleanly at the first position without a full,
/// signature-matching header, or whose declared name overruns the input.
pub open spec fn walk_items(a: Seq<u8>, p: int) -> Seq<WalkItemView>
    decreases a.len() - p,
{
    if !cdh_at(a, p) {
        Seq::empty()
    } else if p + CDH_FIXED_SIZE + cdh_name_len(a, p) > a.len() {
        Seq::empty()
    } else {
        let item = cdh_item(a, p);
        let next = cdh_next(a, p);
        if next > a.len() {
            seq![item]
        } else {
            seq![item] + walk_items(a, next)
        }
    }
}

/// A directory of exactly `n` entries starting at `p` is well formed and
/// untruncated: `n` headers follow one another, each complete, with its
/// name bytes present and valid UTF-8, and no further header follows.
pub open spec fn wellformed_directory(a: Seq<u8>, p: int, n: nat) -> bool
    decreases n,
{
    if n == 0 {
        !cdh_at(a, p) || p + CDH_FIXED_SIZE + cdh_name_len(a, p) > a.len()
    } else {
        &&& cdh_at(a, p)
        &&& p + CDH_FIXED_SIZE + cdh_name_len(a, p) <= a.len()
        &&& valid_utf8(cdh_name_bytes(a, p))
        &&& wellformed_directory(a, cdh_next(a, p), (n - 1) as nat)
    }
}

/// Walking a well-formed, untruncated directory of `n` entries yields
/// exactly `n` items, every one of them an entry. In particular, when the
/// EOCD record's declared entry count matches the directory's true shape,
/// the walk produces that many entries; and a directory cut short right
/// after its last complete header still yields exactly the entries that
/// precede the cut, with nothing reported for the missing remainder.
pub proof fn lemma_wellformed_directory_count(a: Seq<u8>, p: int, n: nat)
    requires
        wellformed_directory(a, p, n),
    ensures
        walk_items(a, p).len() == n,
        forall|i: int| 0 <= i < n ==> walk_items(a, p)[i] is Entry,
    decreases n,
{
    if n == 0 {
    } else {
        let next = cdh_next(a, p);
        lemma_wellformed_directory_count(a, next, (n - 1) as nat);
        if next > a.len() {
            assert(!cdh_at(a, next));
            assert(n == 1);
        }
    }
}

/// Relies on `String::from_utf8` (std): it succeeds exactly when the bytes
/// are valid UTF-8, and then returns the string of the characters those
/// bytes encode.
#[verifier::external_body]
fn decode_name(bytes: Vec<u8>) -> (r: Option<String>)
    ensures
        r is Some <==> valid_utf8(bytes@),
        r matches Some(s) ==> s@ == decode_utf8(bytes@),
{
    String::from_utf8(bytes).ok()
}

/// Enumerate the central directory headers from `start` onward, in order.
/// The walk never fails wholesale: it stops cleanly at the first position
/// without a complete signature-matching header, tolerating a truncated or
/// malformed directory, and the EOCD's declared entry count is never used
/// as a bound.
pub fn walk(archive: &Vec<u8>, start: usize) -> (items: Vec<WalkItem>)
    ensures
        items@.map_values(|it: WalkItem| it@) == walk_items(archive@, start as int),
{
    let mut items: Vec<WalkItem> = Vec::new();
    let mut pos: usize = start;
    proof {
        assert(items@.map_values(|it: WalkItem| it@) =~= Seq::<WalkItemView>::empty());
    }
    loop
        invariant_except_break
            walk_items(archive@, start as int) == items@.map_values(|it: WalkItem| it@)
                + walk_items(archive@, pos as int),
        ensures
            items@.map_values(|it: WalkItem| it@) == walk_items(archive@, start as int),
        decreases archive@.len() + CDH_FIXED_SIZE - pos,
    {
        let ghost prev = items@.map_values(|it: WalkItem| it@);
        if pos > archive.len() || archive.len() - pos < CDH_FIXED_SIZE {
            proof {
                assert(walk_items(archive@, pos as int) =~= Seq::<WalkItemView>::empty());
                assert(walk_items(archive@, start as int) =~= prev);
            }
            break;
        }
        if read_le32(archive, pos) != CDH_SIGNATURE {
            proof {
                assert(walk_items(archive@, pos as int) =~= Seq::<WalkItemView>::empty());
                assert(walk_items(archive@, start as int) =~= prev);
            }
            break;
        }
        let compression_method = read_le16(archive, pos + 10);
        let compressed_size = read_le32(archive, pos + 20);
        let uncompressed_size = read_le32(archive, pos + 24);
        let name_len = read_le16(archive, pos + 28) as usize;
        let extra_len = read_le16(archive, pos + 30) as usize;
        let comment_len = read_le16(archive, pos + 32) as usize;
        let local_header_offset = read_le32(archive, pos + 42);
        if name_len > archive.len() - (pos + CDH_FIXED_SIZE) {
            proof {
                assert(walk_items(archive@, pos as int) =~= Seq::<WalkItemView>::empty());
                assert(walk_items(archive@, start as int) =~= prev);
            }
            break;
        }
        let name_bytes = copy_range(archive, pos + CDH_FIXED_SIZE, name_len);
        proof {
            assert(name_bytes@ == cdh_name_bytes(archive@, pos as int));
        }
        let item = match decode_name(name_bytes) {
            Some(name) => WalkItem::Entry(
                ArchiveEntry {
                    name,
                    compressed_size,
                    uncompressed_size,
                    compression_method,
                    local_header_offset,
                },
            ),
            None => WalkItem::MalformedName { header_offset: pos },
        };
        proof {
            assert(item@ == cdh_item(archive@, pos as int));
        }
        items.push(item);
        proof {
            assert(items@.map_values(|it: WalkItem| it@) =~= prev.push(
                cdh_item(archive@, pos as int),
            ));
        }
        let rem = archive.len() - (pos + CDH_FIXED_SIZE + name_len);
        if extra_len + comment_len > rem {
            proof {
                assert(cdh_next(archive@, pos as int) > archive@.len());
                assert(walk_items(archive@, pos as int) =~= seq![
                    cdh_item(archive@, pos as int),
                ]);
                assert(walk_items(archive@, start as int) =~= items@.map_values(
                    |it: WalkItem| it@,
                ));
            }
            break;
        }
        let next = pos + CDH_FIXED_SIZE + name_len + extra_len + comment_len;
        proof {
            assert(next as int == cdh_next(archive@, pos as int));
            assert(walk_items(archive@, pos as int) =~= seq![cdh_item(archive@, pos as int)]
                + walk_items(archive@, next as int));
            assert(walk_items(archive@, start as int) =~= items@.map_values(|it: WalkItem| it@)
                + walk_items(archive@, next as int));
        }
        pos = next;
    }
    items
}

} // verus!
