//! Extracting one entry: validate and skip its local file header, read the
//! stored payload, and decode it per the entry's compression method.
//!
//! Every failure here is fatal for the one entry alone; callers extract
//! each entry independently and collect the outcomes, so a bad entry never
//! aborts its siblings. Deflate decompression is an external capability of
//! the `flate2` crate, reached through one trusted wrapper.

use vstd::prelude::*;

verus! {

use crate::bytes::{le16, le32, read_le16, read_le32, copy_range};
use crate::central::{ArchiveEntry, EntryView};

/// Little-endian value of the local file header signature `50 4B 03 04`.
pub const LFH_SIGNATURE: u32 = 0x04034b50;

/// Fixed size of a local file header: 4 signature bytes plus 26 field
/// bytes, before the variable-length name and extra field.
pub const LFH_FIXED_SIZE: usize = 30;

/// The supported compression method codes.
pub const METHOD_STORE: u16 = 0;

pub const METHOD_DEFLATE: u16 = 8;

/// Why one entry could not be extracted. Each value is fatal for that
/// entry only, never for its siblings.
#[derive(Debug, PartialEq, Eq, Clone, Copy)]
pub enum ExtractError {
    /// The bytes at the entry's recorded offset are not a local file
    /// header: the offset is corrupt, and the payload cannot be located.
    InvalidLocalHeader,
    /// Fewer than `compressed_size` payload bytes exist in the archive.
    ShortPayloadRead,
    /// The compression method is neither store nor deflate; the code is
    /// carried for diagnostics.
    UnsupportedMethod(u16),
    /// The deflate stream is malformed.
    DecompressionFailure,
}

/// An entry's materialized bytes. A decoded length that differs from the
/// central directory's declared `uncompressed_size` is a discrepancy to be
/// reported, not an error, since that declared value is advisory.
#[derive(Debug, PartialEq, Eq)]
pub struct Extracted {
    pub data: Vec<u8>,
    pub size_mismatch: bool,
}

/// The mathematical image of `Extracted`.
pub struct ExtractedView {
    pub data: Seq<u8>,
    pub size_mismatch: bool,
}

impl View for Extracted {
    type V = ExtractedView;

    open spec fn view(&self) -> ExtractedView {
        ExtractedView { data: self.data@, size_mismatch: self.size_mismatch }
    }
}

/// A full local file header sits at position `off`: the 30 fixed bytes are
/// present and the signature matches.
pub open spec fn lfh_at(a: Seq<u8>, off: int) -> bool {
    &&& 0 <= off
    &&& off + LFH_FIXED_SIZE <= a.len()
    &&& le32(a, off) == LFH_SIGNATURE
}

/// First byte of the stored payload: past the local header's fixed bytes
/// and its own declared name and extra-field lengths (the local copies, at
/// byte offsets 26 and 28 of the header, not the central directory's).
pub open spec fn payload_start(a: Seq<u8>, off: int) -> int {
    off + LFH_FIXED_SIZE + le16(a, off + 26) + le16(a, off + 28)
}

/// The stored payload of an entry whose local header sits at `off`.
pub open spec fn payload_bytes(a: Seq<u8>, e: EntryView) -> Seq<u8> {
    let ps = payload_start(a, e.local_header_offset as int);
    a.subrange(ps, ps + e.compressed_size)
}

/// What the raw-deflate decompression of a byte sequence yields: the
/// decompressed bytes, or nothing when the sequence is not a well-formed
/// deflate stream. Named, not written out: the deflate format is an
/// external capability, and this name is given meaning only by the trusted
/// wrapper around `flate2`.
pub uninterp spec fn inflated(s: Seq<u8>) -> Option<Seq<u8>>;

/// What extracting `e` from the archive image `a` yields.
pub open spec fn extract_spec(a: Seq<u8>, e: EntryView) -> Result<ExtractedView, ExtractError> {
    let off = e.local_header_offset as int;
    if !lfh_at(a, off) {
        Err(ExtractError::InvalidLocalHeader)
    } else if payload_start(a, off) + e.compressed_size > a.len() {
        Err(ExtractError::ShortPayloadRead)
    } else {
        let payload = payload_bytes(a, e);
        if e.compression_method == METHOD_STORE {
            Ok(
                ExtractedView {
                    data: payload,
                    size_mismatch: payload.len() != e.uncompressed_size,
                },
            )
        } else if e.compression_method == METHOD_DEFLATE {
            match inflated(payload) {
                Some(out) => Ok(
                    ExtractedView { data: out, size_mismatch: out.len() != e.uncompressed_size },
                ),
                None => Err(ExtractError::DecompressionFailure),
            }
        } else {
            Err(ExtractError::UnsupportedMethod(e.compression_method))
        }
    }
}

/// A store-method entry comes back verbatim: when extraction succeeds for
/// an entry with the store method, the bytes produced are exactly the
/// payload bytes held in the archive after the entry's local file header,
/// byte for byte, and their count is the declared compressed size.
pub proof fn lemma_store_extract_verbatim(a: Seq<u8>, e: EntryView)
    requires
        e.compression_method == METHOD_STORE,
        extract_spec(a, e) is Ok,
    ensures
        extract_spec(a, e)->Ok_0.data == payload_bytes(a, e),
        extract_spec(a, e)->Ok_0.data.len() == e.compressed_size,
{
}

/// The verifiable half of the deflate round trip: when extraction succeeds
/// for a deflate entry, the bytes produced are exactly the inflation of the
/// stored payload. So whenever that payload was produced by deflating some
/// original input, extraction returns what re-inflating it gives.
pub proof fn lemma_deflate_extract_inflates_payload(a: Seq<u8>, e: EntryView)
    requires
        e.compression_method == METHOD_DEFLATE,
        extract_spec(a, e) is Ok,
    ensures
        Some(extract_spec(a, e)->Ok_0.data) == inflated(payload_bytes(a, e)),
{
}

/// An entry whose compression method is neither store nor deflate never
/// yields extracted bytes; when its local header and payload are intact it
/// is reported as unsupported, carrying the method code for diagnostics.
pub proof fn lemma_unsupported_method_never_extracts(a: Seq<u8>, e: EntryView)
    requires
        e.compression_method != METHOD_STORE,
        e.compression_method != METHOD_DEFLATE,
    ensures
        extract_spec(a, e) is Err,
        lfh_at(a, e.local_header_offset as int) && payload_start(
            a,
            e.local_header_offset as int,
        ) + e.compressed_size <= a.len() ==> extract_spec(a, e) == Err::<
            ExtractedView,
            ExtractError,
        >(ExtractError::UnsupportedMethod(e.compression_method)),
{
}

/// Relies on `flate2::read::DeflateDecoder` read to its end over an
/// in-memory slice: that yields the raw-deflate decompression of the input
/// bytes, and fails exactly when the input is not a well-formed deflate
/// stream; both the outcome and the bytes depend on the input alone.
#[verifier::external_body]
fn inflate_payload(data: &Vec<u8>, size_hint: usize) -> (r: Option<Vec<u8>>)
    ensures
        r matches Some(out) ==> inflated(data@) == Some(out@),
        r is None ==> inflated(data@) is None,
{
    let mut decoder = flate2::read::DeflateDecoder::new(data.as_slice());
    let mut out: Vec<u8> = Vec::with_capacity(size_hint);
    match std::io::Read::read_to_end(&mut decoder, &mut out) {
        Ok(_) => Some(out),
        Err(_) => None,
    }
}

/// Extract one entry: validate the local file header at the entry's
/// recorded offset, skip the header's variable-length fields, read exactly
/// `compressed_size` payload bytes, and decode them per the entry's
/// compression method. The declared `uncompressed_size` is used only as an
/// allocation hint and to report a size discrepancy, never to size reads.
pub fn extract(archive: &Vec<u8>, entry: &ArchiveEntry) -> (r: Result<Extracted, ExtractError>)
    ensures
        match r {
            Ok(ex) => extract_spec(archive@, entry@) == Ok::<ExtractedView, ExtractError>(ex@),
            Err(e) => extract_spec(archive@, entry@) == Err::<ExtractedView, ExtractError>(e),
        },
{
    let off = entry.local_header_offset as usize;
    if archive.len() < LFH_FIXED_SIZE || off > archive.len() - LFH_FIXED_SIZE {
        return Err(ExtractError::InvalidLocalHeader);
    }
    if read_le32(archive, off) != LFH_SIGNATURE {
        return Err(ExtractError::InvalidLocalHeader);
    }
    let name_len = read_le16(archive, off + 26) as usize;
    let extra_len = read_le16(archive, off + 28) as usize;
    if name_len + extra_len > archive.len() - (off + LFH_FIXED_SIZE) {
        return Err(ExtractError::ShortPayloadRead);
    }
    let ps = off + LFH_FIXED_SIZE + name_len + extra_len;
    let csize = entry.compressed_size as usize;
    if csize > archive.len() - ps {
        return Err(ExtractError::ShortPayloadRead);
    }
    let payload = copy_range(archive, ps, csize);
    proof {
        assert(payload@ == payload_bytes(archive@, entry@));
    }
    if entry.compression_method == METHOD_STORE {
        let size_mismatch = payload.len() != entry.uncompressed_size as usize;
        Ok(Extracted { data: payload, size_mismatch })
    } else if entry.compression_method == METHOD_DEFLATE {
        match inflate_payload(&payload, entry.uncompressed_size as usize) {
            Some(out) => {
                let size_mismatch = out.len() != entry.uncompressed_size as usize;
                Ok(Extracted { data: out, size_mismatch })
            },
            None => Err(ExtractError::DecompressionFailure),
        }
    } else {
        Err(ExtractError::UnsupportedMethod(entry.compression_method))
    }
}

/// The image of one extraction outcome.
pub open spec fn extract_result_view(r: Result<Extracted, ExtractError>) -> Result<
    ExtractedView,
    ExtractError,
> {
    match r {
        Ok(ex) => Ok(ex@),
        Err(e) => Err(e),
    }
}

/// Extract every entry of the list independently, in order, collecting one
/// outcome per entry: a failure for entry `i` never disturbs the outcome
/// for any other entry.
pub fn extract_entries(archive: &Vec<u8>, entries: &Vec<ArchiveEntry>) -> (results: Vec<
    Result<Extracted, ExtractError>,
>)
    ensures
        results.len() == entries.len(),
        forall|i: int|
            0 <= i < entries.len() ==> extract_result_view(results@[i]) == extract_spec(
                archive@,
                entries@[i]@,
            ),
{
    let mut results: Vec<Result<Extracted, ExtractError>> = Vec::new();
    let mut k: usize = 0;
    while k < entries.len()
        invariant
            k <= entries.len(),
            results.len() == k,
            forall|i: int|
                0 <= i < k ==> extract_result_view(results@[i]) == extract_spec(
                    archive@,
                    entries@[i]@,
                ),
        decreases entries.len() - k,
    {
        results.push(extract(archive, &entries[k]));
        k = k + 1;
    }
    results
}

} // verus!
