use vstd::prelude::*;
use crate::bytes::{copy_range, le32, read_le32};
use crate::error::AppError;

verus! {

/// Whether `b` is a well-formed `DidWeb5Data` envelope of the `V1` variant.
///
/// The envelope is a tagged union: a 32-bit variant tag (0 for `V1`), then
/// the variant. `V1` is a table of one field: its total size, the offset of
/// its only field (8), then that field, a byte vector written as its length
/// followed by its bytes. All numbers are little-endian 32-bit.
pub open spec fn is_v1_envelope(b: Seq<u8>) -> bool {
    &&& b.len() >= 16
    &&& le32(b, 0) == 0
    &&& le32(b, 4) == b.len() - 4
    &&& le32(b, 8) == 8
    &&& le32(b, 12) == b.len() - 16
}

/// The document bytes that a well-formed envelope carries.
pub open spec fn v1_document(b: Seq<u8>) -> Seq<u8> {
    b.subrange(16, b.len() as int)
}

/// Decodes the `DidWeb5Data` envelope of a cell and returns the document
/// bytes of its `V1` variant. An unknown variant or a malformed envelope is
/// a `MoleculeError`.
pub fn parse_molecule(bytes: &[u8]) -> (r: Result<Vec<u8>, AppError>)
    ensures
        is_v1_envelope(bytes@) ==> r is Ok && r->Ok_0@ == v1_document(bytes@),
        !is_v1_envelope(bytes@) ==> r is Err && r->Err_0 is MoleculeError
            && r->Err_0->MoleculeError_0@ == "DidWeb5Data convert failed, please update cell."@,
{
    let n = bytes.len();
    if n < 16 || read_le32(bytes, 0) != 0 || read_le32(bytes, 4) != (n - 4) as u64
        || read_le32(bytes, 8) != 8 || read_le32(bytes, 12) != (n - 16) as u64 {
        return Err(AppError::MoleculeError(envelope_hint()));
    }
    Ok(copy_range(bytes, 16, n))
}

/// The hint that goes with an envelope that cannot be decoded.
fn envelope_hint() -> (r: String)
    ensures
        r@ == "DidWeb5Data convert failed, please update cell."@,
{
    String::from_str("DidWeb5Data convert failed, please update cell.")
}

} // verus!
