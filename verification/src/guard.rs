//! The format guard: a cheap test of how each input begins.

use crate::error::DiffError;
use crate::kinds::Source;
use vstd::prelude::*;
use vstd::string::StringSliceAdditionalSpecFns;

verus! {

/// Whether `bytes` begins with `prefix`.
pub open spec fn has_prefix(bytes: Seq<u8>, prefix: Seq<u8>) -> bool {
    prefix.len() <= bytes.len() && bytes.subrange(0, prefix.len() as int) == prefix
}

/// How an Extranet export begins: with its first header and the comma after
/// it.
pub const EXTRANET_SIGNATURE: &'static str = "RegionID,";

/// How an Operoo export begins: with two spaces and the start of an XML
/// declaration.
pub const OPEROO_SIGNATURE: &'static str = "  <?xml";

/// The bytes with which an export of a source begins.
pub open spec fn signature(source: Source) -> Seq<u8> {
    match source {
        Source::Extranet => EXTRANET_SIGNATURE.spec_bytes(),
        Source::Operoo => OPEROO_SIGNATURE.spec_bytes(),
    }
}

/// Whether `bytes` begins as an export of `source` does.
pub open spec fn has_signature(bytes: Seq<u8>, source: Source) -> bool {
    has_prefix(bytes, signature(source))
}

/// The source whose input does not begin as it should, Extranet first; `None`
/// where both do.
pub open spec fn unrecognized(extranet: Seq<u8>, operoo: Seq<u8>) -> Option<Source> {
    if !has_signature(extranet, Source::Extranet) {
        Some(Source::Extranet)
    } else if !has_signature(operoo, Source::Operoo) {
        Some(Source::Operoo)
    } else {
        None
    }
}

/// Tests whether a buffer begins with the given bytes.
pub fn starts_with(bytes: &[u8], prefix: &[u8]) -> (found: bool)
    ensures
        found == has_prefix(bytes@, prefix@),
{
    if prefix.len() > bytes.len() {
        return false;
    }
    let mut i: usize = 0;
    while i < prefix.len()
        invariant
            i <= prefix.len() <= bytes.len(),
            forall|k: int| 0 <= k < i ==> bytes@[k] == prefix@[k],
        decreases prefix.len() - i,
    {
        if bytes[i] != prefix[i] {
            proof {
                assert(bytes@.subrange(0, prefix.len() as int)[i as int] == bytes@[i as int]);
            }
            return false;
        }
        i += 1;
    }
    proof {
        assert(bytes@.subrange(0, prefix.len() as int) =~= prefix@);
    }
    true
}

/// Confirms that each input begins as an export of its source does. An input
/// that does not is named in the failure, Extranet's first. Nothing deeper is
/// tested: an input that passes may still fail in its reader.
pub fn check_report_types(extranet_csv: &[u8], operoo_xls: &[u8]) -> (checked: Result<
    (),
    DiffError,
>)
    ensures
        match checked {
            Ok(_) => unrecognized(extranet_csv@, operoo_xls@) is None,
            Err(e) => e matches DiffError::InvalidFormat { source } && unrecognized(
                extranet_csv@,
                operoo_xls@,
            ) == Some(source),
        },
{
    if !starts_with(extranet_csv, EXTRANET_SIGNATURE.as_bytes()) {
        return Err(DiffError::InvalidFormat { source: Source::Extranet });
    }
    if !starts_with(operoo_xls, OPEROO_SIGNATURE.as_bytes()) {
        return Err(DiffError::InvalidFormat { source: Source::Operoo });
    }
    Ok(())
}

} // verus!
