//! Validation of preview images: the platform accepts only JPEG, PNG and
//! GIF previews, and the file type is read from the file's leading bytes.

use vstd::prelude::*;

verus! {

/// The MIME type that the `infer` crate reads out of a byte buffer's
/// leading magic bytes, if it recognises one. It depends on the bytes
/// alone.
pub uninterp spec fn inferred_mime(data: Seq<u8>) -> Option<Seq<char>>;

/// Relies on `infer::get` and `infer::Type::mime_type`: the detected file
/// type, and hence its MIME string, is a function of the buffer alone.
#[verifier::external_body]
fn infer_mime_type(data: &Vec<u8>) -> (r: Option<String>)
    ensures
        r is Some <==> inferred_mime(data@) is Some,
        r matches Some(m) ==> inferred_mime(data@) matches Some(s) && m@ == s,
{
    infer::get(data.as_slice()).map(|t| String::from(t.mime_type()))
}

/// The MIME types a preview image may have.
pub open spec fn allowed_preview_mime(m: Seq<char>) -> bool {
    ||| m == "image/jpeg"@
    ||| m == "image/gif"@
    ||| m == "image/png"@
}

/// Why a preview file was rejected.
pub enum PreviewError {
    /// No known file type could be read from the bytes.
    UnknownFileType,
    /// A type was recognised but it is not an allowed image type; the
    /// MIME string is carried for reporting.
    InvalidPreviewType(String),
}

/// Accepts a preview file exactly when its bytes carry a recognisable
/// JPEG, PNG or GIF signature.
pub fn is_valid_preview_type(data: &Vec<u8>) -> (r: Result<(), PreviewError>)
    ensures
        r is Ok <==> (inferred_mime(data@) matches Some(m) && allowed_preview_mime(m)),
        r matches Err(e) ==> match e {
            PreviewError::UnknownFileType => inferred_mime(data@) is None,
            PreviewError::InvalidPreviewType(m) => inferred_mime(data@) matches Some(s) && m@ == s
                && !allowed_preview_mime(s),
        },
{
    match infer_mime_type(data) {
        None => Err(PreviewError::UnknownFileType),
        Some(mime) => {
            let jpeg: String = String::from_str("image/jpeg");
            let gif: String = String::from_str("image/gif");
            let png: String = String::from_str("image/png");
            if mime == jpeg || mime == gif || mime == png {
                Ok(())
            } else {
                Err(PreviewError::InvalidPreviewType(mime))
            }
        },
    }
}

} // verus!
