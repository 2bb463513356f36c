//! The two media types that a parsed body can carry, as values of the `mime` crate.

use mime::Mime;
use vstd::prelude::*;

verus! {

/// `mime::Mime`, a media type.
#[verifier::external_type_specification]
#[verifier::external_body]
pub struct ExMime(Mime);

/// The text of a media type, as `Mime::as_ref` gives it.
pub uninterp spec fn mime_text(mime: Mime) -> Seq<char>;

/// The text of the media type of raw bodies.
pub open spec fn plain_text() -> Seq<char> {
    "text/plain; charset=utf-8"@
}

/// The text of the media type of binary bodies.
pub open spec fn octet_stream() -> Seq<char> {
    "application/octet-stream"@
}

/// Hands out `mime::TEXT_PLAIN_UTF_8`, which the crate defines from the text
/// `text/plain; charset=utf-8`.
#[verifier::external_body]
pub(crate) fn text_plain_utf_8() -> (mime: Mime)
    ensures
        mime_text(mime) == plain_text(),
{
    mime::TEXT_PLAIN_UTF_8
}

/// Hands out `mime::APPLICATION_OCTET_STREAM`, which the crate defines from the text
/// `application/octet-stream`.
#[verifier::external_body]
pub(crate) fn application_octet_stream() -> (mime: Mime)
    ensures
        mime_text(mime) == octet_stream(),
{
    mime::APPLICATION_OCTET_STREAM
}

} // verus!
