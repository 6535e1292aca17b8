//! Content addressing: a stable digest of a chart's canonical encoding.
//!
//! The digest only needs to be collision-resistant enough for
//! content-addressed deduplication, so the MD5 of the encoded text is used.

use vstd::prelude::*;

verus! {

/// The lowercase hexadecimal MD5 digest of a text.  The digest is a pure
/// function of the text; nothing more is assumed of it.
pub uninterp spec fn md5_hex_of(s: Seq<char>) -> Seq<char>;

/// Relies on md5::compute: the digest depends on the input bytes alone, and
/// its lowercase hexadecimal form spells 16 bytes as 32 characters.
#[verifier::external_body]
fn md5_hex(content: &str) -> (r: String)
    ensures
        r@ == md5_hex_of(content@),
        r@.len() == 32,
{
    format!("{:x}", md5::compute(content.as_bytes()))
}

/// Returns the lowercase hexadecimal MD5 digest of the text.
pub fn hash_md5(file_content: &str) -> (r: Result<String, String>)
    ensures
        r matches Ok(h) && h@ == md5_hex_of(file_content@) && h@.len() == 32,
{
    Ok(md5_hex(file_content))
}

} // verus!
