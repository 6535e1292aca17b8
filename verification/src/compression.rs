//! Compression of canonical chart encodings before storage.

use crate::errors::BeatmapWorkerError;
use vstd::prelude::*;
use vstd::string::StringSliceAdditionalSpecFns;

verus! {

/// The Brotli compression of a byte sequence under the encoder's default
/// parameters.  The output depends on the input bytes alone; nothing more is
/// assumed of it.
pub uninterp spec fn brotli_of(data: Seq<u8>) -> Seq<u8>;

/// Relies on brotli::enc::BrotliCompress with the default encoder
/// parameters: a single-threaded encoder whose output depends on the input
/// bytes alone.  The call cannot fail here: the reader is an in-memory
/// slice and the writer a vector, neither of which reports an error, and
/// the encoder's own failure paths are unreachable from this driver under
/// the default parameters.
#[verifier::external_body]
fn brotli_compress_bytes(data: &[u8]) -> (r: Result<Vec<u8>, ()>)
    ensures
        r is Ok,
        r matches Ok(v) ==> v@ == brotli_of(data@),
{
    let params = brotli::enc::BrotliEncoderParams::default();
    let mut input = data;
    let mut out = Vec::new();
    match brotli::enc::BrotliCompress(&mut input, &mut out, &params) {
        Ok(_) => Ok(out),
        Err(_) => Err(()),
    }
}

/// The outcome of one compression: the compressed bytes and both sizes.
#[derive(Debug, Clone)]
pub struct CompressionResult {
    pub compressed_data: Vec<u8>,
    pub original_size: usize,
    pub compressed_size: usize,
}

impl CompressionResult {
    /// Assembles a result from the original size and the compressed bytes;
    /// the recorded compressed size is the length of those bytes.
    pub fn from_parts(original_size: usize, compressed_data: Vec<u8>) -> (r: Self)
        ensures
            r.original_size == original_size,
            r.compressed_data@ == compressed_data@,
            r.compressed_size == compressed_data@.len(),
    {
        let compressed_size = compressed_data.len();
        CompressionResult { compressed_data, original_size, compressed_size }
    }

    /// How many bytes the compression saved.
    pub fn saved_bytes(&self) -> (r: usize)
        requires
            self.compressed_size <= self.original_size,
        ensures
            r == self.original_size - self.compressed_size,
    {
        self.original_size - self.compressed_size
    }
}

/// Compresses canonical encodings with Brotli.
pub struct CompressionManager;

impl CompressionManager {
    /// Compresses the bytes; the result carries the Brotli output of
    /// exactly these bytes and both sizes.  Compression of in-memory bytes
    /// always succeeds.
    pub fn compress_brotli(data: &[u8]) -> (r: Result<CompressionResult, BeatmapWorkerError>)
        ensures
            r matches Ok(cr) && cr.compressed_data@ == brotli_of(data@) && cr.original_size
                == data@.len() && cr.compressed_size == brotli_of(data@).len(),
    {
        match brotli_compress_bytes(data) {
            Ok(out) => Ok(CompressionResult::from_parts(data.len(), out)),
            Err(_) => Err(
                BeatmapWorkerError::ProcessingFailed(
                    String::from_str("brotli compression failed"),
                ),
            ),
        }
    }

    /// Compresses the UTF-8 bytes of a text; always succeeds.
    pub fn compress_string(data: &str) -> (r: Result<CompressionResult, BeatmapWorkerError>)
        ensures
            r matches Ok(cr) && cr.compressed_data@ == brotli_of(data.spec_bytes())
                && cr.original_size == data.spec_bytes().len() && cr.compressed_size == brotli_of(
                data.spec_bytes(),
            ).len(),
    {
        Self::compress_brotli(data.as_bytes())
    }
}

} // verus!
