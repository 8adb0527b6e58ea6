//! The body codecs, each with its fixed settings.

use vstd::prelude::*;

verus! {

/// A codec that a response body can be encoded with.
#[derive(Debug, PartialEq, Eq, Clone, Copy, Structural)]
pub enum Codec {
    Zstd,
    Br,
    Gzip,
}

/// The compression level that zstd is run with.
pub const ZSTD_LEVEL: i32 = 3;

/// The size of the buffer that brotli reads its input through.
pub const BROTLI_BUFFER: usize = 4096;

/// The quality that brotli is run with.
pub const BROTLI_QUALITY: u32 = 11;

/// The base-two logarithm of the window that brotli is run with.
pub const BROTLI_WINDOW: u32 = 21;

/// What `flate2` encodes `data` as, in the gzip format at its default level;
/// `None` where the encoder reports an error.
pub uninterp spec fn gzip_encoded(data: Seq<u8>) -> Option<Seq<u8>>;

/// What `zstd` encodes `data` as, as one frame at the given level; `None`
/// where the encoder reports an error.
pub uninterp spec fn zstd_encoded(data: Seq<u8>, level: i32) -> Option<Seq<u8>>;

/// What `brotli` encodes `data` as with the given input buffer size, quality
/// and window; `None` where the encoder reports an error.
pub uninterp spec fn brotli_encoded(data: Seq<u8>, buffer: usize, quality: u32, window: u32)
    -> Option<Seq<u8>>;

/// `flate2::bufread::GzEncoder::new` with `flate2::Compression::default`,
/// read to its end: the gzip stream of `data`.
#[verifier::external_body]
fn gzip_encode(data: &[u8]) -> (r: Option<Vec<u8>>)
    ensures
        match r {
            Some(out) => gzip_encoded(data@) == Some(out@),
            None => gzip_encoded(data@) is None,
        },
{
    let mut out: Vec<u8> = Vec::new();
    let mut encoder = flate2::bufread::GzEncoder::new(data, flate2::Compression::default());
    match std::io::Read::read_to_end(&mut encoder, &mut out) {
        Ok(_) => Some(out),
        Err(_) => None,
    }
}

/// `zstd::encode_all`: the zstd frame of `data` at the given level.
#[verifier::external_body]
fn zstd_encode(data: &[u8], level: i32) -> (r: Option<Vec<u8>>)
    requires
        0 <= level <= 22,
    ensures
        match r {
            Some(out) => zstd_encoded(data@, level) == Some(out@),
            None => zstd_encoded(data@, level) is None,
        },
{
    match zstd::encode_all(data, level) {
        Ok(out) => Some(out),
        Err(_) => None,
    }
}

/// `brotli::CompressorReader::new`, read to its end: the brotli stream of
/// `data`.
#[verifier::external_body]
fn brotli_encode(data: &[u8], buffer: usize, quality: u32, window: u32) -> (r: Option<Vec<u8>>)
    requires
        0 < buffer <= 65536,
        quality <= 11,
        10 <= window <= 24,
    ensures
        match r {
            Some(out) => brotli_encoded(data@, buffer, quality, window) == Some(out@),
            None => brotli_encoded(data@, buffer, quality, window) is None,
        },
{
    let mut out: Vec<u8> = Vec::new();
    let mut encoder = brotli::CompressorReader::new(data, buffer, quality, window);
    match std::io::Read::read_to_end(&mut encoder, &mut out) {
        Ok(_) => Some(out),
        Err(_) => None,
    }
}

/// The name that a codec goes by in `accept-encoding` and
/// `content-encoding`.
pub open spec fn codec_name(codec: Codec) -> Seq<char> {
    match codec {
        Codec::Zstd => "zstd"@,
        Codec::Br => "br"@,
        Codec::Gzip => "gzip"@,
    }
}

/// What a codec encodes `data` as, with the settings of this server.
pub open spec fn encoded(codec: Codec, data: Seq<u8>) -> Option<Seq<u8>> {
    match codec {
        Codec::Zstd => zstd_encoded(data, ZSTD_LEVEL),
        Codec::Br => brotli_encoded(data, BROTLI_BUFFER, BROTLI_QUALITY, BROTLI_WINDOW),
        Codec::Gzip => gzip_encoded(data),
    }
}

impl Codec {
    /// The name of the codec.
    pub fn name(&self) -> (n: &'static str)
        ensures
            n@ == codec_name(*self),
    {
        match self {
            Codec::Zstd => "zstd",
            Codec::Br => "br",
            Codec::Gzip => "gzip",
        }
    }

    /// Encodes `data` with the codec.
    pub fn encode(&self, data: &[u8]) -> (r: Option<Vec<u8>>)
        ensures
            match r {
                Some(out) => encoded(*self, data@) == Some(out@),
                None => encoded(*self, data@) is None,
            },
    {
        match self {
            Codec::Zstd => zstd_encode(data, ZSTD_LEVEL),
            Codec::Br => brotli_encode(data, BROTLI_BUFFER, BROTLI_QUALITY, BROTLI_WINDOW),
            Codec::Gzip => gzip_encode(data),
        }
    }
}

} // verus!
