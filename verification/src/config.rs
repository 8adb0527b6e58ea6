//! The configuration that a server is started from.

use crate::server::{ServerView, WebrsHttp};
use vstd::prelude::*;

verus! {

/// Which codecs may be used.
#[derive(Debug)]
pub struct Compression {
    pub zstd: bool,
    pub br: bool,
    pub gzip: bool,
}

/// The configuration of a server.
#[derive(Debug)]
pub struct Config {
    pub port: u16,
    pub content_dir: String,
    pub compression: Compression,
}

impl Default for Config {
    /// Port 8080, the directory `content`, and every codec allowed.
    fn default() -> (r: Self)
        ensures
            r.port == 8080,
            r.content_dir@ == "content"@,
            r.compression.zstd && r.compression.br && r.compression.gzip,
    {
        Config {
            port: 8080,
            content_dir: "content".to_owned(),
            compression: Compression { zstd: true, br: true, gzip: true },
        }
    }
}

impl Config {
    /// The settings of the server that the configuration describes.
    pub fn settings(&self) -> (r: WebrsHttp)
        ensures
            r@ == (ServerView {
                port: self.port,
                compression: (self.compression.zstd, self.compression.br, self.compression.gzip),
                content_dir: self.content_dir@,
            }),
    {
        WebrsHttp::new(
            self.port,
            (self.compression.zstd, self.compression.br, self.compression.gzip),
            self.content_dir.clone(),
        )
    }
}

} // verus!
