use vstd::prelude::*;

use crate::error::JsonStreamError;

verus! {

/// The body encodings that the stream tells apart.
#[derive(Debug, Clone, Copy, PartialEq, Eq, PartialOrd, Ord)]
pub enum ContentEncoding {
    Identity,
    Gzip,
}

/// The characters of the one header value that selects the compressed path.
pub open spec fn gzip_token() -> Seq<char> {
    seq!['g', 'z', 'i', 'p']
}

impl ContentEncoding {
    /// Reads a `Content-Encoding` header value: `gzip` selects the compressed
    /// path, every other value the raw one. It never fails.
    pub fn from_str(s: &str) -> (r: Result<ContentEncoding, JsonStreamError>)
        ensures
            r == (if s@ == gzip_token() {
                Ok::<ContentEncoding, JsonStreamError>(ContentEncoding::Gzip)
            } else {
                Ok::<ContentEncoding, JsonStreamError>(ContentEncoding::Identity)
            }),
    {
        let n = s.unicode_len();
        if n != 4 {
            return Ok(ContentEncoding::Identity);
        }
        let c0 = s.get_char(0);
        let c1 = s.get_char(1);
        let c2 = s.get_char(2);
        let c3 = s.get_char(3);
        if c0 == 'g' && c1 == 'z' && c2 == 'i' && c3 == 'p' {
            assert(s@ =~= gzip_token());
            Ok(ContentEncoding::Gzip)
        } else {
            Ok(ContentEncoding::Identity)
        }
    }
}

} // verus!
