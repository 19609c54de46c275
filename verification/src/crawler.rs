//! The transport collaborator's verified edge.
//!
//! The HTTP transport itself lives outside the crate; here stand the parts
//! of it that are pure: the cookie header a crawler sends, and the decoding
//! of a fetched body according to its content encoding (gzip through the
//! outside decompressor, anything else passed through unchanged).

use vstd::prelude::*;

use crate::err::DlError;
use vstd::string::StringSliceAdditionalSpecFns;

verus! {

/// The transport interface the pipeline depends on: fetch a body, or
/// download a resource to a path.  Implemented outside the verified core.
pub trait Fetching {
    fn fetch_body(&self, url: &String) -> Result<Vec<u8>, DlError>;

    fn download_to(&self, url: &String, output: &String) -> Result<(), DlError>;
}

/// The cookie header sent with every request: a fixed quality cookie, and
/// the session token when one is configured.
pub open spec fn cookie_bytes(sess: Seq<u8>) -> Seq<u8> {
    if sess.len() == 0 {
        "CURRENT_QUALITY=32;".spec_bytes()
    } else {
        "CURRENT_QUALITY=32;".spec_bytes() + "SESSDATA=".spec_bytes() + sess + ";".spec_bytes()
    }
}

/// An HTTP page fetcher's configuration: the session token it presents.
pub struct Crawler {
    pub sess_data: Vec<u8>,
}

impl Crawler {
    pub fn new(sess_data: &str) -> (r: Self)
        ensures
            r.sess_data@ == sess_data.spec_bytes(),
    {
        Crawler { sess_data: vstd::slice::slice_to_vec(sess_data.as_bytes()) }
    }

    /// The cookie header for this configuration.
    pub fn cookie_header(&self) -> (r: Vec<u8>)
        ensures
            r@ == cookie_bytes(self.sess_data@),
    {
        let mut out: Vec<u8> = Vec::new();
        out.extend_from_slice("CURRENT_QUALITY=32;".as_bytes());
        if self.sess_data.len() != 0 {
            out.extend_from_slice("SESSDATA=".as_bytes());
            out.extend_from_slice(self.sess_data.as_slice());
            out.extend_from_slice(";".as_bytes());
        }
        out
    }
}

/// What decompressing a gzip stream yields; decompression is a function of
/// the input alone, `None` meaning the input is not a complete gzip stream.
pub uninterp spec fn gunzip_of(data: Seq<u8>) -> Option<Seq<u8>>;

/// Relies on `flate2::read::GzDecoder` read to the end: it fails exactly on
/// input that is not a complete gzip stream, and otherwise yields the
/// decompressed bytes.
#[verifier::external_body]
fn gunzip(data: &[u8]) -> (r: Option<Vec<u8>>)
    ensures
        r is Some <==> gunzip_of(data@) is Some,
        r matches Some(out) ==> out@ == gunzip_of(data@).unwrap(),
{
    let mut reader = flate2::read::GzDecoder::new(data);
    let mut buf: Vec<u8> = Vec::new();
    match std::io::Read::read_to_end(&mut reader, &mut buf) {
        Ok(_) => Some(buf),
        Err(_) => None,
    }
}

/// Decode a fetched body according to its `Content-Encoding`: a gzip body
/// is decompressed (a broken stream is a `FetchError`), anything else is
/// passed through unchanged.
pub fn decode_body(encoding: &str, body: Vec<u8>) -> (r: Result<Vec<u8>, DlError>)
    ensures
        encoding.spec_bytes() == "gzip".spec_bytes() ==> match gunzip_of(body@) {
            None => r matches Err(DlError::FetchError { .. }),
            Some(out) => r matches Ok(o) && o@ == out,
        },
        encoding.spec_bytes() != "gzip".spec_bytes() ==> (r matches Ok(o) && o@ == body@),
{
    if crate::text::bytes_eq(encoding.as_bytes(), "gzip".as_bytes()) {
        match gunzip(body.as_slice()) {
            Some(out) => Ok(out),
            None => Err(
                DlError::FetchError {
                    message: vstd::slice::slice_to_vec("broken gzip body".as_bytes()),
                },
            ),
        }
    } else {
        Ok(body)
    }
}

} // verus!
