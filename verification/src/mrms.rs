//! MRMS downloads: gzip-compressed GRIB2 payloads.
use vstd::prelude::*;
use std::io::Read;
use crate::text::{append, has_prefix, owned};

verus! {

/// What flate2's single-member gzip reader yields for `data` when read to
/// the end: the decompressed bytes, or `None` when it reports an error.
pub uninterp spec fn gzip_member(data: Seq<u8>) -> Option<Seq<u8>>;

/// flate2's `read::GzDecoder` over `data`, read to the end. The contract
/// names the outcome `gzip_member` of the input; on failure it returns the
/// reader's error text, of which nothing is claimed.
#[verifier::external_body]
fn gunzip(data: &Vec<u8>) -> (r: Result<Vec<u8>, String>)
    ensures
        match r {
            Ok(v) => gzip_member(data@) == Some(v@),
            Err(_) => gzip_member(data@) is None,
        },
{
    let mut decoder = flate2::read::GzDecoder::new(&data[..]);
    let mut out = Vec::new();
    match decoder.read_to_end(&mut out) {
        Ok(_) => Ok(out),
        Err(e) => Err(format!("{}", e)),
    }
}

/// `data` starts with the gzip magic bytes.
pub open spec fn is_gzip(data: Seq<u8>) -> bool {
    data.len() >= 2 && data[0] == 0x1f && data[1] == 0x8b
}

/// The result of a gzip read: the bytes, or the error text prefixed with
/// "Failed to decompress gzip: ".
pub fn gzip_outcome(decoded: Result<Vec<u8>, String>) -> (r: Result<Vec<u8>, String>)
    ensures
        match decoded {
            Ok(v) => r == Ok::<Vec<u8>, String>(v),
            Err(e) => r matches Err(m) && m@ == "Failed to decompress gzip: "@ + e@,
        },
{
    match decoded {
        Ok(v) => Ok(v),
        Err(e) => {
            let mut m = owned("Failed to decompress gzip: ");
            append(&mut m, e.as_str());
            Err(m)
        },
    }
}

/// Decompress a payload that starts with the gzip magic bytes; any other
/// payload is returned unchanged.
pub fn decompress_gz(data: Vec<u8>) -> (r: Result<Vec<u8>, String>)
    ensures
        !is_gzip(data@) ==> r == Ok::<Vec<u8>, String>(data),
        is_gzip(data@) ==> match r {
            Ok(v) => gzip_member(data@) == Some(v@),
            Err(m) => gzip_member(data@) is None && has_prefix(m@, "Failed to decompress gzip: "@),
        },
{
    if data.len() >= 2 && data[0] == 0x1f && data[1] == 0x8b {
        let r = gzip_outcome(gunzip(&data));
        proof {
            reveal_strlit("Failed to decompress gzip: ");
            if let Err(m) = &r {
                assert(m@.subrange(0, "Failed to decompress gzip: "@.len() as int) =~= "Failed to decompress gzip: "@);
            }
        }
        r
    } else {
        Ok(data)
    }
}

} // verus!
