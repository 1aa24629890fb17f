//! Image proxying: a fetched image is handed to the interface as a data URL.

use vstd::prelude::*;
use vstd::string::*;
use base64::Engine as _;

verus! {

/// The standard padded base64 rendering of a byte string.
pub uninterp spec fn base64_of(bytes: Seq<u8>) -> Seq<char>;

/// Relies on base64's STANDARD engine: the padded base64 alphabet, a function
/// of the bytes alone; four output characters for every three input bytes,
/// rounded up.
#[verifier::external_body]
fn base64_encode(bytes: &Vec<u8>) -> (r: String)
    ensures
        r@ == base64_of(bytes@),
        bytes@.len() == 0 ==> r@.len() == 0,
{
    base64::engine::general_purpose::STANDARD.encode(bytes)
}

/// What a fetched image becomes for the interface: a data URL carrying the
/// body's content type and its base64-encoded bytes.
pub open spec fn data_url(content_type: Seq<char>, bytes: Seq<u8>) -> Seq<char> {
    "data:"@ + content_type + ";base64,"@ + base64_of(bytes)
}

/// Frames fetched image bytes as a data URL.
pub fn make_data_url(content_type: &str, bytes: &Vec<u8>) -> (r: String)
    ensures
        r@ == data_url(content_type@, bytes@),
{
    let mut out: String = "data:".to_owned();
    out.append(content_type);
    out.append(";base64,");
    let encoded = base64_encode(bytes);
    out.append(encoded.as_str());
    proof {
        assert(out@ =~= data_url(content_type@, bytes@));
    }
    out
}

} // verus!
