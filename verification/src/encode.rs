//! Presentation encodings: the profile-photo data URL and the user-info
//! record handed to observers.

use vstd::prelude::*;

use base64::Engine as _;

verus! {

/// The base64 rendering (standard alphabet, padded) of a byte sequence.
pub uninterp spec fn base64_of(bytes: Seq<u8>) -> Seq<char>;

/// Relies on base64's `Engine::encode` with the standard padded engine: the
/// result is a function of the input bytes alone, four characters for every
/// three bytes, the last group padded.
#[verifier::external_body]
fn base64_encode(bytes: &Vec<u8>) -> (r: String)
    requires
        bytes@.len() <= usize::MAX / 4,
    ensures
        r@ == base64_of(bytes@),
        r@.len() == 4 * ((bytes@.len() + 2) / 3),
{
    base64::engine::general_purpose::STANDARD.encode(bytes.as_slice())
}

/// The MIME type guessed from a file extension: PNG when the extension says
/// so, JPEG otherwise.
pub open spec fn mime_of(extension: Seq<char>) -> Seq<char> {
    if extension == "png"@ {
        "image/png"@
    } else {
        "image/jpeg"@
    }
}

/// The data URL for a profile photo: the guessed MIME type and the base64
/// rendering of the image bytes.
pub fn photo_data_url(image_bytes: &Vec<u8>, extension: &str) -> (r: String)
    requires
        image_bytes@.len() <= usize::MAX / 4,
    ensures
        r@ == "data:"@ + mime_of(extension@) + ";base64,"@ + base64_of(image_bytes@),
{
    let mime: &str = if crate::text::str_eq(extension, "png") {
        "image/png"
    } else {
        "image/jpeg"
    };
    let encoded = base64_encode(image_bytes);
    let r = String::from_str("data:").concat(mime).concat(";base64,").concat(encoded.as_str());
    proof {
        assert(r@ =~= "data:"@ + mime_of(extension@) + ";base64,"@ + base64_of(image_bytes@));
    }
    r
}

/// The user-info record sent to observers, with the two names in place.
pub fn format_user_info(username: &str, realname: &str) -> (r: String)
    ensures
        r@ == "{\"username\": \""@ + username@ + "\", \"realname\": \""@ + realname@ + "\"}"@,
{
    let r = String::from_str("{\"username\": \"").concat(username).concat(
        "\", \"realname\": \"",
    ).concat(realname).concat("\"}");
    proof {
        assert(r@ =~= "{\"username\": \""@ + username@ + "\", \"realname\": \""@ + realname@
            + "\"}"@);
    }
    r
}

} // verus!
