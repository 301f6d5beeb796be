//! What a finished command hands back, and the decoding of its bytes.

use vstd::prelude::*;
use vstd::utf8::{decode_utf8, valid_utf8};

verus! {

/// The result of running a command: whether it exited successfully, its exit
/// status as text (in `Display` and in `Debug` form), and what it wrote.
#[derive(Clone, Debug)]
pub struct CommandOutput {
    pub success: bool,
    pub status_display: String,
    pub status_debug: String,
    pub stdout: Vec<u8>,
    pub stderr: Vec<u8>,
}

#[verifier::external_type_specification]
#[verifier::external_body]
pub struct ExFromUtf8Error(std::string::FromUtf8Error);

/// `String::from_utf8`: the bytes as text when they are valid UTF-8, an
/// error otherwise.
#[verifier::external_body]
pub(crate) fn string_from_utf8(bytes: Vec<u8>) -> (r: Result<String, std::string::FromUtf8Error>)
    ensures
        r is Ok <==> valid_utf8(bytes@),
        r matches Ok(s) ==> s@ == decode_utf8(bytes@),
{
    String::from_utf8(bytes)
}

/// What `String::from_utf8_lossy` makes of `bytes`.
pub uninterp spec fn utf8_lossy(bytes: Seq<u8>) -> Seq<char>;

/// `String::from_utf8_lossy`: the bytes as text, where each invalid sequence
/// is replaced by U+FFFD; valid UTF-8 is decoded unchanged. How the
/// replacement chooses its sequences is not stated here.
#[verifier::external_body]
pub(crate) fn string_from_utf8_lossy(bytes: &[u8]) -> (r: String)
    ensures
        r@ == utf8_lossy(bytes@),
        valid_utf8(bytes@) ==> r@ == decode_utf8(bytes@),
{
    String::from_utf8_lossy(bytes).into_owned()
}

} // verus!
