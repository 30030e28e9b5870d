//! The outcome of running a shell snippet for a code-execution node.
use vstd::prelude::*;
use vstd::utf8::{decode_utf8, decode_utf8_encode_utf8, encode_utf8, valid_utf8};

verus! {

/// The text that lossy UTF-8 decoding makes of `bytes`
/// (`String::from_utf8_lossy`): invalid sequences become U+FFFD.
pub uninterp spec fn utf8_lossy(bytes: Seq<u8>) -> Seq<char>;

/// Decodes process output.
///
/// Calls `String::from_utf8_lossy`. The contract claims that the text is a
/// function of the bytes, named `utf8_lossy`, and, as the function's
/// documentation says, that bytes which are valid UTF-8 come back as the
/// characters they encode; what replaces an invalid sequence is not stated.
#[verifier::external_body]
fn decode_lossy(bytes: &[u8]) -> (r: String)
    ensures
        r@ == utf8_lossy(bytes@),
        valid_utf8(bytes@) ==> r@ == decode_utf8(bytes@),
{
    String::from_utf8_lossy(bytes).into_owned()
}

/// The result of a finished snippet: its standard output when it exited
/// successfully, else its standard error as the error.
pub fn code_outcome(success: bool, stdout: &[u8], stderr: &[u8]) -> (r: Result<String, String>)
    ensures
        success ==> (r matches Ok(s) && s@ == utf8_lossy(stdout@)),
        !success ==> (r matches Err(e) && e@ == utf8_lossy(stderr@)),
        success && valid_utf8(stdout@) ==> (r matches Ok(s) && s@ == decode_utf8(stdout@)),
        !success && valid_utf8(stderr@) ==> (r matches Err(e) && e@ == decode_utf8(stderr@)),
{
    if success {
        Ok(decode_lossy(stdout))
    } else {
        Err(decode_lossy(stderr))
    }
}

/// Output that is valid UTF-8 is returned whole: the returned text encodes
/// back to exactly the bytes the process wrote, every line included.
pub proof fn valid_output_is_returned_whole(success: bool, stdout: Seq<u8>, stderr: Seq<u8>, text: Seq<char>)
    requires
        (success && valid_utf8(stdout) && text == decode_utf8(stdout))
            || (!success && valid_utf8(stderr) && text == decode_utf8(stderr)),
    ensures
        success ==> encode_utf8(text) == stdout,
        !success ==> encode_utf8(text) == stderr,
{
    if success {
        decode_utf8_encode_utf8(stdout);
    } else {
        decode_utf8_encode_utf8(stderr);
    }
}

} // verus!
