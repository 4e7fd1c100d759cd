//! What comes back from a program that was run: its output as bytes, and as text.

use vstd::prelude::*;

verus! {

/// What `String::from_utf8_lossy` makes of `bytes`: the text that they encode, with replacement
/// characters where they encode none.
pub uninterp spec fn lossy_text(bytes: Seq<u8>) -> Seq<char>;

/// Calls `String::from_utf8_lossy`. The result is a function of the bytes, and where they are
/// UTF-8 it is the text that they encode.
#[verifier::external_body]
pub(crate) fn decode_lossy(bytes: &Vec<u8>) -> (r: String)
    ensures
        r@ == lossy_text(bytes@),
        vstd::utf8::valid_utf8(bytes@) ==> r@ == vstd::utf8::decode_utf8(bytes@),
{
    String::from_utf8_lossy(bytes).into_owned()
}

/// What came of running a program to its end.
#[derive(Debug)]
pub enum CommandReply {
    /// The program could not be launched.
    NotLaunched(String),
    Finished { success: bool, stdout: Vec<u8>, stderr: Vec<u8> },
}

} // verus!
