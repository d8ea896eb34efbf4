//! What a finished child process left behind.

use vstd::prelude::*;

verus! {

/// How a child process ended, and what it wrote.
#[derive(Debug)]
pub struct Output {
    pub success: bool,
    pub stdout: Vec<u8>,
    pub stderr: Vec<u8>,
}

/// What an [`Output`] holds.
pub struct OutputView {
    pub success: bool,
    pub stdout: Seq<u8>,
    pub stderr: Seq<u8>,
}

impl View for Output {
    type V = OutputView;

    open spec fn view(&self) -> OutputView {
        OutputView { success: self.success, stdout: self.stdout@, stderr: self.stderr@ }
    }
}

/// What a run of a child process left behind, or why it could not be started.
pub open spec fn ran_view(ran: Result<Output, String>) -> Result<OutputView, Seq<char>> {
    match ran {
        Ok(output) => Ok(output@),
        Err(cause) => Err(cause@),
    }
}

/// The text that `String::from_utf8_lossy` makes of bytes: a replacement
/// character stands for whatever is not UTF-8.
pub uninterp spec fn lossy_text(bytes: Seq<u8>) -> Seq<char>;

/// `String::from_utf8_lossy` gives one text for the same bytes, and of bytes
/// that are UTF-8 it gives the text that they encode.
#[verifier::external_body]
pub(crate) fn decode_lossy(bytes: &[u8]) -> (r: String)
    ensures
        r@ == lossy_text(bytes@),
        vstd::utf8::valid_utf8(bytes@) ==> r@ == vstd::utf8::decode_utf8(bytes@),
{
    String::from_utf8_lossy(bytes).into_owned()
}

} // verus!
