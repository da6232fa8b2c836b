//! What the console makes of the raw output it captured from the process's
//! standard output between two ticks.
use vstd::prelude::*;
use vstd::utf8::{decode_utf8, valid_utf8};
use crate::console::scene_calls::{chars_of, string_of};
use crate::utils::text::{trim_end, trimmed_end};

verus! {

/// The text `String::from_utf8_lossy` makes of `bytes`: their characters,
/// with each invalid sequence replaced by U+FFFD.
pub uninterp spec fn lossy_text(bytes: Seq<u8>) -> Seq<char>;

/// Calls `String::from_utf8_lossy`: for valid UTF-8 its result is the
/// decoded text; for other input it is named only.
#[verifier::external_body]
fn lossy_utf8(bytes: &[u8]) -> (r: String)
    ensures
        r@ == lossy_text(bytes@),
        valid_utf8(bytes@) ==> r@ == decode_utf8(bytes@),
{
    String::from_utf8_lossy(bytes).into_owned()
}

/// The log message for captured output: nothing when nothing was captured,
/// else the output read as UTF-8 (invalid sequences replaced) without its
/// trailing white space.
pub fn captured_message(output: &[u8]) -> (r: Option<String>)
    ensures
        output@.len() == 0 ==> r is None,
        output@.len() > 0 ==> (r matches Some(s) && s@ == trim_end(lossy_text(output@))),
{
    if output.len() == 0 {
        return None;
    }
    let text = lossy_utf8(output);
    let chars = chars_of(text.as_str());
    let kept = trimmed_end(&chars);
    Some(string_of(kept.as_slice()))
}

} // verus!
