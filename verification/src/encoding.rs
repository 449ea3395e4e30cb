//! The text form in which the target's content is emitted.

use vstd::prelude::*;

verus! {

/// What `base64::encode` returns for these bytes: their base64 text in the
/// standard alphabet, with padding.
pub uninterp spec fn base64_text(bytes: Seq<u8>) -> Seq<char>;

/// Content of this many bytes has a text form that one buffer can hold: four
/// bytes for every three of the content, the last group filled up, come to no
/// more than `isize::MAX`.
pub open spec fn encodable(len: nat) -> bool {
    len <= (isize::MAX / 4) * 3
}

/// Calls `base64::encode`.
///
/// Trusted: the result is the base64 text of the bytes, named by
/// [`base64_text`]. The outside function panics where the length of the text
/// overflows `usize`, and the buffer it fills cannot be had where that length
/// exceeds `isize::MAX`; those lengths are left out.
#[verifier::external_body]
fn base64_encode(bytes: &Vec<u8>) -> (text: String)
    requires
        encodable(bytes@.len()),
    ensures
        text@ == base64_text(bytes@),
{
    base64::encode(bytes)
}

/// The text form of `bytes`, or nothing where they are too many to encode.
pub fn encode_content(bytes: &Vec<u8>) -> (text: Option<String>)
    ensures
        match text {
            Some(t) => encodable(bytes@.len()) && t@ == base64_text(bytes@),
            None => !encodable(bytes@.len()),
        },
{
    if bytes.len() <= (isize::MAX as usize / 4) * 3 {
        Some(base64_encode(bytes))
    } else {
        None
    }
}

/// Takes `snapshot` as the value emitted last and hands it back for output
/// where it differs from the one before.
pub fn emit_if_changed(last_emitted: &mut String, snapshot: String) -> (line: Option<String>)
    ensures
        final(last_emitted)@ == snapshot@,
        match line {
            Some(l) => l@ == snapshot@ && snapshot@ != old(last_emitted)@,
            None => snapshot@ == old(last_emitted)@,
        },
{
    if snapshot != *last_emitted {
        *last_emitted = snapshot.clone();
        Some(snapshot)
    } else {
        None
    }
}

} // verus!
