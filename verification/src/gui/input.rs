//! Typing and copying a transcription.

use crate::gui::clipboard::{FlowView, OutcomeView, PasteFlow, PasteOutcome};
use crate::strings;
use vstd::prelude::*;
use vstd::string::*;

verus! {

fn blank_text(text: &str) -> (r: bool)
    ensures
        r == strings::blank(text@),
{
    proof {
        strings::blank_iff_trim_empty(text@);
    }
    strings::trim_chars(&strings::chars_of(text)).len() == 0
}

/// Begins typing a text by way of the clipboard; a blank one is refused.
pub fn type_text(text: &str) -> (r: Result<PasteFlow, PasteOutcome>)
    ensures
        r is Ok <==> !strings::blank(text@),
        r matches Ok(flow) ==> flow@ == FlowView::begin(text@),
        r matches Err(o) ==> o@ == OutcomeView::Refused("transcription is empty"@),
{
    if blank_text(text) {
        Err(PasteOutcome::Refused { reason: "transcription is empty".to_owned() })
    } else {
        Ok(PasteFlow::paste_text_via_clipboard(text))
    }
}

/// The outcome of typing a text key by key, and whether it is to be copied instead.
/// `failure` is the text of the error, where `wtype` could not be run; it does not count for a
/// blank text, which is not typed.
pub fn type_text_direct(text: &str, failure: Option<&str>) -> (r: (PasteOutcome, bool))
    ensures
        r.0@ == (if strings::blank(text@) {
            OutcomeView::Refused("transcription is empty"@)
        } else {
            match failure {
                None => OutcomeView::Done,
                Some(e) => OutcomeView::Refused(
                    "wtype failed and no clipboard paste: "@ + e@,
                ),
            }
        }),
        r.1 == (!strings::blank(text@) && failure is Some),
{
    if blank_text(text) {
        return (PasteOutcome::Refused { reason: "transcription is empty".to_owned() }, false);
    }
    match failure {
        None => (PasteOutcome::Done, false),
        Some(e) => (
            PasteOutcome::Refused {
                reason: strings::cat("wtype failed and no clipboard paste: ", e),
            },
            true,
        ),
    }
}

/// Whether a text is worth copying: a blank one is not.
pub fn copy_text(text: &str) -> (r: bool)
    ensures
        r == !strings::blank(text@),
{
    !blank_text(text)
}

} // verus!
