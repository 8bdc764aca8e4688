//! Choices made when HTML is parsed.
use vstd::prelude::*;

verus! {

/// Whether text is parsed as a whole document rather than as a fragment: when a document
/// is asked for, or the text looks like one (it has a doctype), unless a fragment is asked
/// for. Asking for both is a caller's error.
pub fn parse_as_document(force_document: bool, force_fragment: bool, looks_like_document: bool) -> (r:
    bool)
    requires
        !(force_document && force_fragment),
    ensures
        r == ((force_document || looks_like_document) && !force_fragment),
{
    (force_document || looks_like_document) && !force_fragment
}

} // verus!
