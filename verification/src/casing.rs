//! Letter cases of generated identifiers.

use vstd::prelude::*;
use vstd::utf8::is_ascii_chars;

verus! {

/// The letter cases in which generated names are written.
#[derive(Clone, Copy, Debug, PartialEq, Eq, Structural)]
pub enum CaseStyle {
    /// `EveryWordCapitalised`
    Pascal,
    /// `lower_with_underscores`
    Snake,
    /// `UPPER_WITH_UNDERSCORES`
    ScreamingSnake,
}

/// The text that `convert_case` gives for `text` in `style`: `text` is cut
/// into words at spaces, hyphens, underscores, changes of letter case and
/// between letters and digits, and the words are written anew in the style
/// asked for.
pub uninterp spec fn cased(text: Seq<char>, style: CaseStyle) -> Seq<char>;

/// Trusted: calls `convert_case::Casing::to_case` on `text`. The result is
/// named by [`cased`]; nothing more is claimed of it. The conversion cuts the
/// text at character counts that it then uses as byte offsets, which is only
/// sound for ASCII text, hence the precondition.
#[verifier::external_body]
pub(crate) fn to_case(text: &str, style: CaseStyle) -> (r: String)
    requires
        is_ascii_chars(text@),
    ensures
        r@ == cased(text@, style),
{
    let case = match style {
        CaseStyle::Pascal => convert_case::Case::Pascal,
        CaseStyle::Snake => convert_case::Case::Snake,
        CaseStyle::ScreamingSnake => convert_case::Case::ScreamingSnake,
    };
    convert_case::Casing::to_case(text, case)
}

} // verus!
