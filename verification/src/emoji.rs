//! Emoji shortcodes: `:smile:` and its kin.

use vstd::prelude::*;

verus! {

/// The text that `gh_emoji::Replacer::replace_all` returns for `text`.
///
/// Every `:name:` whose name is in GitHub's emoji table is replaced by the
/// emoji itself; all other characters stay as they are. The table is fixed at
/// compile time, so the result depends on `text` alone.
pub uninterp spec fn emoji_replaced(text: Seq<char>) -> Seq<char>;

/// Replaces the emoji shortcodes in `text`.
///
/// Calls `gh_emoji::Replacer::new` and then `replace_all` on the fresh
/// replacer. The contract only gives the result its name: which shortcodes
/// exist is the outside crate's business and is not proved here.
#[verifier::external_body]
pub(crate) fn replace_emoji(text: &str) -> (replaced: String)
    ensures
        replaced@ == emoji_replaced(text@),
{
    gh_emoji::Replacer::new().replace_all(text).into_owned()
}

} // verus!
