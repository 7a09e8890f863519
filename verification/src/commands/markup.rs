use serenity::utils::MessageBuilder;
use vstd::prelude::*;

verus! {

/// What serenity's `MessageBuilder::push_mono_safe` puts into an empty message for a text:
/// the text between two backticks, made harmless first (invite links, marks that turn the
/// writing direction, mentions of everyone, and the backticks in it).
pub uninterp spec fn mono_safe(text: Seq<char>) -> Seq<char>;

/// What serenity's `MessageBuilder::push_italic_safe` puts into an empty message for a
/// text: the text between two underscores, made harmless first.
pub uninterp spec fn italic_safe(text: Seq<char>) -> Seq<char>;

/// Calls serenity's `MessageBuilder::push_mono_safe` on an empty message and hands back
/// what was built. The result depends on the text alone.
#[verifier::external_body]
pub(crate) fn mono_safe_text(text: &str) -> (safe: String)
    ensures
        safe@ == mono_safe(text@),
{
    MessageBuilder::new().push_mono_safe(text).build()
}

/// Calls serenity's `MessageBuilder::push_italic_safe` on an empty message and hands back
/// what was built. The result depends on the text alone.
#[verifier::external_body]
pub(crate) fn italic_safe_text(text: &str) -> (safe: String)
    ensures
        safe@ == italic_safe(text@),
{
    MessageBuilder::new().push_italic_safe(text).build()
}

/// The text in bold: between two pairs of asterisks.
pub open spec fn bold(text: Seq<char>) -> Seq<char> {
    "**"@ + text + "**"@
}

/// Appends the text in bold.
pub fn push_bold(out: &mut String, text: &str)
    ensures
        final(out)@ == old(out)@ + bold(text@),
{
    out.append("**");
    out.append(text);
    out.append("**");
    assert(out@ =~= old(out)@ + bold(text@));
}

/// Appends the text in monospace, made harmless.
pub fn push_mono_safe(out: &mut String, text: &str)
    ensures
        final(out)@ == old(out)@ + mono_safe(text@),
{
    let safe = mono_safe_text(text);
    out.append(safe.as_str());
}

/// Appends the text in italics, made harmless.
pub fn push_italic_safe(out: &mut String, text: &str)
    ensures
        final(out)@ == old(out)@ + italic_safe(text@),
{
    let safe = italic_safe_text(text);
    out.append(safe.as_str());
}

} // verus!
