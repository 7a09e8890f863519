use crate::text::chars_of;
use vstd::prelude::*;

verus! {

/// A line of the release notes as the changelog shows it: a heading, which begins with `#`,
/// in bold; every line with a line feed behind it.
pub open spec fn styled(line: Seq<char>) -> Seq<char> {
    if line.len() > 0 && line[0] == '#' {
        "**"@ + line + "**\n"@
    } else {
        line + "\n"@
    }
}

/// The changelog for what is left of the release notes, `line` being what was read of the
/// line at hand. Lines end where a carriage return stands before a line feed.
pub open spec fn changelog_from(body: Seq<char>, line: Seq<char>) -> Seq<char>
    decreases body.len(),
{
    if body.len() == 0 {
        styled(line)
    } else if body.len() >= 2 && body[0] == '\r' && body[1] == '\n' {
        styled(line) + changelog_from(body.skip(2), Seq::empty())
    } else {
        changelog_from(body.drop_first(), line.push(body[0]))
    }
}

/// The changelog for the notes of a release: their lines, each as the changelog shows it.
pub open spec fn changelog_text(body: Seq<char>) -> Seq<char> {
    changelog_from(body, Seq::empty())
}

/// A changelog is never empty: even empty notes have one line.
pub proof fn lemma_changelog_not_empty(body: Seq<char>, line: Seq<char>)
    ensures
        changelog_from(body, line).len() > 0,
    decreases body.len(),
{
    reveal_strlit("\n");
    reveal_strlit("**\n");
    if body.len() == 0 {
    } else if body.len() >= 2 && body[0] == '\r' && body[1] == '\n' {
    } else {
        lemma_changelog_not_empty(body.drop_first(), line.push(body[0]));
    }
}

fn push_styled(out: &mut String, line: &String, heading: bool)
    requires
        heading == (line@.len() > 0 && line@[0] == '#'),
    ensures
        final(out)@ == old(out)@ + styled(line@),
{
    if heading {
        out.append("**");
        out.append(line.as_str());
        out.append("**\n");
    } else {
        out.append(line.as_str());
        out.append("\n");
    }
    assert(out@ =~= old(out)@ + styled(line@));
}

/// Writes the changelog for the notes of a release.
pub fn changelog(body: &str) -> (text: String)
    ensures
        text@ == changelog_text(body@),
        text@.len() > 0,
{
    let chars = chars_of(body);
    let mut text = String::new();
    let mut line = String::new();
    let mut heading = false;
    let mut i: usize = 0;
    assert(chars@.skip(0) =~= chars@);
    while i < chars.len()
        invariant
            i <= chars.len(),
            heading == (line@.len() > 0 && line@[0] == '#'),
            changelog_text(chars@) == text@ + changelog_from(chars@.skip(i as int), line@),
        decreases chars.len() - i,
    {
        let ghost rest = chars@.skip(i as int);
        if chars.len() - i >= 2 && chars[i] == '\r' && chars[i + 1] == '\n' {
            assert(rest[0] == '\r' && rest[1] == '\n');
            assert(rest.skip(2) =~= chars@.skip(i + 2));
            push_styled(&mut text, &line, heading);
            line = String::new();
            heading = false;
            i += 2;
        } else {
            assert(rest[0] == chars@[i as int]);
            assert(rest.len() >= 2 ==> rest[1] == chars@[i + 1]);
            assert(rest.drop_first() =~= chars@.skip(i + 1));
            if line.as_str().is_empty() {
                heading = chars[i] == '#';
            }
            line.push(chars[i]);
            i += 1;
        }
    }
    push_styled(&mut text, &line, heading);
    proof {
        lemma_changelog_not_empty(body@, Seq::empty());
    }
    text
}

/// What the user reads who asks for the running version.
pub fn version(running: &str) -> (text: String)
    ensures
        text@ == "v"@ + running@,
{
    let mut text = String::from_str("v");
    text.append(running);
    text
}

} // verus!
