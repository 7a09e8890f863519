use regex::Regex;
use url_encoded_data::UrlEncodedData;
use vstd::multiset::Multiset;
use vstd::prelude::*;

pub mod trackers;

use self::trackers::{is_tracker, tracker_names, trackers};

verus! {

/// The links of a text, as a pattern of the regex crate: `http`, perhaps an `s`, `://`, and
/// what follows up to the next white space.
pub const URL_PATTERN: &'static str = r"http[s]?://[\S]*";

/// What the regex crate finds in a text for a pattern: the matches of `Regex::find_iter`
/// from left to right, or nothing where `Regex::new` turns the pattern down.
pub uninterp spec fn regex_matches(pattern: Seq<char>, text: Seq<char>) -> Option<Seq<Seq<char>>>;

/// The texts of a list.
pub open spec fn texts_of(list: Seq<String>) -> Seq<Seq<char>> {
    list.map_values(|text: String| text@)
}

/// Compiles the pattern with `Regex::new` and collects what `Regex::find_iter` finds in
/// the text. The result depends on the pattern and the text alone.
#[verifier::external_body]
pub(crate) fn find_all(pattern: &str, text: &str) -> (found: Option<Vec<String>>)
    ensures
        match found {
            Some(list) => regex_matches(pattern@, text@) == Some(texts_of(list@)),
            None => regex_matches(pattern@, text@) is None,
        },
{
    match Regex::new(pattern) {
        Ok(regex) => Some(regex.find_iter(text).map(|found| found.as_str().to_string()).collect()),
        Err(_) => None,
    }
}

/// A link taken apart by the url_encoded_data crate.
#[verifier::external_type_specification]
#[verifier::external_body]
pub struct ExUrlEncodedData<'a>(UrlEncodedData<'a>);

/// Query parameters in an order: each a name with its value.
pub type Pairs = Seq<(Seq<char>, Seq<char>)>;

/// The names and values of a list of parameters.
pub open spec fn pair_texts(list: Seq<(String, String)>) -> Pairs {
    list.map_values(|pair: (String, String)| (pair.0@, pair.1@))
}

/// The query parameters that a taken-apart link holds, each name with its value, as often
/// as it is there.
pub uninterp spec fn url_pairs(data: UrlEncodedData) -> Multiset<(Seq<char>, Seq<char>)>;

/// The query parameters that `UrlEncodedData::parse_str` reads off a link.
pub uninterp spec fn query_pairs(url: Seq<char>) -> Multiset<(Seq<char>, Seq<char>)>;

/// What `split_url_encoded_string` gives as the part of a link before its parameters.
pub uninterp spec fn query_prefix(url: Seq<char>) -> Seq<char>;

/// How `stringify` writes query parameters in a given order.
pub uninterp spec fn form_encoded(pairs: Pairs) -> Seq<char>;

/// `UrlEncodedData::parse_str` takes a link apart. What it reads depends on the link alone.
#[verifier::external_body]
pub(crate) fn parse_str<'a>(url: &'a str) -> (data: UrlEncodedData<'a>)
    ensures
        url_pairs(data) == query_pairs(url@),
{
    UrlEncodedData::parse_str(url)
}

/// `UrlEncodedData::delete` takes out every parameter of the given name and leaves the rest.
#[verifier::external_body]
pub(crate) fn delete<'a>(data: &mut UrlEncodedData<'a>, key: &'a str)
    ensures
        url_pairs(*final(data)) == url_pairs(*old(data)).filter(
            |pair: (Seq<char>, Seq<char>)| pair.0 != key@,
        ),
{
    data.delete(key);
}

/// `UrlEncodedData::as_string_pairs` hands out the parameters that are left, each once, in
/// an order that the crate's hash map decides.
#[verifier::external_body]
pub(crate) fn as_string_pairs<'a>(data: &UrlEncodedData<'a>) -> (list: Vec<(String, String)>)
    ensures
        pair_texts(list@).to_multiset() == url_pairs(*data),
{
    data.as_string_pairs()
}

/// `split_url_encoded_string` of url_encoded_data parts a link into what stands before its
/// parameters and the parameters; this hands back the first part.
#[verifier::external_body]
pub(crate) fn split_prefix(url: &str) -> (prefix: String)
    ensures
        prefix@ == query_prefix(url@),
{
    url_encoded_data::split_url_encoded_string(url).0.to_string()
}

/// `stringify` of url_encoded_data writes parameters in the order given.
#[verifier::external_body]
pub(crate) fn stringify(pairs: &Vec<(String, String)>) -> (text: String)
    ensures
        text@ == form_encoded(pair_texts(pairs@)),
{
    let borrowed: Vec<(&str, &str)> =
        pairs.iter().map(|pair| (pair.0.as_str(), pair.1.as_str())).collect();
    url_encoded_data::stringify(&borrowed)
}

/// `String::pop` of std takes the last character off a string and hands it back, or
/// nothing where the string is empty.
pub assume_specification[ String::pop ](s: &mut String) -> (last: Option<char>)
    ensures
        old(s)@.len() > 0 ==> last == Some(old(s)@.last()) && final(s)@ == old(s)@.drop_last(),
        old(s)@.len() == 0 ==> last is None && final(s)@ == old(s)@,
;

/// The parameters of a link that do not track the reader.
pub open spec fn kept_pairs(url: Seq<char>) -> Multiset<(Seq<char>, Seq<char>)> {
    query_pairs(url).filter(|pair: (Seq<char>, Seq<char>)| !is_tracker(pair.0))
}

/// A link written with parameters in the given order; where it has none, without its last
/// character, which is then the question mark.
pub open spec fn written(prefix: Seq<char>, order: Pairs) -> Seq<char> {
    let full = prefix + form_encoded(order);
    if order.len() == 0 && full.len() > 0 {
        full.drop_last()
    } else {
        full
    }
}

/// Whether `clean` is the link without the parameters that track the reader, the others
/// written in some order.
pub open spec fn is_clean_of(clean: Seq<char>, url: Seq<char>) -> bool {
    exists|order: Pairs|
        order.to_multiset() == kept_pairs(url) && clean == #[trigger] written(
            query_prefix(url),
            order,
        )
}

/// Takes the parameters that track the reader out of a link.
pub fn clean_url(url: &str) -> (clean: String)
    ensures
        is_clean_of(clean@, url@),
{
    broadcast use vstd::multiset::group_multiset_axioms;

    let mut data = parse_str(url);
    let names = trackers();
    let mut i: usize = 0;
    assert(url_pairs(data) =~= query_pairs(url@).filter(
        |pair: (Seq<char>, Seq<char>)| !tracker_names().take(0).contains(pair.0),
    ));
    while i < names.len()
        invariant
            i <= names.len(),
            names@.len() == tracker_names().len(),
            forall|j: int| 0 <= j < names@.len() ==> (#[trigger] names@[j])@ == tracker_names()[j],
            url_pairs(data) == query_pairs(url@).filter(
                |pair: (Seq<char>, Seq<char>)| !tracker_names().take(i as int).contains(pair.0),
            ),
        decreases names.len() - i,
    {
        delete(&mut data, names[i]);
        proof {
            let seen = tracker_names().take(i as int);
            let more = tracker_names().take(i + 1);
            assert(more =~= seen.push(tracker_names()[i as int]));
            assert forall|name: Seq<char>| more.contains(name) <==> seen.contains(name) || name
                == tracker_names()[i as int] by {
                if seen.contains(name) {
                    let j = choose|j: int| 0 <= j < seen.len() && seen[j] == name;
                    assert(more[j] == name);
                }
                if name == tracker_names()[i as int] {
                    assert(more[i as int] == name);
                }
            }
            assert(url_pairs(data) =~= query_pairs(url@).filter(
                |pair: (Seq<char>, Seq<char>)| !more.contains(pair.0),
            ));
        }
        i += 1;
    }
    proof {
        assert(tracker_names().take(i as int) =~= tracker_names());
        assert(url_pairs(data) =~= kept_pairs(url@));
    }
    let pairs = as_string_pairs(&data);
    let mut clean = split_prefix(url);
    let tail = stringify(&pairs);
    clean.append(tail.as_str());
    if pairs.len() == 0 {
        clean.pop();
    }
    assert(clean@ == written(query_prefix(url@), pair_texts(pairs@)));
    clean
}

/// What the bot answers to a message with links: a heading in bold, then the links, each
/// on a line of its own behind a dash. Without links there is nothing to say.
pub open spec fn message_text(urls: Seq<Seq<char>>) -> Seq<char> {
    if urls.len() == 0 {
        Seq::empty()
    } else {
        "**Sanitized URLs**\n"@ + url_lines(urls)
    }
}

/// The lines of the links.
pub open spec fn url_lines(urls: Seq<Seq<char>>) -> Seq<char>
    decreases urls.len(),
{
    if urls.len() == 0 {
        Seq::empty()
    } else {
        url_lines(urls.drop_last()) + " - "@ + urls.last() + "\n"@
    }
}

/// Writes what the bot answers to a message with these links.
pub fn format_message(urls: Vec<String>) -> (text: String)
    ensures
        text@ == message_text(texts_of(urls@)),
{
    let mut text = String::new();
    if urls.len() == 0 {
        return text;
    }
    text.append("**Sanitized URLs**\n");
    let ghost all = texts_of(urls@);
    let mut lines = String::new();
    let mut i: usize = 0;
    assert(all.take(0) =~= Seq::<Seq<char>>::empty());
    while i < urls.len()
        invariant
            i <= urls.len(),
            all == texts_of(urls@),
            lines@ == url_lines(all.take(i as int)),
        decreases urls.len() - i,
    {
        proof {
            let longer = all.take(i + 1);
            assert(longer.drop_last() =~= all.take(i as int));
            assert(longer.last() == urls@[i as int]@);
        }
        lines.append(" - ");
        lines.append(urls[i].as_str());
        lines.append("\n");
        assert(lines@ =~= url_lines(all.take(i + 1)));
        i += 1;
    }
    assert(all.take(i as int) =~= all);
    text.append(lines.as_str());
    text
}

/// Whether `cleaned` holds, link for link, the links of `urls` without the parameters that
/// track the reader.
pub open spec fn cleans(cleaned: Seq<Seq<char>>, urls: Seq<Seq<char>>) -> bool {
    &&& cleaned.len() == urls.len()
    &&& forall|i: int| 0 <= i < urls.len() ==> is_clean_of(#[trigger] cleaned[i], urls[i])
}

/// Whether `text` is what the bot answers to a message in which these links were found.
pub open spec fn answers(text: Seq<char>, urls: Seq<Seq<char>>) -> bool {
    exists|cleaned: Seq<Seq<char>>| cleans(cleaned, urls) && text == #[trigger] message_text(cleaned)
}

/// The bot's answer to a message in which these links were found: the links without the
/// parameters that track the reader, or nothing where there are no links.
pub fn clean_found(urls: &Vec<String>) -> (text: String)
    ensures
        answers(text@, texts_of(urls@)),
        urls@.len() == 0 <==> text@.len() == 0,
{
    let mut cleaned: Vec<String> = Vec::new();
    let mut i: usize = 0;
    while i < urls.len()
        invariant
            i <= urls.len(),
            cleaned@.len() == i,
            forall|j: int| 0 <= j < i ==> is_clean_of((#[trigger] cleaned@[j])@, urls@[j]@),
        decreases urls.len() - i,
    {
        let clean = clean_url(urls[i].as_str());
        cleaned.push(clean);
        i += 1;
    }
    let ghost texts = texts_of(cleaned@);
    proof {
        assert(cleans(texts, texts_of(urls@)));
        reveal_strlit("**Sanitized URLs**\n");
    }
    format_message(cleaned)
}

/// The bot's answer to a message: the links that the message holds, without the parameters
/// that track the reader; nothing where it holds none.
pub fn clean_urls(content: &str) -> (text: String)
    ensures
        match regex_matches(URL_PATTERN@, content@) {
            Some(urls) => answers(text@, urls) && (urls.len() == 0 <==> text@.len() == 0),
            None => text@.len() == 0,
        },
{
    match find_all(URL_PATTERN, content) {
        Some(urls) => clean_found(&urls),
        None => String::new(),
    }
}

} // verus!
