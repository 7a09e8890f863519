use secubot::events::message::clean_urls::trackers::trackers;
use secubot::events::message::clean_urls::{
    clean_found, clean_url, clean_urls, format_message, URL_PATTERN,
};

#[test]
fn trackers_are_the_known_35() {
    let names = trackers();
    assert_eq!(names.len(), 35);
    assert_eq!(names[0], "utm_source");
    assert_eq!(names[11], "ICID");
    assert_eq!(names[26], "fbclid");
    assert_eq!(names[34], "spm");
    assert!(names.contains(&"gclid"));
    assert!(names.contains(&"ref"));
    assert!(!names.contains(&"id"));
}

#[test]
fn pattern_is_that_of_a_link() {
    assert_eq!(URL_PATTERN, r"http[s]?://[\S]*");
}

#[test]
fn tracker_is_taken_out_and_the_rest_stays() {
    assert_eq!(clean_url("https://example.com/?utm_source=news&id=5"), "https://example.com/?id=5");
    assert_eq!(clean_url("https://example.com/?id=5&fbclid=abc"), "https://example.com/?id=5");
    assert_eq!(clean_url("https://example.com/?id=5"), "https://example.com/?id=5");
}

#[test]
fn link_with_trackers_only_loses_its_question_mark() {
    assert_eq!(clean_url("https://example.com/?utm_source=news"), "https://example.com/");
    assert_eq!(
        clean_url("https://example.com/page?utm_source=a&utm_medium=b&gclid=c&ref=d&spm=e"),
        "https://example.com/page"
    );
    assert_eq!(clean_url("https://example.com/?"), "https://example.com/");
}

#[test]
fn repeated_tracker_goes_wholly() {
    assert_eq!(clean_url("https://example.com/?ref=a&x=1&ref=b"), "https://example.com/?x=1");
}

#[test]
fn names_are_compared_as_written() {
    assert_eq!(clean_url("https://example.com/?UTM_SOURCE=a"), "https://example.com/?UTM_SOURCE=a");
    assert_eq!(clean_url("https://example.com/?icid=a"), "https://example.com/");
    assert_eq!(clean_url("https://example.com/?ICID=a"), "https://example.com/");
    assert_eq!(clean_url("https://example.com/?Icid=a"), "https://example.com/?Icid=a");
}

#[test]
fn values_are_written_form_encoded() {
    assert_eq!(clean_url("https://example.com/?q=a%20b&ref=x"), "https://example.com/?q=a+b");
}

#[test]
fn several_parameters_stay_in_some_order() {
    let clean = clean_url("https://example.com/?a=1&utm_term=t&b=2");
    assert!(clean == "https://example.com/?a=1&b=2" || clean == "https://example.com/?b=2&a=1");
}

#[test]
fn link_without_question_mark_is_read_as_one_parameter() {
    let expected = url_encoded_data::UrlEncodedData::parse_str("https://example.com/path").to_final_string();
    assert_eq!(clean_url("https://example.com/path"), expected);
    assert_eq!(expected, "https%3A%2F%2Fexample.com%2Fpath=");
}

#[test]
fn message_lists_the_links() {
    assert_eq!(format_message(Vec::new()), "");
    assert_eq!(
        format_message(vec![String::from("https://a.b/"), String::from("https://c.d/?x=1")]),
        "**Sanitized URLs**\n - https://a.b/\n - https://c.d/?x=1\n"
    );
}

#[test]
fn found_links_are_cleaned_one_by_one() {
    assert_eq!(clean_found(&Vec::new()), "");
    assert_eq!(
        clean_found(&vec![
            String::from("https://a.b/?utm_source=x"),
            String::from("http://c.d/?x=1&gclid=2"),
        ]),
        "**Sanitized URLs**\n - https://a.b/\n - http://c.d/?x=1\n"
    );
}

#[test]
fn links_of_a_message_are_found_and_cleaned() {
    assert_eq!(
        clean_urls("look at https://example.com/?utm_source=news&id=5 and http://x.y/?fbclid=1 !"),
        "**Sanitized URLs**\n - https://example.com/?id=5\n - http://x.y/\n"
    );
    assert_eq!(
        clean_urls("https://example.com/?id=5\nhttps://example.com/?ref=a"),
        "**Sanitized URLs**\n - https://example.com/?id=5\n - https://example.com/\n"
    );
}

#[test]
fn message_without_links_gets_no_answer() {
    assert_eq!(clean_urls(""), "");
    assert_eq!(clean_urls("no links here, not even ftp://x.y/?ref=1"), "");
    assert_eq!(clean_urls("http:/almost.a/link"), "");
}
