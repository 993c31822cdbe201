use imagedl::filename::{file_name_for, last_segment, strip_query, url_extension};
use imagedl::numeral::usize_to_string;

#[test]
fn decimal_rendering_exact_values() {
    assert_eq!(usize_to_string(0), "0");
    assert_eq!(usize_to_string(7), "7");
    assert_eq!(usize_to_string(10), "10");
    assert_eq!(usize_to_string(123), "123");
    assert_eq!(usize_to_string(90210), "90210");
}

#[test]
fn strip_query_takes_prefix_before_first_question_mark() {
    assert_eq!(strip_query("http://x/3.jpg?x=1"), "http://x/3.jpg");
    assert_eq!(strip_query("http://x/3.jpg"), "http://x/3.jpg");
    assert_eq!(strip_query("a?b?c"), "a");
    assert_eq!(strip_query("?right-away"), "");
    assert_eq!(strip_query(""), "");
}

#[test]
fn last_segment_follows_last_slash() {
    assert_eq!(last_segment("http://x/a/b/c.png"), "c.png");
    assert_eq!(last_segment("no-slash.png"), "no-slash.png");
    assert_eq!(last_segment("http://x/dir/"), "");
}

#[test]
fn extension_ignores_query_string() {
    // The two URLs differ only in the query string and get one extension.
    assert_eq!(url_extension("http://x/3.jpg?x=1"), Some("jpg"));
    assert_eq!(url_extension("http://x/3.jpg"), Some("jpg"));
}

#[test]
fn extension_cases() {
    assert_eq!(url_extension("http://x/a/archive.tar.gz"), Some("gz"));
    assert_eq!(url_extension("http://x/image"), None);
    assert_eq!(url_extension("http://x/.hidden"), None);
    assert_eq!(url_extension("http://x/trailing."), Some(""));
    assert_eq!(url_extension("img.png"), Some("png"));
}

#[test]
fn file_name_appends_extension_after_index() {
    assert_eq!(file_name_for(3, "http://x/3.jpg?x=1"), "3.jpg");
    assert_eq!(file_name_for(1, "http://x/photo.png"), "1.png");
    assert_eq!(file_name_for(12, "http://x/a/b/c.tar.gz"), "12.gz");
}

#[test]
fn file_name_without_extension_is_bare_index() {
    assert_eq!(file_name_for(7, "http://x/image"), "7");
    assert_eq!(file_name_for(7, "http://x/image?x=1"), "7");
    assert_eq!(file_name_for(2, "http://x/.hidden"), "2");
}
