use ciderpress::export::strip_html_tags;

#[test]
fn html_is_reduced_to_plain_text() {
    assert_eq!(strip_html_tags("<p>Hello <b>world</b></p>\n<p>again</p>"), "Hello world again");
    assert_eq!(strip_html_tags("plain   text\twith  gaps "), "plain text with gaps");
    assert_eq!(strip_html_tags("a < b and c > d"), "a d");
    assert_eq!(strip_html_tags(""), "");
}
