use feed_rs::model::Entry;
use feed_rs::model::Feed;
use feed_rs::model::Link;
use feed_rs::model::MimeType;
use feed_rs::model::Text;
use feed_rs::parser::walk::identify_entry;
use feed_rs::parser::walk::identify_feed;
use feed_rs::util::attr_value;
use feed_rs::util::digest::synthesize_id;
use feed_rs::util::element_source::Attribute;
use feed_rs::util::number::parse_decimal;
use feed_rs::util::number::parse_small_decimal;
use feed_rs::util::text::chars_of;
use feed_rs::util::text::same_text;

fn attribute(name: &str, value: &str) -> Attribute {
    Attribute { name: String::from(name), namespace: None, value: String::from(value) }
}

#[test]
fn attributes_are_found_by_local_name() {
    let attributes = vec![
        attribute("href", "a"),
        Attribute {
            name: String::from("about"),
            namespace: Some(String::from("urn:ns")),
            value: String::from("b"),
        },
        attribute("href", "c"),
        attribute("", "d"),
    ];
    assert_eq!(attr_value(&attributes, "href"), Some("a"));
    assert_eq!(attr_value(&attributes, "about"), Some("b"));
    assert_eq!(attr_value(&attributes, ""), Some("d"));
    assert_eq!(attr_value(&attributes, "Href"), None);
    assert_eq!(attr_value(&attributes, "hre"), None);
    assert_eq!(attr_value(&Vec::new(), "href"), None);
}

#[test]
fn same_text_compares_characters() {
    assert!(same_text("", ""));
    assert!(same_text("entry", "entry"));
    assert!(same_text("t\u{e9}l\u{e9}", "t\u{e9}l\u{e9}"));
    assert!(!same_text("entry", "entrY"));
    assert!(!same_text("entry", "entr"));
    assert!(!same_text("", "a"));
    assert!(!same_text("e\u{301}", "\u{e9}"));
}

#[test]
fn chars_of_lists_characters() {
    assert_eq!(chars_of(""), Vec::<char>::new());
    assert_eq!(chars_of("a\u{e9}\u{1f600}"), vec!['a', '\u{e9}', '\u{1f600}']);
}

#[test]
fn decimal_numbers() {
    assert_eq!(parse_decimal("0"), Some(0));
    assert_eq!(parse_decimal("42"), Some(42));
    assert_eq!(parse_decimal("007"), Some(7));
    assert_eq!(parse_decimal("18446744073709551615"), Some(u64::MAX));
    assert_eq!(parse_decimal("18446744073709551616"), None);
    assert_eq!(parse_decimal("99999999999999999999"), None);
    assert_eq!(parse_decimal("000000000000000000000000001"), Some(1));
    assert_eq!(parse_decimal(""), None);
    assert_eq!(parse_decimal("4a"), None);
    assert_eq!(parse_decimal("+4"), None);
    assert_eq!(parse_decimal("-4"), None);
    assert_eq!(parse_decimal(" 4"), None);
    assert_eq!(parse_decimal("\u{664}"), None);
    assert_eq!(parse_small_decimal("4294967295"), Some(u32::MAX));
    assert_eq!(parse_small_decimal("4294967296"), None);
    assert_eq!(parse_small_decimal("88"), Some(88));
    assert_eq!(parse_small_decimal("wide"), None);
}

#[test]
fn media_types() {
    assert_eq!(MimeType::parse("text/html").unwrap().as_str(), "text/html");
    assert_eq!(
        MimeType::parse("application/atom+xml;charset=utf-8").unwrap().as_str(),
        "application/atom+xml;charset=utf-8"
    );
    assert_eq!(MimeType::parse("a/b").unwrap().as_str(), "a/b");
    for text in ["", "a", "a/", "/b", "/", "a//b", "a/b/c", "text html", "text/ html", "html", "bogus"] {
        assert_eq!(MimeType::parse(text), None, "{}", text);
    }
    assert_eq!(MimeType::text_plain().as_str(), "text/plain");
    assert_eq!(MimeType::text_html().as_str(), "text/html");
    assert_eq!(MimeType::xhtml().as_str(), "application/xhtml+xml");
    assert_eq!(MimeType::parse("text/plain"), Some(MimeType::text_plain()));
    assert_eq!(MimeType::parse("application/xhtml+xml"), Some(MimeType::xhtml()));
}

#[test]
fn made_up_identifiers() {
    let link = String::from("http://example.org/a");
    assert_eq!(synthesize_id(Some(&link), "title", "description"), "http://example.org/a");
    assert_eq!(synthesize_id(None, "", ""), "cbf29ce484222325");
    assert_eq!(synthesize_id(None, "a", ""), "af63dc4c8601ec8c");
    assert_eq!(synthesize_id(None, "", "a"), "af63dc4c8601ec8c");
    assert_eq!(synthesize_id(None, "Star City", "How do Americans get ready?"), "5b28017ff41f2c1c");
    assert_eq!(synthesize_id(None, "t\u{e9}", "l\u{e9}"), "c992a5ecba9bb20d");
    assert_ne!(synthesize_id(None, "a", "b"), synthesize_id(None, "b", "a"));
}

#[test]
fn entries_and_feeds_get_an_identifier() {
    let mut entry = Entry::empty();
    entry.id = String::from("own");
    entry.links.push(Link::to(String::from("http://example.org/")));
    assert_eq!(identify_entry(entry).id, "own");

    let mut entry = Entry::empty();
    let mut enclosure = Link::to(String::from("http://example.org/a.mp3"));
    enclosure.rel = Some(String::from("enclosure"));
    let mut alternate = Link::to(String::from("http://example.org/"));
    alternate.rel = Some(String::from("alternate"));
    entry.links.push(Link::to(String::new()));
    entry.links.push(enclosure);
    entry.links.push(alternate);
    entry.links.push(Link::to(String::from("http://example.org/2")));
    assert_eq!(identify_entry(entry).id, "http://example.org/");

    let mut entry = Entry::empty();
    entry.links.push(Link::to(String::new()));
    entry.title = Some(Text::plain(String::from("Star City")));
    entry.summary = Some(Text::html(String::from("How do Americans get ready?")));
    let entry = identify_entry(entry);
    assert_eq!(entry.id, "5b28017ff41f2c1c");
    assert_eq!(entry.links.len(), 1);

    let mut feed = Feed::empty();
    feed.title = Text::html(String::from("sample feed"));
    assert_eq!(identify_feed(feed).id, "b00858ba379f3bc5");
    let mut feed = Feed::empty();
    feed.title = Text::html(String::from("Star City"));
    feed.description = Some(Text::html(String::from("How do Americans get ready?")));
    assert_eq!(identify_feed(feed).id, "5b28017ff41f2c1c");
    let mut feed = Feed::empty();
    feed.id = String::from("own");
    assert_eq!(identify_feed(feed).id, "own");
}

#[test]
fn empty_values() {
    let feed = Feed::empty();
    assert_eq!(feed.id, "");
    assert_eq!(feed.title.value, "");
    assert_eq!(feed.entries.len(), 0);
    assert_eq!(feed.updated, None);
    let entry = Entry::empty();
    assert_eq!(entry.id, "");
    assert_eq!(entry.title, None);
    assert_eq!(entry.links.len(), 0);
}
