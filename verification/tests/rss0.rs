use feed_rs::model::TextType;
use feed_rs::parser::parse;
use feed_rs::parser::ParseErrorKind;
use feed_rs::parser::ParseFeedError;

#[test]
fn rss091_feed() {
    let xml = r#"<?xml version="1.0"?>
<rss version="0.91">
  <channel>
    <title>WriteTheWeb</title>
    <link>http://writetheweb.com</link>
    <description>News for web users that write back</description>
    <language>en-us</language>
    <copyright>Copyright 2000, WriteTheWeb team.</copyright>
    <managingEditor>editor@writetheweb.com</managingEditor>
    <webMaster>webmaster@writetheweb.com</webMaster>
    <pubDate>Sat, 07 Sep 2002 00:00:01 GMT</pubDate>
    <image>
      <title>WriteTheWeb</title>
      <url>http://writetheweb.com/images/mynetscape88.gif</url>
      <link>http://writetheweb.com</link>
      <width>88</width>
      <height>31</height>
    </image>
    <generator>not known to this flavour</generator>
    <item>
      <title>Giving the world a pluggable Gnutella</title>
      <link>http://writetheweb.com/read.php?item=24</link>
      <description>WorldOS is a framework.</description>
      <guid>not known to this flavour</guid>
      <pubDate>Sat, 07 Sep 2002 00:00:01 GMT</pubDate>
    </item>
    <item>
      <title>Syndication discussions hot up</title>
      <description>After a period of dormancy.</description>
    </item>
  </channel>
</rss>"#;
    let feed = parse(xml.as_bytes()).unwrap();
    assert_eq!(feed.id, "http://writetheweb.com");
    assert_eq!(feed.title.value, "WriteTheWeb");
    assert_eq!(feed.title.content_type, TextType::Html);
    assert_eq!(feed.description.as_ref().unwrap().value, "News for web users that write back");
    assert_eq!(feed.language.as_deref(), Some("en-us"));
    assert_eq!(feed.rights.as_ref().unwrap().value, "Copyright 2000, WriteTheWeb team.");
    assert_eq!(feed.authors[0].name, "editor@writetheweb.com");
    assert_eq!(feed.contributors[0].name, "webmaster@writetheweb.com");
    assert_eq!(feed.updated.unwrap().seconds(), 1031356801);
    assert_eq!(feed.generator, None);
    let logo = feed.logo.as_ref().unwrap();
    assert_eq!(logo.uri, "http://writetheweb.com/images/mynetscape88.gif");
    assert_eq!(logo.width, Some(88));
    assert_eq!(feed.entries.len(), 2);
    assert_eq!(feed.entries[0].id, "http://writetheweb.com/read.php?item=24");
    assert_eq!(feed.entries[0].title.as_ref().unwrap().value, "Giving the world a pluggable Gnutella");
    assert_eq!(feed.entries[0].summary.as_ref().unwrap().content_type, TextType::Html);
    assert_eq!(feed.entries[0].published, None);
    assert_eq!(feed.entries[1].id.len(), 16);
    assert_eq!(feed.entries[1].links.len(), 0);
}

#[test]
fn rss092_item_extras() {
    let xml = r#"<rss version="0.92"><channel><title>t</title>
<item><title>a</title><category domain="d">c</category>
<enclosure url="http://example.org/a.mp3" length="5" type="audio/mpeg"/>
<source url="http://example.org/s.xml">S</source></item></channel></rss>"#;
    let feed = parse(xml.as_bytes()).unwrap();
    let entry = &feed.entries[0];
    assert_eq!(entry.categories[0].term, "c");
    assert_eq!(entry.categories[0].scheme.as_deref(), Some("d"));
    assert_eq!(entry.links[0].href, "http://example.org/a.mp3");
    assert_eq!(entry.links[0].length, Some(5));
    assert_eq!(entry.source.as_deref(), Some("http://example.org/s.xml"));
    assert_eq!(entry.id, "af63dc4c8601ec8c");
    let content = entry.content.as_ref().unwrap();
    assert_eq!(content.body, None);
    assert_eq!(content.content_type.as_str(), "audio/mpeg");
    assert_eq!(content.length, Some(5));
    assert_eq!(content.src.as_ref().unwrap().href, "http://example.org/a.mp3");
}

#[test]
fn rss0_without_channel_is_no_feed() {
    let res = parse(b"<rss version=\"0.91\"><title>t</title></rss>");
    assert!(matches!(res, Err(ParseFeedError::ParseError(ParseErrorKind::NoFeedRoot))));
}

#[test]
fn rss0_items_keep_document_order() {
    let xml = "<rss version=\"0.91\"><channel><item><link>a</link></item><item><link>b</link></item><item><link>c</link></item></channel></rss>";
    let feed = parse(xml.as_bytes()).unwrap();
    let ids: Vec<&str> = feed.entries.iter().map(|e| e.id.as_str()).collect();
    assert_eq!(ids, vec!["a", "b", "c"]);
}

#[test]
fn rss0_item_takes_its_link_not_its_enclosure() {
    let xml = r#"<rss version="0.92"><channel>
<item><enclosure url="http://example.org/a.mp3" type="audio/mpeg"/><link>http://example.org/same</link></item>
<item><enclosure url="http://example.org/b.mp3" type="audio/mpeg"/><link>http://example.org/same</link></item>
</channel></rss>"#;
    let feed = parse(xml.as_bytes()).unwrap();
    assert_eq!(feed.entries[0].id, "http://example.org/same");
    assert_eq!(feed.entries[1].id, "http://example.org/same");
    assert_eq!(feed.entries[0].links[0].href, "http://example.org/a.mp3");
}
