use feed_rs::model::TextType;
use feed_rs::parser::parse;
use feed_rs::parser::ParseErrorKind;
use feed_rs::parser::ParseFeedError;

#[test]
fn rss2_full_feed() {
    let xml = r#"<?xml version="1.0"?>
<rss version="2.0" xmlns:content="http://purl.org/rss/1.0/modules/content/" xmlns:dc="http://purl.org/dc/elements/1.1/" xmlns:media="http://search.yahoo.com/mrss/">
  <ignored>before the channel</ignored>
  <channel>
    <title>Liftoff News</title>
    <link>http://liftoff.msfc.nasa.gov/</link>
    <description>Liftoff to &lt;b&gt;Space&lt;/b&gt; Exploration.</description>
    <language>en-us</language>
    <copyright>Copyright 2003</copyright>
    <pubDate>Tue, 10 Jun 2003 04:00:00 GMT</pubDate>
    <lastBuildDate>Tue, 10 Jun 2003 09:41:01 GMT</lastBuildDate>
    <pubDate>Tue, 10 Jun 2003 05:00:00 GMT</pubDate>
    <category domain="http://example.org/cat">space</category>
    <generator>Weblog Editor 2.0</generator>
    <managingEditor>editor@example.com</managingEditor>
    <webMaster>webmaster@example.com</webMaster>
    <media:title>not the title</media:title>
    <image>
      <url>http://example.org/logo.gif</url>
      <title>Logo</title>
      <link>http://example.org/</link>
      <width>88</width>
      <height>31</height>
      <description>The logo</description>
    </image>
    <item>
      <title>Star City</title>
      <link>http://liftoff.msfc.nasa.gov/news/2003/news-starcity.asp</link>
      <description>How do Americans get ready?</description>
      <pubDate>Tue, 03 Jun 2003 09:39:21 GMT</pubDate>
      <guid>http://liftoff.msfc.nasa.gov/2003/06/03.html#item573</guid>
      <author>lawyer@boyer.net (Lawyer Boyer)</author>
      <dc:creator>Creator</dc:creator>
      <category>news</category>
      <enclosure url="http://example.org/a.mp3" length="12216320" type="audio/mpeg"/>
      <source url="http://example.org/source.xml">Source</source>
      <comments>http://example.org/comments</comments>
      <content:encoded><![CDATA[<p>The <b>body</b></p>]]></content:encoded>
    </item>
  </channel>
  <channel><title>second channel</title></channel>
</rss>"#;
    let feed = parse(xml.as_bytes()).unwrap();
    assert_eq!(feed.id, "http://liftoff.msfc.nasa.gov/");
    assert_eq!(feed.title.value, "Liftoff News");
    assert_eq!(feed.title.content_type, TextType::Html);
    assert_eq!(feed.links.len(), 1);
    assert_eq!(feed.links[0].href, "http://liftoff.msfc.nasa.gov/");
    let description = feed.description.as_ref().unwrap();
    assert_eq!(description.value, "Liftoff to <b>Space</b> Exploration.");
    assert_eq!(description.content_type, TextType::Html);
    assert_eq!(feed.language.as_deref(), Some("en-us"));
    assert_eq!(feed.rights.as_ref().unwrap().value, "Copyright 2003");
    assert_eq!(feed.rights.as_ref().unwrap().content_type, TextType::Text);
    assert_eq!(feed.updated.unwrap().seconds(), 1055217600 + 5 * 3600 + 41 * 60 + 1);
    assert_eq!(feed.categories.len(), 1);
    assert_eq!(feed.categories[0].term, "space");
    assert_eq!(feed.categories[0].scheme.as_deref(), Some("http://example.org/cat"));
    assert_eq!(feed.generator.as_ref().unwrap().content, "Weblog Editor 2.0");
    assert_eq!(feed.authors.len(), 1);
    assert_eq!(feed.authors[0].name, "editor@example.com");
    assert_eq!(feed.contributors.len(), 1);
    assert_eq!(feed.contributors[0].name, "webmaster@example.com");
    let logo = feed.logo.as_ref().unwrap();
    assert_eq!(logo.uri, "http://example.org/logo.gif");
    assert_eq!(logo.title.as_deref(), Some("Logo"));
    assert_eq!(logo.link.as_deref(), Some("http://example.org/"));
    assert_eq!(logo.width, Some(88));
    assert_eq!(logo.height, Some(31));
    assert_eq!(logo.description.as_deref(), Some("The logo"));
    assert_eq!(feed.icon, None);
    assert_eq!(feed.entries.len(), 1);
    let entry = &feed.entries[0];
    assert_eq!(entry.id, "http://liftoff.msfc.nasa.gov/2003/06/03.html#item573");
    assert_eq!(entry.title.as_ref().unwrap().value, "Star City");
    assert_eq!(entry.title.as_ref().unwrap().content_type, TextType::Html);
    assert_eq!(entry.summary.as_ref().unwrap().value, "How do Americans get ready?");
    assert_eq!(entry.summary.as_ref().unwrap().content_type, TextType::Html);
    assert_eq!(entry.published.unwrap().seconds(), 1054633161);
    assert_eq!(entry.updated, None);
    assert_eq!(entry.authors.len(), 2);
    assert_eq!(entry.authors[0].name, "lawyer@boyer.net (Lawyer Boyer)");
    assert_eq!(entry.authors[1].name, "Creator");
    assert_eq!(entry.categories.len(), 1);
    assert_eq!(entry.categories[0].term, "news");
    assert_eq!(entry.categories[0].scheme, None);
    assert_eq!(entry.links.len(), 2);
    assert_eq!(entry.links[0].href, "http://liftoff.msfc.nasa.gov/news/2003/news-starcity.asp");
    assert_eq!(entry.links[0].rel, None);
    assert_eq!(entry.links[1].href, "http://example.org/a.mp3");
    assert_eq!(entry.links[1].rel.as_deref(), Some("enclosure"));
    assert_eq!(entry.links[1].media_type.as_deref(), Some("audio/mpeg"));
    assert_eq!(entry.links[1].length, Some(12216320));
    assert_eq!(entry.source.as_deref(), Some("http://example.org/source.xml"));
    let content = entry.content.as_ref().unwrap();
    assert_eq!(content.body.as_deref(), Some("<p>The <b>body</b></p>"));
    assert_eq!(content.content_type.as_str(), "text/html");
}

#[test]
fn rss2_item_without_guid_takes_its_link() {
    let xml = "<rss version=\"2.0\"><channel><item><title>Star City</title><link>http://example.org/starcity</link><description>How do Americans get ready?</description></item></channel></rss>";
    let first = parse(xml.as_bytes()).unwrap();
    let second = parse(xml.as_bytes()).unwrap();
    assert_eq!(first.entries[0].id, "http://example.org/starcity");
    assert_eq!(second.entries[0].id, first.entries[0].id);
}

#[test]
fn rss2_item_takes_its_link_not_its_enclosure() {
    let xml = r#"<rss version="2.0"><channel>
<item><enclosure url="http://example.org/a.mp3" length="1" type="audio/mpeg"/><link>http://example.org/same</link></item>
<item><enclosure url="http://example.org/b.mp3" length="2" type="audio/mpeg"/><link>http://example.org/same</link></item>
<item><link>http://example.org/same</link><enclosure url="http://example.org/c.mp3" length="3" type="audio/mpeg"/></item>
<item><title>a</title><enclosure url="http://example.org/d.mp3" length="4" type="audio/mpeg"/></item>
</channel></rss>"#;
    let first = parse(xml.as_bytes()).unwrap();
    let second = parse(xml.as_bytes()).unwrap();
    for i in 0..3 {
        assert_eq!(first.entries[i].id, "http://example.org/same");
        assert_eq!(first.entries[i].links.len(), 2);
    }
    assert_eq!(first.entries[0].links[0].href, "http://example.org/a.mp3");
    assert_eq!(first.entries[3].id, "af63dc4c8601ec8c");
    assert_eq!(first, second);
}

#[test]
fn rss2_item_without_guid_or_link_takes_a_digest() {
    let xml = "<rss version=\"2.0\"><channel><title>sample feed</title><item><title>Star City</title><description>How do Americans get ready?</description></item><item><title>t\u{e9}l</title><description>\u{e9}</description></item></channel></rss>";
    let first = parse(xml.as_bytes()).unwrap();
    let second = parse(xml.as_bytes()).unwrap();
    assert_eq!(first.entries[0].id, "5b28017ff41f2c1c");
    assert_eq!(first.entries[1].id, "c992a5ecba9bb20d");
    assert_eq!(first.id, "b00858ba379f3bc5");
    assert_eq!(first, second);
}

#[test]
fn rss2_items_keep_document_order() {
    let mut xml = String::from("<rss version=\"2.0\"><channel><title>t</title>");
    for i in 0..12 {
        xml.push_str(&format!("<item><guid>g{}</guid></item><link>http://x/{}</link>", i, i));
    }
    xml.push_str("</channel></rss>");
    let feed = parse(xml.as_bytes()).unwrap();
    assert_eq!(feed.entries.len(), 12);
    assert_eq!(feed.links.len(), 12);
    for i in 0..12 {
        assert_eq!(feed.entries[i].id, format!("g{}", i));
        assert_eq!(feed.links[i].href, format!("http://x/{}", i));
    }
}

#[test]
fn rss2_without_channel_is_no_feed() {
    let res = parse(b"<rss version=\"2.0\"><item><title>a</title></item></rss>");
    assert!(matches!(res, Err(ParseFeedError::ParseError(ParseErrorKind::NoFeedRoot))));
    let res = parse(b"<rss version=\"2.0\"/>");
    assert!(matches!(res, Err(ParseFeedError::ParseError(ParseErrorKind::NoFeedRoot))));
}

#[test]
fn rss2_unreadable_dates_are_left_out() {
    let xml = "<rss version=\"2.0\"><channel><pubDate>soon</pubDate><lastBuildDate>later</lastBuildDate><item><pubDate>never</pubDate></item></channel></rss>";
    let feed = parse(xml.as_bytes()).unwrap();
    assert_eq!(feed.updated, None);
    assert_eq!(feed.entries[0].published, None);
}

#[test]
fn rss2_pub_date_stands_in_for_the_build_date() {
    let xml = "<rss version=\"2.0\"><channel><pubDate>Tue, 10 Jun 2003 04:00:00 GMT</pubDate><lastBuildDate>later</lastBuildDate></channel></rss>";
    let feed = parse(xml.as_bytes()).unwrap();
    assert_eq!(feed.updated.unwrap().seconds(), 1055217600);
    let xml = "<rss version=\"2.0\"><channel><pubDate>2003-06-10T04:00:00Z</pubDate></channel></rss>";
    let feed = parse(xml.as_bytes()).unwrap();
    assert_eq!(feed.updated.unwrap().seconds(), 1055217600);
}

#[test]
fn rss2_image_without_url_is_no_logo() {
    let xml = "<rss version=\"2.0\"><channel><image><title>Logo</title><width>wide</width></image></channel></rss>";
    let feed = parse(xml.as_bytes()).unwrap();
    assert_eq!(feed.logo, None);
    let xml = "<rss version=\"2.0\"><channel><image><url>u</url><width>wide</width><height>4294967296</height></image></channel></rss>";
    let feed = parse(xml.as_bytes()).unwrap();
    let logo = feed.logo.unwrap();
    assert_eq!(logo.uri, "u");
    assert_eq!(logo.width, None);
    assert_eq!(logo.height, None);
}

#[test]
fn rss2_broken_item_is_an_xml_error() {
    let res = parse(b"<rss version=\"2.0\"><channel><item><title>a</item></channel></rss>");
    assert!(matches!(res, Err(ParseFeedError::XmlReader(_))));
    let res = parse(b"<rss version=\"2.0\"><channel><item><title>a</title></item></channel>");
    assert!(matches!(res, Err(ParseFeedError::XmlReader(_))));
}

#[test]
fn rss2_enclosure_is_the_content_unless_a_body_is_given() {
    let xml = r#"<rss version="2.0" xmlns:content="http://purl.org/rss/1.0/modules/content/"><channel>
<item><guid>a</guid><enclosure url="http://example.org/a.mp3" length="12216320" type="audio/mpeg"/>
<enclosure url="http://example.org/b.mp3" length="1" type="audio/ogg"/></item>
<item><guid>b</guid><content:encoded>body</content:encoded><enclosure url="http://example.org/a.mp3" type="audio/mpeg"/></item>
<item><guid>c</guid><enclosure url="http://example.org/a.mp3" type="audio/mpeg"/><content:encoded>body</content:encoded></item>
<item><guid>d</guid><enclosure url="http://example.org/a.mp3" type="sound"/></item>
<item><guid>e</guid><enclosure type="audio/mpeg"/></item>
<item><guid>f</guid><enclosure url="http://example.org/a.mp3" length="long" type="audio/mpeg"/></item>
</channel></rss>"#;
    let feed = parse(xml.as_bytes()).unwrap();
    let a = feed.entries[0].content.as_ref().unwrap();
    assert_eq!(a.body, None);
    assert_eq!(a.content_type.as_str(), "audio/mpeg");
    assert_eq!(a.length, Some(12216320));
    assert_eq!(a.src.as_ref().unwrap().href, "http://example.org/a.mp3");
    assert_eq!(a.src.as_ref().unwrap().rel, None);
    assert_eq!(feed.entries[0].links.len(), 2);
    assert_eq!(feed.entries[0].links[1].href, "http://example.org/b.mp3");
    for i in [1, 2] {
        let content = feed.entries[i].content.as_ref().unwrap();
        assert_eq!(content.body.as_deref(), Some("body"));
        assert_eq!(content.content_type.as_str(), "text/html");
        assert_eq!(content.src, None);
        assert_eq!(feed.entries[i].links.len(), 1);
    }
    assert_eq!(feed.entries[3].content, None);
    assert_eq!(feed.entries[3].links.len(), 1);
    assert_eq!(feed.entries[4].content, None);
    assert_eq!(feed.entries[4].links.len(), 0);
    let f = feed.entries[5].content.as_ref().unwrap();
    assert_eq!(f.length, None);
    assert_eq!(feed.entries[5].links[0].length, None);
}
