use feed_rs::model::TextType;
use feed_rs::parser::parse;
use feed_rs::parser::ParseErrorKind;
use feed_rs::parser::ParseFeedError;
use feed_rs::util::timestamp::DateTime;

#[test]
fn minimal_atom_feed() {
    let xml = "<feed><title type=\"text\">sample feed</title><updated>2005-07-31T12:29:29Z</updated><id>feed1</id>\n<entry><title>sample entry</title><id>entry1</id></entry></feed>";
    let feed = parse(xml.as_bytes()).unwrap();
    assert_eq!(feed.id, "feed1");
    assert_eq!(feed.title.value, "sample feed");
    assert_eq!(feed.title.content_type, TextType::Text);
    assert_eq!(feed.updated, DateTime::from_civil(2005, 7, 31, 12, 29, 29));
    assert_eq!(feed.updated.unwrap().seconds(), 1122812969);
    assert_eq!(feed.entries.len(), 1);
    assert_eq!(feed.entries[0].id, "entry1");
    assert_eq!(feed.entries[0].title.as_ref().unwrap().value, "sample entry");
    assert_eq!(feed.entries[0].title.as_ref().unwrap().content_type, TextType::Text);
    assert_eq!(feed.entries[0].updated, None);
}

#[test]
fn atom_feed_as_documented() {
    let xml = r#"
<feed>
   <title type="text">sample feed</title>
   <updated>2005-07-31T12:29:29Z</updated>
   <id>feed1</id>
   <entry>
       <title>sample entry</title>
       <id>entry1</id>
   </entry>
</feed>
"#;
    let feed = parse(xml.as_bytes()).unwrap();
    assert_eq!(feed.id, "feed1");
    assert_eq!(feed.entries.len(), 1);
}

#[test]
fn atom_full_feed() {
    let xml = r#"<?xml version="1.0" encoding="utf-8"?>
<feed xmlns="http://www.w3.org/2005/Atom">
  <title type="html">Example &lt;b&gt;Feed&lt;/b&gt;</title>
  <subtitle>A subtitle.</subtitle>
  <link href="http://example.org/feed/" rel="self" type="application/atom+xml" hreflang="en" title="self" length="42"/>
  <link href="http://example.org/"/>
  <link rel="broken"/>
  <id>urn:uuid:60a76c80-d399-11d9-b91C-0003939e0af6</id>
  <updated>2003-12-13T18:30:02+01:00</updated>
  <author><name>John Doe</name><email>johndoe@example.com</email><uri>http://example.org/john</uri></author>
  <contributor><name>Jane</name></contributor>
  <category term="tech" scheme="http://example.org/cat" label="Technology"/>
  <category label="no term"/>
  <generator uri="http://example.org/gen" version="1.0">Gen</generator>
  <icon>http://example.org/icon.png</icon>
  <logo>http://example.org/logo.png</logo>
  <rights type="xhtml">All rights</rights>
  <entry>
    <title>Atom-Powered Robots Run Amok</title>
    <link href="http://example.org/2003/12/13/atom03"/>
    <id>urn:uuid:1225c695-cfb8-4ebb-aaaa-80da344efa6a</id>
    <updated>2003-12-13T18:30:02Z</updated>
    <published>2003-12-12T18:30:02Z</published>
    <summary type="html">Some text.</summary>
    <content type="html">&lt;p&gt;Body&lt;/p&gt;</content>
    <author><name>Entry Author</name></author>
    <category term="robots"/>
    <rights>Entry rights</rights>
    <source><id>ignored</id></source>
  </entry>
</feed>"#;
    let feed = parse(xml.as_bytes()).unwrap();
    assert_eq!(feed.id, "urn:uuid:60a76c80-d399-11d9-b91C-0003939e0af6");
    assert_eq!(feed.title.content_type, TextType::Html);
    assert_eq!(feed.title.value, "Example <b>Feed</b>");
    assert_eq!(feed.description.as_ref().unwrap().value, "A subtitle.");
    assert_eq!(feed.description.as_ref().unwrap().content_type, TextType::Text);
    assert_eq!(feed.updated.unwrap().seconds(), 1071336602);
    assert_eq!(feed.links.len(), 2);
    assert_eq!(feed.links[0].href, "http://example.org/feed/");
    assert_eq!(feed.links[0].rel.as_deref(), Some("self"));
    assert_eq!(feed.links[0].media_type.as_deref(), Some("application/atom+xml"));
    assert_eq!(feed.links[0].href_lang.as_deref(), Some("en"));
    assert_eq!(feed.links[0].title.as_deref(), Some("self"));
    assert_eq!(feed.links[0].length, Some(42));
    assert_eq!(feed.links[1].href, "http://example.org/");
    assert_eq!(feed.links[1].rel, None);
    assert_eq!(feed.links[1].length, None);
    assert_eq!(feed.authors.len(), 1);
    assert_eq!(feed.authors[0].name, "John Doe");
    assert_eq!(feed.authors[0].email.as_deref(), Some("johndoe@example.com"));
    assert_eq!(feed.authors[0].uri.as_deref(), Some("http://example.org/john"));
    assert_eq!(feed.contributors.len(), 1);
    assert_eq!(feed.contributors[0].name, "Jane");
    assert_eq!(feed.contributors[0].email, None);
    assert_eq!(feed.categories.len(), 1);
    assert_eq!(feed.categories[0].term, "tech");
    assert_eq!(feed.categories[0].scheme.as_deref(), Some("http://example.org/cat"));
    assert_eq!(feed.categories[0].label.as_deref(), Some("Technology"));
    let generator = feed.generator.as_ref().unwrap();
    assert_eq!(generator.content, "Gen");
    assert_eq!(generator.uri.as_deref(), Some("http://example.org/gen"));
    assert_eq!(generator.version.as_deref(), Some("1.0"));
    assert_eq!(feed.icon.as_ref().unwrap().uri, "http://example.org/icon.png");
    assert_eq!(feed.logo.as_ref().unwrap().uri, "http://example.org/logo.png");
    assert_eq!(feed.rights.as_ref().unwrap().content_type, TextType::Xhtml);
    assert_eq!(feed.rights.as_ref().unwrap().value, "All rights");
    assert_eq!(feed.language, None);
    assert_eq!(feed.entries.len(), 1);
    let entry = &feed.entries[0];
    assert_eq!(entry.id, "urn:uuid:1225c695-cfb8-4ebb-aaaa-80da344efa6a");
    assert_eq!(entry.title.as_ref().unwrap().value, "Atom-Powered Robots Run Amok");
    assert_eq!(entry.links.len(), 1);
    assert_eq!(entry.links[0].href, "http://example.org/2003/12/13/atom03");
    assert_eq!(entry.updated.unwrap().seconds(), 1071340202);
    assert_eq!(entry.published.unwrap().seconds(), 1071340202 - 86400);
    assert_eq!(entry.summary.as_ref().unwrap().value, "Some text.");
    assert_eq!(entry.summary.as_ref().unwrap().content_type, TextType::Html);
    let content = entry.content.as_ref().unwrap();
    assert_eq!(content.body.as_deref(), Some("<p>Body</p>"));
    assert_eq!(content.content_type.as_str(), "text/html");
    assert_eq!(content.length, None);
    assert_eq!(content.src, None);
    assert_eq!(entry.authors.len(), 1);
    assert_eq!(entry.authors[0].name, "Entry Author");
    assert_eq!(entry.categories.len(), 1);
    assert_eq!(entry.categories[0].term, "robots");
    assert_eq!(entry.rights.as_ref().unwrap().value, "Entry rights");
    assert_eq!(entry.source, None);
}

#[test]
fn atom_entries_keep_document_order() {
    let mut xml = String::from("<feed><id>f</id>");
    for i in 0..25 {
        xml.push_str(&format!("<entry><id>e{}</id></entry><other>x</other>", i));
    }
    xml.push_str("</feed>");
    let feed = parse(xml.as_bytes()).unwrap();
    assert_eq!(feed.entries.len(), 25);
    for i in 0..25 {
        assert_eq!(feed.entries[i].id, format!("e{}", i));
    }
}

#[test]
fn atom_entry_with_unreadable_date_is_kept() {
    let xml = "<feed><id>f</id><entry><id>e</id><updated>yesterday-ish</updated><published>??</published></entry></feed>";
    let feed = parse(xml.as_bytes()).unwrap();
    assert_eq!(feed.entries.len(), 1);
    assert_eq!(feed.entries[0].id, "e");
    assert_eq!(feed.entries[0].updated, None);
    assert_eq!(feed.entries[0].published, None);
}

#[test]
fn atom_feed_with_unreadable_date_fails() {
    let xml = "<feed><id>f</id><updated>yesterday-ish</updated></feed>";
    match parse(xml.as_bytes()) {
        Err(ParseFeedError::ParseError(ParseErrorKind::InvalidDateTime(text))) => {
            assert_eq!(text, "yesterday-ish")
        }
        other => panic!("unexpected: {:?}", other),
    }
}

#[test]
fn atom_dates_may_be_written_as_in_mail() {
    let xml = "<feed><id>f</id><updated>Sat, 07 Sep 2002 00:00:01 GMT</updated></feed>";
    let feed = parse(xml.as_bytes()).unwrap();
    assert_eq!(feed.updated.unwrap().seconds(), 1031356801);
}

#[test]
fn atom_unknown_children_are_ignored() {
    let xml = r#"<feed xmlns="http://www.w3.org/2005/Atom" xmlns:x="urn:example:x">
<x:thing kind="a"><x:deep><x:deeper>1</x:deeper></x:deep><title>not the title</title></x:thing>
<x:title>not the title either</x:title>
<unknown><id>not the id</id></unknown>
<title>the title</title><id>the id</id>
<entry><x:id>nope</x:id><id>e1</id><x:thing/></entry></feed>"#;
    let feed = parse(xml.as_bytes()).unwrap();
    assert_eq!(feed.title.value, "the title");
    assert_eq!(feed.id, "the id");
    assert_eq!(feed.entries.len(), 1);
    assert_eq!(feed.entries[0].id, "e1");
}

#[test]
fn atom_empty_id_is_missing_content() {
    let res = parse(b"<feed><id></id></feed>");
    assert!(matches!(
        res,
        Err(ParseFeedError::ParseError(ParseErrorKind::MissingContent("id")))
    ));
    let res = parse(b"<feed><id>f</id><entry><id/></entry></feed>");
    assert!(matches!(
        res,
        Err(ParseFeedError::ParseError(ParseErrorKind::MissingContent("id")))
    ));
}

#[test]
fn atom_empty_content_is_missing_content() {
    let res = parse(b"<feed><id>f</id><entry><id>e</id><content type=\"html\"></content></entry></feed>");
    assert!(matches!(
        res,
        Err(ParseFeedError::ParseError(ParseErrorKind::MissingContent("content")))
    ));
}

#[test]
fn atom_unknown_content_type_fails() {
    let res = parse(b"<feed><id>f</id><entry><id>e</id><content type=\"bogus\">x</content></entry></feed>");
    match res {
        Err(ParseFeedError::ParseError(ParseErrorKind::UnknownMimeType(kind))) => {
            assert_eq!(kind, "bogus")
        }
        other => panic!("unexpected: {:?}", other),
    }
}

#[test]
fn atom_content_types() {
    let xml = r#"<feed><id>f</id>
<entry><id>a</id><content>plain</content></entry>
<entry><id>b</id><content type="text">plain</content></entry>
<entry><id>c</id><content type="xhtml">x</content></entry>
<entry><id>d</id><content type="image/png" src="http://example.org/p.png"/></entry>
<entry><id>e</id><content type="application/json">{}</content></entry>
</feed>"#;
    let feed = parse(xml.as_bytes()).unwrap();
    let kinds: Vec<&str> = feed
        .entries
        .iter()
        .map(|e| e.content.as_ref().unwrap().content_type.as_str())
        .collect();
    assert_eq!(
        kinds,
        vec!["text/plain", "text/plain", "application/xhtml+xml", "image/png", "application/json"]
    );
    let linked = feed.entries[3].content.as_ref().unwrap();
    assert_eq!(linked.body, None);
    assert_eq!(linked.src.as_ref().unwrap().href, "http://example.org/p.png");
    assert_eq!(feed.entries[4].content.as_ref().unwrap().body.as_deref(), Some("{}"));
}

#[test]
fn atom_feed_without_id_gets_its_link() {
    let xml = "<feed><title>t</title><link href=\"\"/><link rel=\"enclosure\" href=\"http://example.org/a.mp3\"/><link href=\"http://example.org/\"/><entry><link href=\"http://example.org/1\"/></entry></feed>";
    let feed = parse(xml.as_bytes()).unwrap();
    assert_eq!(feed.id, "http://example.org/");
    assert_eq!(feed.entries[0].id, "http://example.org/1");
}

#[test]
fn atom_feed_without_id_or_link_gets_a_digest() {
    let feed = parse(b"<feed><title>sample feed</title><entry><title>a</title></entry><entry/></feed>").unwrap();
    assert_eq!(feed.id, "b00858ba379f3bc5");
    assert_eq!(feed.entries[0].id, "af63dc4c8601ec8c");
    assert_eq!(feed.entries[1].id, "cbf29ce484222325");
}

#[test]
fn atom_text_of_nested_markup_is_passed_over() {
    let xml = "<feed><id>f</id><title type=\"xhtml\">before <div>inside <b>deep</b></div>after</title></feed>";
    let feed = parse(xml.as_bytes()).unwrap();
    assert_eq!(feed.title.content_type, TextType::Xhtml);
    assert_eq!(feed.title.value, "beforeafter");
}

#[test]
fn atom_broken_document_is_an_xml_error() {
    assert!(matches!(
        parse(b"<feed><title>unclosed</feed>"),
        Err(ParseFeedError::XmlReader(_))
    ));
    assert!(matches!(
        parse(b"<feed><id>a</id><entry><id>b</id>"),
        Err(ParseFeedError::XmlReader(_))
    ));
    assert!(matches!(
        parse(b"<feed><id>a</id><link href='x'><entry>&undefined;</entry></link></feed>"),
        Err(ParseFeedError::XmlReader(_))
    ));
}

#[test]
fn atom_first_failure_wins() {
    let res = parse(b"<feed><id></id><title>unclosed</feed>");
    assert!(matches!(
        res,
        Err(ParseFeedError::ParseError(ParseErrorKind::MissingContent("id")))
    ));
}
