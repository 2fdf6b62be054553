use feed_rs::parser::parse_document;
use feed_rs::parser::ParseFeedError;
use feed_rs::util::element_source::ElementSource;

#[test]
fn walk_over_a_document() {
    let xml = r#"<?xml version="1.0"?>
<!-- a comment -->
<root xmlns:x="urn:x" a="1" x:b="2">
  text <first>one<!-- inside --> <inner>hidden</inner>two</first>
  <second><deep><deeper/></deep></second>
  <x:third c="3"><![CDATA[<raw>]]> &amp; more</x:third>
  <empty/>
</root>"#;
    let mut source = ElementSource::new(xml.as_bytes());
    let root = source.root().unwrap().unwrap();
    assert_eq!(root.name, "root");
    assert_eq!(root.namespace, None);
    assert_eq!(root.attributes.len(), 2);
    assert_eq!(root.attributes[0].name, "a");
    assert_eq!(root.attributes[0].namespace, None);
    assert_eq!(root.attributes[0].value, "1");
    assert_eq!(root.attributes[1].name, "b");
    assert_eq!(root.attributes[1].namespace.as_deref(), Some("urn:x"));
    assert_eq!(root.attributes[1].value, "2");

    let first = source.next_child().unwrap().unwrap();
    assert_eq!(first.name, "first");
    assert_eq!(source.text().unwrap(), "onetwo");

    let second = source.next_child().unwrap().unwrap();
    assert_eq!(second.name, "second");
    source.skip().unwrap();

    let third = source.next_child().unwrap().unwrap();
    assert_eq!(third.name, "third");
    assert_eq!(third.namespace.as_deref(), Some("urn:x"));
    assert_eq!(source.text().unwrap(), "<raw> & more");

    let empty = source.next_child().unwrap().unwrap();
    assert_eq!(empty.name, "empty");
    assert_eq!(source.text().unwrap(), "");

    assert_eq!(source.next_child().unwrap(), None);
    assert_eq!(source.next_child().unwrap(), None);
    assert_eq!(source.root().unwrap(), None);
    assert_eq!(source.text().unwrap(), "");
    source.skip().unwrap();
}

#[test]
fn walk_descends_into_children() {
    let xml = "<a><b><c>1</c><d>2</d></b><e>3</e></a>";
    let mut source = ElementSource::new(xml.as_bytes());
    assert_eq!(source.root().unwrap().unwrap().name, "a");
    assert_eq!(source.next_child().unwrap().unwrap().name, "b");
    assert_eq!(source.next_child().unwrap().unwrap().name, "c");
    assert_eq!(source.text().unwrap(), "1");
    assert_eq!(source.next_child().unwrap().unwrap().name, "d");
    source.skip().unwrap();
    assert_eq!(source.next_child().unwrap(), None);
    assert_eq!(source.next_child().unwrap().unwrap().name, "e");
    assert_eq!(source.text().unwrap(), "3");
    assert_eq!(source.next_child().unwrap(), None);
}

#[test]
fn walk_reports_faults_where_they_are() {
    let mut source = ElementSource::new(b"<a><b>ok</b><c>broken</d></a>");
    assert_eq!(source.root().unwrap().unwrap().name, "a");
    assert_eq!(source.next_child().unwrap().unwrap().name, "b");
    assert_eq!(source.text().unwrap(), "ok");
    assert_eq!(source.next_child().unwrap().unwrap().name, "c");
    let fault = source.text().unwrap_err();
    assert_eq!(source.skip().unwrap_err(), fault);
    assert_eq!(source.next_child().unwrap_err(), fault);

    let mut source = ElementSource::new(b"<a><b><c></b></a>");
    assert_eq!(source.root().unwrap().unwrap().name, "a");
    assert_eq!(source.next_child().unwrap().unwrap().name, "b");
    assert!(source.skip().is_err());

    let mut source = ElementSource::new(b"");
    assert!(source.root().is_err());
}

#[test]
fn walk_skips_deep_nesting() {
    let depth = 300;
    let mut xml = String::from("<a><b>");
    for _ in 0..depth {
        xml.push_str("<n>");
    }
    for _ in 0..depth {
        xml.push_str("</n>");
    }
    xml.push_str("</b><c>after</c></a>");
    let mut source = ElementSource::new(xml.as_bytes());
    assert_eq!(source.root().unwrap().unwrap().name, "a");
    assert_eq!(source.next_child().unwrap().unwrap().name, "b");
    source.skip().unwrap();
    assert_eq!(source.next_child().unwrap().unwrap().name, "c");
    assert_eq!(source.text().unwrap(), "after");
}

#[test]
fn a_walk_can_be_handed_to_the_parser() {
    let mut source = ElementSource::new(b"<feed><id>f</id></feed>");
    assert_eq!(parse_document(&mut source).unwrap().id, "f");
    let mut source = ElementSource::new(b"<feed><id>f</id></feed>");
    source.root().unwrap();
    let res = parse_document(&mut source);
    assert!(matches!(res, Err(ParseFeedError::ParseError(_))));
}

#[test]
fn the_parser_hands_on_the_fault_of_the_walk() {
    let input = b"<feed><id>f</id><title>unclosed</feed>";
    let mut source = ElementSource::new(input);
    assert_eq!(source.root().unwrap().unwrap().name, "feed");
    assert_eq!(source.next_child().unwrap().unwrap().name, "id");
    assert_eq!(source.text().unwrap(), "f");
    assert_eq!(source.next_child().unwrap().unwrap().name, "title");
    let fault = source.text().unwrap_err();
    match feed_rs::parser::parse(input) {
        Err(ParseFeedError::XmlReader(error)) => assert_eq!(error, fault),
        other => panic!("unexpected: {:?}", other),
    }

    let input = b"<rss version=\"2.0\"><channel><item><link>a</link></item><item>&nothing;</item></channel></rss>";
    let mut source = ElementSource::new(input);
    source.root().unwrap();
    assert_eq!(source.next_child().unwrap().unwrap().name, "channel");
    assert_eq!(source.next_child().unwrap().unwrap().name, "item");
    source.skip().unwrap();
    assert_eq!(source.next_child().unwrap().unwrap().name, "item");
    let fault = source.next_child().unwrap_err();
    match feed_rs::parser::parse(input) {
        Err(ParseFeedError::XmlReader(error)) => assert_eq!(error, fault),
        other => panic!("unexpected: {:?}", other),
    }
}
