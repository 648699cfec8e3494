use xmlcodec::xml::DeError;
use xmlcodec::xml::SeError;
use xmlcodec::xml::element::XmlElement;
use xmlcodec::xml::parse::element_from_xml;
use xmlcodec::xml::render::element_to_xml;

const EXPECTED_SERIALIZED: &'static str = r#"
        <TestData attr="value">
            <TestDataChild attr="child value"/>
        </TestData>
    "#;

const EXPECTED_SERIALIZED_WITH_DECLARATION_HEADER: &'static str = r#"
        <?xml version="1.0" encoding="UTF-8"?>
        <TestData attr="value">
            <TestDataChild attr="child value"/>
        </TestData>
    "#;

fn expected_deserialized() -> XmlElement {
    let mut child = XmlElement::new("TestDataChild".to_string());
    child.push_attribute("attr".to_string(), "child value".to_string());
    let mut root = XmlElement::new("TestData".to_string());
    root.push_attribute("attr".to_string(), "value".to_string());
    root.push_child(child);
    root
}

#[test]
fn test_from_xml() {
    let tree = element_from_xml(EXPECTED_SERIALIZED).unwrap();
    assert_eq!(tree, expected_deserialized());
}

#[test]
fn test_from_xml_with_declaration_header() {
    let tree = element_from_xml(EXPECTED_SERIALIZED_WITH_DECLARATION_HEADER).unwrap();
    assert_eq!(tree, expected_deserialized());
}

#[test]
fn test_to_xml() {
    let xml = element_to_xml(&expected_deserialized(), false).unwrap();
    assert_eq!(
        xml,
        "<TestData attr=\"value\">\n  <TestDataChild attr=\"child value\"/>\n</TestData>"
    );
}

#[test]
fn test_to_xml_with_declaration_header() {
    let xml = element_to_xml(&expected_deserialized(), true).unwrap();
    assert_eq!(
        xml,
        "<?xml version=\"1.0\" encoding=\"UTF-8\"?>\n<TestData attr=\"value\">\n  <TestDataChild attr=\"child value\"/>\n</TestData>"
    );
}

#[test]
fn test_element_round_trip_nested() {
    let mut grandchild = XmlElement::new("inner".to_string());
    grandchild.push_attribute("k".to_string(), "v".to_string());
    let mut child_a = XmlElement::new("child-a".to_string());
    child_a.push_child(grandchild);
    let mut child_b = XmlElement::new("child.b".to_string());
    child_b.push_attribute("empty".to_string(), "".to_string());
    let mut root = XmlElement::new("root_1".to_string());
    root.push_attribute("first".to_string(), "one two".to_string());
    root.push_attribute("second".to_string(), "3 < 4".to_string());
    root.push_child(child_a);
    root.push_child(child_b);

    for header in [false, true] {
        let xml = element_to_xml(&root, header).unwrap();
        assert_eq!(element_from_xml(&xml).unwrap(), root);
    }
}

#[test]
fn test_element_attribute_lookup() {
    let mut e = XmlElement::new("e".to_string());
    e.push_attribute("a".to_string(), "first".to_string());
    e.push_attribute("b".to_string(), "second".to_string());
    e.push_attribute("a".to_string(), "shadowed".to_string());
    assert_eq!(e.attribute("a").unwrap(), "first");
    assert_eq!(e.attribute("b").unwrap(), "second");
    assert!(e.attribute("c").is_none());
}

#[test]
fn test_from_xml_syntax_errors() {
    assert_eq!(element_from_xml("").unwrap_err(), DeError::Syntax);
    assert_eq!(element_from_xml("<a").unwrap_err(), DeError::Syntax);
    assert_eq!(element_from_xml("<a></b>").unwrap_err(), DeError::Syntax);
    assert_eq!(element_from_xml("<a/>junk").unwrap_err(), DeError::Syntax);
    assert_eq!(element_from_xml("<a x=1/>").unwrap_err(), DeError::Syntax);
    assert_eq!(element_from_xml("<a x=\"1/>").unwrap_err(), DeError::Syntax);
    assert_eq!(element_from_xml("no markup at all").unwrap_err(), DeError::Syntax);
    assert_eq!(element_from_xml("<?xml version=\"1.0\"?>").unwrap_err(), DeError::Syntax);
}

#[test]
fn test_from_xml_tolerates_whitespace() {
    let tree = element_from_xml("\n\t  <TestData\n attr=\"value\" >\n <TestDataChild attr=\"child value\" />\n </TestData>  \n").unwrap();
    assert_eq!(tree, expected_deserialized());
}

#[test]
fn test_to_xml_rejects_malformed_elements() {
    let unnamed = XmlElement::new("".to_string());
    let err = element_to_xml(&unnamed, false).unwrap_err();
    assert_eq!(err, SeError::MalformedElement);
    assert_eq!(err.message(), "element tree is not well-formed");

    let mut quoted = XmlElement::new("e".to_string());
    quoted.push_attribute("a".to_string(), "has \" quote".to_string());
    assert_eq!(element_to_xml(&quoted, false).unwrap_err(), SeError::MalformedElement);

    let mut bad_attr_name = XmlElement::new("e".to_string());
    bad_attr_name.push_attribute("a b".to_string(), "v".to_string());
    assert_eq!(element_to_xml(&bad_attr_name, false).unwrap_err(), SeError::MalformedElement);
}
