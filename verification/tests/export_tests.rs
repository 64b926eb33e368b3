use duplo_core::export::XmlExporter;

#[test]
fn test_xml_escape() {
    assert_eq!(XmlExporter::escape_xml("a < b"), "a &lt; b");
    assert_eq!(XmlExporter::escape_xml("a & b"), "a &amp; b");
    assert_eq!(XmlExporter::escape_xml(r#"a "b""#), "a &quot;b&quot;");
}

#[test]
fn xml_escape_handles_all_special_characters() {
    assert_eq!(XmlExporter::escape_xml("<x>'&'</x>"), "&lt;x&gt;&apos;&amp;&apos;&lt;/x&gt;");
    assert_eq!(XmlExporter::escape_xml("plain text"), "plain text");
}
