use umya_spreadsheet::attr::{BooleanValue, UInt64Value};
use umya_spreadsheet::decimal::{decimal, parse_decimal};
use umya_spreadsheet::effect_list::{EffectList, Glow, OuterShadow, SoftEdge};
use umya_spreadsheet::error::XlsxError;
use umya_spreadsheet::no_multi_level_labels::NoMultiLevelLabels;
use umya_spreadsheet::reader::{read_effect_list, read_events};
use umya_spreadsheet::xml::{XmlCursor, XmlEvent, XmlWriter};

fn text(b: Vec<u8>) -> String {
    String::from_utf8(b).unwrap()
}

fn labels_text(x: &NoMultiLevelLabels) -> String {
    let mut w = XmlWriter::new();
    x.write_to(&mut w);
    text(w.into_bytes())
}

fn read_labels(xml: &str) -> NoMultiLevelLabels {
    let events = read_events(xml.as_bytes()).unwrap();
    let mut x = NoMultiLevelLabels::new();
    for e in events.iter() {
        if let XmlEvent::Empty { name, attributes } = e {
            if name.as_slice() == b"c:noMultiLvlLbl" {
                x.set_attributes(attributes);
            }
        }
    }
    x
}

fn effect_text(x: &EffectList) -> String {
    let mut w = XmlWriter::new();
    x.write_to(&mut w);
    text(w.into_bytes())
}

#[test]
fn boolean_true_writes_one_and_reads_back() {
    let mut x = NoMultiLevelLabels::new();
    x.set_val(true);
    let t = labels_text(&x);
    assert_eq!(t, "<c:noMultiLvlLbl val=\"1\"/>");
    let y = read_labels(&t);
    assert!(y.get_val());
    assert_eq!(labels_text(&y), t);
}

#[test]
fn boolean_false_writes_zero() {
    let mut x = NoMultiLevelLabels::new();
    x.set_val(false);
    let t = labels_text(&x);
    assert_eq!(t, "<c:noMultiLvlLbl val=\"0\"/>");
    assert!(!read_labels(&t).get_val());
}

#[test]
fn unset_attribute_is_omitted() {
    let x = NoMultiLevelLabels::new();
    assert_eq!(labels_text(&x), "<c:noMultiLvlLbl/>");
    let mut y = NoMultiLevelLabels::new();
    y.set_val(true);
    y.remove_val();
    assert_eq!(labels_text(&y), "<c:noMultiLvlLbl/>");
    let z = read_labels("<c:noMultiLvlLbl/>");
    assert_eq!(labels_text(&z), "<c:noMultiLvlLbl/>");
}

#[test]
fn boolean_text_forms() {
    let mut b = BooleanValue::new();
    assert!(!b.has_value());
    b.set_value_string(b"true");
    assert!(b.get_value());
    b.set_value_string(b"0");
    assert!(!b.get_value());
    assert!(b.has_value());
    b.set_value_string(b"1");
    assert_eq!(b.get_value_string(), b"1".to_vec());
}

#[test]
fn decimal_text() {
    assert_eq!(decimal(0), b"0".to_vec());
    assert_eq!(decimal(1207), b"1207".to_vec());
    assert_eq!(decimal(u64::MAX), u64::MAX.to_string().into_bytes());
    assert_eq!(parse_decimal(b"42"), Some(42));
    assert_eq!(parse_decimal(b"18446744073709551615"), Some(u64::MAX));
    assert_eq!(parse_decimal(b"18446744073709551616"), None);
    assert_eq!(parse_decimal(b""), None);
    assert_eq!(parse_decimal(b"4a"), None);
    let mut v = UInt64Value::new();
    v.set_value_string(b"x");
    assert!(!v.has_value());
}

#[test]
fn effect_list_round_trip() {
    let mut x = EffectList::new();
    let mut g = Glow::new();
    g.set_radius(5);
    x.set_glow(g);
    let mut s = OuterShadow::new();
    s.set_blur_radius(3);
    s.set_distance(7);
    x.set_outer_shadow(s);
    let mut e = SoftEdge::new();
    e.set_radius(2);
    x.set_soft_edge(e);
    let t = effect_text(&x);
    assert_eq!(
        t,
        "<a:effectLst><a:glow rad=\"5\"></a:glow><a:outerShdw blurRad=\"3\" dist=\"7\"></a:outerShdw><a:softEdge rad=\"2\"/></a:effectLst>"
    );
    let y = read_effect_list(t.as_bytes()).ok().unwrap();
    assert_eq!(y.get_glow().as_ref().unwrap().get_radius().get_value(), 5);
    assert_eq!(y.get_outer_shadow().as_ref().unwrap().get_distance().get_value(), 7);
    assert_eq!(effect_text(&y), t);
}

#[test]
fn empty_effect_list_round_trip() {
    let x = EffectList::new();
    let t = effect_text(&x);
    assert_eq!(t, "<a:effectLst/>");
    let y = read_effect_list(t.as_bytes()).ok().unwrap();
    assert!(y.get_glow().is_none());
    assert!(y.get_soft_edge().is_none());
    assert_eq!(effect_text(&y), t);
}

#[test]
fn unknown_children_are_skipped() {
    let t = "<a:effectLst><a:blur rad=\"9\"/><a:softEdge rad=\"4\"/><a:reflection></a:reflection></a:effectLst>";
    let y = read_effect_list(t.as_bytes()).ok().unwrap();
    assert_eq!(y.get_soft_edge().as_ref().unwrap().get_radius().get_value(), 4);
    assert_eq!(effect_text(&y), "<a:effectLst><a:softEdge rad=\"4\"/></a:effectLst>");
}

#[test]
fn missing_closing_tag_is_unexpected_eof() {
    match read_effect_list(b"<a:effectLst><a:softEdge rad=\"4\"/>") {
        Err(XlsxError::UnexpectedEof { expected_tag }) => assert_eq!(expected_tag, b"a:effectLst".to_vec()),
        _ => panic!("expected UnexpectedEof"),
    }
    match read_effect_list(b"<a:effectLst><a:glow rad=\"4\">") {
        Err(XlsxError::UnexpectedEof { expected_tag }) => assert_eq!(expected_tag, b"a:glow".to_vec()),
        _ => panic!("expected UnexpectedEof"),
    }
}

#[test]
fn malformed_xml_is_an_xml_error() {
    match read_effect_list(b"<a:effectLst><a:glow rad=4></a:glow></a:effectLst>") {
        Err(XlsxError::Xml { .. }) => {},
        _ => panic!("expected an XML error"),
    }
}

#[test]
fn text_is_escaped() {
    let mut w = XmlWriter::new();
    w.write_event(&XmlEvent::Text { content: b"a&b<c>\"'".to_vec() });
    assert_eq!(text(w.into_bytes()), "a&amp;b&lt;c&gt;&quot;&apos;");
}

#[test]
fn reading_unescapes_attributes_and_text() {
    let events = read_events(b"<a t=\"x&amp;y\">a&lt;b</a>").unwrap();
    match &events[0] {
        XmlEvent::Start { name, attributes } => {
            assert_eq!(name, &b"a".to_vec());
            assert_eq!(attributes[0].key, b"t".to_vec());
            assert_eq!(attributes[0].value, b"x&y".to_vec());
        },
        _ => panic!("expected an opening tag"),
    }
    match &events[1] {
        XmlEvent::Text { content } => assert_eq!(content, &b"a<b".to_vec()),
        _ => panic!("expected a text"),
    }
    assert!(matches!(events[2], XmlEvent::End { .. }));
    assert!(matches!(events[3], XmlEvent::Eof));
    assert_eq!(events.len(), 4);
}

#[test]
fn attribute_values_are_escaped_on_write() {
    let mut w = XmlWriter::new();
    let attributes = vec![umya_spreadsheet::xml::Attribute { key: b"k".to_vec(), value: b"a\"b".to_vec() }];
    w.write_event(&XmlEvent::Empty { name: b"e".to_vec(), attributes });
    assert_eq!(text(w.into_bytes()), "<e k=\"a&quot;b\"/>");
}

#[test]
fn shadow_with_one_attribute() {
    let mut x = EffectList::new();
    let mut s = OuterShadow::new();
    s.set_distance(12);
    x.set_outer_shadow(s);
    let t = effect_text(&x);
    assert_eq!(t, "<a:effectLst><a:outerShdw dist=\"12\"></a:outerShdw></a:effectLst>");
    let y = read_effect_list(t.as_bytes()).ok().unwrap();
    assert!(!y.get_outer_shadow().as_ref().unwrap().get_blur_radius().has_value());
    assert_eq!(effect_text(&y), t);
}

#[test]
fn chained_setter_and_mutable_access() {
    let mut x = NoMultiLevelLabels::new();
    x.set_val(false).set_val(true);
    assert!(x.get_val());
    let mut e = EffectList::new();
    e.set_glow(Glow::new());
    *e.get_glow_mut() = None;
    assert!(e.get_glow().is_none());
}

#[test]
fn self_closing_effect_list_reads_as_empty() {
    let events = read_events(b"<a:effectLst/>").unwrap();
    let opening = match &events[0] {
        XmlEvent::Empty { name, .. } => XmlEvent::Empty { name: name.clone(), attributes: Vec::new() },
        _ => panic!("expected a self-closing tag"),
    };
    let mut cursor = XmlCursor::new(events);
    cursor.advance();
    let mut x = EffectList::new();
    assert!(x.set_attributes(&mut cursor, &opening).is_ok());
    assert!(x.get_glow().is_none());
    assert_eq!(effect_text(&x), "<a:effectLst/>");
}
