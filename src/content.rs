//! The XML content of each part of a package.
use vstd::prelude::*;
use vstd::string::StringSliceAdditionalSpecFns;
use crate::decimal::{decimal, decimal_of};
use crate::no_multi_level_labels::no_multi_level_labels_events;
use crate::effect_list::{effect_list_events, option_view, EffectListView};
use crate::xml::{lemma_render_all_concat, lemma_render_all_one};
use crate::document::{Chart, Comment, Properties, Spreadsheet, Worksheet};
use crate::shared_strings::{indices_view, SharedStringTable};
use crate::document::{has_comments, has_drawing, SheetShape};
use crate::package::{drawing_relationships, sheet_relationships, rels_view, PartEntry, PartSource, RelKind, RelView, Relationship};
use crate::xml::{
    attribute_text, attributes_view, bytes_of, declaration_text, events_view, render_all, Attribute,
    EventView, XmlEvent, XmlWriter,
};

verus! {

pub fn copy_bytes(b: &Vec<u8>) -> (r: Vec<u8>)
    ensures
        r@ == b@,
{
    let mut r: Vec<u8> = Vec::new();
    crate::xml::append(&mut r, b.as_slice());
    assert(r@ =~= b@);
    r
}

pub fn attr(key: &str, value: Vec<u8>) -> (r: Attribute)
    ensures
        r@ == (key.spec_bytes(), value@),
{
    Attribute { key: bytes_of(key), value }
}

pub fn start(name: &str, attributes: Vec<Attribute>) -> (r: XmlEvent)
    ensures
        r@ == EventView::Start(name.spec_bytes(), attributes_view(attributes@)),
{
    XmlEvent::Start { name: bytes_of(name), attributes }
}

pub fn empty(name: &str, attributes: Vec<Attribute>) -> (r: XmlEvent)
    ensures
        r@ == EventView::Empty(name.spec_bytes(), attributes_view(attributes@)),
{
    XmlEvent::Empty { name: bytes_of(name), attributes }
}

pub fn end(name: &str) -> (r: XmlEvent)
    ensures
        r@ == EventView::End(name.spec_bytes()),
{
    XmlEvent::End { name: bytes_of(name) }
}

/// The XML declaration followed by the text of `events`.
pub fn render_document(events: &Vec<XmlEvent>) -> (r: Vec<u8>)
    ensures
        r@ == declaration_text() + render_all(events_view(events@)),
{
    let mut w = XmlWriter::new();
    w.write_declaration();
    w.write_events(events);
    w.into_bytes()
}

/// The `Type` of a relationship.
pub open spec fn rel_type(kind: RelKind) -> Seq<u8> {
    match kind {
        RelKind::OfficeDocument => "http://schemas.openxmlformats.org/officeDocument/2006/relationships/officeDocument".spec_bytes(),
        RelKind::CoreProperties => "http://schemas.openxmlformats.org/package/2006/relationships/metadata/core-properties".spec_bytes(),
        RelKind::ExtendedProperties => "http://schemas.openxmlformats.org/officeDocument/2006/relationships/extended-properties".spec_bytes(),
        RelKind::Worksheet => "http://schemas.openxmlformats.org/officeDocument/2006/relationships/worksheet".spec_bytes(),
        RelKind::Theme => "http://schemas.openxmlformats.org/officeDocument/2006/relationships/theme".spec_bytes(),
        RelKind::Styles => "http://schemas.openxmlformats.org/officeDocument/2006/relationships/styles".spec_bytes(),
        RelKind::SharedStrings => "http://schemas.openxmlformats.org/officeDocument/2006/relationships/sharedStrings".spec_bytes(),
        RelKind::VbaProject => "http://schemas.microsoft.com/office/2006/relationships/vbaProject".spec_bytes(),
        RelKind::Drawing => "http://schemas.openxmlformats.org/officeDocument/2006/relationships/drawing".spec_bytes(),
        RelKind::Comments => "http://schemas.openxmlformats.org/officeDocument/2006/relationships/comments".spec_bytes(),
        RelKind::VmlDrawing => "http://schemas.openxmlformats.org/officeDocument/2006/relationships/vmlDrawing".spec_bytes(),
        RelKind::Chart => "http://schemas.openxmlformats.org/officeDocument/2006/relationships/chart".spec_bytes(),
        RelKind::Image => "http://schemas.openxmlformats.org/officeDocument/2006/relationships/image".spec_bytes(),
    }
}

fn rel_type_bytes(kind: RelKind) -> (r: Vec<u8>)
    ensures
        r@ == rel_type(kind),
{
    match kind {
        RelKind::OfficeDocument => bytes_of("http://schemas.openxmlformats.org/officeDocument/2006/relationships/officeDocument"),
        RelKind::CoreProperties => bytes_of("http://schemas.openxmlformats.org/package/2006/relationships/metadata/core-properties"),
        RelKind::ExtendedProperties => bytes_of("http://schemas.openxmlformats.org/officeDocument/2006/relationships/extended-properties"),
        RelKind::Worksheet => bytes_of("http://schemas.openxmlformats.org/officeDocument/2006/relationships/worksheet"),
        RelKind::Theme => bytes_of("http://schemas.openxmlformats.org/officeDocument/2006/relationships/theme"),
        RelKind::Styles => bytes_of("http://schemas.openxmlformats.org/officeDocument/2006/relationships/styles"),
        RelKind::SharedStrings => bytes_of("http://schemas.openxmlformats.org/officeDocument/2006/relationships/sharedStrings"),
        RelKind::VbaProject => bytes_of("http://schemas.microsoft.com/office/2006/relationships/vbaProject"),
        RelKind::Drawing => bytes_of("http://schemas.openxmlformats.org/officeDocument/2006/relationships/drawing"),
        RelKind::Comments => bytes_of("http://schemas.openxmlformats.org/officeDocument/2006/relationships/comments"),
        RelKind::VmlDrawing => bytes_of("http://schemas.openxmlformats.org/officeDocument/2006/relationships/vmlDrawing"),
        RelKind::Chart => bytes_of("http://schemas.openxmlformats.org/officeDocument/2006/relationships/chart"),
        RelKind::Image => bytes_of("http://schemas.openxmlformats.org/officeDocument/2006/relationships/image"),
    }
}

/// `rId` followed by `n` in decimal.
pub open spec fn rel_id_text(n: nat) -> Seq<u8> {
    "rId".spec_bytes() + decimal_of(n)
}

pub fn rel_id(n: u64) -> (r: Vec<u8>)
    ensures
        r@ == rel_id_text(n as nat),
{
    let mut r = bytes_of("rId");
    crate::decimal::push_decimal(&mut r, n);
    r
}

/// The tag of one relationship: its id, type and target.
pub open spec fn relationship_event(r: RelView) -> EventView {
    EventView::Empty(
        "Relationship".spec_bytes(),
        seq![
            ("Id".spec_bytes(), rel_id_text(r.0)),
            ("Type".spec_bytes(), rel_type(r.1)),
            ("Target".spec_bytes(), r.3),
        ],
    )
}

/// The events of a `.rels` part: one `Relationship` tag for each entry, in
/// order, inside `Relationships`.
pub open spec fn rels_events(rels: Seq<RelView>) -> Seq<EventView> {
    seq![
        EventView::Start(
            "Relationships".spec_bytes(),
            seq![("xmlns".spec_bytes(), "http://schemas.openxmlformats.org/package/2006/relationships".spec_bytes())],
        ),
    ] + rels.map_values(|r: RelView| relationship_event(r)) + seq![
        EventView::End("Relationships".spec_bytes()),
    ]
}

/// The content of a `.rels` part listing `rels`.
pub fn rels_content(rels: &Vec<Relationship>) -> (r: Vec<u8>)
    ensures
        r@ == declaration_text() + render_all(rels_events(rels_view(rels@))),
{
    let mut events: Vec<XmlEvent> = Vec::new();
    let mut a: Vec<Attribute> = Vec::new();
    a.push(attr("xmlns", bytes_of("http://schemas.openxmlformats.org/package/2006/relationships")));
    assert(attributes_view(a@) =~= seq![a@[0]@]);
    let first = start("Relationships", a);
    events.push(first);
    let ghost head = events_view(events@);
    assert(head =~= seq![rels_events(rels_view(rels@))[0]]);
    let mut i: usize = 0;
    while i < rels.len()
        invariant
            0 <= i <= rels@.len(),
            events_view(events@) =~= head + rels_view(rels@).take(i as int).map_values(
                |r: RelView| relationship_event(r),
            ),
        decreases rels@.len() - i,
    {
        let r = &rels[i];
        let mut a: Vec<Attribute> = Vec::new();
        a.push(attr("Id", rel_id(r.id)));
        a.push(attr("Type", rel_type_bytes(r.kind)));
        a.push(attr("Target", copy_bytes(&r.target)));
        assert(attributes_view(a@) =~= seq![a@[0]@, a@[1]@, a@[2]@]);
        let e = empty("Relationship", a);
        assert(e@ == relationship_event(r@));
        let ghost prev = events_view(events@);
        events.push(e);
        proof {
            assert(events_view(events@) =~= prev.push(e@));
            assert(rels_view(rels@).take(i as int + 1) =~= rels_view(rels@).take(i as int).push(r@));
            assert(rels_view(rels@).take(i as int + 1).map_values(|r: RelView| relationship_event(r))
                =~= rels_view(rels@).take(i as int).map_values(|r: RelView| relationship_event(r)).push(
                relationship_event(r@),
            ));
        }
        i = i + 1;
    }
    events.push(end("Relationships"));
    assert(rels_view(rels@).take(i as int) =~= rels_view(rels@));
    assert(events_view(events@) =~= rels_events(rels_view(rels@)));
    render_document(&events)
}

/// An element holding one text: opening tag, text, closing tag.
pub open spec fn text_element(tag: &str, a: Seq<(Seq<u8>, Seq<u8>)>, value: Seq<u8>) -> Seq<EventView> {
    seq![EventView::Start(tag.spec_bytes(), a), EventView::Text(value), EventView::End(tag.spec_bytes())]
}

fn push_text_element(events: &mut Vec<XmlEvent>, tag: &str, a: Vec<Attribute>, value: &Vec<u8>)
    ensures
        events_view(final(events)@) == events_view(old(events)@) + text_element(
            tag,
            attributes_view(a@),
            value@,
        ),
{
    let ghost av = attributes_view(a@);
    events.push(start(tag, a));
    events.push(XmlEvent::Text { content: copy_bytes(value) });
    events.push(end(tag));
    assert(events_view(events@) =~= events_view(old(events)@) + text_element(tag, av, value@));
}

pub open spec fn w3cdtf() -> Seq<(Seq<u8>, Seq<u8>)> {
    seq![("xsi:type".spec_bytes(), "dcterms:W3CDTF".spec_bytes())]
}

pub open spec fn core_namespaces() -> Seq<(Seq<u8>, Seq<u8>)> {
    seq![
        ("xmlns:cp".spec_bytes(), "http://schemas.openxmlformats.org/package/2006/metadata/core-properties".spec_bytes()),
        ("xmlns:dc".spec_bytes(), "http://purl.org/dc/elements/1.1/".spec_bytes()),
        ("xmlns:dcterms".spec_bytes(), "http://purl.org/dc/terms/".spec_bytes()),
        ("xmlns:dcmitype".spec_bytes(), "http://purl.org/dc/dcmitype/".spec_bytes()),
        ("xmlns:xsi".spec_bytes(), "http://www.w3.org/2001/XMLSchema-instance".spec_bytes()),
    ]
}

/// The events of the core properties part: each property in its element,
/// in a fixed order, inside `cp:coreProperties`.
pub open spec fn core_events(p: Properties) -> Seq<EventView> {
    let none = Seq::<(Seq<u8>, Seq<u8>)>::empty();
    seq![EventView::Start("cp:coreProperties".spec_bytes(), core_namespaces())]
        + text_element("dc:title", none, p.title@)
        + text_element("dc:subject", none, p.subject@)
        + text_element("dc:creator", none, p.creator@)
        + text_element("cp:keywords", none, p.keywords@)
        + text_element("dc:description", none, p.description@)
        + text_element("cp:lastModifiedBy", none, p.last_modified_by@)
        + text_element("cp:revision", none, p.revision@)
        + text_element("dcterms:created", w3cdtf(), p.created@)
        + text_element("dcterms:modified", w3cdtf(), p.modified@)
        + text_element("cp:category", none, p.category@)
        + text_element("cp:version", none, p.version@)
        + seq![EventView::End("cp:coreProperties".spec_bytes())]
}

fn w3cdtf_attributes() -> (r: Vec<Attribute>)
    ensures
        attributes_view(r@) == w3cdtf(),
{
    let mut a: Vec<Attribute> = Vec::new();
    a.push(attr("xsi:type", bytes_of("dcterms:W3CDTF")));
    assert(attributes_view(a@) =~= w3cdtf());
    a
}

/// The content of `docProps/core.xml`.
pub fn core_content(p: &Properties) -> (r: Vec<u8>)
    ensures
        r@ == declaration_text() + render_all(core_events(*p)),
{
    let mut a: Vec<Attribute> = Vec::new();
    a.push(attr("xmlns:cp", bytes_of("http://schemas.openxmlformats.org/package/2006/metadata/core-properties")));
    a.push(attr("xmlns:dc", bytes_of("http://purl.org/dc/elements/1.1/")));
    a.push(attr("xmlns:dcterms", bytes_of("http://purl.org/dc/terms/")));
    a.push(attr("xmlns:dcmitype", bytes_of("http://purl.org/dc/dcmitype/")));
    a.push(attr("xmlns:xsi", bytes_of("http://www.w3.org/2001/XMLSchema-instance")));
    assert(attributes_view(a@) =~= core_namespaces());
    let mut events: Vec<XmlEvent> = Vec::new();
    events.push(start("cp:coreProperties", a));
    let ghost none = Seq::<(Seq<u8>, Seq<u8>)>::empty();
    let ghost mut acc = seq![EventView::Start("cp:coreProperties".spec_bytes(), core_namespaces())];
    assert(events_view(events@) =~= acc);
    assert(attributes_view(Seq::<Attribute>::empty()) =~= none);
    push_text_element(&mut events, "dc:title", Vec::new(), &p.title);
    proof {
        acc = acc + text_element("dc:title", none, p.title@);
    }
    push_text_element(&mut events, "dc:subject", Vec::new(), &p.subject);
    proof {
        acc = acc + text_element("dc:subject", none, p.subject@);
    }
    push_text_element(&mut events, "dc:creator", Vec::new(), &p.creator);
    proof {
        acc = acc + text_element("dc:creator", none, p.creator@);
    }
    push_text_element(&mut events, "cp:keywords", Vec::new(), &p.keywords);
    proof {
        acc = acc + text_element("cp:keywords", none, p.keywords@);
    }
    push_text_element(&mut events, "dc:description", Vec::new(), &p.description);
    proof {
        acc = acc + text_element("dc:description", none, p.description@);
    }
    push_text_element(&mut events, "cp:lastModifiedBy", Vec::new(), &p.last_modified_by);
    proof {
        acc = acc + text_element("cp:lastModifiedBy", none, p.last_modified_by@);
    }
    push_text_element(&mut events, "cp:revision", Vec::new(), &p.revision);
    proof {
        acc = acc + text_element("cp:revision", none, p.revision@);
    }
    push_text_element(&mut events, "dcterms:created", w3cdtf_attributes(), &p.created);
    proof {
        acc = acc + text_element("dcterms:created", w3cdtf(), p.created@);
    }
    push_text_element(&mut events, "dcterms:modified", w3cdtf_attributes(), &p.modified);
    proof {
        acc = acc + text_element("dcterms:modified", w3cdtf(), p.modified@);
    }
    push_text_element(&mut events, "cp:category", Vec::new(), &p.category);
    proof {
        acc = acc + text_element("cp:category", none, p.category@);
    }
    push_text_element(&mut events, "cp:version", Vec::new(), &p.version);
    proof {
        acc = acc + text_element("cp:version", none, p.version@);
    }
    events.push(end("cp:coreProperties"));
    assert(events_view(events@) =~= acc + seq![EventView::End("cp:coreProperties".spec_bytes())]);
    render_document(&events)
}

/// One attribute list of a single entry.
fn one(key: &str, value: Vec<u8>) -> (r: Vec<Attribute>)
    ensures
        attributes_view(r@) == seq![(key.spec_bytes(), value@)],
{
    let mut a: Vec<Attribute> = Vec::new();
    a.push(attr(key, value));
    assert(attributes_view(a@) =~= seq![(key.spec_bytes(), value@)]);
    a
}

/// The media type of a part listed by name in `[Content_Types].xml`; `None`
/// for those that go by their extension.
pub open spec fn content_type_of(source: PartSource) -> Option<Seq<u8>> {
    match source {
        PartSource::CoreProperties => Some("application/vnd.openxmlformats-package.core-properties+xml".spec_bytes()),
        PartSource::AppProperties => Some("application/vnd.openxmlformats-officedocument.extended-properties+xml".spec_bytes()),
        PartSource::Theme => Some("application/vnd.openxmlformats-officedocument.theme+xml".spec_bytes()),
        PartSource::Workbook => Some("application/vnd.openxmlformats-officedocument.spreadsheetml.sheet.main+xml".spec_bytes()),
        PartSource::Worksheet(_) => Some("application/vnd.openxmlformats-officedocument.spreadsheetml.worksheet+xml".spec_bytes()),
        PartSource::Drawing(_) => Some("application/vnd.openxmlformats-officedocument.drawing+xml".spec_bytes()),
        PartSource::Comments(_) => Some("application/vnd.openxmlformats-officedocument.spreadsheetml.comments+xml".spec_bytes()),
        PartSource::Chart(_, _) => Some("application/vnd.openxmlformats-officedocument.drawingml.chart+xml".spec_bytes()),
        PartSource::SharedStrings => Some("application/vnd.openxmlformats-officedocument.spreadsheetml.sharedStrings+xml".spec_bytes()),
        PartSource::Styles => Some("application/vnd.openxmlformats-officedocument.spreadsheetml.styles+xml".spec_bytes()),
        _ => None,
    }
}

fn content_type(source: PartSource) -> (r: Option<Vec<u8>>)
    ensures
        match content_type_of(source) {
            Some(t) => r matches Some(v) && v@ == t,
            None => r is None,
        },
{
    match source {
        PartSource::CoreProperties => Some(bytes_of("application/vnd.openxmlformats-package.core-properties+xml")),
        PartSource::AppProperties => Some(bytes_of("application/vnd.openxmlformats-officedocument.extended-properties+xml")),
        PartSource::Theme => Some(bytes_of("application/vnd.openxmlformats-officedocument.theme+xml")),
        PartSource::Workbook => Some(bytes_of("application/vnd.openxmlformats-officedocument.spreadsheetml.sheet.main+xml")),
        PartSource::Worksheet(_) => Some(bytes_of("application/vnd.openxmlformats-officedocument.spreadsheetml.worksheet+xml")),
        PartSource::Drawing(_) => Some(bytes_of("application/vnd.openxmlformats-officedocument.drawing+xml")),
        PartSource::Comments(_) => Some(bytes_of("application/vnd.openxmlformats-officedocument.spreadsheetml.comments+xml")),
        PartSource::Chart(_, _) => Some(bytes_of("application/vnd.openxmlformats-officedocument.drawingml.chart+xml")),
        PartSource::SharedStrings => Some(bytes_of("application/vnd.openxmlformats-officedocument.spreadsheetml.sharedStrings+xml")),
        PartSource::Styles => Some(bytes_of("application/vnd.openxmlformats-officedocument.spreadsheetml.styles+xml")),
        _ => None,
    }
}

pub open spec fn default_event(extension: &str, media: &str) -> EventView {
    EventView::Empty(
        "Default".spec_bytes(),
        seq![("Extension".spec_bytes(), extension.spec_bytes()), ("ContentType".spec_bytes(), media.spec_bytes())],
    )
}

fn push_default(events: &mut Vec<XmlEvent>, extension: &str, media: &str)
    ensures
        events_view(final(events)@) == events_view(old(events)@).push(default_event(extension, media)),
{
    let mut a: Vec<Attribute> = Vec::new();
    a.push(attr("Extension", bytes_of(extension)));
    a.push(attr("ContentType", bytes_of(media)));
    assert(attributes_view(a@) =~= seq![a@[0]@, a@[1]@]);
    events.push(empty("Default", a));
    assert(events_view(events@) =~= events_view(old(events)@).push(default_event(extension, media)));
}

/// The `Override` tags of the parts that are listed by name, in order.
pub open spec fn override_events(parts: Seq<PartEntry>) -> Seq<EventView>
    decreases parts.len(),
{
    if parts.len() == 0 {
        Seq::empty()
    } else {
        override_events(parts.drop_last()) + match content_type_of(parts.last().source) {
            Some(t) => seq![
                EventView::Empty(
                    "Override".spec_bytes(),
                    seq![("PartName".spec_bytes(), seq![47u8] + parts.last().path@), ("ContentType".spec_bytes(), t)],
                ),
            ],
            None => Seq::empty(),
        }
    }
}

/// The events of `[Content_Types].xml` for the parts `parts`: a media type
/// for each extension, then one for each part listed by name.
pub open spec fn content_types_events(parts: Seq<PartEntry>) -> Seq<EventView> {
    seq![
        EventView::Start(
            "Types".spec_bytes(),
            seq![("xmlns".spec_bytes(), "http://schemas.openxmlformats.org/package/2006/content-types".spec_bytes())],
        ),
        default_event("rels", "application/vnd.openxmlformats-package.relationships+xml"),
        default_event("xml", "application/xml"),
        default_event("png", "image/png"),
        default_event("vml", "application/vnd.openxmlformats-officedocument.vmlDrawing"),
        default_event("bin", "application/vnd.ms-office.vbaProject"),
    ] + override_events(parts) + seq![EventView::End("Types".spec_bytes())]
}

/// The content of `[Content_Types].xml` for the given parts.
pub(crate) fn content_types_content(parts: &Vec<PartEntry>) -> (r: Vec<u8>)
    ensures
        r@ == declaration_text() + render_all(content_types_events(parts@)),
{
    let mut events: Vec<XmlEvent> = Vec::new();
    events.push(start("Types", one("xmlns", bytes_of("http://schemas.openxmlformats.org/package/2006/content-types"))));
    push_default(&mut events, "rels", "application/vnd.openxmlformats-package.relationships+xml");
    push_default(&mut events, "xml", "application/xml");
    push_default(&mut events, "png", "image/png");
    push_default(&mut events, "vml", "application/vnd.openxmlformats-officedocument.vmlDrawing");
    push_default(&mut events, "bin", "application/vnd.ms-office.vbaProject");
    let ghost head = events_view(events@);
    assert(parts@.take(0) =~= Seq::<PartEntry>::empty());
    assert(events_view(events@) =~= head + override_events(parts@.take(0)));
    let mut i: usize = 0;
    while i < parts.len()
        invariant
            i <= parts@.len(),
            events_view(events@) =~= head + override_events(parts@.take(i as int)),
        decreases parts@.len() - i,
    {
        let ghost before = events_view(events@);
        proof {
            assert(parts@.take(i as int + 1).drop_last() =~= parts@.take(i as int));
            assert(parts@.take(i as int + 1).last() == parts@[i as int]);
        }
        match content_type(parts[i].source) {
            Some(media) => {
                let mut name: Vec<u8> = Vec::new();
                name.push(47u8);
                crate::xml::append(&mut name, parts[i].path.as_slice());
                let ghost mv = media@;
                let mut a: Vec<Attribute> = Vec::new();
                a.push(attr("PartName", name));
                a.push(attr("ContentType", media));
                assert(attributes_view(a@) =~= seq![a@[0]@, a@[1]@]);
                events.push(empty("Override", a));
                proof {
                    assert(name@ =~= seq![47u8] + parts@[i as int].path@);
                    assert(content_type_of(parts@[i as int].source) == Some(mv));
                    assert(events_view(events@) =~= before.push(
                        EventView::Empty(
                            "Override".spec_bytes(),
                            seq![("PartName".spec_bytes(), seq![47u8] + parts@[i as int].path@), ("ContentType".spec_bytes(), mv)],
                        ),
                    ));
                    assert(events_view(events@) =~= head + override_events(parts@.take(i as int + 1)));
                }
            },
            None => {
                assert(events_view(events@) =~= head + override_events(parts@.take(i as int + 1)));
            },
        }
        i = i + 1;
    }
    assert(parts@.take(i as int) =~= parts@);
    let ghost body = events_view(events@);
    events.push(end("Types"));
    assert(events_view(events@) =~= body.push(EventView::End("Types".spec_bytes())));
    assert(events_view(events@) =~= content_types_events(parts@));
    render_document(&events)
}

/// The events of `docProps/app.xml`: the application's name.
pub open spec fn app_events() -> Seq<EventView> {
    seq![
        EventView::Start(
            "Properties".spec_bytes(),
            seq![("xmlns".spec_bytes(), "http://schemas.openxmlformats.org/officeDocument/2006/extended-properties".spec_bytes())],
        ),
        EventView::Start("Application".spec_bytes(), Seq::empty()),
        EventView::Text("Microsoft Excel".spec_bytes()),
        EventView::End("Application".spec_bytes()),
        EventView::End("Properties".spec_bytes()),
    ]
}

/// The content of `docProps/app.xml`.
pub(crate) fn app_content() -> (r: Vec<u8>)
    ensures
        r@ == declaration_text() + render_all(app_events()),
{
    let mut events: Vec<XmlEvent> = Vec::new();
    events.push(start("Properties", one("xmlns", bytes_of("http://schemas.openxmlformats.org/officeDocument/2006/extended-properties"))));
    events.push(start("Application", Vec::new()));
    events.push(XmlEvent::Text { content: bytes_of("Microsoft Excel") });
    events.push(end("Application"));
    events.push(end("Properties"));
    assert(attributes_view(Seq::<Attribute>::empty()) =~= Seq::<(Seq<u8>, Seq<u8>)>::empty());
    assert(events_view(events@) =~= app_events());
    render_document(&events)
}

/// The events of `xl/theme/theme1.xml`: a theme named `Office Theme`.
pub open spec fn theme_events() -> Seq<EventView> {
    seq![
        EventView::Empty(
            "a:theme".spec_bytes(),
            seq![
                ("xmlns:a".spec_bytes(), "http://schemas.openxmlformats.org/drawingml/2006/main".spec_bytes()),
                ("name".spec_bytes(), "Office Theme".spec_bytes()),
            ],
        ),
    ]
}

/// The content of `xl/theme/theme1.xml`.
pub(crate) fn theme_content() -> (r: Vec<u8>)
    ensures
        r@ == declaration_text() + render_all(theme_events()),
{
    let mut a: Vec<Attribute> = Vec::new();
    a.push(attr("xmlns:a", bytes_of("http://schemas.openxmlformats.org/drawingml/2006/main")));
    a.push(attr("name", bytes_of("Office Theme")));
    assert(attributes_view(a@) =~= seq![a@[0]@, a@[1]@]);
    let mut events: Vec<XmlEvent> = Vec::new();
    events.push(empty("a:theme", a));
    assert(events_view(events@) =~= theme_events());
    render_document(&events)
}

/// The tag of the sheet at `i`: its name, its number `i + 1`, and the
/// relationship `rId{i + 1}` that the workbook's `.rels` gives it.
pub open spec fn sheet_entry_event(name: Seq<u8>, i: nat) -> EventView {
    EventView::Empty(
        "sheet".spec_bytes(),
        seq![
            ("name".spec_bytes(), name),
            ("sheetId".spec_bytes(), decimal_of(i + 1)),
            ("r:id".spec_bytes(), rel_id_text(i + 1)),
        ],
    )
}

/// The events of `xl/workbook.xml` for sheets of these names.
pub open spec fn workbook_events(names: Seq<Seq<u8>>) -> Seq<EventView> {
    seq![
        EventView::Start("workbook".spec_bytes(), worksheet_namespaces()),
        EventView::Start("sheets".spec_bytes(), Seq::empty()),
    ] + Seq::new(names.len(), |i: int| sheet_entry_event(names[i], i as nat)) + seq![
        EventView::End("sheets".spec_bytes()),
        EventView::End("workbook".spec_bytes()),
    ]
}

pub open spec fn sheet_names(sheets: Seq<Worksheet>) -> Seq<Seq<u8>> {
    sheets.map_values(|w: Worksheet| w.name@)
}

/// The content of `xl/workbook.xml`.
pub(crate) fn workbook_content(book: &Spreadsheet) -> (r: Vec<u8>)
    requires
        book.sheets@.len() < u64::MAX,
    ensures
        r@ == declaration_text() + render_all(workbook_events(sheet_names(book.sheets@))),
{
    let ghost names = sheet_names(book.sheets@);
    let mut a: Vec<Attribute> = Vec::new();
    a.push(attr("xmlns", bytes_of("http://schemas.openxmlformats.org/spreadsheetml/2006/main")));
    a.push(attr("xmlns:r", bytes_of("http://schemas.openxmlformats.org/officeDocument/2006/relationships")));
    assert(attributes_view(a@) =~= worksheet_namespaces());
    let mut events: Vec<XmlEvent> = Vec::new();
    events.push(start("workbook", a));
    events.push(start("sheets", Vec::new()));
    assert(attributes_view(Seq::<Attribute>::empty()) =~= Seq::<(Seq<u8>, Seq<u8>)>::empty());
    let ghost head = events_view(events@);
    assert(head =~= seq![
        EventView::Start("workbook".spec_bytes(), worksheet_namespaces()),
        EventView::Start("sheets".spec_bytes(), Seq::empty()),
    ]);
    let mut i: usize = 0;
    while i < book.sheets.len()
        invariant
            book.sheets@.len() < u64::MAX,
            i <= book.sheets@.len(),
            names == sheet_names(book.sheets@),
            events_view(events@) =~= head + Seq::new(
                i as nat,
                |j: int| sheet_entry_event(names[j], j as nat),
            ),
        decreases book.sheets@.len() - i,
    {
        let n = (i + 1) as u64;
        let mut s: Vec<Attribute> = Vec::new();
        s.push(attr("name", copy_bytes(&book.sheets[i].name)));
        s.push(attr("sheetId", decimal(n)));
        s.push(attr("r:id", rel_id(n)));
        assert(attributes_view(s@) =~= seq![s@[0]@, s@[1]@, s@[2]@]);
        let e = empty("sheet", s);
        assert(e@ == sheet_entry_event(names[i as int], i as nat));
        let ghost prev = events_view(events@);
        events.push(e);
        assert(events_view(events@) =~= prev.push(e@));
        i = i + 1;
    }
    assert(names.len() == i);
    let ghost entries = events_view(events@);
    events.push(end("sheets"));
    events.push(end("workbook"));
    assert(events_view(events@) =~= entries + seq![
        EventView::End("sheets".spec_bytes()),
        EventView::End("workbook".spec_bytes()),
    ]);
    assert(events_view(events@) =~= workbook_events(names));
    render_document(&events)
}

pub open spec fn no_attributes() -> Seq<(Seq<u8>, Seq<u8>)> {
    Seq::empty()
}

/// The events of one cell holding the shared string at index `x`.
pub open spec fn cell_events(x: usize) -> Seq<EventView> {
    seq![
        EventView::Start("c".spec_bytes(), seq![("t".spec_bytes(), "s".spec_bytes())]),
        EventView::Start("v".spec_bytes(), no_attributes()),
        EventView::Text(decimal_of(x as nat)),
        EventView::End("v".spec_bytes()),
        EventView::End("c".spec_bytes()),
    ]
}

/// The events of the cells of a row, in order.
pub open spec fn cells_events(idx: Seq<usize>) -> Seq<EventView>
    decreases idx.len(),
{
    if idx.len() == 0 {
        Seq::empty()
    } else {
        cells_events(idx.drop_last()) + cell_events(idx.last())
    }
}

/// The events of the rows, in order, each cell given by its index.
pub open spec fn rows_events(ix: Seq<Seq<usize>>) -> Seq<EventView>
    decreases ix.len(),
{
    if ix.len() == 0 {
        Seq::empty()
    } else {
        rows_events(ix.drop_last()) + seq![EventView::Start("row".spec_bytes(), no_attributes())]
            + cells_events(ix.last()) + seq![EventView::End("row".spec_bytes())]
    }
}

pub open spec fn worksheet_namespaces() -> Seq<(Seq<u8>, Seq<u8>)> {
    seq![
        ("xmlns".spec_bytes(), "http://schemas.openxmlformats.org/spreadsheetml/2006/main".spec_bytes()),
        ("xmlns:r".spec_bytes(), "http://schemas.openxmlformats.org/officeDocument/2006/relationships".spec_bytes()),
    ]
}

/// The events of a worksheet whose cells hold the shared strings `ix`: the
/// drawing referred to as `rId1` and the legacy drawing after the comments,
/// the ids its `.rels` gives them.
pub open spec fn worksheet_events(w: SheetShape, ix: Seq<Seq<usize>>) -> Seq<EventView> {
    let first: nat = if has_drawing(w) {
        1
    } else {
        0
    };
    seq![
        EventView::Start("worksheet".spec_bytes(), worksheet_namespaces()),
        EventView::Start("sheetData".spec_bytes(), no_attributes()),
    ] + rows_events(ix) + seq![EventView::End("sheetData".spec_bytes())] + (if has_drawing(w) {
        seq![EventView::Empty("drawing".spec_bytes(), seq![("r:id".spec_bytes(), rel_id_text(1))])]
    } else {
        Seq::empty()
    }) + (if has_comments(w) {
        seq![
            EventView::Empty(
                "legacyDrawing".spec_bytes(),
                seq![("r:id".spec_bytes(), rel_id_text(first + 2))],
            ),
        ]
    } else {
        Seq::empty()
    }) + seq![EventView::End("worksheet".spec_bytes())]
}

fn push_cell(events: &mut Vec<XmlEvent>, x: usize)
    ensures
        events_view(final(events)@) == events_view(old(events)@) + cell_events(x),
{
    let a = one("t", bytes_of("s"));
    events.push(start("c", a));
    events.push(start("v", Vec::new()));
    events.push(XmlEvent::Text { content: decimal(x as u64) });
    events.push(end("v"));
    events.push(end("c"));
    assert(attributes_view(Seq::<Attribute>::empty()) =~= no_attributes());
    assert(events_view(events@) =~= events_view(old(events)@) + cell_events(x));
}

/// The content of a worksheet whose cells hold the shared strings
/// `indices`, row by row.
pub(crate) fn worksheet_content(w: &Worksheet, indices: &Vec<Vec<usize>>) -> (r: Vec<u8>)
    ensures
        r@ == declaration_text() + render_all(worksheet_events(w.shape(), indices_view(indices@))),
{
    let ghost ix = indices_view(indices@);
    let mut a: Vec<Attribute> = Vec::new();
    a.push(attr("xmlns", bytes_of("http://schemas.openxmlformats.org/spreadsheetml/2006/main")));
    a.push(attr("xmlns:r", bytes_of("http://schemas.openxmlformats.org/officeDocument/2006/relationships")));
    assert(attributes_view(a@) =~= worksheet_namespaces());
    let mut events: Vec<XmlEvent> = Vec::new();
    events.push(start("worksheet", a));
    events.push(start("sheetData", Vec::new()));
    assert(attributes_view(Seq::<Attribute>::empty()) =~= no_attributes());
    let ghost head = events_view(events@);
    assert(head =~= seq![
        EventView::Start("worksheet".spec_bytes(), worksheet_namespaces()),
        EventView::Start("sheetData".spec_bytes(), no_attributes()),
    ]);
    assert(rows_events(ix.take(0)) =~= Seq::<EventView>::empty()) by {
        assert(ix.take(0).len() == 0);
    }
    assert(events_view(events@) =~= head + rows_events(ix.take(0)));
    let mut i: usize = 0;
    while i < indices.len()
        invariant
            0 <= i <= indices@.len(),
            ix == indices_view(indices@),
            events_view(events@) == head + rows_events(ix.take(i as int)),
        decreases indices@.len() - i,
    {
        let ghost before_row = events_view(events@);
        events.push(start("row", Vec::new()));
        assert(attributes_view(Seq::<Attribute>::empty()) =~= no_attributes());
        let row = &indices[i];
        assert(ix[i as int] == row@);
        let ghost row_start = events_view(events@);
        assert(row_start =~= before_row + seq![EventView::Start("row".spec_bytes(), no_attributes())]);
        let mut j: usize = 0;
        while j < row.len()
            invariant
                0 <= j <= row@.len(),
                events_view(events@) == row_start + cells_events(row@.take(j as int)),
            decreases row@.len() - j,
        {
            push_cell(&mut events, row[j]);
            proof {
                assert(row@.take(j as int + 1).drop_last() =~= row@.take(j as int));
            }
            j = j + 1;
        }
        let ghost before_end = events_view(events@);
        events.push(end("row"));
        proof {
            assert(events_view(events@) =~= before_end.push(EventView::End("row".spec_bytes())));
            assert(row@.take(j as int) =~= row@);
            assert(ix.take(i as int + 1).drop_last() =~= ix.take(i as int));
            assert(ix.take(i as int + 1).last() == row@);
            assert(events_view(events@) =~= before_row + seq![
                EventView::Start("row".spec_bytes(), no_attributes()),
            ] + cells_events(row@) + seq![EventView::End("row".spec_bytes())]);
            assert(events_view(events@) =~= head + rows_events(ix.take(i as int + 1)));
        }
        i = i + 1;
    }
    assert(ix.take(i as int) =~= ix);
    events.push(end("sheetData"));
    let ghost body = events_view(events@);
    assert(body =~= head + rows_events(ix) + seq![EventView::End("sheetData".spec_bytes())]);
    let mut first: u64 = 0;
    if w.has_drawing_object() {
        let d = one("r:id", rel_id(1));
        events.push(empty("drawing", d));
        first = 1;
    }
    let ghost with_drawing = events_view(events@);
    assert(with_drawing =~= body + (if has_drawing(w.shape()) {
        seq![EventView::Empty("drawing".spec_bytes(), seq![("r:id".spec_bytes(), rel_id_text(1))])]
    } else {
        Seq::empty()
    }));
    if w.has_comments() {
        let l = one("r:id", rel_id(first + 2));
        events.push(empty("legacyDrawing", l));
    }
    events.push(end("worksheet"));
    assert(events_view(events@) =~= worksheet_events(w.shape(), ix));
    render_document(&events)
}

/// For each `j < count`, an `outer` element holding a self-closing `inner`
/// tag whose `key` names the relationship `rId{first + j}`.
pub open spec fn reference_events(outer: &str, inner: &str, key: &str, first: nat, count: nat) -> Seq<
    EventView,
>
    decreases count,
{
    if count == 0 {
        Seq::empty()
    } else {
        reference_events(outer, inner, key, first, (count - 1) as nat) + seq![
            EventView::Start(outer.spec_bytes(), no_attributes()),
            EventView::Empty(inner.spec_bytes(), seq![(key.spec_bytes(), rel_id_text((first + count - 1) as nat))]),
            EventView::End(outer.spec_bytes()),
        ]
    }
}

pub open spec fn drawing_namespaces() -> Seq<(Seq<u8>, Seq<u8>)> {
    seq![
        ("xmlns:xdr".spec_bytes(), "http://schemas.openxmlformats.org/drawingml/2006/spreadsheetDrawing".spec_bytes()),
        ("xmlns:a".spec_bytes(), "http://schemas.openxmlformats.org/drawingml/2006/main".spec_bytes()),
        ("xmlns:c".spec_bytes(), "http://schemas.openxmlformats.org/drawingml/2006/chart".spec_bytes()),
        ("xmlns:r".spec_bytes(), "http://schemas.openxmlformats.org/officeDocument/2006/relationships".spec_bytes()),
    ]
}

/// The events of a sheet's drawing: a frame for each chart, referring to
/// `rId1` onwards, then a picture for each image, referring to the ids
/// after the charts', as the drawing's `.rels` numbers them.
pub open spec fn drawing_events(w: SheetShape) -> Seq<EventView> {
    seq![EventView::Start("xdr:wsDr".spec_bytes(), drawing_namespaces())]
        + reference_events("xdr:graphicFrame", "c:chart", "r:id", 1, w.charts)
        + reference_events("xdr:pic", "a:blip", "r:embed", w.charts + 1, w.pictures)
        + seq![EventView::End("xdr:wsDr".spec_bytes())]
}

fn push_reference(events: &mut Vec<XmlEvent>, outer: &str, inner: &str, key: &str, id: u64)
    ensures
        events_view(final(events)@) == events_view(old(events)@) + seq![
            EventView::Start(outer.spec_bytes(), no_attributes()),
            EventView::Empty(inner.spec_bytes(), seq![(key.spec_bytes(), rel_id_text(id as nat))]),
            EventView::End(outer.spec_bytes()),
        ],
{
    events.push(start(outer, Vec::new()));
    events.push(empty(inner, one(key, rel_id(id))));
    events.push(end(outer));
    assert(attributes_view(Seq::<Attribute>::empty()) =~= no_attributes());
    assert(events_view(events@) =~= events_view(old(events)@) + seq![
        EventView::Start(outer.spec_bytes(), no_attributes()),
        EventView::Empty(inner.spec_bytes(), seq![(key.spec_bytes(), rel_id_text(id as nat))]),
        EventView::End(outer.spec_bytes()),
    ]);
}

/// The content of a sheet's drawing.
pub(crate) fn drawing_content(w: &Worksheet) -> (r: Vec<u8>)
    requires
        w.charts@.len() + w.pictures@.len() < u64::MAX,
    ensures
        r@ == declaration_text() + render_all(drawing_events(w.shape())),
{
    let mut a: Vec<Attribute> = Vec::new();
    a.push(attr("xmlns:xdr", bytes_of("http://schemas.openxmlformats.org/drawingml/2006/spreadsheetDrawing")));
    a.push(attr("xmlns:a", bytes_of("http://schemas.openxmlformats.org/drawingml/2006/main")));
    a.push(attr("xmlns:c", bytes_of("http://schemas.openxmlformats.org/drawingml/2006/chart")));
    a.push(attr("xmlns:r", bytes_of("http://schemas.openxmlformats.org/officeDocument/2006/relationships")));
    assert(attributes_view(a@) =~= drawing_namespaces());
    let mut events: Vec<XmlEvent> = Vec::new();
    events.push(start("xdr:wsDr", a));
    let ghost head = events_view(events@);
    assert(head =~= seq![EventView::Start("xdr:wsDr".spec_bytes(), drawing_namespaces())]);
    let c = w.charts.len();
    let mut j: usize = 0;
    assert(head + reference_events("xdr:graphicFrame", "c:chart", "r:id", 1, 0) =~= head);
    while j < c
        invariant
            c == w.charts@.len(),
            c + w.pictures@.len() < u64::MAX,
            j <= c,
            events_view(events@) == head + reference_events("xdr:graphicFrame", "c:chart", "r:id", 1, j as nat),
        decreases c - j,
    {
        push_reference(&mut events, "xdr:graphicFrame", "c:chart", "r:id", (j + 1) as u64);
        proof {
            assert(events_view(events@) =~= head + reference_events("xdr:graphicFrame", "c:chart", "r:id", 1, (j + 1) as nat));
        }
        j = j + 1;
    }
    let ghost frames = events_view(events@);
    let mut j: usize = 0;
    assert(frames + reference_events("xdr:pic", "a:blip", "r:embed", (c + 1) as nat, 0) =~= frames);
    while j < w.pictures.len()
        invariant
            c == w.charts@.len(),
            c + w.pictures@.len() < u64::MAX,
            j <= w.pictures@.len(),
            events_view(events@) == frames + reference_events("xdr:pic", "a:blip", "r:embed", (c + 1) as nat, j as nat),
        decreases w.pictures@.len() - j,
    {
        push_reference(&mut events, "xdr:pic", "a:blip", "r:embed", (c as u64) + (j as u64) + 1);
        proof {
            assert(events_view(events@) =~= frames + reference_events("xdr:pic", "a:blip", "r:embed", (c + 1) as nat, (j + 1) as nat));
        }
        j = j + 1;
    }
    events.push(end("xdr:wsDr"));
    assert(events_view(events@) =~= drawing_events(w.shape()));
    render_document(&events)
}

/// The events of the comments `cs`, each its cell and its text.
pub open spec fn comment_list_events(cs: Seq<Comment>) -> Seq<EventView>
    decreases cs.len(),
{
    if cs.len() == 0 {
        Seq::empty()
    } else {
        comment_list_events(cs.drop_last()) + seq![
            EventView::Start("comment".spec_bytes(), seq![("ref".spec_bytes(), cs.last().cell@)]),
            EventView::Start("text".spec_bytes(), no_attributes()),
            EventView::Start("t".spec_bytes(), no_attributes()),
            EventView::Text(cs.last().text@),
            EventView::End("t".spec_bytes()),
            EventView::End("text".spec_bytes()),
            EventView::End("comment".spec_bytes()),
        ]
    }
}

/// The events of a sheet's comments part.
pub open spec fn comments_events(cs: Seq<Comment>) -> Seq<EventView> {
    seq![
        EventView::Start(
            "comments".spec_bytes(),
            seq![("xmlns".spec_bytes(), "http://schemas.openxmlformats.org/spreadsheetml/2006/main".spec_bytes())],
        ),
        EventView::Empty("authors".spec_bytes(), no_attributes()),
        EventView::Start("commentList".spec_bytes(), no_attributes()),
    ] + comment_list_events(cs) + seq![
        EventView::End("commentList".spec_bytes()),
        EventView::End("comments".spec_bytes()),
    ]
}

/// The content of a sheet's comments part.
pub(crate) fn comments_content(w: &Worksheet) -> (r: Vec<u8>)
    ensures
        r@ == declaration_text() + render_all(comments_events(w.comments@)),
{
    let ghost cs = w.comments@;
    let mut events: Vec<XmlEvent> = Vec::new();
    events.push(start("comments", one("xmlns", bytes_of("http://schemas.openxmlformats.org/spreadsheetml/2006/main"))));
    events.push(empty("authors", Vec::new()));
    events.push(start("commentList", Vec::new()));
    assert(attributes_view(Seq::<Attribute>::empty()) =~= no_attributes());
    let ghost head = events_view(events@);
    assert(cs.take(0) =~= Seq::<Comment>::empty());
    assert(events_view(events@) =~= head + comment_list_events(cs.take(0)));
    let mut i: usize = 0;
    while i < w.comments.len()
        invariant
            cs == w.comments@,
            i <= cs.len(),
            events_view(events@) =~= head + comment_list_events(cs.take(i as int)),
        decreases w.comments@.len() - i,
    {
        let ghost before = events_view(events@);
        events.push(start("comment", one("ref", copy_bytes(&w.comments[i].cell))));
        events.push(start("text", Vec::new()));
        events.push(start("t", Vec::new()));
        events.push(XmlEvent::Text { content: copy_bytes(&w.comments[i].text) });
        events.push(end("t"));
        events.push(end("text"));
        events.push(end("comment"));
        proof {
            assert(attributes_view(Seq::<Attribute>::empty()) =~= no_attributes());
            assert(cs.take(i as int + 1).drop_last() =~= cs.take(i as int));
            assert(cs.take(i as int + 1).last() == cs[i as int]);
            assert(events_view(events@) =~= before + seq![
                EventView::Start("comment".spec_bytes(), seq![("ref".spec_bytes(), cs[i as int].cell@)]),
                EventView::Start("text".spec_bytes(), no_attributes()),
                EventView::Start("t".spec_bytes(), no_attributes()),
                EventView::Text(cs[i as int].text@),
                EventView::End("t".spec_bytes()),
                EventView::End("text".spec_bytes()),
                EventView::End("comment".spec_bytes()),
            ]);
        }
        i = i + 1;
    }
    assert(cs.take(i as int) =~= cs);
    let ghost body = events_view(events@);
    events.push(end("commentList"));
    events.push(end("comments"));
    assert(events_view(events@) =~= body + seq![
        EventView::End("commentList".spec_bytes()),
        EventView::End("comments".spec_bytes()),
    ]);
    assert(events_view(events@) =~= comments_events(cs));
    render_document(&events)
}

/// The events of a sheet's legacy drawing.
pub open spec fn vml_drawing_events() -> Seq<EventView> {
    seq![
        EventView::Empty(
            "xml".spec_bytes(),
            seq![
                ("xmlns:v".spec_bytes(), "urn:schemas-microsoft-com:vml".spec_bytes()),
                ("xmlns:o".spec_bytes(), "urn:schemas-microsoft-com:office:office".spec_bytes()),
                ("xmlns:x".spec_bytes(), "urn:schemas-microsoft-com:office:excel".spec_bytes()),
            ],
        ),
    ]
}

/// The content of a sheet's legacy drawing, which anchors its comments.
pub(crate) fn vml_drawing_content() -> (r: Vec<u8>)
    ensures
        r@ == declaration_text() + render_all(vml_drawing_events()),
{
    let mut a: Vec<Attribute> = Vec::new();
    a.push(attr("xmlns:v", bytes_of("urn:schemas-microsoft-com:vml")));
    a.push(attr("xmlns:o", bytes_of("urn:schemas-microsoft-com:office:office")));
    a.push(attr("xmlns:x", bytes_of("urn:schemas-microsoft-com:office:excel")));
    assert(attributes_view(a@) =~= seq![a@[0]@, a@[1]@, a@[2]@]);
    let mut events: Vec<XmlEvent> = Vec::new();
    events.push(empty("xml", a));
    assert(events_view(events@) =~= vml_drawing_events());
    render_document(&events)
}

/// The events of a chart part: its labels flag inside the category axis,
/// then the effects of its shape, where it has them.
pub open spec fn chart_events(labels: Option<bool>, effects: Option<EffectListView>) -> Seq<
    EventView,
> {
    seq![
        EventView::Start(
            "c:chartSpace".spec_bytes(),
            seq![
                ("xmlns:c".spec_bytes(), "http://schemas.openxmlformats.org/drawingml/2006/chart".spec_bytes()),
                ("xmlns:a".spec_bytes(), "http://schemas.openxmlformats.org/drawingml/2006/main".spec_bytes()),
            ],
        ),
        EventView::Start("c:chart".spec_bytes(), no_attributes()),
        EventView::Start("c:plotArea".spec_bytes(), no_attributes()),
        EventView::Start("c:catAx".spec_bytes(), no_attributes()),
    ] + no_multi_level_labels_events(labels) + seq![
        EventView::End("c:catAx".spec_bytes()),
        EventView::End("c:plotArea".spec_bytes()),
        EventView::End("c:chart".spec_bytes()),
    ] + (match effects {
        Some(x) => seq![EventView::Start("c:spPr".spec_bytes(), no_attributes())] + effect_list_events(x)
            + seq![EventView::End("c:spPr".spec_bytes())],
        None => Seq::empty(),
    }) + seq![EventView::End("c:chartSpace".spec_bytes())]
}

fn write_one(w: &mut XmlWriter, e: XmlEvent)
    ensures
        final(w)@ == old(w)@ + render_all(seq![e@]),
{
    w.write_event(&e);
    proof {
        lemma_render_all_one(e@);
    }
}

/// The content of a chart part.
#[verifier::rlimit(100)]
pub(crate) fn chart_content(chart: &Chart) -> (r: Vec<u8>)
    ensures
        r@ == declaration_text() + render_all(
            chart_events(chart.no_multi_level_labels@, option_view(chart.effect_list)),
        ),
{
    let mut a: Vec<Attribute> = Vec::new();
    a.push(attr("xmlns:c", bytes_of("http://schemas.openxmlformats.org/drawingml/2006/chart")));
    a.push(attr("xmlns:a", bytes_of("http://schemas.openxmlformats.org/drawingml/2006/main")));
    assert(attributes_view(a@) =~= seq![a@[0]@, a@[1]@]);
    assert(attributes_view(Seq::<Attribute>::empty()) =~= no_attributes());
    let ghost effects = option_view(chart.effect_list);
    let mut w = XmlWriter::new();
    w.write_declaration();
    let ghost w0 = w@;
    let e1 = start("c:chartSpace", a);
    let e2 = start("c:chart", Vec::new());
    let e3 = start("c:plotArea", Vec::new());
    let e4 = start("c:catAx", Vec::new());
    let ghost opening = seq![e1@, e2@, e3@, e4@];
    write_one(&mut w, e1);
    write_one(&mut w, e2);
    write_one(&mut w, e3);
    write_one(&mut w, e4);
    proof {
        lemma_render_all_concat(seq![e1@], seq![e2@]);
        assert(seq![e1@] + seq![e2@] =~= seq![e1@, e2@]);
        lemma_render_all_concat(seq![e1@, e2@], seq![e3@]);
        assert(seq![e1@, e2@] + seq![e3@] =~= seq![e1@, e2@, e3@]);
        lemma_render_all_concat(seq![e1@, e2@, e3@], seq![e4@]);
        assert(seq![e1@, e2@, e3@] + seq![e4@] =~= opening);
        assert(w@ =~= w0 + render_all(opening));
    }
    chart.no_multi_level_labels.write_to(&mut w);
    let ghost labels = no_multi_level_labels_events(chart.no_multi_level_labels@);
    proof {
        lemma_render_all_concat(opening, labels);
        assert(w@ =~= w0 + render_all(opening + labels));
    }
    let f1 = end("c:catAx");
    let f2 = end("c:plotArea");
    let f3 = end("c:chart");
    let ghost closing = seq![f1@, f2@, f3@];
    let ghost mid = w@;
    write_one(&mut w, f1);
    write_one(&mut w, f2);
    write_one(&mut w, f3);
    proof {
        lemma_render_all_concat(seq![f1@], seq![f2@]);
        assert(seq![f1@] + seq![f2@] =~= seq![f1@, f2@]);
        lemma_render_all_concat(seq![f1@, f2@], seq![f3@]);
        assert(seq![f1@, f2@] + seq![f3@] =~= closing);
        lemma_render_all_concat(opening + labels, closing);
        assert(w@ =~= w0 + render_all(opening + labels + closing));
    }
    let ghost shape = match effects {
        Some(x) => seq![EventView::Start("c:spPr".spec_bytes(), no_attributes())] + effect_list_events(x)
            + seq![EventView::End("c:spPr".spec_bytes())],
        None => Seq::<EventView>::empty(),
    };
    match &chart.effect_list {
        Some(e) => {
            let s1 = start("c:spPr", Vec::new());
            let s2 = end("c:spPr");
            let ghost before = w@;
            write_one(&mut w, s1);
            e.write_to(&mut w);
            write_one(&mut w, s2);
            proof {
                lemma_render_all_concat(seq![s1@], effect_list_events(e@));
                lemma_render_all_concat(seq![s1@] + effect_list_events(e@), seq![s2@]);
                assert(w@ =~= before + render_all(shape));
            }
        },
        None => {
            assert(render_all(shape) =~= Seq::<u8>::empty());
        },
    }
    proof {
        lemma_render_all_concat(opening + labels + closing, shape);
    }
    let last = end("c:chartSpace");
    let ghost before_last = w@;
    write_one(&mut w, last);
    proof {
        lemma_render_all_concat(opening + labels + closing + shape, seq![last@]);
        assert(chart_events(chart.no_multi_level_labels@, effects) =~= opening + labels + closing
            + shape + seq![last@]);
        assert(w@ =~= w0 + render_all(chart_events(chart.no_multi_level_labels@, effects)));
    }
    w.into_bytes()
}

/// The events of the texts of a shared string table, in index order.
pub open spec fn strings_events(t: Seq<Seq<u8>>) -> Seq<EventView>
    decreases t.len(),
{
    if t.len() == 0 {
        Seq::empty()
    } else {
        strings_events(t.drop_last()) + seq![
            EventView::Start("si".spec_bytes(), no_attributes()),
            EventView::Start("t".spec_bytes(), no_attributes()),
            EventView::Text(t.last()),
            EventView::End("t".spec_bytes()),
            EventView::End("si".spec_bytes()),
        ]
    }
}

/// The events of `xl/sharedStrings.xml` for the table `t`.
pub open spec fn shared_strings_events(t: Seq<Seq<u8>>) -> Seq<EventView> {
    seq![
        EventView::Start(
            "sst".spec_bytes(),
            seq![
                ("xmlns".spec_bytes(), "http://schemas.openxmlformats.org/spreadsheetml/2006/main".spec_bytes()),
                ("uniqueCount".spec_bytes(), decimal_of(t.len())),
            ],
        ),
    ] + strings_events(t) + seq![EventView::End("sst".spec_bytes())]
}

/// The content of `xl/sharedStrings.xml`: each text of the table, in
/// index order.
pub(crate) fn shared_strings_content(table: &SharedStringTable) -> (r: Vec<u8>)
    ensures
        r@ == declaration_text() + render_all(shared_strings_events(table@)),
{
    let ghost t = table@;
    let mut a: Vec<Attribute> = Vec::new();
    a.push(attr("xmlns", bytes_of("http://schemas.openxmlformats.org/spreadsheetml/2006/main")));
    a.push(attr("uniqueCount", decimal(table.len() as u64)));
    assert(attributes_view(a@) =~= seq![a@[0]@, a@[1]@]);
    let mut events: Vec<XmlEvent> = Vec::new();
    events.push(start("sst", a));
    let ghost head = events_view(events@);
    assert(attributes_view(Seq::<Attribute>::empty()) =~= no_attributes());
    assert(t.take(0) =~= Seq::<Seq<u8>>::empty());
    assert(events_view(events@) =~= head + strings_events(t.take(0)));
    let mut i: usize = 0;
    while i < table.len()
        invariant
            t == table@,
            i <= t.len(),
            events_view(events@) =~= head + strings_events(t.take(i as int)),
        decreases table@.len() - i,
    {
        let ghost before = events_view(events@);
        events.push(start("si", Vec::new()));
        events.push(start("t", Vec::new()));
        events.push(XmlEvent::Text { content: copy_bytes(table.get(i)) });
        events.push(end("t"));
        events.push(end("si"));
        proof {
            assert(attributes_view(Seq::<Attribute>::empty()) =~= no_attributes());
            assert(t.take(i as int + 1).drop_last() =~= t.take(i as int));
            assert(t.take(i as int + 1).last() == t[i as int]);
            assert(events_view(events@) =~= before + seq![
                EventView::Start("si".spec_bytes(), no_attributes()),
                EventView::Start("t".spec_bytes(), no_attributes()),
                EventView::Text(t[i as int]),
                EventView::End("t".spec_bytes()),
                EventView::End("si".spec_bytes()),
            ]);
        }
        i = i + 1;
    }
    assert(t.take(i as int) =~= t);
    let ghost body = events_view(events@);
    events.push(end("sst"));
    assert(events_view(events@) =~= body.push(EventView::End("sst".spec_bytes())));
    assert(events_view(events@) =~= shared_strings_events(t));
    render_document(&events)
}

/// The events of `xl/styles.xml`: an empty style sheet.
pub open spec fn styles_events() -> Seq<EventView> {
    seq![
        EventView::Empty(
            "styleSheet".spec_bytes(),
            seq![("xmlns".spec_bytes(), "http://schemas.openxmlformats.org/spreadsheetml/2006/main".spec_bytes())],
        ),
    ]
}

/// The content of `xl/styles.xml`.
pub(crate) fn styles_content() -> (r: Vec<u8>)
    ensures
        r@ == declaration_text() + render_all(styles_events()),
{
    let mut events: Vec<XmlEvent> = Vec::new();
    events.push(empty("styleSheet", one("xmlns", bytes_of("http://schemas.openxmlformats.org/spreadsheetml/2006/main"))));
    assert(events_view(events@) =~= styles_events());
    render_document(&events)
}

/// Every relationship id that a drawing or a worksheet writes is listed in
/// its `.rels`, with the kind of part it refers to: the `k`-th chart frame
/// writes `rId{k + 1}`, the `k`-th picture `rId{charts + k + 1}`, a sheet's
/// drawing `rId1` and its legacy drawing the id after its comments'.
pub proof fn lemma_references_listed(w: SheetShape, d: nat, c: nat, k: nat, m: nat)
    ensures
        forall|j: nat|
            j < w.charts ==> {
                let r = #[trigger] drawing_relationships(w, k, m)[j as int];
                r.0 == j + 1 && r.1 == RelKind::Chart
            },
        forall|j: nat|
            j < w.pictures ==> {
                let r = #[trigger] drawing_relationships(w, k, m)[(w.charts + j) as int];
                r.0 == w.charts + j + 1 && r.1 == RelKind::Image
            },
        has_drawing(w) ==> sheet_relationships(w, d, c)[0].0 == 1 && sheet_relationships(
            w,
            d,
            c,
        )[0].1 == RelKind::Drawing,
        has_comments(w) ==> {
            let first: int = if has_drawing(w) {
                1
            } else {
                0
            };
            let r = sheet_relationships(w, d, c)[first + 1];
            r.0 == first + 2 && r.1 == RelKind::VmlDrawing
        },
{
}

} // verus!
