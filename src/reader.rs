//! Reading XML text into events, and element nodes out of them.
use vstd::prelude::*;
use vstd::string::StringSliceAdditionalSpecFns;
use quick_xml::events::{BytesStart, Event};
use quick_xml::Error as XmlError;
use crate::effect_list::{
    effect_list_body, effect_list_events, effect_list_tag, is_empty_effect_list,
    lemma_effect_list_body_round_trip, parse_effect_list, EffectList,
};
use crate::error::XlsxError;
use crate::xml::{
    attributes_view, bytes_eq, bytes_of, events_view, Attribute, EventView, XmlCursor, XmlEvent,
};
use crate::xml::XmlEvent::{Empty, End, Eof, Other, Start, Text};

verus! {

#[verifier::external_type_specification]
#[verifier::external_body]
pub struct ExXmlError(XmlError);

/// A tokenizer over one XML text, reached only through the functions below
/// (`quick_xml::Reader` cannot be declared here, its bound naming std's
/// `BufRead`).
#[verifier::external_body]
pub struct XmlReader {
    inner: quick_xml::Reader<std::io::Cursor<Vec<u8>>>,
}

/// The text a tokenizer reads.
pub uninterp spec fn reader_text(r: XmlReader) -> Seq<u8>;

/// How many events a tokenizer has been asked for.
pub uninterp spec fn reader_steps(r: XmlReader) -> nat;

/// The event that the `k`-th request to a fresh tokenizer over `xml` gives,
/// attribute values and texts as they stand in the text; `None` where it
/// reports a malformed token.
pub uninterp spec fn raw_event_at(xml: Seq<u8>, k: nat) -> Option<EventView>;

/// How many bytes a tokenizer over `xml` has consumed after `k` requests.
pub uninterp spec fn position_after(xml: Seq<u8>, k: nat) -> nat;

/// `raw` with its entity and character references replaced; `None` where
/// one is malformed.
pub uninterp spec fn unescaped_text(raw: Seq<u8>) -> Option<Seq<u8>>;

/// Relies on quick_xml::Reader::from_reader and trim_text: a tokenizer at
/// the start of `xml` that drops the white space around texts.
#[verifier::external_body]
fn new_reader(xml: &[u8]) -> (r: XmlReader)
    ensures
        reader_text(r) == xml@,
        reader_steps(r) == 0,
{
    let mut inner = quick_xml::Reader::from_reader(std::io::Cursor::new(xml.to_vec()));
    inner.trim_text(true);
    XmlReader { inner }
}

/// Relies on quick_xml::Reader::read_event: the next event, with attribute
/// values and texts as they stand in the text, still escaped. Declarations,
/// comments, CDATA sections, processing instructions and doctypes all come
/// back as `Other`.
#[verifier::external_body]
fn next_raw_event(r: &mut XmlReader) -> (res: Result<XmlEvent, XmlError>)
    ensures
        reader_text(*final(r)) == reader_text(*old(r)),
        reader_steps(*final(r)) == reader_steps(*old(r)) + 1,
        match raw_event_at(reader_text(*old(r)), reader_steps(*old(r))) {
            Some(e) => res matches Ok(v) && v@ == e,
            None => res is Err,
        },
{
    let attrs = |e: BytesStart| e.attributes().map(|a| a.map(|a| Attribute { key: a.key.to_vec(), value: a.value.to_vec() })).collect::<Result<_, _>>();
    Ok(match r.inner.read_event(&mut Vec::new())? {
        Event::Start(e) => Start { name: e.name().to_vec(), attributes: attrs(e)? },
        Event::Empty(e) => Empty { name: e.name().to_vec(), attributes: attrs(e)? },
        Event::End(e) => End { name: e.to_vec() },
        Event::Text(e) => Text { content: e.to_vec() },
        Event::Eof => Eof,
        _ => Other,
    })
}

/// Relies on quick_xml::escape::unescape: the text with its entity and
/// character references replaced; `None` where one is malformed.
#[verifier::external_body]
fn unescape(raw: &[u8]) -> (r: Option<Vec<u8>>)
    ensures
        match unescaped_text(raw@) {
            Some(t) => r matches Some(v) && v@ == t,
            None => r is None,
        },
{
    quick_xml::escape::unescape(raw).ok().map(|v| v.into_owned())
}

/// Relies on quick_xml::Reader::buffer_position: how many bytes the
/// tokenizer has consumed.
#[verifier::external_body]
fn buffer_position(r: &XmlReader) -> (p: usize)
    ensures
        p == position_after(reader_text(*r), reader_steps(*r)),
{
    r.inner.buffer_position()
}

/// Each attribute value unescaped, keys and order kept; `None` where a
/// value does not unescape.
pub open spec fn unescape_attributes_spec(a: Seq<(Seq<u8>, Seq<u8>)>) -> Option<
    Seq<(Seq<u8>, Seq<u8>)>,
> {
    if forall|i: int| 0 <= i < a.len() ==> (#[trigger] unescaped_text(a[i].1)) is Some {
        Some(Seq::new(a.len(), |i: int| (a[i].0, unescaped_text(a[i].1)->0)))
    } else {
        None
    }
}

/// An event with its attribute values and text unescaped.
pub open spec fn unescape_event(e: EventView) -> Option<EventView> {
    match e {
        EventView::Start(n, a) => match unescape_attributes_spec(a) {
            Some(u) => Some(EventView::Start(n, u)),
            None => None,
        },
        EventView::Empty(n, a) => match unescape_attributes_spec(a) {
            Some(u) => Some(EventView::Empty(n, u)),
            None => None,
        },
        EventView::Text(t) => match unescaped_text(t) {
            Some(u) => Some(EventView::Text(u)),
            None => None,
        },
        _ => Some(e),
    }
}

/// The events of `xml` from the `k`-th request on, up to and including the
/// end of the stream, unescaped; or the offset where reading failed. At
/// most `fuel` more events may come before the end: past that the text's
/// length is the offset.
pub open spec fn tokens_from(xml: Seq<u8>, k: nat, fuel: nat) -> Result<Seq<EventView>, nat>
    decreases fuel,
{
    match raw_event_at(xml, k) {
        None => Err(position_after(xml, k + 1)),
        Some(raw) => match unescape_event(raw) {
            None => Err(position_after(xml, k + 1)),
            Some(e) => if e is Eof {
                Ok(seq![e])
            } else if fuel == 0 {
                Err(xml.len())
            } else {
                match tokens_from(xml, k + 1, (fuel - 1) as nat) {
                    Ok(rest) => Ok(seq![e] + rest),
                    Err(p) => Err(p),
                }
            },
        },
    }
}

/// The events of an XML text, or the offset where reading it failed. Each
/// event but the last consumes at least one byte, so a text has at most one
/// event more than it has bytes.
pub open spec fn tokens_of(xml: Seq<u8>) -> Result<Seq<EventView>, nat> {
    tokens_from(xml, 0, xml.len())
}

/// The attributes with their values unescaped, keys and order kept.
fn unescape_attributes(attributes: Vec<Attribute>) -> (r: Option<Vec<Attribute>>)
    ensures
        match unescape_attributes_spec(attributes_view(attributes@)) {
            Some(u) => r matches Some(v) && attributes_view(v@) == u,
            None => r is None,
        },
{
    let ghost a = attributes_view(attributes@);
    let mut out: Vec<Attribute> = Vec::new();
    let mut i: usize = 0;
    while i < attributes.len()
        invariant
            0 <= i <= attributes@.len(),
            a == attributes_view(attributes@),
            forall|j: int| 0 <= j < i ==> (#[trigger] unescaped_text(a[j].1)) is Some,
            attributes_view(out@) =~= Seq::new(i as nat, |j: int| (a[j].0, unescaped_text(a[j].1)->0)),
        decreases attributes@.len() - i,
    {
        assert(a[i as int] == attributes@[i as int]@);
        let value = match unescape(attributes[i].value.as_slice()) {
            Some(v) => v,
            None => {
                return None;
            },
        };
        let key = crate::content::copy_bytes(&attributes[i].key);
        let ghost prev = attributes_view(out@);
        out.push(Attribute { key, value });
        assert(attributes_view(out@) =~= prev.push((a[i as int].0, unescaped_text(a[i as int].1)->0)));
        i = i + 1;
    }
    Some(out)
}

/// The next event, with attribute values and texts unescaped; the offset
/// where reading stopped if the token is malformed.
fn next_event(r: &mut XmlReader) -> (res: Result<XmlEvent, XlsxError>)
    ensures
        reader_text(*final(r)) == reader_text(*old(r)),
        reader_steps(*final(r)) == reader_steps(*old(r)) + 1,
        match raw_event_at(reader_text(*old(r)), reader_steps(*old(r))) {
            Some(raw) => match unescape_event(raw) {
                Some(e) => res matches Ok(v) && v@ == e,
                None => res matches Err(XlsxError::Xml { position }) && position as nat
                    == position_after(reader_text(*old(r)), reader_steps(*old(r)) + 1),
            },
            None => res matches Err(XlsxError::Xml { position }) && position as nat
                == position_after(reader_text(*old(r)), reader_steps(*old(r)) + 1),
        },
{
    let raw = match next_raw_event(r) {
        Ok(e) => e,
        Err(_) => {
            return Err(XlsxError::Xml { position: buffer_position(r) as u64 });
        },
    };
    let ghost rv = raw@;
    let unescaped = match raw {
        XmlEvent::Start { name, attributes } => match unescape_attributes(attributes) {
            Some(attributes) => Some(XmlEvent::Start { name, attributes }),
            None => None,
        },
        XmlEvent::Empty { name, attributes } => match unescape_attributes(attributes) {
            Some(attributes) => Some(XmlEvent::Empty { name, attributes }),
            None => None,
        },
        XmlEvent::Text { content } => match unescape(content.as_slice()) {
            Some(content) => Some(XmlEvent::Text { content }),
            None => None,
        },
        other => Some(other),
    };
    match unescaped {
        Some(e) => Ok(e),
        None => Err(XlsxError::Xml { position: buffer_position(r) as u64 }),
    }
}

/// Splits an XML text into its events, up to and including the end of the
/// stream: exactly `tokens_of(xml)`, a malformed text failing with the
/// offset where reading stopped.
pub fn read_events(xml: &[u8]) -> (r: Result<Vec<XmlEvent>, XlsxError>)
    ensures
        match tokens_of(xml@) {
            Ok(evs) => r matches Ok(v) && events_view(v@) == evs,
            Err(p) => r matches Err(XlsxError::Xml { position }) && position as nat == p,
        },
{
    let mut reader = new_reader(xml);
    let mut events: Vec<XmlEvent> = Vec::new();
    let mut n: usize = 0;
    loop
        invariant
            n <= xml@.len(),
            reader_text(reader) == xml@,
            reader_steps(reader) == n,
            tokens_of(xml@) == match tokens_from(xml@, n as nat, (xml@.len() - n) as nat) {
                Ok(rest) => Ok(events_view(events@) + rest),
                Err(p) => Err(p),
            },
        decreases xml@.len() - n,
    {
        match next_event(&mut reader) {
            Ok(e) => {
                let eof = matches!(e, XmlEvent::Eof);
                let ghost prev = events@;
                events.push(e);
                assert(events_view(events@) =~= events_view(prev).push(e@));
                if eof {
                    assert(events_view(events@) =~= events_view(prev) + seq![e@]);
                    return Ok(events);
                }
                if n == xml.len() {
                    return Err(XlsxError::Xml { position: xml.len() as u64 });
                }
                proof {
                    let f = (xml@.len() - n) as nat;
                    match tokens_from(xml@, (n + 1) as nat, (f - 1) as nat) {
                        Ok(rest) => {
                            assert(events_view(prev) + (seq![e@] + rest) =~= events_view(events@) + rest);
                        },
                        Err(_) => {},
                    }
                }
            },
            Err(e) => {
                return Err(e);
            },
        }
        n = n + 1;
    }
}

/// Whether `e` opens the element `name`, with an opening or a
/// self-closing tag.
pub open spec fn opens(e: EventView, name: Seq<u8>) -> bool {
    (e matches EventView::Start(n, _) && n == name) || (e matches EventView::Empty(n, _) && n == name)
}

/// The index of the first tag that opens the element `name`.
pub open spec fn first_start(evs: Seq<EventView>, name: Seq<u8>) -> Option<nat>
    decreases evs.len(),
{
    if evs.len() == 0 {
        None
    } else if opens(evs[0], name) {
        Some(0)
    } else {
        match first_start(evs.drop_first(), name) {
            Some(i) => Some(i + 1),
            None => None,
        }
    }
}

/// The effect list that a sequence of events holds: the one whose opening
/// tag comes first, read from a fresh list; a self-closing tag is an empty
/// list.
pub open spec fn effect_list_of_events(evs: Seq<EventView>) -> Result<
    crate::effect_list::EffectListView,
    Seq<u8>,
> {
    match first_start(evs, effect_list_tag()) {
        Some(i) => if evs[i as int] is Empty {
            Ok((None, None, None))
        } else {
            match parse_effect_list(evs, i + 1, (None, None, None)) {
                Ok((v, _)) => Ok(v),
                Err(tag) => Err(tag),
            }
        },
        None => Err(effect_list_tag()),
    }
}

/// Reading back the events that an effect list writes, whatever events
/// follow, gives the same list; writing it again therefore gives the same
/// text.
pub proof fn lemma_effect_list_round_trip(x: crate::effect_list::EffectListView, rest: Seq<EventView>)
    ensures
        effect_list_of_events(effect_list_events(x) + rest) == Ok::<
            crate::effect_list::EffectListView,
            Seq<u8>,
        >(x),
{
    let evs = effect_list_events(x) + rest;
    assert(opens(evs[0], effect_list_tag()));
    assert(first_start(evs, effect_list_tag()) == Some(0nat));
    if !is_empty_effect_list(x) {
        let pre = seq![EventView::Start(effect_list_tag(), Seq::<(Seq<u8>, Seq<u8>)>::empty())];
        assert(evs =~= pre + effect_list_body(x) + rest);
        lemma_effect_list_body_round_trip(pre, x, rest);
    }
}

/// Reads the first effect list out of a sequence of events. Fails with the
/// tag whose closing tag never came: the list's own where its opening tag
/// is missing.
pub fn effect_list_from_events(events: Vec<XmlEvent>) -> (r: Result<EffectList, XlsxError>)
    ensures
        match effect_list_of_events(events_view(events@)) {
            Ok(v) => r matches Ok(x) && x@ == v,
            Err(tag) => r matches Err(XlsxError::UnexpectedEof { expected_tag })
                && expected_tag@ == tag,
        },
{
    let ghost evs = events_view(events@);
    let mut i: usize = 0;
    let mut found = false;
    assert(evs.skip(0) =~= evs);
    while i < events.len() && !found
        invariant
            0 <= i <= events@.len(),
            evs == events_view(events@),
            found ==> i < events@.len() && first_start(evs.skip(i as int), effect_list_tag())
                == Some(0nat),
            first_start(evs, effect_list_tag()) == match first_start(
                evs.skip(i as int),
                effect_list_tag(),
            ) {
                Some(j) => Some((j + i) as nat),
                None => None,
            },
        decreases events@.len() - i + if found {
            0int
        } else {
            1int
        },
    {
        let ghost rest = evs.skip(i as int);
        assert(rest[0] == events@[i as int]@);
        assert(rest.drop_first() =~= evs.skip(i as int + 1));
        let hit = match &events[i] {
            XmlEvent::Start { name, attributes: _ } => bytes_eq(name.as_slice(), "a:effectLst".as_bytes()),
            XmlEvent::Empty { name, attributes: _ } => bytes_eq(name.as_slice(), "a:effectLst".as_bytes()),
            _ => false,
        };
        if hit {
            found = true;
        } else {
            i = i + 1;
        }
    }
    if !found {
        assert(evs.skip(i as int) =~= Seq::<EventView>::empty());
        return Err(XlsxError::UnexpectedEof { expected_tag: bytes_of("a:effectLst") });
    }
    if matches!(events[i], XmlEvent::Empty { .. }) {
        return Ok(EffectList::new());
    }
    let mut cursor = XmlCursor::starting_at(events, i + 1);
    let mut list = EffectList::new();
    let opening = XmlEvent::Start { name: bytes_of("a:effectLst"), attributes: Vec::new() };
    match list.set_attributes(&mut cursor, &opening) {
        Ok(()) => Ok(list),
        Err(e) => Err(e),
    }
}

/// Reads the first effect list out of an XML text.
pub fn read_effect_list(xml: &[u8]) -> (r: Result<EffectList, XlsxError>)
    ensures
        match tokens_of(xml@) {
            Ok(evs) => match effect_list_of_events(evs) {
                Ok(v) => r matches Ok(x) && x@ == v,
                Err(tag) => r matches Err(XlsxError::UnexpectedEof { expected_tag })
                    && expected_tag@ == tag,
            },
            Err(p) => r matches Err(XlsxError::Xml { position }) && position as nat == p,
        },
{
    let events = read_events(xml)?;
    effect_list_from_events(events)
}

} // verus!
