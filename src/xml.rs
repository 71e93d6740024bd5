//! XML events, the emitter that renders them as text, and the cursor that
//! element nodes read them from.
use vstd::prelude::*;
use vstd::string::StringSliceAdditionalSpecFns;
use crate::error::XlsxError;

verus! {

/// The text of one byte inside an attribute value or a text node.
pub open spec fn escaped_byte(b: u8) -> Seq<u8> {
    if b == 60 {
        seq![38u8, 108, 116, 59]  // &lt;
    } else if b == 62 {
        seq![38u8, 103, 116, 59]  // &gt;
    } else if b == 39 {
        seq![38u8, 97, 112, 111, 115, 59]  // &apos;
    } else if b == 38 {
        seq![38u8, 97, 109, 112, 59]  // &amp;
    } else if b == 34 {
        seq![38u8, 113, 117, 111, 116, 59]  // &quot;
    } else {
        seq![b]
    }
}

/// `raw` with each of `< > ' & "` replaced by its entity.
pub open spec fn escaped(raw: Seq<u8>) -> Seq<u8>
    decreases raw.len(),
{
    if raw.len() == 0 {
        Seq::empty()
    } else {
        escaped(raw.drop_last()) + escaped_byte(raw.last())
    }
}

/// Relies on quick_xml::escape::escape: each of `< > ' & "` becomes its
/// entity, every other byte stays.
#[verifier::external_body]
fn escape(raw: &[u8]) -> (r: Vec<u8>)
    ensures
        r@ == escaped(raw@),
{
    quick_xml::escape::escape(raw).into_owned()
}

/// One attribute of a tag, its value unescaped.
pub struct Attribute {
    pub key: Vec<u8>,
    pub value: Vec<u8>,
}

impl View for Attribute {
    type V = (Seq<u8>, Seq<u8>);

    open spec fn view(&self) -> (Seq<u8>, Seq<u8>) {
        (self.key@, self.value@)
    }
}

/// One structural event of an XML part; texts and attribute values are held
/// unescaped.
pub enum XmlEvent {
    Start { name: Vec<u8>, attributes: Vec<Attribute> },
    Empty { name: Vec<u8>, attributes: Vec<Attribute> },
    End { name: Vec<u8> },
    Text { content: Vec<u8> },
    Eof,
    /// A declaration, comment, processing instruction or the like.
    Other,
}

pub enum EventView {
    Start(Seq<u8>, Seq<(Seq<u8>, Seq<u8>)>),
    Empty(Seq<u8>, Seq<(Seq<u8>, Seq<u8>)>),
    End(Seq<u8>),
    Text(Seq<u8>),
    Eof,
    Other,
}

pub open spec fn attributes_view(a: Seq<Attribute>) -> Seq<(Seq<u8>, Seq<u8>)> {
    a.map_values(|x: Attribute| x@)
}

impl View for XmlEvent {
    type V = EventView;

    open spec fn view(&self) -> EventView {
        match self {
            XmlEvent::Start { name, attributes } => EventView::Start(
                name@,
                attributes_view(attributes@),
            ),
            XmlEvent::Empty { name, attributes } => EventView::Empty(
                name@,
                attributes_view(attributes@),
            ),
            XmlEvent::End { name } => EventView::End(name@),
            XmlEvent::Text { content } => EventView::Text(content@),
            XmlEvent::Eof => EventView::Eof,
            XmlEvent::Other => EventView::Other,
        }
    }
}

pub open spec fn events_view(es: Seq<XmlEvent>) -> Seq<EventView> {
    es.map_values(|e: XmlEvent| e@)
}

/// ` key="value"`, the value escaped.
pub open spec fn attribute_text(a: (Seq<u8>, Seq<u8>)) -> Seq<u8> {
    seq![32u8] + a.0 + seq![61u8, 34] + escaped(a.1) + seq![34u8]
}

pub open spec fn attributes_text(a: Seq<(Seq<u8>, Seq<u8>)>) -> Seq<u8>
    decreases a.len(),
{
    if a.len() == 0 {
        Seq::empty()
    } else {
        attributes_text(a.drop_last()) + attribute_text(a.last())
    }
}

/// The text of one event.
pub open spec fn render(e: EventView) -> Seq<u8> {
    match e {
        EventView::Start(n, a) => seq![60u8] + n + attributes_text(a) + seq![62u8],
        EventView::Empty(n, a) => seq![60u8] + n + attributes_text(a) + seq![47u8, 62],
        EventView::End(n) => seq![60u8, 47] + n + seq![62u8],
        EventView::Text(t) => escaped(t),
        _ => Seq::empty(),
    }
}

/// The text of a sequence of events, one after the other.
pub open spec fn render_all(es: Seq<EventView>) -> Seq<u8>
    decreases es.len(),
{
    if es.len() == 0 {
        Seq::empty()
    } else {
        render_all(es.drop_last()) + render(es.last())
    }
}

pub proof fn lemma_render_all_push(es: Seq<EventView>, e: EventView)
    ensures
        render_all(es.push(e)) == render_all(es) + render(e),
{
    assert(es.push(e).drop_last() =~= es);
}

pub proof fn lemma_render_all_one(a: EventView)
    ensures
        render_all(seq![a]) == render(a),
{
    assert(seq![a].drop_last() =~= Seq::<EventView>::empty());
    assert(render_all(Seq::<EventView>::empty()) + render(a) =~= render(a));
}

pub proof fn lemma_render_all_two(a: EventView, b: EventView)
    ensures
        render_all(seq![a, b]) == render(a) + render(b),
{
    assert(seq![a, b].drop_last() =~= seq![a]);
    lemma_render_all_one(a);
}

pub proof fn lemma_render_all_concat(a: Seq<EventView>, b: Seq<EventView>)
    ensures
        render_all(a + b) == render_all(a) + render_all(b),
    decreases b.len(),
{
    if b.len() == 0 {
        assert(a + b =~= a);
        assert(render_all(a) + render_all(b) =~= render_all(a));
    } else {
        lemma_render_all_concat(a, b.drop_last());
        assert((a + b).drop_last() =~= a + b.drop_last());
        assert(render_all(a) + render_all(b) =~= render_all(a) + render_all(b.drop_last()) + render(
            b.last(),
        ));
    }
}

/// The bytes of a text, as a vector.
pub fn bytes_of(s: &str) -> (r: Vec<u8>)
    ensures
        r@ == s.spec_bytes(),
{
    let b = s.as_bytes();
    let mut r: Vec<u8> = Vec::new();
    append(&mut r, b);
    assert(r@ =~= b@);
    r
}

/// Appends `b` to `out`.
pub fn append(out: &mut Vec<u8>, b: &[u8])
    ensures
        final(out)@ == old(out)@ + b@,
{
    let ghost start = out@;
    let mut i: usize = 0;
    while i < b.len()
        invariant
            0 <= i <= b@.len(),
            out@ == start + b@.take(i as int),
        decreases b@.len() - i,
    {
        out.push(b[i]);
        assert(b@.take(i as int + 1) =~= b@.take(i as int).push(b@[i as int]));
        i = i + 1;
    }
    assert(b@.take(i as int) =~= b@);
}

/// Whether two byte texts are equal.
pub fn bytes_eq(a: &[u8], b: &[u8]) -> (r: bool)
    ensures
        r == (a@ == b@),
{
    if a.len() != b.len() {
        return false;
    }
    let mut i: usize = 0;
    while i < a.len()
        invariant
            a@.len() == b@.len(),
            0 <= i <= a@.len(),
            forall|j: int| 0 <= j < i ==> a@[j] == b@[j],
        decreases a@.len() - i,
    {
        if a[i] != b[i] {
            return false;
        }
        i = i + 1;
    }
    assert(a@ =~= b@);
    true
}

/// An append-only XML text.
pub struct XmlWriter {
    buf: Vec<u8>,
}

impl View for XmlWriter {
    type V = Seq<u8>;

    closed spec fn view(&self) -> Seq<u8> {
        self.buf@
    }
}

/// `<?xml version="1.0" encoding="UTF-8" standalone="yes"?>` and a line break.
pub open spec fn declaration_text() -> Seq<u8> {
    DECLARATION.spec_bytes()
}

pub const DECLARATION: &'static str = "<?xml version=\"1.0\" encoding=\"UTF-8\" standalone=\"yes\"?>\r\n";

impl XmlWriter {
    pub fn new() -> (r: XmlWriter)
        ensures
            r@ == Seq::<u8>::empty(),
    {
        XmlWriter { buf: Vec::new() }
    }

    /// The text written so far.
    pub fn into_bytes(self) -> (r: Vec<u8>)
        ensures
            r@ == self@,
    {
        self.buf
    }

    pub fn write_declaration(&mut self)
        ensures
            final(self)@ == old(self)@ + declaration_text(),
    {
        append(&mut self.buf, DECLARATION.as_bytes());
    }

    fn write_attributes(&mut self, attributes: &Vec<Attribute>)
        ensures
            final(self)@ == old(self)@ + attributes_text(attributes_view(attributes@)),
    {
        let ghost start = self.buf@;
        let mut i: usize = 0;
        while i < attributes.len()
            invariant
                0 <= i <= attributes@.len(),
                self.buf@ == start + attributes_text(attributes_view(attributes@.take(i as int))),
            decreases attributes@.len() - i,
        {
            let a = &attributes[i];
            self.buf.push(32u8);
            append(&mut self.buf, a.key.as_slice());
            self.buf.push(61u8);
            self.buf.push(34u8);
            let v = escape(a.value.as_slice());
            append(&mut self.buf, v.as_slice());
            self.buf.push(34u8);
            proof {
                let t = attributes@.take(i as int + 1);
                assert(attributes_view(t).drop_last() =~= attributes_view(attributes@.take(i as int)));
                assert(attributes_view(t).last() == a@);
                assert(self.buf@ =~= start + attributes_text(attributes_view(t)));
            }
            i = i + 1;
        }
        assert(attributes@.take(i as int) =~= attributes@);
    }

    /// Appends the text of one event.
    pub fn write_event(&mut self, e: &XmlEvent)
        ensures
            final(self)@ == old(self)@ + render(e@),
    {
        let ghost start = self.buf@;
        match e {
            XmlEvent::Start { name, attributes } => {
                self.buf.push(60u8);
                append(&mut self.buf, name.as_slice());
                self.write_attributes(attributes);
                self.buf.push(62u8);
                assert(self.buf@ =~= start + render(e@));
            },
            XmlEvent::Empty { name, attributes } => {
                self.buf.push(60u8);
                append(&mut self.buf, name.as_slice());
                self.write_attributes(attributes);
                self.buf.push(47u8);
                self.buf.push(62u8);
                assert(self.buf@ =~= start + render(e@));
            },
            XmlEvent::End { name } => {
                self.buf.push(60u8);
                self.buf.push(47u8);
                append(&mut self.buf, name.as_slice());
                self.buf.push(62u8);
                assert(self.buf@ =~= start + render(e@));
            },
            XmlEvent::Text { content } => {
                let t = escape(content.as_slice());
                append(&mut self.buf, t.as_slice());
            },
            _ => {
                assert(self.buf@ =~= start + render(e@));
            },
        }
    }

    /// Appends the text of each event in turn.
    pub fn write_events(&mut self, es: &Vec<XmlEvent>)
        ensures
            final(self)@ == old(self)@ + render_all(events_view(es@)),
    {
        let ghost start = self.buf@;
        let mut i: usize = 0;
        while i < es.len()
            invariant
                0 <= i <= es@.len(),
                self.buf@ == start + render_all(events_view(es@.take(i as int))),
            decreases es@.len() - i,
        {
            self.write_event(&es[i]);
            proof {
                let t = es@.take(i as int + 1);
                assert(events_view(t) =~= events_view(es@.take(i as int)).push(es@[i as int]@));
                lemma_render_all_push(events_view(es@.take(i as int)), es@[i as int]@);
                assert(self.buf@ =~= start + render_all(events_view(t)));
            }
            i = i + 1;
        }
        assert(es@.take(i as int) =~= es@);
    }
}

/// A forward-only position in a sequence of events; past its last event the
/// stream has ended.
pub struct XmlCursor {
    events: Vec<XmlEvent>,
    pos: usize,
}

impl XmlCursor {
    pub closed spec fn events(&self) -> Seq<EventView> {
        events_view(self.events@)
    }

    /// How many events have been consumed.
    pub closed spec fn pos(&self) -> nat {
        if self.pos <= self.events@.len() {
            self.pos as nat
        } else {
            self.events@.len()
        }
    }

    pub proof fn lemma_pos_bound(&self)
        ensures
            self.pos() <= self.events().len(),
    {
    }

    pub fn new(events: Vec<XmlEvent>) -> (r: XmlCursor)
        ensures
            r.events() == events_view(events@),
            r.pos() == 0,
    {
        XmlCursor { events, pos: 0 }
    }

    /// A cursor over `events` that has consumed the first `pos` of them.
    pub fn starting_at(events: Vec<XmlEvent>, pos: usize) -> (r: XmlCursor)
        requires
            pos <= events@.len(),
        ensures
            r.events() == events_view(events@),
            r.pos() == pos,
    {
        XmlCursor { events, pos }
    }

    /// Whether every event has been consumed.
    pub fn at_end(&self) -> (r: bool)
        ensures
            r == (self.pos() >= self.events().len()),
    {
        self.pos >= self.events.len()
    }

    /// The event at the current position.
    pub fn current(&self) -> (r: &XmlEvent)
        requires
            self.pos() < self.events().len(),
        ensures
            r@ == self.events()[self.pos() as int],
    {
        &self.events[self.pos]
    }

    /// Moves past the current event.
    pub fn advance(&mut self)
        requires
            old(self).pos() < old(self).events().len(),
        ensures
            final(self).events() == old(self).events(),
            final(self).pos() == old(self).pos() + 1,
    {
        assert(self.events().len() == self.events@.len());
        if self.pos < self.events.len() {
            self.pos = self.pos + 1;
        }
    }
}

/// The value of the first attribute named `key`.
pub open spec fn attribute_value(a: Seq<(Seq<u8>, Seq<u8>)>, key: Seq<u8>) -> Option<Seq<u8>>
    decreases a.len(),
{
    if a.len() == 0 {
        None
    } else if a[0].0 == key {
        Some(a[0].1)
    } else {
        attribute_value(a.drop_first(), key)
    }
}

/// The value of the first attribute named `key`, if there is one.
pub fn get_attribute<'a>(attributes: &'a Vec<Attribute>, key: &str) -> (r: Option<&'a Vec<u8>>)
    ensures
        r matches Some(v) ==> attribute_value(attributes_view(attributes@), key.spec_bytes())
            == Some(v@),
        r is None ==> attribute_value(attributes_view(attributes@), key.spec_bytes()) is None,
{
    let k = key.as_bytes();
    let mut i: usize = 0;
    assert(attributes_view(attributes@).skip(0) =~= attributes_view(attributes@));
    while i < attributes.len()
        invariant
            0 <= i <= attributes@.len(),
            k@ == key.spec_bytes(),
            attribute_value(attributes_view(attributes@), key.spec_bytes()) == attribute_value(
                attributes_view(attributes@).skip(i as int),
                key.spec_bytes(),
            ),
        decreases attributes@.len() - i,
    {
        let ghost rest = attributes_view(attributes@).skip(i as int);
        assert(rest[0] == attributes@[i as int]@);
        assert(rest.drop_first() =~= attributes_view(attributes@).skip(i as int + 1));
        if bytes_eq(attributes[i].key.as_slice(), k) {
            return Some(&attributes[i].value);
        }
        i = i + 1;
    }
    assert(attributes_view(attributes@).skip(i as int) =~= Seq::empty());
    None
}

/// How many events after `pos` come before the first closing tag `name`;
/// `None` where the stream ends first.
pub open spec fn end_offset(evs: Seq<EventView>, pos: nat, name: Seq<u8>) -> Option<nat>
    decreases (evs.len() - pos) as nat,
{
    if pos >= evs.len() {
        None
    } else {
        match evs[pos as int] {
            EventView::End(n) => if n == name {
                Some(0)
            } else {
                match end_offset(evs, pos + 1, name) {
                    Some(d) => Some(d + 1),
                    None => None,
                }
            },
            EventView::Eof => None,
            _ => match end_offset(evs, pos + 1, name) {
                Some(d) => Some(d + 1),
                None => None,
            },
        }
    }
}

pub proof fn lemma_end_offset_bound(evs: Seq<EventView>, pos: nat, name: Seq<u8>)
    ensures
        end_offset(evs, pos, name) matches Some(d) ==> pos + d < evs.len(),
    decreases (evs.len() - pos) as nat,
{
    if pos < evs.len() {
        lemma_end_offset_bound(evs, pos + 1, name);
    }
}

/// Consumes events up to and including the closing tag `name`.
pub fn read_to_end(cursor: &mut XmlCursor, name: &str) -> (r: Result<(), XlsxError>)
    ensures
        final(cursor).events() == old(cursor).events(),
        match end_offset(old(cursor).events(), old(cursor).pos(), name.spec_bytes()) {
            Some(d) => r is Ok && final(cursor).pos() == old(cursor).pos() + d + 1,
            None => r matches Err(XlsxError::UnexpectedEof { expected_tag }) && expected_tag@
                == name.spec_bytes(),
        },
{
    let ghost evs = old(cursor).events();
    let ghost start = old(cursor).pos();
    let n = name.as_bytes();
    loop
        invariant
            cursor.events() == evs,
            evs == old(cursor).events(),
            start == old(cursor).pos(),
            n@ == name.spec_bytes(),
            start <= cursor.pos(),
            end_offset(evs, start, n@) == match end_offset(evs, cursor.pos(), n@) {
                Some(d) => Some((d + cursor.pos() - start) as nat),
                None => None,
            },
        decreases (evs.len() - cursor.pos()) as nat,
    {
        if cursor.at_end() {
            return Err(XlsxError::UnexpectedEof { expected_tag: bytes_of(name) });
        }
        let done: bool;
        let eof: bool;
        match cursor.current() {
            XmlEvent::End { name: e } => {
                done = bytes_eq(e.as_slice(), n);
                eof = false;
            },
            XmlEvent::Eof => {
                done = false;
                eof = true;
            },
            _ => {
                done = false;
                eof = false;
            },
        }
        if eof {
            return Err(XlsxError::UnexpectedEof { expected_tag: bytes_of(name) });
        }
        cursor.advance();
        if done {
            return Ok(());
        }
    }
}

} // verus!
