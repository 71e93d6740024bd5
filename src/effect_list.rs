//! `a:effectLst` and the effects it holds: `a:glow`, `a:outerShdw` and
//! `a:softEdge`.
use vstd::prelude::*;
use vstd::string::StringSliceAdditionalSpecFns;
use crate::attr::{push_uint_attribute, read_uint, read_uint_attribute, uint_attribute, UInt64Value};
use crate::error::XlsxError;
use crate::xml::attribute_value;
use crate::xml::{
    attributes_view, bytes_eq, bytes_of, end_offset, read_to_end, render_all, Attribute, EventView,
    XmlCursor, XmlEvent, XmlWriter,
};

verus! {

pub open spec fn effect_list_tag() -> Seq<u8> {
    "a:effectLst".spec_bytes()
}

pub open spec fn glow_tag() -> Seq<u8> {
    "a:glow".spec_bytes()
}

pub open spec fn outer_shadow_tag() -> Seq<u8> {
    "a:outerShdw".spec_bytes()
}

pub open spec fn soft_edge_tag() -> Seq<u8> {
    "a:softEdge".spec_bytes()
}

pub open spec fn rad_key() -> Seq<u8> {
    "rad".spec_bytes()
}

pub open spec fn blur_rad_key() -> Seq<u8> {
    "blurRad".spec_bytes()
}

pub open spec fn dist_key() -> Seq<u8> {
    "dist".spec_bytes()
}

/// `a:glow`: a glow of the given radius around a shape.
pub struct Glow {
    radius: UInt64Value,
}

impl View for Glow {
    /// The radius, where it is set.
    type V = Option<u64>;

    closed spec fn view(&self) -> Option<u64> {
        self.radius@
    }
}

pub open spec fn glow_attributes(g: Option<u64>) -> Seq<(Seq<u8>, Seq<u8>)> {
    uint_attribute(rad_key(), g)
}

/// The events that write a glow.
pub open spec fn glow_events(g: Option<u64>) -> Seq<EventView> {
    seq![EventView::Start(glow_tag(), glow_attributes(g)), EventView::End(glow_tag())]
}

impl Glow {
    pub fn new() -> (r: Glow)
        ensures
            r@ is None,
    {
        Glow { radius: UInt64Value::new() }
    }

    pub fn get_radius(&self) -> (r: &UInt64Value)
        ensures
            r@ == self@,
    {
        &self.radius
    }

    pub fn set_radius(&mut self, value: u64)
        ensures
            final(self)@ == Some(value),
    {
        self.radius.set_value(value);
    }

    /// Reads the attributes of the opening tag, then the events up to its
    /// closing tag.
    pub fn set_attributes(&mut self, cursor: &mut XmlCursor, attributes: &Vec<Attribute>) -> (r:
        Result<(), XlsxError>)
        ensures
            final(self)@ == read_uint(attributes_view(attributes@), rad_key()),
            final(cursor).events() == old(cursor).events(),
            match end_offset(old(cursor).events(), old(cursor).pos(), glow_tag()) {
                Some(d) => r is Ok && final(cursor).pos() == old(cursor).pos() + d + 1,
                None => r matches Err(XlsxError::UnexpectedEof { expected_tag }) && expected_tag@
                    == glow_tag(),
            },
    {
        self.radius = read_uint_attribute(attributes, "rad");
        read_to_end(cursor, "a:glow")
    }

    pub fn write_to(&self, writer: &mut XmlWriter)
        ensures
            final(writer)@ == old(writer)@ + render_all(glow_events(self@)),
    {
        let mut attributes: Vec<Attribute> = Vec::new();
        push_uint_attribute(&mut attributes, "rad", &self.radius);
        assert(attributes_view(attributes@) =~= glow_attributes(self@));
        let start = XmlEvent::Start { name: bytes_of("a:glow"), attributes };
        let end = XmlEvent::End { name: bytes_of("a:glow") };
        let ghost w0 = writer@;
        writer.write_event(&start);
        writer.write_event(&end);
        proof {
            let es = glow_events(self@);
            assert(es =~= seq![start@, end@]);
            crate::xml::lemma_render_all_two(start@, end@);
            assert(writer@ =~= w0 + render_all(es));
        }
    }
}

/// `a:outerShdw`: a shadow cast outside a shape.
pub struct OuterShadow {
    blur_radius: UInt64Value,
    distance: UInt64Value,
}

impl View for OuterShadow {
    /// The blur radius and the distance, where they are set.
    type V = (Option<u64>, Option<u64>);

    closed spec fn view(&self) -> (Option<u64>, Option<u64>) {
        (self.blur_radius@, self.distance@)
    }
}

pub open spec fn outer_shadow_attributes(s: (Option<u64>, Option<u64>)) -> Seq<
    (Seq<u8>, Seq<u8>),
> {
    uint_attribute(blur_rad_key(), s.0) + uint_attribute(dist_key(), s.1)
}

/// The events that write an outer shadow.
pub open spec fn outer_shadow_events(s: (Option<u64>, Option<u64>)) -> Seq<EventView> {
    seq![
        EventView::Start(outer_shadow_tag(), outer_shadow_attributes(s)),
        EventView::End(outer_shadow_tag()),
    ]
}

impl OuterShadow {
    pub fn new() -> (r: OuterShadow)
        ensures
            r@ == (None::<u64>, None::<u64>),
    {
        OuterShadow { blur_radius: UInt64Value::new(), distance: UInt64Value::new() }
    }

    pub fn get_blur_radius(&self) -> (r: &UInt64Value)
        ensures
            r@ == self@.0,
    {
        &self.blur_radius
    }

    pub fn set_blur_radius(&mut self, value: u64)
        ensures
            final(self)@ == (Some(value), old(self)@.1),
    {
        self.blur_radius.set_value(value);
    }

    pub fn get_distance(&self) -> (r: &UInt64Value)
        ensures
            r@ == self@.1,
    {
        &self.distance
    }

    pub fn set_distance(&mut self, value: u64)
        ensures
            final(self)@ == (old(self)@.0, Some(value)),
    {
        self.distance.set_value(value);
    }

    /// Reads the attributes of the opening tag, then the events up to its
    /// closing tag.
    pub fn set_attributes(&mut self, cursor: &mut XmlCursor, attributes: &Vec<Attribute>) -> (r:
        Result<(), XlsxError>)
        ensures
            final(self)@ == (
                read_uint(attributes_view(attributes@), blur_rad_key()),
                read_uint(attributes_view(attributes@), dist_key()),
            ),
            final(cursor).events() == old(cursor).events(),
            match end_offset(old(cursor).events(), old(cursor).pos(), outer_shadow_tag()) {
                Some(d) => r is Ok && final(cursor).pos() == old(cursor).pos() + d + 1,
                None => r matches Err(XlsxError::UnexpectedEof { expected_tag }) && expected_tag@
                    == outer_shadow_tag(),
            },
    {
        self.blur_radius = read_uint_attribute(attributes, "blurRad");
        self.distance = read_uint_attribute(attributes, "dist");
        read_to_end(cursor, "a:outerShdw")
    }

    pub fn write_to(&self, writer: &mut XmlWriter)
        ensures
            final(writer)@ == old(writer)@ + render_all(outer_shadow_events(self@)),
    {
        let mut attributes: Vec<Attribute> = Vec::new();
        push_uint_attribute(&mut attributes, "blurRad", &self.blur_radius);
        push_uint_attribute(&mut attributes, "dist", &self.distance);
        assert(attributes_view(attributes@) =~= outer_shadow_attributes(self@));
        let start = XmlEvent::Start { name: bytes_of("a:outerShdw"), attributes };
        let end = XmlEvent::End { name: bytes_of("a:outerShdw") };
        let ghost w0 = writer@;
        writer.write_event(&start);
        writer.write_event(&end);
        proof {
            let es = outer_shadow_events(self@);
            assert(es =~= seq![start@, end@]);
            crate::xml::lemma_render_all_two(start@, end@);
            assert(writer@ =~= w0 + render_all(es));
        }
    }
}

/// `a:softEdge`: edges blurred over the given radius.
pub struct SoftEdge {
    radius: UInt64Value,
}

impl View for SoftEdge {
    /// The radius, where it is set.
    type V = Option<u64>;

    closed spec fn view(&self) -> Option<u64> {
        self.radius@
    }
}

/// The events that write a soft edge: one self-closing tag.
pub open spec fn soft_edge_events(e: Option<u64>) -> Seq<EventView> {
    seq![EventView::Empty(soft_edge_tag(), uint_attribute(rad_key(), e))]
}

impl SoftEdge {
    pub fn new() -> (r: SoftEdge)
        ensures
            r@ is None,
    {
        SoftEdge { radius: UInt64Value::new() }
    }

    pub fn get_radius(&self) -> (r: &UInt64Value)
        ensures
            r@ == self@,
    {
        &self.radius
    }

    pub fn set_radius(&mut self, value: u64)
        ensures
            final(self)@ == Some(value),
    {
        self.radius.set_value(value);
    }

    /// Reads the attributes of the self-closing tag.
    pub fn set_attributes(&mut self, attributes: &Vec<Attribute>)
        ensures
            final(self)@ == read_uint(attributes_view(attributes@), rad_key()),
    {
        self.radius = read_uint_attribute(attributes, "rad");
    }

    pub fn write_to(&self, writer: &mut XmlWriter)
        ensures
            final(writer)@ == old(writer)@ + render_all(soft_edge_events(self@)),
    {
        let mut attributes: Vec<Attribute> = Vec::new();
        push_uint_attribute(&mut attributes, "rad", &self.radius);
        assert(attributes_view(attributes@) =~= uint_attribute(rad_key(), self@));
        let tag = XmlEvent::Empty { name: bytes_of("a:softEdge"), attributes };
        let ghost w0 = writer@;
        writer.write_event(&tag);
        proof {
            let es = soft_edge_events(self@);
            assert(es =~= seq![tag@]);
            crate::xml::lemma_render_all_one(tag@);
            assert(writer@ =~= w0 + render_all(es));
        }
    }
}

/// `a:effectLst`: the effects applied to a shape, each optional.
pub struct EffectList {
    glow: Option<Glow>,
    outer_shadow: Option<OuterShadow>,
    soft_edge: Option<SoftEdge>,
}

/// What an effect list holds: its glow, outer shadow and soft edge.
pub type EffectListView = (Option<Option<u64>>, Option<(Option<u64>, Option<u64>)>, Option<
    Option<u64>,
>);

pub open spec fn option_view<T: View>(o: Option<T>) -> Option<T::V> {
    match o {
        Some(v) => Some(v@),
        None => None,
    }
}

impl View for EffectList {
    type V = EffectListView;

    closed spec fn view(&self) -> EffectListView {
        (option_view(self.glow), option_view(self.outer_shadow), option_view(self.soft_edge))
    }
}

/// The events of the children of an effect list, in schema order, absent
/// ones left out.
pub open spec fn effect_list_children(x: EffectListView) -> Seq<EventView> {
    (match x.0 {
        Some(g) => glow_events(g),
        None => Seq::empty(),
    }) + (match x.1 {
        Some(s) => outer_shadow_events(s),
        None => Seq::empty(),
    }) + (match x.2 {
        Some(e) => soft_edge_events(e),
        None => Seq::empty(),
    })
}

/// The events after the opening tag: the children, then the closing tag.
pub open spec fn effect_list_body(x: EffectListView) -> Seq<EventView> {
    effect_list_children(x).push(EventView::End(effect_list_tag()))
}

/// An effect list with no effect in it.
pub open spec fn is_empty_effect_list(x: EffectListView) -> bool {
    x.0 is None && x.1 is None && x.2 is None
}

/// The events that write an effect list: one self-closing tag where it holds
/// no effect, else the opening tag, the effects and the closing tag.
pub open spec fn effect_list_events(x: EffectListView) -> Seq<EventView> {
    if is_empty_effect_list(x) {
        seq![EventView::Empty(effect_list_tag(), Seq::empty())]
    } else {
        seq![EventView::Start(effect_list_tag(), Seq::empty())] + effect_list_body(x)
    }
}

/// Reading the body of an effect list from `pos` on, over `acc`: the list
/// read and the position after its closing tag, or the tag whose closing
/// tag never came. Events it does not know are passed over.
pub open spec fn parse_effect_list(evs: Seq<EventView>, pos: nat, acc: EffectListView) -> Result<
    (EffectListView, nat),
    Seq<u8>,
>
    decreases evs.len() - pos,
    via parse_effect_list_decreases
{
    if pos >= evs.len() {
        Err(effect_list_tag())
    } else {
        match evs[pos as int] {
            EventView::Empty(n, a) => if n == soft_edge_tag() {
                parse_effect_list(evs, pos + 1, (acc.0, acc.1, Some(read_uint(a, rad_key()))))
            } else {
                parse_effect_list(evs, pos + 1, acc)
            },
            EventView::Start(n, a) => if n == glow_tag() {
                match end_offset(evs, pos + 1, glow_tag()) {
                    Some(d) => parse_effect_list(
                        evs,
                        pos + d + 2,
                        (Some(read_uint(a, rad_key())), acc.1, acc.2),
                    ),
                    None => Err(glow_tag()),
                }
            } else if n == outer_shadow_tag() {
                match end_offset(evs, pos + 1, outer_shadow_tag()) {
                    Some(d) => parse_effect_list(
                        evs,
                        pos + d + 2,
                        (acc.0, Some((read_uint(a, blur_rad_key()), read_uint(a, dist_key()))), acc.2),
                    ),
                    None => Err(outer_shadow_tag()),
                }
            } else {
                parse_effect_list(evs, pos + 1, acc)
            },
            EventView::End(n) => if n == effect_list_tag() {
                Ok((acc, pos + 1))
            } else {
                parse_effect_list(evs, pos + 1, acc)
            },
            EventView::Eof => Err(effect_list_tag()),
            _ => parse_effect_list(evs, pos + 1, acc),
        }
    }
}

proof fn lemma_tags_distinct()
    ensures
        glow_tag() != outer_shadow_tag(),
        glow_tag() != soft_edge_tag(),
        glow_tag() != effect_list_tag(),
        outer_shadow_tag() != soft_edge_tag(),
        outer_shadow_tag() != effect_list_tag(),
        soft_edge_tag() != effect_list_tag(),
        blur_rad_key() != dist_key(),
{
    reveal_strlit("a:effectLst");
    reveal_strlit("a:glow");
    reveal_strlit("a:outerShdw");
    reveal_strlit("a:softEdge");
    reveal_strlit("blurRad");
    reveal_strlit("dist");
    vstd::string::is_ascii_spec_bytes("a:effectLst");
    vstd::string::is_ascii_spec_bytes("a:glow");
    vstd::string::is_ascii_spec_bytes("a:outerShdw");
    vstd::string::is_ascii_spec_bytes("a:softEdge");
    vstd::string::is_ascii_spec_bytes("blurRad");
    vstd::string::is_ascii_spec_bytes("dist");
    assert(effect_list_tag()[2] != outer_shadow_tag()[2]);
    assert(glow_tag().len() != outer_shadow_tag().len());
    assert(glow_tag().len() != soft_edge_tag().len());
    assert(glow_tag().len() != effect_list_tag().len());
    assert(soft_edge_tag().len() != outer_shadow_tag().len());
    assert(soft_edge_tag().len() != effect_list_tag().len());
    assert(blur_rad_key().len() != dist_key().len());
}

/// Reading the body that `x` writes, after whatever events come before it,
/// into a fresh effect list gives `x` again, whatever events follow.
#[verifier::rlimit(100)]
pub proof fn lemma_effect_list_body_round_trip(
    before: Seq<EventView>,
    x: EffectListView,
    rest: Seq<EventView>,
)
    ensures
        parse_effect_list(
            before + effect_list_body(x) + rest,
            before.len(),
            (None::<Option<u64>>, None::<(Option<u64>, Option<u64>)>, None::<Option<u64>>),
        ) == Ok::<(EffectListView, nat), Seq<u8>>((x, before.len() + effect_list_body(x).len())),
{
    lemma_tags_distinct();
    let o = before.len();
    let evs = before + effect_list_body(x) + rest;
    let acc0: EffectListView = (None, None, None);
    let g = match x.0 {
        Some(g) => glow_events(g),
        None => Seq::empty(),
    };
    let sh = match x.1 {
        Some(s) => outer_shadow_events(s),
        None => Seq::empty(),
    };
    let se = match x.2 {
        Some(e) => soft_edge_events(e),
        None => Seq::empty(),
    };
    assert(effect_list_children(x) == g + sh + se);
    let after_glow = o + g.len();
    let acc1: EffectListView = (x.0, None, None);
    if let Some(gv) = x.0 {
        assert(evs[o as int] == EventView::Start(glow_tag(), glow_attributes(gv)));
        assert(evs[o + 1int] == EventView::End(glow_tag()));
        assert(end_offset(evs, o + 1, glow_tag()) == Some(0nat));
        crate::attr::lemma_uint_attribute_round_trip(Seq::empty(), rad_key(), gv, Seq::empty());
        assert(Seq::<(Seq<u8>, Seq<u8>)>::empty() + uint_attribute(rad_key(), gv) + Seq::<
            (Seq<u8>, Seq<u8>),
        >::empty() =~= glow_attributes(gv));
    }
    assert(parse_effect_list(evs, o, acc0) == parse_effect_list(evs, after_glow, acc1));
    let after_shadow = after_glow + sh.len();
    let acc2: EffectListView = (x.0, x.1, None);
    if let Some(sv) = x.1 {
        assert(evs[after_glow as int] == EventView::Start(outer_shadow_tag(), outer_shadow_attributes(sv)));
        assert(evs[after_glow + 1int] == EventView::End(outer_shadow_tag()));
        assert(end_offset(evs, after_glow + 1, outer_shadow_tag()) == Some(0nat));
        let ba = uint_attribute(blur_rad_key(), sv.0);
        let da = uint_attribute(dist_key(), sv.1);
        let none = Seq::<(Seq<u8>, Seq<u8>)>::empty();
        if sv.1 is Some {
            assert(da[0].0 == dist_key());
            assert(da.drop_first() =~= none);
            assert(attribute_value(none, blur_rad_key()) is None);
        }
        if sv.0 is Some {
            assert(ba[0].0 == blur_rad_key());
            assert(ba.drop_first() =~= none);
            assert(attribute_value(none, dist_key()) is None);
        }
        crate::attr::lemma_uint_attribute_round_trip(none, blur_rad_key(), sv.0, da);
        assert(none + ba + da =~= outer_shadow_attributes(sv));
        crate::attr::lemma_uint_attribute_round_trip(ba, dist_key(), sv.1, none);
        assert(ba + da + none =~= outer_shadow_attributes(sv));
    }
    assert(parse_effect_list(evs, after_glow, acc1) == parse_effect_list(evs, after_shadow, acc2));
    let after_soft = after_shadow + se.len();
    if let Some(ev) = x.2 {
        assert(evs[after_shadow as int] == EventView::Empty(soft_edge_tag(), uint_attribute(rad_key(), ev)));
        crate::attr::lemma_uint_attribute_round_trip(Seq::empty(), rad_key(), ev, Seq::empty());
        assert(Seq::<(Seq<u8>, Seq<u8>)>::empty() + uint_attribute(rad_key(), ev) + Seq::<
            (Seq<u8>, Seq<u8>),
        >::empty() =~= uint_attribute(rad_key(), ev));
    }
    assert(parse_effect_list(evs, after_shadow, acc2) == parse_effect_list(evs, after_soft, x));
    assert(evs[after_soft as int] == EventView::End(effect_list_tag()));
}

/// What `set_attributes` needs to read back what `x` writes into a fresh
/// list: the opening tag is self-closing exactly when `x` holds no effect
/// (the fresh list is then `x`), and otherwise reading from just after it
/// gives `x`, whatever events follow.
pub proof fn lemma_effect_list_read_after_opening(x: EffectListView, rest: Seq<EventView>)
    ensures
        ((effect_list_events(x) + rest)[0] is Empty) == is_empty_effect_list(x),
        is_empty_effect_list(x) ==> x == (
            None::<Option<u64>>,
            None::<(Option<u64>, Option<u64>)>,
            None::<Option<u64>>,
        ),
        !is_empty_effect_list(x) ==> parse_effect_list(
            effect_list_events(x) + rest,
            1,
            (None::<Option<u64>>, None::<(Option<u64>, Option<u64>)>, None::<Option<u64>>),
        ) == Ok::<(EffectListView, nat), Seq<u8>>((x, effect_list_events(x).len())),
{
    if !is_empty_effect_list(x) {
        let pre = seq![EventView::Start(effect_list_tag(), Seq::<(Seq<u8>, Seq<u8>)>::empty())];
        assert(effect_list_events(x) + rest =~= pre + effect_list_body(x) + rest);
        lemma_effect_list_body_round_trip(pre, x, rest);
    }
}

/// No attribute is written that was never set: the list's own tag has none,
/// and each effect writes an attribute only for a value that is set.
pub proof fn lemma_effect_list_default_omitted(x: EffectListView)
    ensures
        effect_list_events(x)[0] == (if is_empty_effect_list(x) {
            EventView::Empty(effect_list_tag(), Seq::empty())
        } else {
            EventView::Start(effect_list_tag(), Seq::empty())
        }),
        glow_attributes(None) == Seq::<(Seq<u8>, Seq<u8>)>::empty(),
        outer_shadow_attributes((None, None)) == Seq::<(Seq<u8>, Seq<u8>)>::empty(),
        forall|b: Option<u64>, d: Option<u64>|
            (#[trigger] outer_shadow_attributes((b, d))).len() == (if b is Some {
                1int
            } else {
                0int
            }) + (if d is Some {
                1int
            } else {
                0int
            }),
        uint_attribute(rad_key(), None) == Seq::<(Seq<u8>, Seq<u8>)>::empty(),
{
    assert(outer_shadow_attributes((None, None)) =~= Seq::<(Seq<u8>, Seq<u8>)>::empty());
}

#[via_fn]
proof fn parse_effect_list_decreases(evs: Seq<EventView>, pos: nat, acc: EffectListView) {
    if pos < evs.len() {
        crate::xml::lemma_end_offset_bound(evs, pos + 1, glow_tag());
        crate::xml::lemma_end_offset_bound(evs, pos + 1, outer_shadow_tag());
    }
}

impl EffectList {
    pub fn new() -> (r: EffectList)
        ensures
            r@ == (None::<Option<u64>>, None::<(Option<u64>, Option<u64>)>, None::<Option<u64>>),
    {
        EffectList { glow: None, outer_shadow: None, soft_edge: None }
    }

    pub fn get_glow(&self) -> (r: &Option<Glow>)
        ensures
            option_view(*r) == self@.0,
    {
        &self.glow
    }

    pub fn get_glow_mut(&mut self) -> (r: &mut Option<Glow>)
        ensures
            option_view(*r) == old(self)@.0,
            (final(self)@) == (option_view(*final(r)), old(self)@.1, old(self)@.2),
    {
        &mut self.glow
    }

    pub fn set_glow(&mut self, value: Glow)
        ensures
            final(self)@ == (Some(value@), old(self)@.1, old(self)@.2),
    {
        self.glow = Some(value);
    }

    pub fn get_outer_shadow(&self) -> (r: &Option<OuterShadow>)
        ensures
            option_view(*r) == self@.1,
    {
        &self.outer_shadow
    }

    pub fn get_outer_shadow_mut(&mut self) -> (r: &mut Option<OuterShadow>)
        ensures
            option_view(*r) == old(self)@.1,
            (final(self)@) == (old(self)@.0, option_view(*final(r)), old(self)@.2),
    {
        &mut self.outer_shadow
    }

    pub fn set_outer_shadow(&mut self, value: OuterShadow)
        ensures
            final(self)@ == (old(self)@.0, Some(value@), old(self)@.2),
    {
        self.outer_shadow = Some(value);
    }

    pub fn get_soft_edge(&self) -> (r: &Option<SoftEdge>)
        ensures
            option_view(*r) == self@.2,
    {
        &self.soft_edge
    }

    pub fn get_soft_edge_mut(&mut self) -> (r: &mut Option<SoftEdge>)
        ensures
            option_view(*r) == old(self)@.2,
            (final(self)@) == (old(self)@.0, old(self)@.1, option_view(*final(r))),
    {
        &mut self.soft_edge
    }

    pub fn set_soft_edge(&mut self, value: SoftEdge)
        ensures
            final(self)@ == (old(self)@.0, old(self)@.1, Some(value@)),
    {
        self.soft_edge = Some(value);
    }

    /// Reads the list whose opening tag is `opening`: nothing more where that
    /// tag is self-closing, else the events after it, up to and including
    /// the closing tag.
    pub fn set_attributes(&mut self, cursor: &mut XmlCursor, opening: &XmlEvent) -> (r: Result<
        (),
        XlsxError,
    >)
        ensures
            final(cursor).events() == old(cursor).events(),
            opening@ is Empty ==> r is Ok && final(self)@ == old(self)@ && final(cursor).pos()
                == old(cursor).pos(),
            !(opening@ is Empty) ==> match parse_effect_list(
                old(cursor).events(),
                old(cursor).pos(),
                old(self)@,
            ) {
                Ok((v, p)) => r is Ok && final(self)@ == v && final(cursor).pos() == p,
                Err(tag) => r matches Err(XlsxError::UnexpectedEof { expected_tag })
                    && expected_tag@ == tag,
            },
    {
        if matches!(opening, XmlEvent::Empty { .. }) {
            return Ok(());
        }
        let ghost evs = old(cursor).events();
        let ghost goal = parse_effect_list(evs, old(cursor).pos(), old(self)@);
        loop
            invariant
                !(opening@ is Empty),
                cursor.events() == evs,
                evs == old(cursor).events(),
                goal == parse_effect_list(evs, old(cursor).pos(), old(self)@),
                parse_effect_list(evs, cursor.pos(), self@) == goal,
            decreases evs.len() - cursor.pos(),
        {
            proof {
                cursor.lemma_pos_bound();
            }
            if cursor.at_end() {
                return Err(XlsxError::UnexpectedEof { expected_tag: bytes_of("a:effectLst") });
            }
            let mut soft: Option<SoftEdge> = None;
            let mut glow: Option<Glow> = None;
            let mut shadow: Option<OuterShadow> = None;
            let mut done = false;
            let mut eof = false;
            match cursor.current() {
                XmlEvent::Empty { name, attributes } => {
                    if bytes_eq(name.as_slice(), "a:softEdge".as_bytes()) {
                        let mut obj = SoftEdge::new();
                        obj.set_attributes(attributes);
                        soft = Some(obj);
                    }
                },
                XmlEvent::Start { name, attributes } => {
                    if bytes_eq(name.as_slice(), "a:glow".as_bytes()) {
                        let mut obj = Glow::new();
                        obj.radius = read_uint_attribute(attributes, "rad");
                        glow = Some(obj);
                    } else if bytes_eq(name.as_slice(), "a:outerShdw".as_bytes()) {
                        let mut obj = OuterShadow::new();
                        obj.blur_radius = read_uint_attribute(attributes, "blurRad");
                        obj.distance = read_uint_attribute(attributes, "dist");
                        shadow = Some(obj);
                    }
                },
                XmlEvent::End { name } => {
                    done = bytes_eq(name.as_slice(), "a:effectLst".as_bytes());
                },
                XmlEvent::Eof => {
                    eof = true;
                },
                _ => {},
            }
            if eof {
                return Err(XlsxError::UnexpectedEof { expected_tag: bytes_of("a:effectLst") });
            }
            cursor.advance();
            if done {
                return Ok(());
            }
            match soft {
                Some(obj) => {
                    self.soft_edge = Some(obj);
                },
                None => {},
            }
            proof {
                crate::xml::lemma_end_offset_bound(evs, cursor.pos(), glow_tag());
                crate::xml::lemma_end_offset_bound(evs, cursor.pos(), outer_shadow_tag());
            }
            match glow {
                Some(obj) => {
                    read_to_end(cursor, "a:glow")?;
                    self.glow = Some(obj);
                },
                None => {},
            }
            match shadow {
                Some(obj) => {
                    read_to_end(cursor, "a:outerShdw")?;
                    self.outer_shadow = Some(obj);
                },
                None => {},
            }
        }
    }

    pub fn write_to(&self, writer: &mut XmlWriter)
        ensures
            final(writer)@ == old(writer)@ + render_all(effect_list_events(self@)),
    {
        let ghost w0 = writer@;
        if self.glow.is_none() && self.outer_shadow.is_none() && self.soft_edge.is_none() {
            let tag = XmlEvent::Empty { name: bytes_of("a:effectLst"), attributes: Vec::new() };
            writer.write_event(&tag);
            proof {
                assert(attributes_view(Seq::<Attribute>::empty()) =~= Seq::empty());
                assert(effect_list_events(self@) =~= seq![tag@]);
                crate::xml::lemma_render_all_one(tag@);
            }
            return;
        }
        let start = XmlEvent::Start { name: bytes_of("a:effectLst"), attributes: Vec::new() };
        writer.write_event(&start);
        assert(start@ == EventView::Start(effect_list_tag(), Seq::empty())) by {
            assert(attributes_view(Seq::<Attribute>::empty()) =~= Seq::empty());
        }
        proof {
            crate::xml::lemma_render_all_one(start@);
        }
        let ghost es1 = seq![start@];
        let ghost g = match self@.0 {
            Some(g) => glow_events(g),
            None => Seq::empty(),
        };
        match &self.glow {
            Some(v) => v.write_to(writer),
            None => {},
        }
        proof {
            crate::xml::lemma_render_all_concat(es1, g);
        }
        let ghost s = match self@.1 {
            Some(s) => outer_shadow_events(s),
            None => Seq::empty(),
        };
        match &self.outer_shadow {
            Some(v) => v.write_to(writer),
            None => {},
        }
        proof {
            crate::xml::lemma_render_all_concat(es1 + g, s);
        }
        let ghost e = match self@.2 {
            Some(e) => soft_edge_events(e),
            None => Seq::empty(),
        };
        match &self.soft_edge {
            Some(v) => v.write_to(writer),
            None => {},
        }
        proof {
            crate::xml::lemma_render_all_concat(es1 + g + s, e);
        }
        let end = XmlEvent::End { name: bytes_of("a:effectLst") };
        writer.write_event(&end);
        proof {
            crate::xml::lemma_render_all_push(es1 + g + s + e, end@);
            assert(effect_list_events(self@) =~= (es1 + g + s + e).push(end@));
            assert(render_all(Seq::<EventView>::empty()) == Seq::<u8>::empty());
            assert(writer@ =~= w0 + render_all(effect_list_events(self@)));
        }
    }
}

} // verus!
