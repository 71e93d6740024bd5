//! `c:noMultiLvlLbl`: whether a chart axis leaves out multi-level labels.
use vstd::prelude::*;
use vstd::string::StringSliceAdditionalSpecFns;
use crate::attr::{bool_attribute, push_bool_attribute, read_bool, read_bool_attribute, BooleanValue};
use crate::xml::{attributes_view, bytes_of, render_all, Attribute, EventView, XmlEvent, XmlWriter};

verus! {

pub open spec fn no_multi_level_labels_tag() -> Seq<u8> {
    "c:noMultiLvlLbl".spec_bytes()
}

pub open spec fn val_key() -> Seq<u8> {
    "val".spec_bytes()
}

/// The events that write the element: one self-closing tag, with `val` only
/// where it was set.
pub open spec fn no_multi_level_labels_events(v: Option<bool>) -> Seq<EventView> {
    seq![EventView::Empty(no_multi_level_labels_tag(), bool_attribute(val_key(), v))]
}

/// The value that the attributes of the tag give.
pub open spec fn parse_no_multi_level_labels(a: Seq<(Seq<u8>, Seq<u8>)>) -> Option<bool> {
    read_bool(a, val_key())
}

pub struct NoMultiLevelLabels {
    val: BooleanValue,
}

impl View for NoMultiLevelLabels {
    /// The `val` attribute, where it is set.
    type V = Option<bool>;

    closed spec fn view(&self) -> Option<bool> {
        self.val@
    }
}

impl NoMultiLevelLabels {
    pub fn new() -> (r: NoMultiLevelLabels)
        ensures
            r@ is None,
    {
        NoMultiLevelLabels { val: BooleanValue::new() }
    }

    /// The value, `false` where it was never set.
    pub fn get_val(&self) -> (r: bool)
        ensures
            r == (self@ == Some(true)),
    {
        self.val.get_value()
    }

    /// Sets the value; returns the element, so that calls can be chained.
    pub fn set_val(&mut self, value: bool) -> (r: &mut NoMultiLevelLabels)
        ensures
            r@ == Some(value),
            final(self)@ == final(r)@,
    {
        self.val.set_value(value);
        self
    }

    /// Unsets the value, so that `val` is left out of the tag again.
    pub fn remove_val(&mut self)
        ensures
            final(self)@ is None,
    {
        self.val.remove_value();
    }

    /// Reads the attributes of the self-closing tag.
    pub fn set_attributes(&mut self, attributes: &Vec<Attribute>)
        ensures
            final(self)@ == parse_no_multi_level_labels(attributes_view(attributes@)),
    {
        self.val = read_bool_attribute(attributes, "val");
    }

    pub fn write_to(&self, writer: &mut XmlWriter)
        ensures
            final(writer)@ == old(writer)@ + render_all(no_multi_level_labels_events(self@)),
    {
        let mut attributes: Vec<Attribute> = Vec::new();
        push_bool_attribute(&mut attributes, "val", &self.val);
        assert(attributes_view(attributes@) =~= bool_attribute(val_key(), self@));
        let tag = XmlEvent::Empty { name: bytes_of("c:noMultiLvlLbl"), attributes };
        let ghost w0 = writer@;
        writer.write_event(&tag);
        proof {
            assert(no_multi_level_labels_events(self@) =~= seq![tag@]);
            crate::xml::lemma_render_all_one(tag@);
        }
    }
}

/// Reading back the attributes that the element writes gives the same value;
/// an unset value stays unset, a set one comes back as it was.
pub proof fn lemma_no_multi_level_labels_round_trip(v: Option<bool>)
    ensures
        no_multi_level_labels_events(v)[0] == EventView::Empty(
            no_multi_level_labels_tag(),
            bool_attribute(val_key(), v),
        ),
        parse_no_multi_level_labels(bool_attribute(val_key(), v)) == v,
{
    let none = Seq::<(Seq<u8>, Seq<u8>)>::empty();
    crate::attr::lemma_bool_attribute_round_trip(none, val_key(), v, none);
    assert(none + bool_attribute(val_key(), v) + none =~= bool_attribute(val_key(), v));
}

/// An attribute never set is never written: the tag then carries no
/// attribute at all, and clearing a set value brings that back.
pub proof fn lemma_no_multi_level_labels_default_omitted()
    ensures
        no_multi_level_labels_events(None) == seq![
            EventView::Empty(no_multi_level_labels_tag(), Seq::<(Seq<u8>, Seq<u8>)>::empty()),
        ],
{
    assert(no_multi_level_labels_events(None) =~= seq![
        EventView::Empty(no_multi_level_labels_tag(), Seq::<(Seq<u8>, Seq<u8>)>::empty()),
    ]);
}

} // verus!
