//! Typed attribute values: an optional scalar that remembers whether it was
//! set, and its textual form on the wire.
use vstd::prelude::*;
use vstd::string::StringSliceAdditionalSpecFns;
use crate::decimal::{decimal, decimal_of, decimal_value, parse_decimal};
use crate::xml::{attribute_value, attributes_view, bytes_of, get_attribute, Attribute};

verus! {

/// The wire text of a boolean: `1` or `0`.
pub open spec fn bool_text(b: bool) -> Seq<u8> {
    if b {
        seq![49u8]
    } else {
        seq![48u8]
    }
}

/// The boolean that a wire text stands for: `1` and `true` are true,
/// anything else is false.
pub open spec fn bool_of_text(s: Seq<u8>) -> bool {
    s == seq![49u8] || s == seq![116u8, 114, 117, 101]
}

/// A boolean attribute; unset means that the schema default applies.
pub struct BooleanValue {
    value: Option<bool>,
}

impl View for BooleanValue {
    type V = Option<bool>;

    closed spec fn view(&self) -> Option<bool> {
        self.value
    }
}

impl BooleanValue {
    pub fn new() -> (r: BooleanValue)
        ensures
            r@ is None,
    {
        BooleanValue { value: None }
    }

    /// The value, `false` where it was never set.
    pub fn get_value(&self) -> (r: bool)
        ensures
            r == (self@ == Some(true)),
    {
        match self.value {
            Some(v) => v,
            None => false,
        }
    }

    pub fn has_value(&self) -> (r: bool)
        ensures
            r == self@ is Some,
    {
        self.value.is_some()
    }

    pub fn set_value(&mut self, value: bool)
        ensures
            final(self)@ == Some(value),
    {
        self.value = Some(value);
    }

    /// Forgets the value, so that the attribute is omitted again.
    pub fn remove_value(&mut self)
        ensures
            final(self)@ is None,
    {
        self.value = None;
    }

    /// The wire text of the value (`0` where it was never set).
    pub fn get_value_string(&self) -> (r: Vec<u8>)
        ensures
            r@ == bool_text(self@ == Some(true)),
    {
        if self.get_value() {
            vec![49u8]
        } else {
            vec![48u8]
        }
    }

    /// Sets the value from its wire text.
    pub fn set_value_string(&mut self, text: &[u8])
        ensures
            final(self)@ == Some(bool_of_text(text@)),
    {
        let b = (text.len() == 1 && text[0] == 49) || (text.len() == 4 && text[0] == 116
            && text[1] == 114 && text[2] == 117 && text[3] == 101);
        proof {
            if text@.len() == 1 && text@[0] == 49u8 {
                assert(text@ =~= seq![49u8]);
            }
            if text@.len() == 4 && text@[0] == 116u8 && text@[1] == 114u8 && text@[2] == 117u8
                && text@[3] == 101u8 {
                assert(text@ =~= seq![116u8, 114, 117, 101]);
            }
        }
        self.value = Some(b);
    }
}

/// An unsigned integer attribute; unset means that the schema default applies.
pub struct UInt64Value {
    value: Option<u64>,
}

impl View for UInt64Value {
    type V = Option<u64>;

    closed spec fn view(&self) -> Option<u64> {
        self.value
    }
}

impl UInt64Value {
    pub fn new() -> (r: UInt64Value)
        ensures
            r@ is None,
    {
        UInt64Value { value: None }
    }

    /// The value, `0` where it was never set.
    pub fn get_value(&self) -> (r: u64)
        ensures
            r == (match self@ {
                Some(v) => v,
                None => 0,
            }),
    {
        match self.value {
            Some(v) => v,
            None => 0,
        }
    }

    pub fn has_value(&self) -> (r: bool)
        ensures
            r == self@ is Some,
    {
        self.value.is_some()
    }

    pub fn set_value(&mut self, value: u64)
        ensures
            final(self)@ == Some(value),
    {
        self.value = Some(value);
    }

    /// Forgets the value, so that the attribute is omitted again.
    pub fn remove_value(&mut self)
        ensures
            final(self)@ is None,
    {
        self.value = None;
    }

    /// The decimal wire text of the value (`0` where it was never set).
    pub fn get_value_string(&self) -> (r: Vec<u8>)
        ensures
            r@ == decimal_of(self.get_value_spec() as nat),
    {
        decimal(self.get_value())
    }

    pub closed spec fn get_value_spec(&self) -> u64 {
        match self.value {
            Some(v) => v,
            None => 0,
        }
    }

    /// Sets the value from its decimal wire text; a text that is not a
    /// `u64` in decimal leaves the attribute unset.
    pub fn set_value_string(&mut self, text: &[u8])
        ensures
            final(self)@ == decimal_value(text@),
    {
        self.value = parse_decimal(text);
    }
}

/// The attribute list entry of an integer attribute: none where it is unset.
pub open spec fn uint_attribute(key: Seq<u8>, v: Option<u64>) -> Seq<(Seq<u8>, Seq<u8>)> {
    match v {
        Some(n) => seq![(key, decimal_of(n as nat))],
        None => Seq::empty(),
    }
}

/// The integer attribute `key` as read from an attribute list.
pub open spec fn read_uint(a: Seq<(Seq<u8>, Seq<u8>)>, key: Seq<u8>) -> Option<u64> {
    match attribute_value(a, key) {
        Some(t) => decimal_value(t),
        None => None,
    }
}

/// The attribute list entry of a boolean attribute: none where it is unset.
pub open spec fn bool_attribute(key: Seq<u8>, v: Option<bool>) -> Seq<(Seq<u8>, Seq<u8>)> {
    match v {
        Some(b) => seq![(key, bool_text(b))],
        None => Seq::empty(),
    }
}

/// The boolean attribute `key` as read from an attribute list.
pub open spec fn read_bool(a: Seq<(Seq<u8>, Seq<u8>)>, key: Seq<u8>) -> Option<bool> {
    match attribute_value(a, key) {
        Some(t) => Some(bool_of_text(t)),
        None => None,
    }
}

/// Appends the entry of an integer attribute, if it is set.
pub fn push_uint_attribute(attributes: &mut Vec<Attribute>, key: &str, v: &UInt64Value)
    ensures
        attributes_view(final(attributes)@) == attributes_view(old(attributes)@) + uint_attribute(
            key.spec_bytes(),
            v@,
        ),
{
    if v.has_value() {
        let text = v.get_value_string();
        attributes.push(Attribute { key: bytes_of(key), value: text });
        assert(attributes_view(attributes@) =~= attributes_view(old(attributes)@) + uint_attribute(
            key.spec_bytes(),
            v@,
        ));
    } else {
        assert(attributes_view(attributes@) =~= attributes_view(old(attributes)@) + uint_attribute(
            key.spec_bytes(),
            v@,
        ));
    }
}

/// Appends the entry of a boolean attribute, if it is set.
pub fn push_bool_attribute(attributes: &mut Vec<Attribute>, key: &str, v: &BooleanValue)
    ensures
        attributes_view(final(attributes)@) == attributes_view(old(attributes)@) + bool_attribute(
            key.spec_bytes(),
            v@,
        ),
{
    if v.has_value() {
        let text = v.get_value_string();
        attributes.push(Attribute { key: bytes_of(key), value: text });
        assert(attributes_view(attributes@) =~= attributes_view(old(attributes)@) + bool_attribute(
            key.spec_bytes(),
            v@,
        ));
    } else {
        assert(attributes_view(attributes@) =~= attributes_view(old(attributes)@) + bool_attribute(
            key.spec_bytes(),
            v@,
        ));
    }
}

/// The integer attribute `key` of a tag; unset where the tag lacks it or its
/// text is no `u64`.
pub fn read_uint_attribute(attributes: &Vec<Attribute>, key: &str) -> (r: UInt64Value)
    ensures
        r@ == read_uint(attributes_view(attributes@), key.spec_bytes()),
{
    let mut r = UInt64Value::new();
    match get_attribute(attributes, key) {
        Some(t) => r.set_value_string(t.as_slice()),
        None => {},
    }
    r
}

/// The boolean attribute `key` of a tag; unset where the tag lacks it.
pub fn read_bool_attribute(attributes: &Vec<Attribute>, key: &str) -> (r: BooleanValue)
    ensures
        r@ == read_bool(attributes_view(attributes@), key.spec_bytes()),
{
    let mut r = BooleanValue::new();
    match get_attribute(attributes, key) {
        Some(t) => r.set_value_string(t.as_slice()),
        None => {},
    }
    r
}

/// A boolean wire text reads back as the value it was written from.
pub proof fn lemma_bool_text_round_trip(b: bool)
    ensures
        bool_of_text(bool_text(b)) == b,
{
    if !b {
        assert(bool_text(b) != seq![49u8]) by {
            assert(bool_text(b)[0] == 48u8);
        }
        assert(bool_text(b) != seq![116u8, 114, 117, 101]) by {
            assert(bool_text(b).len() == 1);
        }
    }
}

/// A set integer attribute reads back as itself, an unset one stays unset.
pub proof fn lemma_uint_attribute_round_trip(
    before: Seq<(Seq<u8>, Seq<u8>)>,
    key: Seq<u8>,
    v: Option<u64>,
    after: Seq<(Seq<u8>, Seq<u8>)>,
)
    requires
        attribute_value(before, key) is None,
        v is None ==> attribute_value(after, key) is None,
    ensures
        read_uint(before + uint_attribute(key, v) + after, key) == v,
{
    lemma_attribute_value_skip(before, uint_attribute(key, v) + after, key);
    assert(before + uint_attribute(key, v) + after =~= before + (uint_attribute(key, v) + after));
    if let Some(n) = v {
        crate::decimal::lemma_decimal_value_round_trip(n);
        assert((uint_attribute(key, v) + after)[0] == (key, decimal_of(n as nat)));
    } else {
        assert(uint_attribute(key, v) + after =~= after);
    }
}

/// A set boolean attribute reads back as itself, an unset one stays unset.
pub proof fn lemma_bool_attribute_round_trip(
    before: Seq<(Seq<u8>, Seq<u8>)>,
    key: Seq<u8>,
    v: Option<bool>,
    after: Seq<(Seq<u8>, Seq<u8>)>,
)
    requires
        attribute_value(before, key) is None,
        v is None ==> attribute_value(after, key) is None,
    ensures
        read_bool(before + bool_attribute(key, v) + after, key) == v,
{
    lemma_attribute_value_skip(before, bool_attribute(key, v) + after, key);
    assert(before + bool_attribute(key, v) + after =~= before + (bool_attribute(key, v) + after));
    if let Some(b) = v {
        lemma_bool_text_round_trip(b);
        assert((bool_attribute(key, v) + after)[0] == (key, bool_text(b)));
    } else {
        assert(bool_attribute(key, v) + after =~= after);
    }
}

/// Entries without `key` in front do not change what `key` reads as.
pub proof fn lemma_attribute_value_skip(
    before: Seq<(Seq<u8>, Seq<u8>)>,
    after: Seq<(Seq<u8>, Seq<u8>)>,
    key: Seq<u8>,
)
    requires
        attribute_value(before, key) is None,
    ensures
        attribute_value(before + after, key) == attribute_value(after, key),
    decreases before.len(),
{
    if before.len() > 0 {
        assert((before + after).drop_first() =~= before.drop_first() + after);
        assert((before + after)[0] == before[0]);
        lemma_attribute_value_skip(before.drop_first(), after, key);
    } else {
        assert(before + after =~= after);
    }
}

} // verus!
