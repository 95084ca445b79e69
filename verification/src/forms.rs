//! The element that stands for each type of the model: its attributes and
//! children, which values can be written, and which read back as they were.

use vstd::prelude::*;

use crate::decode::{attribute_value, FromElement};
use crate::encode::{
    all_items_representable, all_representable, all_writable, attribute, clone_optional,
    encode_each, lemma_attribute_names, lemma_attribute_value_push, lemma_decode_each_same,
    lemma_each_fits, lemma_fits_add, lemma_skip_left, lemma_skip_right, new_element,
    no_attributes, no_children, option_items, push_attribute, push_child, push_children,
    push_optional, spec_element, with_optional, ElementForm, ToElement,
};
use crate::error::{AttributeKind, ElementKind, ParseError};
use crate::lexical::{
    bool_text, bool_value, decimal_text, format_bool, format_i16, format_u64, i16_value,
    lemma_bool_round_trip, lemma_decimal_text, lemma_signed_round_trip,
    lemma_unsigned_round_trip, signed_text, u32_value, u8_value,
};
use crate::literal::{
    float_literal_value, is_float_literal, is_float_literal_chars, lemma_float_literal_chars,
    lemma_float_literal_round_trip, FloatLiteral,
};
use crate::model::{
    Association, AssociationSet, AssociationSetView, AssociationView, DataServices,
    DataServicesView, Edm, Edmx, EdmxView, End, EndView, EntityContainer, EntityContainerView,
    EntitySet, EntitySetView, EntityType, EntityTypeView, Key, KeyView, NavigationProperty,
    NavigationPropertyView, Property, PropertyRef, PropertyRefView, PropertyType,
    PropertyTypeView, PropertyView, Schema, SchemaView,
};
use crate::text::chars_of;
use crate::timestamp::{naive_datetime_of, naive_datetime_text, write_naive_datetime, NaiveTimestamp};
use crate::tree::{Element, ElementView};
use crate::words::{
    byte_list_text, byte_list_value, format_byte_list, format_offset, lemma_byte_list_round_trip,
    lemma_offset_round_trip, offset_text, offset_value, Offset, NANOS_PER_SECOND,
};
use crate::xml::{Attribute, AttributeView};

verus! {

impl ElementForm for PropertyRef {
    open spec fn spec_attributes(v: PropertyRefView) -> Seq<AttributeView> {
        Seq::empty().push(attribute(AttributeKind::Name, v.name))
    }

    open spec fn spec_children(v: PropertyRefView) -> Seq<ElementView> {
        Seq::empty()
    }

    open spec fn writable(v: PropertyRefView) -> bool {
        true
    }

    open spec fn representable(v: PropertyRefView) -> bool {
        true
    }

    open spec fn depth() -> nat {
        1
    }
}

impl ToElement for PropertyRef {
    fn is_representable(&self) -> (r: bool) {
        true
    }

    fn to_element(&self) -> (r: Option<Element>) {
        let mut attributes = no_attributes();
        push_attribute(&mut attributes, AttributeKind::Name, self.name.clone());
        Some(new_element(ElementKind::PropertyRef, attributes, no_children()))
    }

    proof fn lemma_depth(v: PropertyRefView) {
    }

    proof fn lemma_round_trip(v: PropertyRefView) {
        broadcast use lemma_attribute_value_push;

    }
}

impl ElementForm for NavigationProperty {
    open spec fn spec_attributes(v: NavigationPropertyView) -> Seq<AttributeView> {
        Seq::empty().push(attribute(AttributeKind::Name, v.name)).push(
            attribute(AttributeKind::Relationship, v.relationship),
        ).push(attribute(AttributeKind::ToRole, v.to_role)).push(
            attribute(AttributeKind::FromRole, v.from_role),
        )
    }

    open spec fn spec_children(v: NavigationPropertyView) -> Seq<ElementView> {
        Seq::empty()
    }

    open spec fn writable(v: NavigationPropertyView) -> bool {
        true
    }

    open spec fn representable(v: NavigationPropertyView) -> bool {
        true
    }

    open spec fn depth() -> nat {
        1
    }
}

impl ToElement for NavigationProperty {
    fn is_representable(&self) -> (r: bool) {
        true
    }

    fn to_element(&self) -> (r: Option<Element>) {
        let mut attributes = no_attributes();
        push_attribute(&mut attributes, AttributeKind::Name, self.name.clone());
        push_attribute(&mut attributes, AttributeKind::Relationship, self.relationship.clone());
        push_attribute(&mut attributes, AttributeKind::ToRole, self.to_role.clone());
        push_attribute(&mut attributes, AttributeKind::FromRole, self.from_role.clone());
        Some(new_element(ElementKind::NavigationProperty, attributes, no_children()))
    }

    proof fn lemma_depth(v: NavigationPropertyView) {
    }

    proof fn lemma_round_trip(v: NavigationPropertyView) {
        broadcast use lemma_attribute_value_push;

        lemma_attribute_names();
    }
}

impl ElementForm for EntitySet {
    open spec fn spec_attributes(v: EntitySetView) -> Seq<AttributeView> {
        Seq::empty().push(attribute(AttributeKind::Name, v.name)).push(
            attribute(AttributeKind::EntityType, v.entity_type),
        )
    }

    open spec fn spec_children(v: EntitySetView) -> Seq<ElementView> {
        Seq::empty()
    }

    open spec fn writable(v: EntitySetView) -> bool {
        true
    }

    open spec fn representable(v: EntitySetView) -> bool {
        true
    }

    open spec fn depth() -> nat {
        1
    }
}

impl ToElement for EntitySet {
    fn is_representable(&self) -> (r: bool) {
        true
    }

    fn to_element(&self) -> (r: Option<Element>) {
        let mut attributes = no_attributes();
        push_attribute(&mut attributes, AttributeKind::Name, self.name.clone());
        push_attribute(&mut attributes, AttributeKind::EntityType, self.entity_type.clone());
        Some(new_element(ElementKind::EntitySet, attributes, no_children()))
    }

    proof fn lemma_depth(v: EntitySetView) {
    }

    proof fn lemma_round_trip(v: EntitySetView) {
        broadcast use lemma_attribute_value_push;

        lemma_attribute_names();
    }
}

/// An optional name that is given is not empty: an empty one reads as none.
pub open spec fn is_given(value: Option<Seq<char>>) -> bool {
    value matches Some(text) ==> text.len() > 0
}

impl ElementForm for End {
    open spec fn spec_attributes(v: EndView) -> Seq<AttributeView> {
        with_optional(
            with_optional(
                with_optional(
                    with_optional(Seq::empty(), AttributeKind::Role, v.role),
                    AttributeKind::EntitySet,
                    v.entity_set,
                ),
                AttributeKind::Type,
                v.entity_type,
            ),
            AttributeKind::Multiplicity,
            v.multiplicity,
        )
    }

    open spec fn spec_children(v: EndView) -> Seq<ElementView> {
        Seq::empty()
    }

    open spec fn writable(v: EndView) -> bool {
        true
    }

    open spec fn representable(v: EndView) -> bool {
        is_given(v.role) && is_given(v.entity_set) && is_given(v.entity_type) && is_given(
            v.multiplicity,
        )
    }

    open spec fn depth() -> nat {
        1
    }
}

impl ToElement for End {
    fn is_representable(&self) -> (r: bool) {
        text_is_given(&self.role) && text_is_given(&self.entity_set) && text_is_given(
            &self.entity_type,
        ) && text_is_given(&self.multiplicity)
    }

    fn to_element(&self) -> (r: Option<Element>) {
        let mut attributes = no_attributes();
        push_optional(&mut attributes, AttributeKind::Role, clone_optional(&self.role));
        push_optional(&mut attributes, AttributeKind::EntitySet, clone_optional(&self.entity_set));
        push_optional(&mut attributes, AttributeKind::Type, clone_optional(&self.entity_type));
        push_optional(
            &mut attributes,
            AttributeKind::Multiplicity,
            clone_optional(&self.multiplicity),
        );
        Some(new_element(ElementKind::End, attributes, no_children()))
    }

    proof fn lemma_depth(v: EndView) {
    }

    proof fn lemma_round_trip(v: EndView) {
        broadcast use lemma_attribute_value_push;

        lemma_attribute_names();
    }
}

fn text_is_given(value: &Option<String>) -> (r: bool)
    ensures
        r == is_given(value.deep_view()),
{
    match value {
        Some(text) => !text.as_str().is_empty(),
        None => true,
    }
}

fn bytes_are_given(bytes: &Option<Vec<u8>>) -> (r: bool)
    ensures
        r == bytes_given(bytes.deep_view()),
{
    match bytes {
        Some(bytes) => {
            assert(bytes.deep_view() =~= bytes@);
            bytes.len() > 0
        },
        None => true,
    }
}

fn literal_is_given(literal: &Option<FloatLiteral>) -> (r: bool)
    ensures
        r == literal_given(literal.deep_view()),
{
    match literal {
        Some(literal) => {
            let chars = chars_of(literal.text.as_str());
            is_float_literal_chars(chars.as_slice())
        },
        None => true,
    }
}

fn moment_is_given(timestamp: &Option<NaiveTimestamp>) -> (r: bool)
    ensures
        r == moment_given(*timestamp),
{
    match timestamp {
        Some(timestamp) => write_naive_datetime(*timestamp).is_some(),
        None => true,
    }
}

fn span_is_given(offset: &Option<Offset>) -> (r: bool)
    ensures
        r == span_given(*offset),
{
    match offset {
        Some(offset) => offset.nanoseconds < NANOS_PER_SECOND,
        None => true,
    }
}

impl PropertyType {
    /// Whether the default, where there is one, is a value that reads back.
    pub fn is_representable(&self) -> (r: bool)
        ensures
            r == self.deep_view().representable(),
    {
        match self {
            PropertyType::Binary { default, .. } => bytes_are_given(default),
            PropertyType::Byte { default, .. } => bytes_are_given(default),
            PropertyType::Int32 { default, .. } => bytes_are_given(default),
            PropertyType::DateTime { default, .. } => moment_is_given(default),
            PropertyType::DateTimeOffset { default, .. } => span_is_given(default),
            PropertyType::Decimal { default, .. } => literal_is_given(default),
            PropertyType::Double { default, .. } => literal_is_given(default),
            PropertyType::Boolean { .. } => true,
            PropertyType::Int16 { .. } => true,
            PropertyType::String { .. } => true,
        }
    }
}

/// Whether both ends are values that a document can hold.
fn ends_are_representable(ends: &[End; 2]) -> (r: bool)
    ensures
        r == (ends.deep_view().len() == 2 && all_representable::<End>(ends.deep_view())),
{
    let first = ends[0].is_representable();
    let second = ends[1].is_representable();
    proof {
        let views = ends.deep_view();
        assert(views[0] == ends[0].deep_view());
        assert(views[1] == ends[1].deep_view());
        if first && second {
            assert forall|i: int| 0 <= i < views.len() implies End::representable(
                #[trigger] views[i],
            ) by {
                assert(i == 0 || i == 1);
            }
        }
    }
    first && second
}

impl ElementForm for Key {
    open spec fn spec_attributes(v: KeyView) -> Seq<AttributeView> {
        Seq::empty()
    }

    open spec fn spec_children(v: KeyView) -> Seq<ElementView> {
        encode_each::<PropertyRef>(seq![v.property_ref])
    }

    open spec fn writable(v: KeyView) -> bool {
        true
    }

    open spec fn representable(v: KeyView) -> bool {
        true
    }

    open spec fn depth() -> nat {
        2
    }
}

impl ToElement for Key {
    fn is_representable(&self) -> (r: bool) {
        true
    }

    fn to_element(&self) -> (r: Option<Element>) {
        let mut children = no_children();
        push_child::<PropertyRef>(&mut children, &self.property_ref);
        assert(children.deep_view() =~= encode_each::<PropertyRef>(
            seq![self.property_ref.deep_view()],
        ));
        Some(new_element(ElementKind::Key, no_attributes(), children))
    }

    proof fn lemma_depth(v: KeyView) {
        lemma_each_fits::<PropertyRef>(seq![v.property_ref], 1);
    }

    proof fn lemma_round_trip(v: KeyView) {
        lemma_decode_each_same::<PropertyRef>(seq![v.property_ref]);
    }
}

/// A number of eight bits as it is written, where there is one.
pub open spec fn u8_text(n: Option<u8>) -> Option<Seq<char>> {
    match n {
        Some(n) => Some(decimal_text(n as nat)),
        None => None,
    }
}

/// A number of thirty-two bits as it is written, where there is one.
pub open spec fn u32_text(n: Option<u32>) -> Option<Seq<char>> {
    match n {
        Some(n) => Some(decimal_text(n as nat)),
        None => None,
    }
}

/// A signed number as it is written, where there is one.
pub open spec fn i16_text(n: Option<i16>) -> Option<Seq<char>> {
    match n {
        Some(n) => Some(signed_text(n as int)),
        None => None,
    }
}

/// A boolean as it is written, where there is one.
pub open spec fn flag_text(b: Option<bool>) -> Option<Seq<char>> {
    match b {
        Some(b) => Some(bool_text(b)),
        None => None,
    }
}

/// A run of bytes as it is written, where there is one.
pub open spec fn bytes_text(bytes: Option<Seq<u8>>) -> Option<Seq<char>> {
    match bytes {
        Some(bytes) => Some(byte_list_text(bytes)),
        None => None,
    }
}

/// An offset as it is written, where there is one.
pub open spec fn span_text(offset: Option<Offset>) -> Option<Seq<char>> {
    match offset {
        Some(offset) => Some(offset_text(offset)),
        None => None,
    }
}

/// A timestamp as it is written; nothing where it cannot be written.
pub open spec fn moment_text(timestamp: Option<NaiveTimestamp>) -> Option<Seq<char>> {
    match timestamp {
        Some(timestamp) => naive_datetime_text(timestamp),
        None => None,
    }
}

/// The attributes `base`, and behind them the facets of `inner` that are given.
pub open spec fn with_facets(base: Seq<AttributeView>, inner: PropertyTypeView) -> Seq<
    AttributeView,
> {
    match inner {
        PropertyTypeView::Binary { max_length, fixed_length, default } => with_optional(
            with_optional(
                with_optional(base, AttributeKind::MaxLength, u32_text(max_length)),
                AttributeKind::FixedLength,
                u32_text(fixed_length),
            ),
            AttributeKind::Default,
            bytes_text(default),
        ),
        PropertyTypeView::Boolean { default } => with_optional(
            base,
            AttributeKind::Default,
            flag_text(default),
        ),
        PropertyTypeView::Byte { precision, default } => with_optional(
            with_optional(base, AttributeKind::Precision, u8_text(precision)),
            AttributeKind::Default,
            bytes_text(default),
        ),
        PropertyTypeView::DateTime { precision, default } => with_optional(
            with_optional(base, AttributeKind::Precision, u8_text(precision)),
            AttributeKind::Default,
            moment_text(default),
        ),
        PropertyTypeView::DateTimeOffset { precision, default } => with_optional(
            with_optional(base, AttributeKind::Precision, u8_text(precision)),
            AttributeKind::Default,
            span_text(default),
        ),
        PropertyTypeView::Decimal { precision, default } => with_optional(
            with_optional(base, AttributeKind::Precision, u8_text(precision)),
            AttributeKind::Default,
            default,
        ),
        PropertyTypeView::Double { precision, default } => with_optional(
            with_optional(base, AttributeKind::Precision, u8_text(precision)),
            AttributeKind::Default,
            default,
        ),
        PropertyTypeView::Int16 { precision, default } => with_optional(
            with_optional(base, AttributeKind::Precision, u8_text(precision)),
            AttributeKind::Default,
            i16_text(default),
        ),
        PropertyTypeView::Int32 { precision, default } => with_optional(
            with_optional(base, AttributeKind::Precision, u8_text(precision)),
            AttributeKind::Default,
            bytes_text(default),
        ),
        PropertyTypeView::String { precision, max_length, fixed_length } => with_optional(
            with_optional(
                with_optional(base, AttributeKind::Precision, u8_text(precision)),
                AttributeKind::MaxLength,
                u32_text(max_length),
            ),
            AttributeKind::FixedLength,
            u32_text(fixed_length),
        ),
    }
}

/// A run of bytes that is given is not empty: an empty one is written as
/// an empty attribute, which reads as none.
pub open spec fn bytes_given(bytes: Option<Seq<u8>>) -> bool {
    bytes matches Some(bytes) ==> bytes.len() > 0
}

/// A decimal fraction that is given is one as the grammar has it.
pub open spec fn literal_given(literal: Option<Seq<char>>) -> bool {
    literal matches Some(text) ==> is_float_literal(text)
}

/// A timestamp that is given is one that can be written, and whose text
/// reads back as the timestamp.
pub open spec fn moment_given(timestamp: Option<NaiveTimestamp>) -> bool {
    timestamp matches Some(timestamp) ==> (naive_datetime_text(timestamp) matches Some(text)
        && text.len() > 0 && naive_datetime_of(text) == Some(timestamp))
}

/// An offset that is given has less than a second's worth of nanoseconds.
pub open spec fn span_given(offset: Option<Offset>) -> bool {
    offset matches Some(offset) ==> offset.is_normal()
}

impl PropertyTypeView {
    /// Whether the default, where there is one, can be written.
    pub open spec fn writable(self) -> bool {
        match self {
            PropertyTypeView::DateTime { precision, default } => default matches Some(timestamp)
                ==> naive_datetime_text(timestamp) is Some,
            _ => true,
        }
    }

    /// Whether the default, where there is one, is a value that reads back.
    pub open spec fn representable(self) -> bool {
        match self {
            PropertyTypeView::Binary { default, .. } => bytes_given(default),
            PropertyTypeView::Byte { default, .. } => bytes_given(default),
            PropertyTypeView::Int32 { default, .. } => bytes_given(default),
            PropertyTypeView::DateTime { default, .. } => moment_given(default),
            PropertyTypeView::DateTimeOffset { default, .. } => span_given(default),
            PropertyTypeView::Decimal { default, .. } => literal_given(default),
            PropertyTypeView::Double { default, .. } => literal_given(default),
            _ => true,
        }
    }
}

impl ElementForm for Property {
    open spec fn spec_attributes(v: PropertyView) -> Seq<AttributeView> {
        with_facets(
            Seq::empty().push(attribute(AttributeKind::Name, v.name)).push(
                attribute(AttributeKind::Type, v.inner.kind().spec_literal()),
            ),
            v.inner,
        ).push(attribute(AttributeKind::Nullable, bool_text(v.nullable)))
    }

    open spec fn spec_children(v: PropertyView) -> Seq<ElementView> {
        Seq::empty()
    }

    open spec fn writable(v: PropertyView) -> bool {
        v.inner.writable()
    }

    open spec fn representable(v: PropertyView) -> bool {
        v.inner.representable()
    }

    open spec fn depth() -> nat {
        1
    }
}

fn write_u8(n: &Option<u8>) -> (r: Option<String>)
    ensures
        r.deep_view() == u8_text(*n),
{
    match n {
        Some(n) => Some(format_u64(*n as u64)),
        None => None,
    }
}

fn write_u32(n: &Option<u32>) -> (r: Option<String>)
    ensures
        r.deep_view() == u32_text(*n),
{
    match n {
        Some(n) => Some(format_u64(*n as u64)),
        None => None,
    }
}

fn write_i16(n: &Option<i16>) -> (r: Option<String>)
    ensures
        r.deep_view() == i16_text(*n),
{
    match n {
        Some(n) => Some(format_i16(*n)),
        None => None,
    }
}

fn write_flag(b: &Option<bool>) -> (r: Option<String>)
    ensures
        r.deep_view() == flag_text(*b),
{
    match b {
        Some(b) => Some(format_bool(*b)),
        None => None,
    }
}

fn write_bytes(bytes: &Option<Vec<u8>>) -> (r: Option<String>)
    ensures
        r.deep_view() == bytes_text(bytes.deep_view()),
{
    match bytes {
        Some(bytes) => {
            assert(bytes.deep_view() =~= bytes@);
            Some(format_byte_list(bytes))
        },
        None => None,
    }
}

fn write_span(offset: &Option<Offset>) -> (r: Option<String>)
    ensures
        r.deep_view() == span_text(*offset),
{
    match offset {
        Some(offset) => Some(format_offset(*offset)),
        None => None,
    }
}

fn write_literal(literal: &Option<FloatLiteral>) -> (r: Option<String>)
    ensures
        r.deep_view() == literal.deep_view(),
{
    match literal {
        Some(literal) => Some(literal.text.clone()),
        None => None,
    }
}

/// Writes the facets of `inner` behind `attributes`. Where a timestamp
/// cannot be written, nothing is promised of `attributes`.
fn push_facets(attributes: &mut Vec<Attribute>, inner: &PropertyType) -> (ok: bool)
    ensures
        ok <==> inner.deep_view().writable(),
        ok ==> final(attributes).deep_view() == with_facets(
            old(attributes).deep_view(),
            inner.deep_view(),
        ),
{
    match inner {
        PropertyType::Binary { max_length, fixed_length, default } => {
            push_optional(attributes, AttributeKind::MaxLength, write_u32(max_length));
            push_optional(attributes, AttributeKind::FixedLength, write_u32(fixed_length));
            push_optional(attributes, AttributeKind::Default, write_bytes(default));
        },
        PropertyType::Boolean { default } => {
            push_optional(attributes, AttributeKind::Default, write_flag(default));
        },
        PropertyType::Byte { precision, default } => {
            push_optional(attributes, AttributeKind::Precision, write_u8(precision));
            push_optional(attributes, AttributeKind::Default, write_bytes(default));
        },
        PropertyType::DateTime { precision, default } => {
            push_optional(attributes, AttributeKind::Precision, write_u8(precision));
            match default {
                Some(timestamp) => match write_naive_datetime(*timestamp) {
                    Some(text) => {
                        push_attribute(attributes, AttributeKind::Default, text);
                    },
                    None => {
                        return false;
                    },
                },
                None => {},
            }
        },
        PropertyType::DateTimeOffset { precision, default } => {
            push_optional(attributes, AttributeKind::Precision, write_u8(precision));
            push_optional(attributes, AttributeKind::Default, write_span(default));
        },
        PropertyType::Decimal { precision, default } => {
            push_optional(attributes, AttributeKind::Precision, write_u8(precision));
            push_optional(attributes, AttributeKind::Default, write_literal(default));
        },
        PropertyType::Double { precision, default } => {
            push_optional(attributes, AttributeKind::Precision, write_u8(precision));
            push_optional(attributes, AttributeKind::Default, write_literal(default));
        },
        PropertyType::Int16 { precision, default } => {
            push_optional(attributes, AttributeKind::Precision, write_u8(precision));
            push_optional(attributes, AttributeKind::Default, write_i16(default));
        },
        PropertyType::Int32 { precision, default } => {
            push_optional(attributes, AttributeKind::Precision, write_u8(precision));
            push_optional(attributes, AttributeKind::Default, write_bytes(default));
        },
        PropertyType::String { precision, max_length, fixed_length } => {
            push_optional(attributes, AttributeKind::Precision, write_u8(precision));
            push_optional(attributes, AttributeKind::MaxLength, write_u32(max_length));
            push_optional(attributes, AttributeKind::FixedLength, write_u32(fixed_length));
        },
    }
    true
}

/// A number of eight bits that is written is not empty, and reads back.
pub proof fn lemma_u8_text(n: Option<u8>)
    ensures
        n matches Some(n) ==> decimal_text(n as nat).len() > 0 && u8_value(decimal_text(n as nat))
            == Some(n),
{
    if n is Some {
        lemma_decimal_text(n->0 as nat);
        lemma_unsigned_round_trip(n->0 as nat, u8::MAX as nat);
    }
}

/// A number of thirty-two bits that is written is not empty, and reads back.
pub proof fn lemma_u32_text(n: Option<u32>)
    ensures
        n matches Some(n) ==> decimal_text(n as nat).len() > 0 && u32_value(
            decimal_text(n as nat),
        ) == Some(n),
{
    if n is Some {
        lemma_decimal_text(n->0 as nat);
        lemma_unsigned_round_trip(n->0 as nat, u32::MAX as nat);
    }
}

/// A signed number that is written is not empty, and reads back.
pub proof fn lemma_i16_text(n: Option<i16>)
    ensures
        n matches Some(n) ==> signed_text(n as int).len() > 0 && i16_value(signed_text(n as int))
            == Some(n),
{
    if n is Some {
        let n = n->0;
        lemma_signed_round_trip(n as int);
        if n < 0 {
            lemma_decimal_text((-n) as nat);
        } else {
            lemma_decimal_text(n as nat);
        }
    }
}

/// A boolean that is written is not empty, and reads back.
pub proof fn lemma_flag_text(b: bool)
    ensures
        bool_text(b).len() > 0,
        bool_value(bool_text(b)) == Some(b),
{
    reveal_strlit("true");
    reveal_strlit("false");
    lemma_bool_round_trip(b);
}

/// A run of bytes that is not empty, once written, is not empty, and reads back.
pub proof fn lemma_bytes_text(bytes: Seq<u8>)
    requires
        bytes.len() > 0,
    ensures
        byte_list_text(bytes).len() > 0,
        byte_list_value(byte_list_text(bytes)) == Some(bytes),
{
    lemma_byte_list_round_trip(bytes);
    lemma_decimal_text(bytes.last() as nat);
    lemma_decimal_text(bytes[0] as nat);
}

/// An offset that is written is not empty, and reads back.
pub proof fn lemma_span_text(offset: Offset)
    requires
        offset.is_normal(),
    ensures
        offset_text(offset).len() > 0,
        offset_value(offset_text(offset)) == Some(offset),
{
    lemma_offset_round_trip(offset);
}

/// A decimal fraction is not empty, and reads as itself.
pub proof fn lemma_literal_text(text: Seq<char>)
    requires
        is_float_literal(text),
    ensures
        text.len() > 0,
        float_literal_value(text) == Some(text),
{
    lemma_float_literal_chars(text);
    lemma_float_literal_round_trip(text);
}

impl ToElement for Property {
    fn is_representable(&self) -> (r: bool) {
        self.inner.is_representable()
    }

    fn to_element(&self) -> (r: Option<Element>) {
        let mut attributes = no_attributes();
        push_attribute(&mut attributes, AttributeKind::Name, self.name.clone());
        push_attribute(
            &mut attributes,
            AttributeKind::Type,
            String::from_str(self.inner.kind().literal()),
        );
        if !push_facets(&mut attributes, &self.inner) {
            return None;
        }
        push_attribute(&mut attributes, AttributeKind::Nullable, format_bool(self.nullable));
        Some(new_element(ElementKind::Property, attributes, no_children()))
    }

    proof fn lemma_depth(v: PropertyView) {
    }

    proof fn lemma_round_trip(v: PropertyView) {
        lemma_property_round_trip(v);
    }
}

/// The text that a property gives to the attribute `kind`, if it writes
/// that attribute.
pub open spec fn property_attribute_text(v: PropertyView, kind: AttributeKind) -> Option<
    Seq<char>,
> {
    match kind {
        AttributeKind::Name => Some(v.name),
        AttributeKind::Type => Some(v.inner.kind().spec_literal()),
        AttributeKind::Nullable => Some(bool_text(v.nullable)),
        AttributeKind::MaxLength => match v.inner {
            PropertyTypeView::Binary { max_length, .. } => u32_text(max_length),
            PropertyTypeView::String { max_length, .. } => u32_text(max_length),
            _ => None,
        },
        AttributeKind::FixedLength => match v.inner {
            PropertyTypeView::Binary { fixed_length, .. } => u32_text(fixed_length),
            PropertyTypeView::String { fixed_length, .. } => u32_text(fixed_length),
            _ => None,
        },
        AttributeKind::Precision => match v.inner {
            PropertyTypeView::Binary { .. } => None,
            PropertyTypeView::Boolean { .. } => None,
            PropertyTypeView::Byte { precision, .. } => u8_text(precision),
            PropertyTypeView::DateTime { precision, .. } => u8_text(precision),
            PropertyTypeView::DateTimeOffset { precision, .. } => u8_text(precision),
            PropertyTypeView::Decimal { precision, .. } => u8_text(precision),
            PropertyTypeView::Double { precision, .. } => u8_text(precision),
            PropertyTypeView::Int16 { precision, .. } => u8_text(precision),
            PropertyTypeView::Int32 { precision, .. } => u8_text(precision),
            PropertyTypeView::String { precision, .. } => u8_text(precision),
        },
        AttributeKind::Default => match v.inner {
            PropertyTypeView::Binary { default, .. } => bytes_text(default),
            PropertyTypeView::Boolean { default } => flag_text(default),
            PropertyTypeView::Byte { default, .. } => bytes_text(default),
            PropertyTypeView::DateTime { default, .. } => moment_text(default),
            PropertyTypeView::DateTimeOffset { default, .. } => span_text(default),
            PropertyTypeView::Decimal { default, .. } => default,
            PropertyTypeView::Double { default, .. } => default,
            PropertyTypeView::Int16 { default, .. } => i16_text(default),
            PropertyTypeView::Int32 { default, .. } => bytes_text(default),
            PropertyTypeView::String { .. } => None,
        },
        _ => None,
    }
}

/// What one finds under each name among the attributes written for a property.
pub proof fn lemma_property_lookup(v: PropertyView, kind: AttributeKind)
    ensures
        attribute_value(Property::spec_attributes(v), kind.spec_name()) == property_attribute_text(
            v,
            kind,
        ),
{
    broadcast use lemma_attribute_value_push;

    lemma_attribute_names();
}

/// The facets written for a property read back.
proof fn lemma_property_type_round_trip(v: PropertyView)
    requires
        v.inner.representable(),
    ensures
        crate::decode::spec_property_type(spec_element::<Property>(v), v.inner.kind()) == Ok::<
            PropertyTypeView,
            ParseError,
        >(v.inner),
{
    lemma_property_lookup(v, AttributeKind::MaxLength);
    lemma_property_lookup(v, AttributeKind::FixedLength);
    lemma_property_lookup(v, AttributeKind::Precision);
    lemma_property_lookup(v, AttributeKind::Default);
    match v.inner {
        PropertyTypeView::Binary { max_length, fixed_length, default } => {
            lemma_u32_text(max_length);
            lemma_u32_text(fixed_length);
            if default is Some {
                lemma_bytes_text(default->0);
            }
        },
        PropertyTypeView::Boolean { default } => {
            if default is Some {
                lemma_flag_text(default->0);
            }
        },
        PropertyTypeView::Byte { precision, default } => {
            lemma_u8_text(precision);
            if default is Some {
                lemma_bytes_text(default->0);
            }
        },
        PropertyTypeView::DateTime { precision, default } => {
            lemma_u8_text(precision);
        },
        PropertyTypeView::DateTimeOffset { precision, default } => {
            lemma_u8_text(precision);
            if default is Some {
                lemma_span_text(default->0);
            }
        },
        PropertyTypeView::Decimal { precision, default } => {
            lemma_u8_text(precision);
            if default is Some {
                lemma_literal_text(default->0);
            }
        },
        PropertyTypeView::Double { precision, default } => {
            lemma_u8_text(precision);
            if default is Some {
                lemma_literal_text(default->0);
            }
        },
        PropertyTypeView::Int16 { precision, default } => {
            lemma_u8_text(precision);
            lemma_i16_text(default);
        },
        PropertyTypeView::Int32 { precision, default } => {
            lemma_u8_text(precision);
            if default is Some {
                lemma_bytes_text(default->0);
            }
        },
        PropertyTypeView::String { precision, max_length, fixed_length } => {
            lemma_u8_text(precision);
            lemma_u32_text(max_length);
            lemma_u32_text(fixed_length);
        },
    }
}

/// A property that a document can hold, once written, reads back.
proof fn lemma_property_round_trip(v: PropertyView)
    requires
        v.inner.representable(),
    ensures
        v.inner.writable(),
        Property::spec_from_element(spec_element::<Property>(v)) == Ok::<PropertyView, ParseError>(
            v,
        ),
{
    lemma_property_lookup(v, AttributeKind::Name);
    lemma_property_lookup(v, AttributeKind::Type);
    lemma_property_lookup(v, AttributeKind::Nullable);
    Edm::lemma_literal_round_trip(v.inner.kind());
    lemma_flag_text(v.nullable);
    lemma_property_type_round_trip(v);
}

impl ElementForm for EntityType {
    open spec fn spec_attributes(v: EntityTypeView) -> Seq<AttributeView> {
        Seq::empty().push(attribute(AttributeKind::Name, v.name))
    }

    open spec fn spec_children(v: EntityTypeView) -> Seq<ElementView> {
        encode_each::<Key>(seq![v.key]) + encode_each::<Property>(v.properties) + encode_each::<
            NavigationProperty,
        >(v.navigations)
    }

    open spec fn writable(v: EntityTypeView) -> bool {
        all_writable::<Property>(v.properties)
    }

    open spec fn representable(v: EntityTypeView) -> bool {
        all_representable::<Property>(v.properties)
    }

    open spec fn depth() -> nat {
        3
    }
}

impl ToElement for EntityType {
    fn is_representable(&self) -> (r: bool) {
        all_items_representable::<Property>(&self.properties)
    }

    fn to_element(&self) -> (r: Option<Element>) {
        let mut attributes = no_attributes();
        push_attribute(&mut attributes, AttributeKind::Name, self.name.clone());
        let mut children = no_children();
        push_child::<Key>(&mut children, &self.key);
        assert(children.deep_view() =~= encode_each::<Key>(seq![self.key.deep_view()]));
        if !push_children::<Property>(&mut children, &self.properties) {
            return None;
        }
        let ok = push_children::<NavigationProperty>(&mut children, &self.navigations);
        assert(ok);
        Some(new_element(ElementKind::EntityType, attributes, children))
    }

    proof fn lemma_depth(v: EntityTypeView) {
        let keys = encode_each::<Key>(seq![v.key]);
        let properties = encode_each::<Property>(v.properties);
        let navigations = encode_each::<NavigationProperty>(v.navigations);
        lemma_each_fits::<Key>(seq![v.key], 2);
        lemma_each_fits::<Property>(v.properties, 2);
        lemma_each_fits::<NavigationProperty>(v.navigations, 2);
        lemma_fits_add(keys, properties, 2);
        lemma_fits_add(keys + properties, navigations, 2);
    }

    proof fn lemma_round_trip(v: EntityTypeView) {
        broadcast use lemma_attribute_value_push;

        let keys = encode_each::<Key>(seq![v.key]);
        let properties = encode_each::<Property>(v.properties);
        let navigations = encode_each::<NavigationProperty>(v.navigations);
        lemma_skip_right::<Key, NavigationProperty>(keys + properties, v.navigations);
        lemma_skip_right::<Key, Property>(keys, v.properties);
        lemma_decode_each_same::<Key>(seq![v.key]);
        lemma_skip_right::<Property, NavigationProperty>(keys + properties, v.navigations);
        lemma_skip_left::<Property, Key>(seq![v.key], properties);
        lemma_decode_each_same::<Property>(v.properties);
        assert(keys + properties + navigations =~= keys + (properties + navigations));
        lemma_skip_left::<NavigationProperty, Key>(seq![v.key], properties + navigations);
        lemma_skip_left::<NavigationProperty, Property>(v.properties, navigations);
        lemma_decode_each_same::<NavigationProperty>(v.navigations);
        assert forall|i: int| 0 <= i < v.properties.len() implies Property::writable(
            #[trigger] v.properties[i],
        ) by {
            Property::lemma_round_trip(v.properties[i]);
        }
    }
}

/// Writes the two ends of an association or an association set.
fn push_ends(children: &mut Vec<Element>, ends: &[End; 2])
    ensures
        final(children).deep_view() == old(children).deep_view() + encode_each::<End>(
            ends.deep_view(),
        ),
{
    let ghost before = children.deep_view();
    push_child::<End>(children, &ends[0]);
    push_child::<End>(children, &ends[1]);
    assert(children.deep_view() =~= before + encode_each::<End>(ends.deep_view()));
}

impl ElementForm for Association {
    open spec fn spec_attributes(v: AssociationView) -> Seq<AttributeView> {
        Seq::empty().push(attribute(AttributeKind::Name, v.name))
    }

    open spec fn spec_children(v: AssociationView) -> Seq<ElementView> {
        encode_each::<End>(v.ends)
    }

    open spec fn writable(v: AssociationView) -> bool {
        true
    }

    open spec fn representable(v: AssociationView) -> bool {
        v.ends.len() == 2 && all_representable::<End>(v.ends)
    }

    open spec fn depth() -> nat {
        2
    }
}

impl ToElement for Association {
    fn is_representable(&self) -> (r: bool) {
        ends_are_representable(&self.ends)
    }

    fn to_element(&self) -> (r: Option<Element>) {
        let mut attributes = no_attributes();
        push_attribute(&mut attributes, AttributeKind::Name, self.name.clone());
        let mut children = no_children();
        push_ends(&mut children, &self.ends);
        assert(children.deep_view() =~= encode_each::<End>(self.ends.deep_view()));
        Some(new_element(ElementKind::Association, attributes, children))
    }

    proof fn lemma_depth(v: AssociationView) {
        lemma_each_fits::<End>(v.ends, 1);
    }

    proof fn lemma_round_trip(v: AssociationView) {
        broadcast use lemma_attribute_value_push;

        lemma_decode_each_same::<End>(v.ends);
    }
}

impl ElementForm for AssociationSet {
    open spec fn spec_attributes(v: AssociationSetView) -> Seq<AttributeView> {
        Seq::empty().push(attribute(AttributeKind::Name, v.name)).push(
            attribute(AttributeKind::Association, v.association),
        )
    }

    open spec fn spec_children(v: AssociationSetView) -> Seq<ElementView> {
        encode_each::<End>(v.ends)
    }

    open spec fn writable(v: AssociationSetView) -> bool {
        true
    }

    open spec fn representable(v: AssociationSetView) -> bool {
        v.ends.len() == 2 && all_representable::<End>(v.ends)
    }

    open spec fn depth() -> nat {
        2
    }
}

impl ToElement for AssociationSet {
    fn is_representable(&self) -> (r: bool) {
        ends_are_representable(&self.ends)
    }

    fn to_element(&self) -> (r: Option<Element>) {
        let mut attributes = no_attributes();
        push_attribute(&mut attributes, AttributeKind::Name, self.name.clone());
        push_attribute(&mut attributes, AttributeKind::Association, self.association.clone());
        let mut children = no_children();
        push_ends(&mut children, &self.ends);
        assert(children.deep_view() =~= encode_each::<End>(self.ends.deep_view()));
        Some(new_element(ElementKind::AssociationSet, attributes, children))
    }

    proof fn lemma_depth(v: AssociationSetView) {
        lemma_each_fits::<End>(v.ends, 1);
    }

    proof fn lemma_round_trip(v: AssociationSetView) {
        broadcast use lemma_attribute_value_push;

        lemma_attribute_names();
        lemma_decode_each_same::<End>(v.ends);
    }
}

impl ElementForm for EntityContainer {
    open spec fn spec_attributes(v: EntityContainerView) -> Seq<AttributeView> {
        Seq::empty().push(attribute(AttributeKind::Name, v.name))
    }

    open spec fn spec_children(v: EntityContainerView) -> Seq<ElementView> {
        encode_each::<EntitySet>(v.entity_sets) + encode_each::<AssociationSet>(
            v.association_sets,
        )
    }

    open spec fn writable(v: EntityContainerView) -> bool {
        true
    }

    open spec fn representable(v: EntityContainerView) -> bool {
        all_representable::<AssociationSet>(v.association_sets)
    }

    open spec fn depth() -> nat {
        3
    }
}

impl ToElement for EntityContainer {
    fn is_representable(&self) -> (r: bool) {
        all_items_representable::<AssociationSet>(&self.association_sets)
    }

    fn to_element(&self) -> (r: Option<Element>) {
        let mut attributes = no_attributes();
        push_attribute(&mut attributes, AttributeKind::Name, self.name.clone());
        let mut children = no_children();
        let sets = push_children::<EntitySet>(&mut children, &self.entity_sets);
        assert(sets);
        let associations = push_children::<AssociationSet>(&mut children, &self.association_sets);
        assert(associations);
        assert(children.deep_view() =~= encode_each::<EntitySet>(self.entity_sets.deep_view())
            + encode_each::<AssociationSet>(self.association_sets.deep_view()));
        Some(new_element(ElementKind::EntityContainer, attributes, children))
    }

    proof fn lemma_depth(v: EntityContainerView) {
        lemma_each_fits::<EntitySet>(v.entity_sets, 2);
        lemma_each_fits::<AssociationSet>(v.association_sets, 2);
        lemma_fits_add(
            encode_each::<EntitySet>(v.entity_sets),
            encode_each::<AssociationSet>(v.association_sets),
            2,
        );
    }

    proof fn lemma_round_trip(v: EntityContainerView) {
        broadcast use lemma_attribute_value_push;

        let sets = encode_each::<EntitySet>(v.entity_sets);
        let associations = encode_each::<AssociationSet>(v.association_sets);
        lemma_skip_right::<EntitySet, AssociationSet>(sets, v.association_sets);
        lemma_decode_each_same::<EntitySet>(v.entity_sets);
        lemma_skip_left::<AssociationSet, EntitySet>(v.entity_sets, associations);
        lemma_decode_each_same::<AssociationSet>(v.association_sets);
    }
}

impl ElementForm for Schema {
    open spec fn spec_attributes(v: SchemaView) -> Seq<AttributeView> {
        Seq::empty().push(attribute(AttributeKind::Namespace, v.namespace))
    }

    open spec fn spec_children(v: SchemaView) -> Seq<ElementView> {
        encode_each::<EntityType>(v.entities) + encode_each::<Association>(v.associations)
            + encode_each::<EntityContainer>(option_items(v.entity_container))
    }

    open spec fn writable(v: SchemaView) -> bool {
        all_writable::<EntityType>(v.entities)
    }

    open spec fn representable(v: SchemaView) -> bool {
        all_representable::<EntityType>(v.entities) && all_representable::<Association>(
            v.associations,
        ) && all_representable::<EntityContainer>(option_items(v.entity_container))
    }

    open spec fn depth() -> nat {
        4
    }
}

impl ToElement for Schema {
    fn is_representable(&self) -> (r: bool) {
        let container = match &self.entity_container {
            Some(container) => {
                let r = container.is_representable();
                proof {
                    let holder = option_items(self.entity_container.deep_view());
                    assert(holder[0] == container.deep_view());
                }
                r
            },
            None => true,
        };
        all_items_representable::<EntityType>(&self.entities) && all_items_representable::<
            Association,
        >(&self.associations) && container
    }

    fn to_element(&self) -> (r: Option<Element>) {
        let mut attributes = no_attributes();
        push_attribute(&mut attributes, AttributeKind::Namespace, self.namespace.clone());
        let mut children = no_children();
        if !push_children::<EntityType>(&mut children, &self.entities) {
            return None;
        }
        let associations = push_children::<Association>(&mut children, &self.associations);
        assert(associations);
        let ghost before = children.deep_view();
        match &self.entity_container {
            Some(container) => {
                let ok = push_child::<EntityContainer>(&mut children, container);
                assert(ok);
                assert(children.deep_view() =~= before + encode_each::<EntityContainer>(
                    option_items(self.entity_container.deep_view()),
                ));
            },
            None => {
                assert(children.deep_view() =~= before + encode_each::<EntityContainer>(
                    option_items(self.entity_container.deep_view()),
                ));
            },
        }
        Some(new_element(ElementKind::Schema, attributes, children))
    }

    proof fn lemma_depth(v: SchemaView) {
        let entities = encode_each::<EntityType>(v.entities);
        let associations = encode_each::<Association>(v.associations);
        let containers = encode_each::<EntityContainer>(option_items(v.entity_container));
        lemma_each_fits::<EntityType>(v.entities, 3);
        lemma_each_fits::<Association>(v.associations, 3);
        lemma_each_fits::<EntityContainer>(option_items(v.entity_container), 3);
        lemma_fits_add(entities, associations, 3);
        lemma_fits_add(entities + associations, containers, 3);
    }

    proof fn lemma_round_trip(v: SchemaView) {
        broadcast use lemma_attribute_value_push;

        let holder = option_items(v.entity_container);
        let entities = encode_each::<EntityType>(v.entities);
        let associations = encode_each::<Association>(v.associations);
        let containers = encode_each::<EntityContainer>(holder);
        lemma_skip_right::<EntityType, EntityContainer>(entities + associations, holder);
        lemma_skip_right::<EntityType, Association>(entities, v.associations);
        lemma_decode_each_same::<EntityType>(v.entities);
        lemma_skip_right::<Association, EntityContainer>(entities + associations, holder);
        lemma_skip_left::<Association, EntityType>(v.entities, associations);
        lemma_decode_each_same::<Association>(v.associations);
        assert(entities + associations + containers =~= entities + (associations + containers));
        lemma_skip_left::<EntityContainer, EntityType>(v.entities, associations + containers);
        lemma_skip_left::<EntityContainer, Association>(v.associations, containers);
        lemma_decode_each_same::<EntityContainer>(holder);
        assert forall|i: int| 0 <= i < v.entities.len() implies EntityType::writable(
            #[trigger] v.entities[i],
        ) by {
            EntityType::lemma_round_trip(v.entities[i]);
        }
    }
}

impl ElementForm for DataServices {
    open spec fn spec_attributes(v: DataServicesView) -> Seq<AttributeView> {
        Seq::empty()
    }

    open spec fn spec_children(v: DataServicesView) -> Seq<ElementView> {
        encode_each::<Schema>(v.schemas)
    }

    open spec fn writable(v: DataServicesView) -> bool {
        all_writable::<Schema>(v.schemas)
    }

    open spec fn representable(v: DataServicesView) -> bool {
        all_representable::<Schema>(v.schemas)
    }

    open spec fn depth() -> nat {
        5
    }
}

impl ToElement for DataServices {
    fn is_representable(&self) -> (r: bool) {
        all_items_representable::<Schema>(&self.schemas)
    }

    fn to_element(&self) -> (r: Option<Element>) {
        let mut children = no_children();
        if !push_children::<Schema>(&mut children, &self.schemas) {
            return None;
        }
        assert(children.deep_view() =~= encode_each::<Schema>(self.schemas.deep_view()));
        Some(new_element(ElementKind::DataServices, no_attributes(), children))
    }

    proof fn lemma_depth(v: DataServicesView) {
        lemma_each_fits::<Schema>(v.schemas, 4);
    }

    proof fn lemma_round_trip(v: DataServicesView) {
        lemma_decode_each_same::<Schema>(v.schemas);
        assert forall|i: int| 0 <= i < v.schemas.len() implies Schema::writable(
            #[trigger] v.schemas[i],
        ) by {
            Schema::lemma_round_trip(v.schemas[i]);
        }
    }
}

impl ElementForm for Edmx {
    open spec fn spec_attributes(v: EdmxView) -> Seq<AttributeView> {
        Seq::empty().push(attribute(AttributeKind::Version, v.version.spec_literal()))
    }

    open spec fn spec_children(v: EdmxView) -> Seq<ElementView> {
        encode_each::<DataServices>(seq![v.data_services])
    }

    open spec fn writable(v: EdmxView) -> bool {
        DataServices::writable(v.data_services)
    }

    open spec fn representable(v: EdmxView) -> bool {
        DataServices::representable(v.data_services)
    }

    open spec fn depth() -> nat {
        6
    }
}

impl ToElement for Edmx {
    fn is_representable(&self) -> (r: bool) {
        self.data_services.is_representable()
    }

    fn to_element(&self) -> (r: Option<Element>) {
        let mut attributes = no_attributes();
        push_attribute(
            &mut attributes,
            AttributeKind::Version,
            String::from_str(self.version.literal()),
        );
        let mut children = no_children();
        if !push_child::<DataServices>(&mut children, &self.data_services) {
            return None;
        }
        assert(children.deep_view() =~= encode_each::<DataServices>(
            seq![self.data_services.deep_view()],
        ));
        Some(new_element(ElementKind::Edmx, attributes, children))
    }

    proof fn lemma_depth(v: EdmxView) {
        lemma_each_fits::<DataServices>(seq![v.data_services], 5);
    }

    proof fn lemma_round_trip(v: EdmxView) {
        broadcast use lemma_attribute_value_push;

        lemma_decode_each_same::<DataServices>(seq![v.data_services]);
        DataServices::lemma_round_trip(v.data_services);
    }
}

} // verus!
