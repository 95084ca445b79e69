//! From elements to the model: what each element of a metadata document
//! must look like, and what it stands for.
//!
//! An element is read by its attributes and by its children of the kinds it
//! knows; what else it holds is passed over. An optional attribute that is
//! present but empty counts as absent. Where several things are wrong, the
//! error is that of the first field of the model that cannot be filled,
//! and within a list that of the first element that fails.

use std::str::FromStr;
use vstd::prelude::*;

use crate::error::{AttributeKind, ElementKind, ParseError};
use crate::lexical::{
    bool_value, i16_value, parse_bool, parse_i16, parse_u32, parse_u8, u32_value, u8_value,
};
use crate::literal::{float_literal_value, parse_float_literal, FloatLiteral};
use crate::model::{
    default_true, Association, AssociationSet, AssociationSetView, AssociationView, DataServices,
    DataServicesView, Edm, Edmx, EdmxVersion, EdmxView, End, EndView, EntityContainer,
    EntityContainerView, EntitySet, EntitySetView, EntityType, EntityTypeView, Key, KeyView,
    NavigationProperty, NavigationPropertyView, Property, PropertyRef, PropertyRefView,
    PropertyType, PropertyTypeView, PropertyView, Schema, SchemaView,
};
use crate::text::{first_position, lemma_first_position_is, lemma_first_position_none, same_text};
use crate::timestamp::{naive_datetime_of, read_naive_datetime, NaiveTimestamp};
use crate::tree::{build_forest, forest_of, lemma_children_view, Element, ElementView};
use crate::words::{byte_list_value, offset_value, parse_byte_list, parse_offset, Offset};
use crate::xml::{document_tokens, tokenize, AttributeView, Token, TokenView};

verus! {

/// What a result is, apart from how its value is stored.
pub open spec fn result_view<T: DeepView>(r: Result<T, ParseError>) -> Result<T::V, ParseError> {
    match r {
        Ok(value) => Ok(value.deep_view()),
        Err(error) => Err(error),
    }
}

/// Holds of the attributes called `name`.
pub open spec fn has_name(name: Seq<char>) -> spec_fn(AttributeView) -> bool {
    |a: AttributeView| a.name == name
}

/// The value of the first attribute called `name`.
pub open spec fn attribute_value(attributes: Seq<AttributeView>, name: Seq<char>) -> Option<
    Seq<char>,
> {
    match first_position(attributes, has_name(name), 0) {
        Some(i) => Some(attributes[i].value),
        None => None,
    }
}

/// The value of the first attribute called `name`, unless it is empty.
pub open spec fn optional_value(attributes: Seq<AttributeView>, name: Seq<char>) -> Option<
    Seq<char>,
> {
    match attribute_value(attributes, name) {
        Some(value) => if value.len() > 0 {
            Some(value)
        } else {
            None
        },
        None => None,
    }
}

/// The value of an attribute that the element must have.
pub open spec fn required(e: ElementView, element: ElementKind, attribute: AttributeKind) -> Result<
    Seq<char>,
    ParseError,
> {
    match attribute_value(e.attributes, attribute.spec_name()) {
        Some(value) => Ok(value),
        None => Err(ParseError::MissingAttribute { element, attribute }),
    }
}

/// An optional attribute of a property, read by `read`: absent, or of the
/// right form, or an error.
pub open spec fn facet<T>(
    e: ElementView,
    attribute: AttributeKind,
    read: spec_fn(Seq<char>) -> Option<T>,
) -> Result<Option<T>, ParseError> {
    match optional_value(e.attributes, attribute.spec_name()) {
        None => Ok(None),
        Some(text) => match read(text) {
            Some(value) => Ok(Some(value)),
            None => Err(
                ParseError::InvalidAttribute { element: ElementKind::Property, attribute },
            ),
        },
    }
}

/// An optional facet that is a number of eight bits.
pub open spec fn facet_u8(e: ElementView, attribute: AttributeKind) -> Result<
    Option<u8>,
    ParseError,
> {
    facet(e, attribute, |text: Seq<char>| u8_value(text))
}

/// An optional facet that is a number of thirty-two bits.
pub open spec fn facet_u32(e: ElementView, attribute: AttributeKind) -> Result<
    Option<u32>,
    ParseError,
> {
    facet(e, attribute, |text: Seq<char>| u32_value(text))
}

/// An optional facet that is a signed number of sixteen bits.
pub open spec fn facet_i16(e: ElementView, attribute: AttributeKind) -> Result<
    Option<i16>,
    ParseError,
> {
    facet(e, attribute, |text: Seq<char>| i16_value(text))
}

/// An optional facet that is a boolean.
pub open spec fn facet_bool(e: ElementView, attribute: AttributeKind) -> Result<
    Option<bool>,
    ParseError,
> {
    facet(e, attribute, |text: Seq<char>| bool_value(text))
}

/// An optional facet that is a run of bytes.
pub open spec fn facet_bytes(e: ElementView, attribute: AttributeKind) -> Result<
    Option<Seq<u8>>,
    ParseError,
> {
    facet(e, attribute, |text: Seq<char>| byte_list_value(text))
}

/// An optional facet that is a timestamp.
pub open spec fn facet_timestamp(e: ElementView, attribute: AttributeKind) -> Result<
    Option<NaiveTimestamp>,
    ParseError,
> {
    facet(e, attribute, |text: Seq<char>| naive_datetime_of(text))
}

/// An optional facet that is an offset.
pub open spec fn facet_offset(e: ElementView, attribute: AttributeKind) -> Result<
    Option<Offset>,
    ParseError,
> {
    facet(e, attribute, |text: Seq<char>| offset_value(text))
}

/// An optional facet that is a decimal fraction.
pub open spec fn facet_literal(e: ElementView, attribute: AttributeKind) -> Result<
    Option<Seq<char>>,
    ParseError,
> {
    facet(e, attribute, |text: Seq<char>| float_literal_value(text))
}

/// A type of the model that one kind of element stands for.
pub trait FromElement: Sized + DeepView {
    /// The kind of element that stands for a value of this type.
    spec fn kind() -> ElementKind;

    /// What the element `e` stands for, or why it stands for nothing.
    spec fn spec_from_element(e: ElementView) -> Result<<Self as DeepView>::V, ParseError>;

    fn element_kind() -> (r: ElementKind)
        ensures
            r == Self::kind(),
    ;

    fn from_element(e: &Element) -> (r: Result<Self, ParseError>)
        ensures
            result_view(r) == Self::spec_from_element(e.deep_view()),
    ;
}

/// What those of `children` that are of `T`'s kind stand for, in order; the
/// error of the first of them that fails.
pub open spec fn decode_each<T: FromElement>(children: Seq<ElementView>) -> Result<
    Seq<<T as DeepView>::V>,
    ParseError,
>
    decreases children.len(),
{
    if children.len() == 0 {
        Ok(Seq::empty())
    } else {
        match decode_each::<T>(children.drop_last()) {
            Err(error) => Err(error),
            Ok(items) => if children.last().name == T::kind().spec_tag() {
                match T::spec_from_element(children.last()) {
                    Ok(item) => Ok(items.push(item)),
                    Err(error) => Err(error),
                }
            } else {
                Ok(items)
            },
        }
    }
}

/// What the one child of `T`'s kind stands for.
pub open spec fn decode_one<T: FromElement>(children: Seq<ElementView>, parent: ElementKind) -> Result<
    <T as DeepView>::V,
    ParseError,
> {
    match decode_each::<T>(children) {
        Err(error) => Err(error),
        Ok(items) => if items.len() == 0 {
            Err(ParseError::MissingChild { parent, child: T::kind() })
        } else if items.len() > 1 {
            Err(ParseError::DuplicateChild { parent, child: T::kind() })
        } else {
            Ok(items[0])
        },
    }
}

/// What the child of `T`'s kind stands for, if there is one.
pub open spec fn decode_optional<T: FromElement>(
    children: Seq<ElementView>,
    parent: ElementKind,
) -> Result<Option<<T as DeepView>::V>, ParseError> {
    match decode_each::<T>(children) {
        Err(error) => Err(error),
        Ok(items) => if items.len() == 0 {
            Ok(None)
        } else if items.len() > 1 {
            Err(ParseError::DuplicateChild { parent, child: T::kind() })
        } else {
            Ok(Some(items[0]))
        },
    }
}

/// The two ends of an association or an association set.
pub open spec fn decode_ends(children: Seq<ElementView>, parent: ElementKind) -> Result<
    Seq<EndView>,
    ParseError,
> {
    match decode_each::<End>(children) {
        Err(error) => Err(error),
        Ok(items) => if items.len() == 2 {
            Ok(items)
        } else {
            Err(ParseError::EndCount { parent })
        },
    }
}

/// The error of a part is the error of the whole.
pub proof fn lemma_decode_each_prefix<T: FromElement>(children: Seq<ElementView>, i: int)
    requires
        0 <= i <= children.len(),
        decode_each::<T>(children.take(i)) is Err,
    ensures
        decode_each::<T>(children) == decode_each::<T>(children.take(i)),
    decreases children.len(),
{
    if i < children.len() {
        assert(children.drop_last().take(i) =~= children.take(i));
        lemma_decode_each_prefix::<T>(children.drop_last(), i);
    } else {
        assert(children.take(i) =~= children);
    }
}

/// The first attribute of `e` that is of the kind `attribute`.
pub fn find_attribute<'a>(e: &'a Element, attribute: AttributeKind) -> (r: Option<&'a String>)
    ensures
        r.deep_view() == attribute_value(e.deep_view().attributes, attribute.spec_name()),
{
    let name = attribute.name();
    let ghost attributes = e.deep_view().attributes;
    let mut i: usize = 0;
    while i < e.attributes.len()
        invariant
            i <= e.attributes.len(),
            name@ == attribute.spec_name(),
            attributes == e.attributes.deep_view(),
            forall|j: int| 0 <= j < i ==> !has_name(name@)(#[trigger] attributes[j]),
        decreases e.attributes.len() - i,
    {
        if same_text(e.attributes[i].name.as_str(), name) {
            proof {
                lemma_first_position_is(attributes, has_name(name@), 0, i as int);
            }
            return Some(&e.attributes[i].value);
        }
        i += 1;
    }
    proof {
        lemma_first_position_none(attributes, has_name(name@), 0);
    }
    None
}

/// The first attribute of `e` that is of the kind `attribute`, unless it is empty.
pub fn find_optional<'a>(e: &'a Element, attribute: AttributeKind) -> (r: Option<&'a String>)
    ensures
        r.deep_view() == optional_value(e.deep_view().attributes, attribute.spec_name()),
{
    match find_attribute(e, attribute) {
        Some(value) => if value.as_str().is_empty() {
            None
        } else {
            Some(value)
        },
        None => None,
    }
}

fn read_required(e: &Element, element: ElementKind, attribute: AttributeKind) -> (r: Result<
    String,
    ParseError,
>)
    ensures
        result_view(r) == required(e.deep_view(), element, attribute),
{
    match find_attribute(e, attribute) {
        Some(value) => Ok(value.clone()),
        None => Err(ParseError::MissingAttribute { element, attribute }),
    }
}

fn read_optional(e: &Element, attribute: AttributeKind) -> (r: Option<String>)
    ensures
        r.deep_view() == optional_value(e.deep_view().attributes, attribute.spec_name()),
{
    match find_optional(e, attribute) {
        Some(value) => Some(value.clone()),
        None => None,
    }
}

fn read_u8(e: &Element, attribute: AttributeKind) -> (r: Result<Option<u8>, ParseError>)
    ensures
        r == facet_u8(e.deep_view(), attribute),
{
    match find_optional(e, attribute) {
        None => Ok(None),
        Some(text) => match parse_u8(text.as_str()) {
            Some(value) => Ok(Some(value)),
            None => Err(
                ParseError::InvalidAttribute { element: ElementKind::Property, attribute },
            ),
        },
    }
}

fn read_u32(e: &Element, attribute: AttributeKind) -> (r: Result<Option<u32>, ParseError>)
    ensures
        r == facet_u32(e.deep_view(), attribute),
{
    match find_optional(e, attribute) {
        None => Ok(None),
        Some(text) => match parse_u32(text.as_str()) {
            Some(value) => Ok(Some(value)),
            None => Err(
                ParseError::InvalidAttribute { element: ElementKind::Property, attribute },
            ),
        },
    }
}

fn read_i16(e: &Element, attribute: AttributeKind) -> (r: Result<Option<i16>, ParseError>)
    ensures
        r == facet_i16(e.deep_view(), attribute),
{
    match find_optional(e, attribute) {
        None => Ok(None),
        Some(text) => match parse_i16(text.as_str()) {
            Some(value) => Ok(Some(value)),
            None => Err(
                ParseError::InvalidAttribute { element: ElementKind::Property, attribute },
            ),
        },
    }
}

fn read_bool(e: &Element, attribute: AttributeKind) -> (r: Result<Option<bool>, ParseError>)
    ensures
        r == facet_bool(e.deep_view(), attribute),
{
    match find_optional(e, attribute) {
        None => Ok(None),
        Some(text) => match parse_bool(text.as_str()) {
            Some(value) => Ok(Some(value)),
            None => Err(
                ParseError::InvalidAttribute { element: ElementKind::Property, attribute },
            ),
        },
    }
}

fn read_bytes(e: &Element, attribute: AttributeKind) -> (r: Result<Option<Vec<u8>>, ParseError>)
    ensures
        result_view(r) == facet_bytes(e.deep_view(), attribute),
{
    match find_optional(e, attribute) {
        None => Ok(None),
        Some(text) => match parse_byte_list(text.as_str()) {
            Some(value) => Ok(Some(value)),
            None => Err(
                ParseError::InvalidAttribute { element: ElementKind::Property, attribute },
            ),
        },
    }
}

fn read_timestamp(e: &Element, attribute: AttributeKind) -> (r: Result<
    Option<NaiveTimestamp>,
    ParseError,
>)
    ensures
        r == facet_timestamp(e.deep_view(), attribute),
{
    match find_optional(e, attribute) {
        None => Ok(None),
        Some(text) => match read_naive_datetime(text.as_str()) {
            Some(value) => Ok(Some(value)),
            None => Err(
                ParseError::InvalidAttribute { element: ElementKind::Property, attribute },
            ),
        },
    }
}

fn read_offset(e: &Element, attribute: AttributeKind) -> (r: Result<Option<Offset>, ParseError>)
    ensures
        r == facet_offset(e.deep_view(), attribute),
{
    match find_optional(e, attribute) {
        None => Ok(None),
        Some(text) => match parse_offset(text.as_str()) {
            Some(value) => Ok(Some(value)),
            None => Err(
                ParseError::InvalidAttribute { element: ElementKind::Property, attribute },
            ),
        },
    }
}

fn read_literal(e: &Element, attribute: AttributeKind) -> (r: Result<
    Option<FloatLiteral>,
    ParseError,
>)
    ensures
        result_view(r) == facet_literal(e.deep_view(), attribute),
{
    match find_optional(e, attribute) {
        None => Ok(None),
        Some(text) => match parse_float_literal(text.as_str()) {
            Some(value) => Ok(Some(value)),
            None => Err(
                ParseError::InvalidAttribute { element: ElementKind::Property, attribute },
            ),
        },
    }
}

/// Reads the children of `e` that are of `T`'s kind.
pub fn decode_children<T: FromElement>(e: &Element) -> (r: Result<Vec<T>, ParseError>)
    ensures
        result_view(r) == decode_each::<T>(e.deep_view().children),
{
    let tag = T::element_kind().tag();
    let ghost children = e.deep_view().children;
    proof {
        lemma_children_view(e);
    }
    let mut items: Vec<T> = Vec::new();
    let mut i: usize = 0;
    assert(children.take(0) =~= Seq::<ElementView>::empty());
    assert(items.deep_view() =~= Seq::<<T as DeepView>::V>::empty());
    while i < e.children.len()
        invariant
            i <= e.children.len(),
            tag@ == T::kind().spec_tag(),
            children == e.children.deep_view(),
            children == e.deep_view().children,
            decode_each::<T>(children.take(i as int)) == Ok::<_, ParseError>(items.deep_view()),
        decreases e.children.len() - i,
    {
        let child = &e.children[i];
        proof {
            assert(children.take(i + 1).drop_last() =~= children.take(i as int));
            assert(children.take(i + 1).last() == child.deep_view());
        }
        if same_text(child.name.as_str(), tag) {
            match T::from_element(child) {
                Ok(item) => {
                    let ghost before = items.deep_view();
                    let ghost view = item.deep_view();
                    items.push(item);
                    assert(items.deep_view() =~= before.push(view));
                },
                Err(error) => {
                    proof {
                        assert(T::spec_from_element(children.take(i + 1).last()) == Err::<
                            <T as DeepView>::V,
                            ParseError,
                        >(error));
                        assert(decode_each::<T>(children.take(i + 1)) == Err::<
                            Seq<<T as DeepView>::V>,
                            ParseError,
                        >(error));
                        lemma_decode_each_prefix::<T>(children, i + 1);
                    }
                    return Err(error);
                },
            }
        }
        i += 1;
    }
    assert(children.take(i as int) =~= children);
    Ok(items)
}

/// Reads the one child of `e` that is of `T`'s kind.
pub fn decode_child<T: FromElement>(e: &Element, parent: ElementKind) -> (r: Result<T, ParseError>)
    ensures
        result_view(r) == decode_one::<T>(e.deep_view().children, parent),
{
    let mut items = decode_children::<T>(e)?;
    if items.len() == 0 {
        Err(ParseError::MissingChild { parent, child: T::element_kind() })
    } else if items.len() > 1 {
        Err(ParseError::DuplicateChild { parent, child: T::element_kind() })
    } else {
        Ok(items.pop().unwrap())
    }
}

/// Reads the child of `e` that is of `T`'s kind, if `e` has one.
pub fn decode_optional_child<T: FromElement>(e: &Element, parent: ElementKind) -> (r: Result<
    Option<T>,
    ParseError,
>)
    ensures
        result_view(r) == decode_optional::<T>(e.deep_view().children, parent),
{
    let mut items = decode_children::<T>(e)?;
    if items.len() == 0 {
        Ok(None)
    } else if items.len() > 1 {
        Err(ParseError::DuplicateChild { parent, child: T::element_kind() })
    } else {
        Ok(Some(items.pop().unwrap()))
    }
}

/// Reads the two ends of an association or an association set.
pub fn decode_two_ends(e: &Element, parent: ElementKind) -> (r: Result<[End; 2], ParseError>)
    ensures
        result_view(r) == decode_ends(e.deep_view().children, parent),
{
    let mut items = decode_children::<End>(e)?;
    if items.len() == 2 {
        let ghost all = items.deep_view();
        let second = items.pop().unwrap();
        let first = items.pop().unwrap();
        let ends = [first, second];
        assert(ends.deep_view() =~= all);
        Ok(ends)
    } else {
        Err(ParseError::EndCount { parent })
    }
}

impl FromElement for PropertyRef {
    open spec fn kind() -> ElementKind {
        ElementKind::PropertyRef
    }

    open spec fn spec_from_element(e: ElementView) -> Result<PropertyRefView, ParseError> {
        match required(e, ElementKind::PropertyRef, AttributeKind::Name) {
            Err(error) => Err(error),
            Ok(name) => Ok(PropertyRefView { name }),
        }
    }

    fn element_kind() -> (r: ElementKind) {
        ElementKind::PropertyRef
    }

    fn from_element(e: &Element) -> (r: Result<PropertyRef, ParseError>) {
        let name = read_required(e, ElementKind::PropertyRef, AttributeKind::Name)?;
        Ok(PropertyRef { name })
    }
}

impl FromElement for Key {
    open spec fn kind() -> ElementKind {
        ElementKind::Key
    }

    open spec fn spec_from_element(e: ElementView) -> Result<KeyView, ParseError> {
        match decode_one::<PropertyRef>(e.children, ElementKind::Key) {
            Err(error) => Err(error),
            Ok(property_ref) => Ok(KeyView { property_ref }),
        }
    }

    fn element_kind() -> (r: ElementKind) {
        ElementKind::Key
    }

    fn from_element(e: &Element) -> (r: Result<Key, ParseError>) {
        let property_ref = decode_child::<PropertyRef>(e, ElementKind::Key)?;
        Ok(Key { property_ref })
    }
}

/// The facets of a property of the kind `kind`, from the attributes of `e`.
/// A facet that the kind does not have is not looked at.
pub open spec fn spec_property_type(e: ElementView, kind: Edm) -> Result<
    PropertyTypeView,
    ParseError,
> {
    match kind {
        Edm::Binary => match facet_u32(e, AttributeKind::MaxLength) {
            Err(error) => Err(error),
            Ok(max_length) => match facet_u32(e, AttributeKind::FixedLength) {
                Err(error) => Err(error),
                Ok(fixed_length) => match facet_bytes(e, AttributeKind::Default) {
                    Err(error) => Err(error),
                    Ok(default) => Ok(
                        PropertyTypeView::Binary { max_length, fixed_length, default },
                    ),
                },
            },
        },
        Edm::Boolean => match facet_bool(e, AttributeKind::Default) {
            Err(error) => Err(error),
            Ok(default) => Ok(PropertyTypeView::Boolean { default }),
        },
        Edm::Byte => match facet_u8(e, AttributeKind::Precision) {
            Err(error) => Err(error),
            Ok(precision) => match facet_bytes(e, AttributeKind::Default) {
                Err(error) => Err(error),
                Ok(default) => Ok(PropertyTypeView::Byte { precision, default }),
            },
        },
        Edm::DateTime => match facet_u8(e, AttributeKind::Precision) {
            Err(error) => Err(error),
            Ok(precision) => match facet_timestamp(e, AttributeKind::Default) {
                Err(error) => Err(error),
                Ok(default) => Ok(PropertyTypeView::DateTime { precision, default }),
            },
        },
        Edm::DateTimeOffset => match facet_u8(e, AttributeKind::Precision) {
            Err(error) => Err(error),
            Ok(precision) => match facet_offset(e, AttributeKind::Default) {
                Err(error) => Err(error),
                Ok(default) => Ok(PropertyTypeView::DateTimeOffset { precision, default }),
            },
        },
        Edm::Decimal => match facet_u8(e, AttributeKind::Precision) {
            Err(error) => Err(error),
            Ok(precision) => match facet_literal(e, AttributeKind::Default) {
                Err(error) => Err(error),
                Ok(default) => Ok(PropertyTypeView::Decimal { precision, default }),
            },
        },
        Edm::Double => match facet_u8(e, AttributeKind::Precision) {
            Err(error) => Err(error),
            Ok(precision) => match facet_literal(e, AttributeKind::Default) {
                Err(error) => Err(error),
                Ok(default) => Ok(PropertyTypeView::Double { precision, default }),
            },
        },
        Edm::Int16 => match facet_u8(e, AttributeKind::Precision) {
            Err(error) => Err(error),
            Ok(precision) => match facet_i16(e, AttributeKind::Default) {
                Err(error) => Err(error),
                Ok(default) => Ok(PropertyTypeView::Int16 { precision, default }),
            },
        },
        Edm::Int32 => match facet_u8(e, AttributeKind::Precision) {
            Err(error) => Err(error),
            Ok(precision) => match facet_bytes(e, AttributeKind::Default) {
                Err(error) => Err(error),
                Ok(default) => Ok(PropertyTypeView::Int32 { precision, default }),
            },
        },
        Edm::String => match facet_u8(e, AttributeKind::Precision) {
            Err(error) => Err(error),
            Ok(precision) => match facet_u32(e, AttributeKind::MaxLength) {
                Err(error) => Err(error),
                Ok(max_length) => match facet_u32(e, AttributeKind::FixedLength) {
                    Err(error) => Err(error),
                    Ok(fixed_length) => Ok(
                        PropertyTypeView::String { precision, max_length, fixed_length },
                    ),
                },
            },
        },
    }
}

/// Reads the facets of a property of the kind `kind`.
pub fn read_property_type(e: &Element, kind: Edm) -> (r: Result<PropertyType, ParseError>)
    ensures
        result_view(r) == spec_property_type(e.deep_view(), kind),
{
    match kind {
        Edm::Binary => {
            let max_length = read_u32(e, AttributeKind::MaxLength)?;
            let fixed_length = read_u32(e, AttributeKind::FixedLength)?;
            let default = read_bytes(e, AttributeKind::Default)?;
            Ok(PropertyType::Binary { max_length, fixed_length, default })
        },
        Edm::Boolean => {
            let default = read_bool(e, AttributeKind::Default)?;
            Ok(PropertyType::Boolean { default })
        },
        Edm::Byte => {
            let precision = read_u8(e, AttributeKind::Precision)?;
            let default = read_bytes(e, AttributeKind::Default)?;
            Ok(PropertyType::Byte { precision, default })
        },
        Edm::DateTime => {
            let precision = read_u8(e, AttributeKind::Precision)?;
            let default = read_timestamp(e, AttributeKind::Default)?;
            Ok(PropertyType::DateTime { precision, default })
        },
        Edm::DateTimeOffset => {
            let precision = read_u8(e, AttributeKind::Precision)?;
            let default = read_offset(e, AttributeKind::Default)?;
            Ok(PropertyType::DateTimeOffset { precision, default })
        },
        Edm::Decimal => {
            let precision = read_u8(e, AttributeKind::Precision)?;
            let default = read_literal(e, AttributeKind::Default)?;
            Ok(PropertyType::Decimal { precision, default })
        },
        Edm::Double => {
            let precision = read_u8(e, AttributeKind::Precision)?;
            let default = read_literal(e, AttributeKind::Default)?;
            Ok(PropertyType::Double { precision, default })
        },
        Edm::Int16 => {
            let precision = read_u8(e, AttributeKind::Precision)?;
            let default = read_i16(e, AttributeKind::Default)?;
            Ok(PropertyType::Int16 { precision, default })
        },
        Edm::Int32 => {
            let precision = read_u8(e, AttributeKind::Precision)?;
            let default = read_bytes(e, AttributeKind::Default)?;
            Ok(PropertyType::Int32 { precision, default })
        },
        Edm::String => {
            let precision = read_u8(e, AttributeKind::Precision)?;
            let max_length = read_u32(e, AttributeKind::MaxLength)?;
            let fixed_length = read_u32(e, AttributeKind::FixedLength)?;
            Ok(PropertyType::String { precision, max_length, fixed_length })
        },
    }
}

impl FromElement for Property {
    open spec fn kind() -> ElementKind {
        ElementKind::Property
    }

    /// A property has a name and a type; its type is one of the ten
    /// literals; it may be absent unless a `Nullable` marker says otherwise.
    open spec fn spec_from_element(e: ElementView) -> Result<PropertyView, ParseError> {
        match required(e, ElementKind::Property, AttributeKind::Name) {
            Err(error) => Err(error),
            Ok(name) => match required(e, ElementKind::Property, AttributeKind::Type) {
                Err(error) => Err(error),
                Ok(literal) => match Edm::spec_from_literal(literal) {
                    None => Err(ParseError::UnknownType),
                    Some(kind) => match spec_property_type(e, kind) {
                        Err(error) => Err(error),
                        Ok(inner) => match facet_bool(e, AttributeKind::Nullable) {
                            Err(error) => Err(error),
                            Ok(Some(nullable)) => Ok(PropertyView { name, inner, nullable }),
                            Ok(None) => Ok(PropertyView { name, inner, nullable: true }),
                        },
                    },
                },
            },
        }
    }

    fn element_kind() -> (r: ElementKind) {
        ElementKind::Property
    }

    fn from_element(e: &Element) -> (r: Result<Property, ParseError>) {
        let name = read_required(e, ElementKind::Property, AttributeKind::Name)?;
        let literal = read_required(e, ElementKind::Property, AttributeKind::Type)?;
        let kind = match Edm::from_literal(literal.as_str()) {
            Some(kind) => kind,
            None => {
                return Err(ParseError::UnknownType);
            },
        };
        let inner = read_property_type(e, kind)?;
        let nullable = match read_bool(e, AttributeKind::Nullable)? {
            Some(nullable) => nullable,
            None => default_true(),
        };
        Ok(Property { name, inner, nullable })
    }
}

impl FromElement for NavigationProperty {
    open spec fn kind() -> ElementKind {
        ElementKind::NavigationProperty
    }

    open spec fn spec_from_element(e: ElementView) -> Result<NavigationPropertyView, ParseError> {
        match required(e, ElementKind::NavigationProperty, AttributeKind::Name) {
            Err(error) => Err(error),
            Ok(name) => match required(
                e,
                ElementKind::NavigationProperty,
                AttributeKind::Relationship,
            ) {
                Err(error) => Err(error),
                Ok(relationship) => match required(
                    e,
                    ElementKind::NavigationProperty,
                    AttributeKind::ToRole,
                ) {
                    Err(error) => Err(error),
                    Ok(to_role) => match required(
                        e,
                        ElementKind::NavigationProperty,
                        AttributeKind::FromRole,
                    ) {
                        Err(error) => Err(error),
                        Ok(from_role) => Ok(
                            NavigationPropertyView { name, relationship, to_role, from_role },
                        ),
                    },
                },
            },
        }
    }

    fn element_kind() -> (r: ElementKind) {
        ElementKind::NavigationProperty
    }

    fn from_element(e: &Element) -> (r: Result<NavigationProperty, ParseError>) {
        let name = read_required(e, ElementKind::NavigationProperty, AttributeKind::Name)?;
        let relationship = read_required(
            e,
            ElementKind::NavigationProperty,
            AttributeKind::Relationship,
        )?;
        let to_role = read_required(e, ElementKind::NavigationProperty, AttributeKind::ToRole)?;
        let from_role = read_required(e, ElementKind::NavigationProperty, AttributeKind::FromRole)?;
        Ok(NavigationProperty { name, relationship, to_role, from_role })
    }
}

impl FromElement for EntityType {
    open spec fn kind() -> ElementKind {
        ElementKind::EntityType
    }

    open spec fn spec_from_element(e: ElementView) -> Result<EntityTypeView, ParseError> {
        match required(e, ElementKind::EntityType, AttributeKind::Name) {
            Err(error) => Err(error),
            Ok(name) => match decode_one::<Key>(e.children, ElementKind::EntityType) {
                Err(error) => Err(error),
                Ok(key) => match decode_each::<Property>(e.children) {
                    Err(error) => Err(error),
                    Ok(properties) => match decode_each::<NavigationProperty>(e.children) {
                        Err(error) => Err(error),
                        Ok(navigations) => Ok(
                            EntityTypeView { name, key, properties, navigations },
                        ),
                    },
                },
            },
        }
    }

    fn element_kind() -> (r: ElementKind) {
        ElementKind::EntityType
    }

    fn from_element(e: &Element) -> (r: Result<EntityType, ParseError>) {
        let name = read_required(e, ElementKind::EntityType, AttributeKind::Name)?;
        let key = decode_child::<Key>(e, ElementKind::EntityType)?;
        let properties = decode_children::<Property>(e)?;
        let navigations = decode_children::<NavigationProperty>(e)?;
        Ok(EntityType { name, key, properties, navigations })
    }
}

impl FromElement for End {
    open spec fn kind() -> ElementKind {
        ElementKind::End
    }

    open spec fn spec_from_element(e: ElementView) -> Result<EndView, ParseError> {
        Ok(
            EndView {
                role: optional_value(e.attributes, AttributeKind::Role.spec_name()),
                entity_set: optional_value(e.attributes, AttributeKind::EntitySet.spec_name()),
                entity_type: optional_value(e.attributes, AttributeKind::Type.spec_name()),
                multiplicity: optional_value(
                    e.attributes,
                    AttributeKind::Multiplicity.spec_name(),
                ),
            },
        )
    }

    fn element_kind() -> (r: ElementKind) {
        ElementKind::End
    }

    fn from_element(e: &Element) -> (r: Result<End, ParseError>) {
        let role = read_optional(e, AttributeKind::Role);
        let entity_set = read_optional(e, AttributeKind::EntitySet);
        let entity_type = read_optional(e, AttributeKind::Type);
        let multiplicity = read_optional(e, AttributeKind::Multiplicity);
        Ok(End { role, entity_set, entity_type, multiplicity })
    }
}

impl FromElement for Association {
    open spec fn kind() -> ElementKind {
        ElementKind::Association
    }

    open spec fn spec_from_element(e: ElementView) -> Result<AssociationView, ParseError> {
        match required(e, ElementKind::Association, AttributeKind::Name) {
            Err(error) => Err(error),
            Ok(name) => match decode_ends(e.children, ElementKind::Association) {
                Err(error) => Err(error),
                Ok(ends) => Ok(AssociationView { name, ends }),
            },
        }
    }

    fn element_kind() -> (r: ElementKind) {
        ElementKind::Association
    }

    fn from_element(e: &Element) -> (r: Result<Association, ParseError>) {
        let name = read_required(e, ElementKind::Association, AttributeKind::Name)?;
        let ends = decode_two_ends(e, ElementKind::Association)?;
        Ok(Association { name, ends })
    }
}

impl FromElement for AssociationSet {
    open spec fn kind() -> ElementKind {
        ElementKind::AssociationSet
    }

    open spec fn spec_from_element(e: ElementView) -> Result<AssociationSetView, ParseError> {
        match required(e, ElementKind::AssociationSet, AttributeKind::Name) {
            Err(error) => Err(error),
            Ok(name) => match required(e, ElementKind::AssociationSet, AttributeKind::Association) {
                Err(error) => Err(error),
                Ok(association) => match decode_ends(e.children, ElementKind::AssociationSet) {
                    Err(error) => Err(error),
                    Ok(ends) => Ok(AssociationSetView { name, association, ends }),
                },
            },
        }
    }

    fn element_kind() -> (r: ElementKind) {
        ElementKind::AssociationSet
    }

    fn from_element(e: &Element) -> (r: Result<AssociationSet, ParseError>) {
        let name = read_required(e, ElementKind::AssociationSet, AttributeKind::Name)?;
        let association = read_required(
            e,
            ElementKind::AssociationSet,
            AttributeKind::Association,
        )?;
        let ends = decode_two_ends(e, ElementKind::AssociationSet)?;
        Ok(AssociationSet { name, association, ends })
    }
}

impl FromElement for EntitySet {
    open spec fn kind() -> ElementKind {
        ElementKind::EntitySet
    }

    open spec fn spec_from_element(e: ElementView) -> Result<EntitySetView, ParseError> {
        match required(e, ElementKind::EntitySet, AttributeKind::Name) {
            Err(error) => Err(error),
            Ok(name) => match required(e, ElementKind::EntitySet, AttributeKind::EntityType) {
                Err(error) => Err(error),
                Ok(entity_type) => Ok(EntitySetView { name, entity_type }),
            },
        }
    }

    fn element_kind() -> (r: ElementKind) {
        ElementKind::EntitySet
    }

    fn from_element(e: &Element) -> (r: Result<EntitySet, ParseError>) {
        let name = read_required(e, ElementKind::EntitySet, AttributeKind::Name)?;
        let entity_type = read_required(e, ElementKind::EntitySet, AttributeKind::EntityType)?;
        Ok(EntitySet { name, entity_type })
    }
}

impl FromElement for EntityContainer {
    open spec fn kind() -> ElementKind {
        ElementKind::EntityContainer
    }

    open spec fn spec_from_element(e: ElementView) -> Result<EntityContainerView, ParseError> {
        match required(e, ElementKind::EntityContainer, AttributeKind::Name) {
            Err(error) => Err(error),
            Ok(name) => match decode_each::<EntitySet>(e.children) {
                Err(error) => Err(error),
                Ok(entity_sets) => match decode_each::<AssociationSet>(e.children) {
                    Err(error) => Err(error),
                    Ok(association_sets) => Ok(
                        EntityContainerView { name, entity_sets, association_sets },
                    ),
                },
            },
        }
    }

    fn element_kind() -> (r: ElementKind) {
        ElementKind::EntityContainer
    }

    fn from_element(e: &Element) -> (r: Result<EntityContainer, ParseError>) {
        let name = read_required(e, ElementKind::EntityContainer, AttributeKind::Name)?;
        let entity_sets = decode_children::<EntitySet>(e)?;
        let association_sets = decode_children::<AssociationSet>(e)?;
        Ok(EntityContainer { name, entity_sets, association_sets })
    }
}

impl FromElement for Schema {
    open spec fn kind() -> ElementKind {
        ElementKind::Schema
    }

    open spec fn spec_from_element(e: ElementView) -> Result<SchemaView, ParseError> {
        match required(e, ElementKind::Schema, AttributeKind::Namespace) {
            Err(error) => Err(error),
            Ok(namespace) => match decode_each::<EntityType>(e.children) {
                Err(error) => Err(error),
                Ok(entities) => match decode_each::<Association>(e.children) {
                    Err(error) => Err(error),
                    Ok(associations) => match decode_optional::<EntityContainer>(
                        e.children,
                        ElementKind::Schema,
                    ) {
                        Err(error) => Err(error),
                        Ok(entity_container) => Ok(
                            SchemaView { namespace, entities, associations, entity_container },
                        ),
                    },
                },
            },
        }
    }

    fn element_kind() -> (r: ElementKind) {
        ElementKind::Schema
    }

    fn from_element(e: &Element) -> (r: Result<Schema, ParseError>) {
        let namespace = read_required(e, ElementKind::Schema, AttributeKind::Namespace)?;
        let entities = decode_children::<EntityType>(e)?;
        let associations = decode_children::<Association>(e)?;
        let entity_container = decode_optional_child::<EntityContainer>(e, ElementKind::Schema)?;
        Ok(Schema { namespace, entities, associations, entity_container })
    }
}

impl FromElement for DataServices {
    open spec fn kind() -> ElementKind {
        ElementKind::DataServices
    }

    open spec fn spec_from_element(e: ElementView) -> Result<DataServicesView, ParseError> {
        match decode_each::<Schema>(e.children) {
            Err(error) => Err(error),
            Ok(schemas) => Ok(DataServicesView { schemas }),
        }
    }

    fn element_kind() -> (r: ElementKind) {
        ElementKind::DataServices
    }

    fn from_element(e: &Element) -> (r: Result<DataServices, ParseError>) {
        let schemas = decode_children::<Schema>(e)?;
        Ok(DataServices { schemas })
    }
}

impl FromElement for Edmx {
    open spec fn kind() -> ElementKind {
        ElementKind::Edmx
    }

    /// The envelope names its version, which must be one that is
    /// understood, and holds the data services once.
    open spec fn spec_from_element(e: ElementView) -> Result<EdmxView, ParseError> {
        match required(e, ElementKind::Edmx, AttributeKind::Version) {
            Err(error) => Err(error),
            Ok(literal) => match EdmxVersion::spec_from_literal(literal) {
                None => Err(ParseError::UnsupportedVersion),
                Some(version) => match decode_one::<DataServices>(e.children, ElementKind::Edmx) {
                    Err(error) => Err(error),
                    Ok(data_services) => Ok(EdmxView { version, data_services }),
                },
            },
        }
    }

    fn element_kind() -> (r: ElementKind) {
        ElementKind::Edmx
    }

    fn from_element(e: &Element) -> (r: Result<Edmx, ParseError>) {
        let literal = read_required(e, ElementKind::Edmx, AttributeKind::Version)?;
        let version = match EdmxVersion::from_literal(literal.as_str()) {
            Some(version) => version,
            None => {
                return Err(ParseError::UnsupportedVersion);
            },
        };
        let data_services = decode_child::<DataServices>(e, ElementKind::Edmx)?;
        Ok(Edmx { version, data_services })
    }
}

/// How many of `children` are elements of the kind `kind`.
pub open spec fn count_of(children: Seq<ElementView>, kind: ElementKind) -> nat
    decreases children.len(),
{
    if children.len() == 0 {
        0
    } else if children.last().name == kind.spec_tag() {
        count_of(children.drop_last(), kind) + 1
    } else {
        count_of(children.drop_last(), kind)
    }
}

/// Every `End` among the children is read, and none fails.
pub proof fn lemma_ends_are_counted(children: Seq<ElementView>)
    ensures
        decode_each::<End>(children) is Ok,
        decode_each::<End>(children)->Ok_0.len() == count_of(children, ElementKind::End),
    decreases children.len(),
{
    if children.len() > 0 {
        lemma_ends_are_counted(children.drop_last());
    }
}

/// A property without a `Nullable` marker, or with an empty one, may be absent.
pub proof fn lemma_nullable_by_default(e: ElementView)
    requires
        optional_value(e.attributes, AttributeKind::Nullable.spec_name()) is None,
    ensures
        Property::spec_from_element(e) matches Ok(property) ==> property.nullable,
{
}

/// An association is read exactly when it has a name and two `End`
/// children, no fewer and no more; one that has a name and another number
/// of ends is refused for that number.
pub proof fn lemma_association_has_two_ends(e: ElementView)
    ensures
        Association::spec_from_element(e) is Ok <==> attribute_value(
            e.attributes,
            AttributeKind::Name.spec_name(),
        ) is Some && count_of(e.children, ElementKind::End) == 2,
        attribute_value(e.attributes, AttributeKind::Name.spec_name()) is Some && count_of(
            e.children,
            ElementKind::End,
        ) != 2 ==> Association::spec_from_element(e) == Err::<AssociationView, ParseError>(
            ParseError::EndCount { parent: ElementKind::Association },
        ),
        Association::spec_from_element(e) matches Ok(association) ==> association.ends.len() == 2,
{
    lemma_ends_are_counted(e.children);
}

/// An association set is read exactly when it has a name, names its
/// association, and has two `End` children, no fewer and no more.
pub proof fn lemma_association_set_has_two_ends(e: ElementView)
    ensures
        AssociationSet::spec_from_element(e) is Ok <==> attribute_value(
            e.attributes,
            AttributeKind::Name.spec_name(),
        ) is Some && attribute_value(e.attributes, AttributeKind::Association.spec_name()) is Some
            && count_of(e.children, ElementKind::End) == 2,
        attribute_value(e.attributes, AttributeKind::Name.spec_name()) is Some && attribute_value(
            e.attributes,
            AttributeKind::Association.spec_name(),
        ) is Some && count_of(e.children, ElementKind::End) != 2
            ==> AssociationSet::spec_from_element(e) == Err::<AssociationSetView, ParseError>(
            ParseError::EndCount { parent: ElementKind::AssociationSet },
        ),
        AssociationSet::spec_from_element(e) matches Ok(set) ==> set.ends.len() == 2,
{
    lemma_ends_are_counted(e.children);
}

/// What the elements at the top of a document stand for: there must be
/// one, an `Edmx`.
pub open spec fn decode_forest(roots: Seq<ElementView>) -> Result<EdmxView, ParseError> {
    if roots.len() != 1 || roots[0].name != ElementKind::Edmx.spec_tag() {
        Err(ParseError::UnexpectedRoot)
    } else {
        Edmx::spec_from_element(roots[0])
    }
}

/// What a run of tags stands for.
pub open spec fn decode_tokens(tokens: Seq<TokenView>) -> Result<EdmxView, ParseError> {
    match forest_of(tokens) {
        None => Err(ParseError::Malformed),
        Some(roots) => decode_forest(roots),
    }
}

/// What a text stands for.
pub open spec fn decode_text(text: Seq<char>) -> Result<EdmxView, ParseError> {
    match document_tokens(text) {
        None => Err(ParseError::Malformed),
        Some(tokens) => decode_tokens(tokens),
    }
}

impl Edmx {
    /// Builds the model from the tags of a document.
    pub fn from_tokens(tokens: &Vec<Token>) -> (r: Result<Edmx, ParseError>)
        ensures
            result_view(r) == decode_tokens(tokens.deep_view()),
    {
        let roots = match build_forest(tokens) {
            Some(roots) => roots,
            None => {
                return Err(ParseError::Malformed);
            },
        };
        if roots.len() != 1 || !same_text(roots[0].name.as_str(), ElementKind::Edmx.tag()) {
            return Err(ParseError::UnexpectedRoot);
        }
        Edmx::from_element(&roots[0])
    }

    /// Reads a whole document. The outcome is a finished model or an error,
    /// never a part of a model; the same text gives the same outcome.
    pub fn parse(text: &str) -> (r: Result<Edmx, ParseError>)
        ensures
            result_view(r) == decode_text(text@),
    {
        match tokenize(text) {
            Some(tokens) => Edmx::from_tokens(&tokens),
            None => Err(ParseError::Malformed),
        }
    }
}

impl FromStr for Edmx {
    type Err = ParseError;

    /// Reads a whole document: the model that the text stands for, or the
    /// error that says why it stands for none.
    fn from_str(s: &str) -> (r: Result<Edmx, ParseError>)
        ensures
            result_view(r) == decode_text(s@),
    {
        Edmx::parse(s)
    }
}

} // verus!
