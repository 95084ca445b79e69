//! From the model back to elements, tags and text, under the same mapping
//! by which documents are read; and the law that ties the two directions
//! together: what is written reads back as it was.
//!
//! What the element of each type looks like is said in `forms`.

use vstd::prelude::*;

use crate::decode::{attribute_value, decode_each, decode_tokens, has_name, FromElement};
use crate::error::{AttributeKind, ElementKind, ParseError};
use crate::model::{Edmx, EdmxView};
use crate::text::{
    first_position, lemma_first_position, lemma_first_position_is, lemma_first_position_none,
};
use crate::tree::{
    element_text, element_tokens, fits, lemma_children_view, lemma_forest_of_element,
    write_element, Element, ElementView, KEPT_DEPTH,
};
use crate::xml::{Attribute, AttributeView, Token, TokenView};

verus! {

/// The attribute of the kind `kind` with the value `value`.
pub open spec fn attribute(kind: AttributeKind, value: Seq<char>) -> AttributeView {
    AttributeView { name: kind.spec_name(), value }
}

/// `attributes`, and behind them the attribute `kind` where it has a value.
pub open spec fn with_optional(
    attributes: Seq<AttributeView>,
    kind: AttributeKind,
    value: Option<Seq<char>>,
) -> Seq<AttributeView> {
    match value {
        Some(value) => attributes.push(attribute(kind, value)),
        None => attributes,
    }
}

/// One attribute more changes nothing for names found before it, and is
/// found itself under its own name.
pub broadcast proof fn lemma_attribute_value_push(
    attributes: Seq<AttributeView>,
    last: AttributeView,
    name: Seq<char>,
)
    ensures
        #[trigger] attribute_value(attributes.push(last), name) == match attribute_value(attributes, name) {
            Some(value) => Some(value),
            None => if last.name == name {
                Some(last.value)
            } else {
                None
            },
        },
{
    let longer = attributes.push(last);
    lemma_first_position(attributes, has_name(name), 0);
    match first_position(attributes, has_name(name), 0) {
        Some(i) => {
            assert forall|j: int| 0 <= j < i implies !has_name(name)(#[trigger] longer[j]) by {
                assert(longer[j] == attributes[j]);
            }
            assert(longer[i] == attributes[i]);
            lemma_first_position_is(longer, has_name(name), 0, i);
        },
        None => {
            assert forall|j: int| 0 <= j < attributes.len() implies !has_name(name)(
                #[trigger] longer[j],
            ) by {
                assert(longer[j] == attributes[j]);
            }
            if last.name == name {
                lemma_first_position_is(longer, has_name(name), 0, attributes.len() as int);
            } else {
                lemma_first_position_none(longer, has_name(name), 0);
            }
        },
    }
}

/// What the element looks like that stands for a value of a type of the model.
pub trait ElementForm: FromElement {
    /// The attributes of the element that stands for `v`.
    spec fn spec_attributes(v: <Self as DeepView>::V) -> Seq<AttributeView>;

    /// The children of the element that stands for `v`.
    spec fn spec_children(v: <Self as DeepView>::V) -> Seq<ElementView>;

    /// Whether `v` can be written at all.
    spec fn writable(v: <Self as DeepView>::V) -> bool;

    /// Whether `v` is one of the values that a document can hold: written
    /// and read again, such a value comes back as it was.
    spec fn representable(v: <Self as DeepView>::V) -> bool;

    /// How many levels of elements a value of this type takes.
    spec fn depth() -> nat;
}

/// The element that stands for `v`.
pub open spec fn spec_element<T: ElementForm>(v: <T as DeepView>::V) -> ElementView {
    ElementView {
        name: T::kind().spec_tag(),
        attributes: T::spec_attributes(v),
        children: T::spec_children(v),
    }
}

/// A type of the model that can be written as an element.
pub trait ToElement: ElementForm {
    fn to_element(&self) -> (r: Option<Element>)
        ensures
            r is Some <==> Self::writable(self.deep_view()),
            r matches Some(e) ==> e.deep_view() == spec_element::<Self>(self.deep_view()),
    ;

    /// Whether the value is one that a document can hold.
    fn is_representable(&self) -> (r: bool)
        ensures
            r == Self::representable(self.deep_view()),
    ;

    proof fn lemma_depth(v: <Self as DeepView>::V)
        ensures
            fits(spec_element::<Self>(v), Self::depth()),
    ;

    proof fn lemma_round_trip(v: <Self as DeepView>::V)
        requires
            Self::representable(v),
        ensures
            Self::writable(v),
            Self::spec_from_element(spec_element::<Self>(v)) == Ok::<
                <Self as DeepView>::V,
                ParseError,
            >(v),
    ;
}

/// The elements that stand for `items`, one for each.
pub open spec fn encode_each<T: ElementForm>(items: Seq<<T as DeepView>::V>) -> Seq<ElementView> {
    Seq::new(items.len(), |i: int| spec_element::<T>(items[i]))
}

/// The one item that is there, or none.
pub open spec fn option_items<V>(item: Option<V>) -> Seq<V> {
    match item {
        Some(item) => seq![item],
        None => Seq::empty(),
    }
}

/// Whether every one of `items` can be written.
pub open spec fn all_writable<T: ElementForm>(items: Seq<<T as DeepView>::V>) -> bool {
    forall|i: int| 0 <= i < items.len() ==> T::writable(#[trigger] items[i])
}

/// Whether every one of `items` is a value that a document can hold.
pub open spec fn all_representable<T: ElementForm>(items: Seq<<T as DeepView>::V>) -> bool {
    forall|i: int| 0 <= i < items.len() ==> T::representable(#[trigger] items[i])
}

/// Reading two runs of elements, one behind the other, is reading each.
pub proof fn lemma_decode_each_add<T: FromElement>(a: Seq<ElementView>, b: Seq<ElementView>)
    ensures
        decode_each::<T>(a + b) == match decode_each::<T>(a) {
            Err(error) => Err(error),
            Ok(first) => match decode_each::<T>(b) {
                Err(error) => Err(error),
                Ok(second) => Ok(first + second),
            },
        },
    decreases b.len(),
{
    if b.len() == 0 {
        assert(a + b =~= a);
        if decode_each::<T>(a) is Ok {
            assert(decode_each::<T>(a)->Ok_0 + Seq::<<T as DeepView>::V>::empty()
                =~= decode_each::<T>(a)->Ok_0);
        }
    } else {
        assert((a + b).drop_last() =~= a + b.drop_last());
        assert((a + b).last() == b.last());
        lemma_decode_each_add::<T>(a, b.drop_last());
        match (decode_each::<T>(a), decode_each::<T>(b.drop_last())) {
            (Ok(first), Ok(second)) => {
                if b.last().name == T::kind().spec_tag() {
                    if T::spec_from_element(b.last()) is Ok {
                        let item = T::spec_from_element(b.last())->Ok_0;
                        assert((first + second).push(item) =~= first + second.push(item));
                    }
                }
            },
            _ => {},
        }
    }
}

/// Elements of another kind are passed over.
pub proof fn lemma_decode_each_other<T: FromElement, U: ElementForm>(items: Seq<<U as DeepView>::V>)
    requires
        T::kind() != U::kind(),
    ensures
        decode_each::<T>(encode_each::<U>(items)) == Ok::<Seq<<T as DeepView>::V>, ParseError>(
            Seq::empty(),
        ),
    decreases items.len(),
{
    if items.len() > 0 {
        ElementKind::lemma_tags_differ(T::kind(), U::kind());
        assert(encode_each::<U>(items).drop_last() =~= encode_each::<U>(items.drop_last()));
        lemma_decode_each_other::<T, U>(items.drop_last());
    }
}

/// Elements written for values that a document can hold read back as those values.
pub proof fn lemma_decode_each_same<T: ToElement>(items: Seq<<T as DeepView>::V>)
    requires
        all_representable::<T>(items),
    ensures
        decode_each::<T>(encode_each::<T>(items)) == Ok::<Seq<<T as DeepView>::V>, ParseError>(
            items,
        ),
    decreases items.len(),
{
    if items.len() > 0 {
        let shorter = items.drop_last();
        assert(encode_each::<T>(items).drop_last() =~= encode_each::<T>(shorter));
        assert forall|i: int| 0 <= i < shorter.len() implies T::representable(
            #[trigger] shorter[i],
        ) by {
            assert(shorter[i] == items[i]);
        }
        lemma_decode_each_same::<T>(shorter);
        assert(T::representable(items[items.len() - 1]));
        T::lemma_round_trip(items.last());
        assert(shorter.push(items.last()) =~= items);
    } else {
        assert(items =~= Seq::<<T as DeepView>::V>::empty());
    }
}

/// An element that fits in some depth fits in any greater depth.
pub proof fn lemma_fits_more(e: ElementView, room: nat, more: nat)
    requires
        fits(e, room),
        room <= more,
    ensures
        fits(e, more),
    decreases room,
{
    assert forall|i: int| 0 <= i < e.children.len() implies fits(
        #[trigger] e.children[i],
        (more - 1) as nat,
    ) by {
        lemma_fits_more(e.children[i], (room - 1) as nat, (more - 1) as nat);
    }
}

/// The elements written for values of a type fit in the depth of the type.
pub proof fn lemma_each_fits<T: ToElement>(items: Seq<<T as DeepView>::V>, room: nat)
    requires
        T::depth() <= room,
    ensures
        forall|i: int|
            0 <= i < encode_each::<T>(items).len() ==> fits(
                #[trigger] encode_each::<T>(items)[i],
                room,
            ),
{
    assert forall|i: int| 0 <= i < encode_each::<T>(items).len() implies fits(
        #[trigger] encode_each::<T>(items)[i],
        room,
    ) by {
        T::lemma_depth(items[i]);
        lemma_fits_more(spec_element::<T>(items[i]), T::depth(), room);
    }
}

/// No two kinds of attribute share a name.
pub proof fn lemma_attribute_names()
    ensures
        forall|a: AttributeKind, b: AttributeKind|
            a != b ==> #[trigger] a.spec_name() != #[trigger] b.spec_name(),
{
    assert forall|a: AttributeKind, b: AttributeKind| a != b implies #[trigger] a.spec_name()
        != #[trigger] b.spec_name() by {
        AttributeKind::lemma_names_differ(a, b);
    }
}

pub(crate) fn push_attribute(attributes: &mut Vec<Attribute>, kind: AttributeKind, value: String)
    ensures
        final(attributes).deep_view() == old(attributes).deep_view().push(
            attribute(kind, value@),
        ),
{
    let ghost before = attributes.deep_view();
    attributes.push(Attribute { name: String::from_str(kind.name()), value });
    assert(attributes.deep_view() =~= before.push(attribute(kind, value@)));
}

pub(crate) fn push_optional(attributes: &mut Vec<Attribute>, kind: AttributeKind, value: Option<String>)
    ensures
        final(attributes).deep_view() == with_optional(
            old(attributes).deep_view(),
            kind,
            value.deep_view(),
        ),
{
    match value {
        Some(value) => {
            push_attribute(attributes, kind, value);
        },
        None => {},
    }
}

pub(crate) fn clone_optional(value: &Option<String>) -> (r: Option<String>)
    ensures
        r.deep_view() == value.deep_view(),
{
    match value {
        Some(value) => Some(value.clone()),
        None => None,
    }
}

pub(crate) fn new_element(kind: ElementKind, attributes: Vec<Attribute>, children: Vec<Element>) -> (r:
    Element)
    ensures
        r.deep_view() == (ElementView {
            name: kind.spec_tag(),
            attributes: attributes.deep_view(),
            children: children.deep_view(),
        }),
{
    let r = Element { name: String::from_str(kind.tag()), attributes, children };
    proof {
        lemma_children_view(&r);
    }
    r
}

pub(crate) fn no_attributes() -> (r: Vec<Attribute>)
    ensures
        r.deep_view() == Seq::<AttributeView>::empty(),
{
    let r: Vec<Attribute> = Vec::new();
    assert(r.deep_view() =~= Seq::<AttributeView>::empty());
    r
}

pub(crate) fn no_children() -> (r: Vec<Element>)
    ensures
        r.deep_view() == Seq::<ElementView>::empty(),
{
    let r: Vec<Element> = Vec::new();
    assert(r.deep_view() =~= Seq::<ElementView>::empty());
    r
}

/// Writes `item` behind the elements that `children` holds.
pub(crate) fn push_child<T: ToElement>(children: &mut Vec<Element>, item: &T) -> (ok: bool)
    ensures
        ok <==> T::writable(item.deep_view()),
        ok ==> final(children).deep_view() == old(children).deep_view().push(
            spec_element::<T>(item.deep_view()),
        ),
{
    match item.to_element() {
        Some(e) => {
            let ghost before = children.deep_view();
            let ghost view = e.deep_view();
            children.push(e);
            assert(children.deep_view() =~= before.push(view));
            true
        },
        None => false,
    }
}

/// Writes `items`, one after the other, behind the elements that `children` holds.
pub(crate) fn push_children<T: ToElement>(children: &mut Vec<Element>, items: &Vec<T>) -> (ok: bool)
    ensures
        ok <==> all_writable::<T>(items.deep_view()),
        ok ==> final(children).deep_view() == old(children).deep_view() + encode_each::<T>(
            items.deep_view(),
        ),
{
    let ghost views = items.deep_view();
    let mut i: usize = 0;
    assert(old(children).deep_view() + encode_each::<T>(views.take(0)) =~= old(
        children,
    ).deep_view());
    while i < items.len()
        invariant
            i <= items.len(),
            views == items.deep_view(),
            all_writable::<T>(views.take(i as int)),
            children.deep_view() == old(children).deep_view() + encode_each::<T>(
                views.take(i as int),
            ),
        decreases items.len() - i,
    {
        let ghost before = children.deep_view();
        if !push_child::<T>(children, &items[i]) {
            assert(!T::writable(views[i as int]));
            return false;
        }
        proof {
            assert(views.take(i + 1) =~= views.take(i as int).push(views[i as int]));
            assert(encode_each::<T>(views.take(i + 1)) =~= encode_each::<T>(
                views.take(i as int),
            ).push(spec_element::<T>(views[i as int])));
            assert(children.deep_view() =~= old(children).deep_view() + encode_each::<T>(
                views.take(i + 1),
            ));
            assert forall|j: int| 0 <= j < i + 1 implies T::writable(
                #[trigger] views.take(i + 1)[j],
            ) by {
                if j < i {
                    assert(views.take(i as int)[j] == views[j]);
                }
            }
        }
        i += 1;
    }
    assert(views.take(i as int) =~= views);
    true
}

/// Elements of another kind behind a run of elements change nothing.
pub proof fn lemma_skip_right<T: FromElement, U: ElementForm>(
    before: Seq<ElementView>,
    others: Seq<<U as DeepView>::V>,
)
    requires
        T::kind() != U::kind(),
    ensures
        decode_each::<T>(before + encode_each::<U>(others)) == decode_each::<T>(before),
{
    lemma_decode_each_add::<T>(before, encode_each::<U>(others));
    lemma_decode_each_other::<T, U>(others);
    if decode_each::<T>(before) is Ok {
        assert(decode_each::<T>(before)->Ok_0 + Seq::<<T as DeepView>::V>::empty()
            =~= decode_each::<T>(before)->Ok_0);
    }
}

/// Elements of another kind before a run of elements change nothing.
pub proof fn lemma_skip_left<T: FromElement, U: ElementForm>(
    others: Seq<<U as DeepView>::V>,
    after: Seq<ElementView>,
)
    requires
        T::kind() != U::kind(),
    ensures
        decode_each::<T>(encode_each::<U>(others) + after) == decode_each::<T>(after),
{
    lemma_decode_each_add::<T>(encode_each::<U>(others), after);
    lemma_decode_each_other::<T, U>(others);
    if decode_each::<T>(after) is Ok {
        assert(Seq::<<T as DeepView>::V>::empty() + decode_each::<T>(after)->Ok_0
            =~= decode_each::<T>(after)->Ok_0);
    }
}

/// Whether every one of `items` is a value that a document can hold.
pub(crate) fn all_items_representable<T: ToElement>(items: &Vec<T>) -> (r: bool)
    ensures
        r == all_representable::<T>(items.deep_view()),
{
    let ghost views = items.deep_view();
    let mut i: usize = 0;
    while i < items.len()
        invariant
            i <= items.len(),
            views == items.deep_view(),
            forall|j: int| 0 <= j < i ==> T::representable(#[trigger] views[j]),
        decreases items.len() - i,
    {
        if !items[i].is_representable() {
            assert(!T::representable(views[i as int]));
            return false;
        }
        i += 1;
    }
    true
}

/// Elements that fit, one run behind the other, fit.
pub proof fn lemma_fits_add(a: Seq<ElementView>, b: Seq<ElementView>, room: nat)
    requires
        forall|i: int| 0 <= i < a.len() ==> fits(#[trigger] a[i], room),
        forall|i: int| 0 <= i < b.len() ==> fits(#[trigger] b[i], room),
    ensures
        forall|i: int| 0 <= i < (a + b).len() ==> fits(#[trigger] (a + b)[i], room),
{
    assert forall|i: int| 0 <= i < (a + b).len() implies fits(#[trigger] (a + b)[i], room) by {
        if i < a.len() {
            assert((a + b)[i] == a[i]);
        } else {
            assert((a + b)[i] == b[i - a.len()]);
        }
    }
}

/// The tags of the document that stands for `v`.
pub open spec fn encode_tokens(v: EdmxView) -> Seq<TokenView> {
    element_tokens(spec_element::<Edmx>(v))
}

/// The text of the document that stands for `v`.
pub open spec fn encode_text(v: EdmxView) -> Seq<char> {
    element_text(spec_element::<Edmx>(v))
}

/// Round trip: a model that a document can hold, written as tags under the
/// mapping by which documents are read and read again, comes back equal
/// field for field.
pub proof fn lemma_document_round_trip(v: EdmxView)
    requires
        Edmx::representable(v),
    ensures
        Edmx::writable(v),
        decode_tokens(encode_tokens(v)) == Ok::<EdmxView, ParseError>(v),
{
    let root = spec_element::<Edmx>(v);
    Edmx::lemma_round_trip(v);
    Edmx::lemma_depth(v);
    lemma_fits_more(root, 6, KEPT_DEPTH as nat);
    lemma_forest_of_element(root);
}

/// Writes the tags of `e` behind what `out` holds.
pub fn push_tokens(e: &Element, out: &mut Vec<Token>)
    ensures
        final(out).deep_view() == old(out).deep_view() + element_tokens(e.deep_view()),
    decreases e,
{
    let ghost before = out.deep_view();
    let ghost view = e.deep_view();
    let ghost open = TokenView::Open { name: view.name, attributes: view.attributes };
    proof {
        lemma_children_view(e);
    }
    out.push(
        Token::Open { name: e.name.clone(), attributes: crate::tree::clone_attributes(&e.attributes) },
    );
    assert(out.deep_view() =~= before.push(open));
    let mut i: usize = 0;
    assert(out.deep_view() =~= before + seq![open] + crate::tree::forest_tokens(view.children, 0));
    while i < e.children.len()
        invariant
            i <= e.children.len(),
            view == e.deep_view(),
            view.children == e.children.deep_view(),
            out.deep_view() == before + seq![open] + crate::tree::forest_tokens(
                view.children,
                i as nat,
            ),
        decreases e.children.len() - i,
    {
        let ghost so_far = out.deep_view();
        push_tokens(&e.children[i], out);
        proof {
            assert(view.children[i as int] == e.children[i as int].deep_view());
            assert(out.deep_view() =~= before + seq![open] + crate::tree::forest_tokens(
                view.children,
                (i + 1) as nat,
            ));
        }
        i += 1;
    }
    let ghost inner = out.deep_view();
    out.push(Token::Close);
    assert(out.deep_view() =~= inner.push(TokenView::Close));
    assert(out.deep_view() =~= before + element_tokens(view));
}

impl Edmx {
    /// Writes the model as the tags of a document. `None` where the model
    /// holds a timestamp that lies outside the calendar's range.
    pub fn to_tokens(&self) -> (r: Option<Vec<Token>>)
        ensures
            r is Some <==> <Edmx as ElementForm>::writable(self.deep_view()),
            r matches Some(tokens) ==> tokens.deep_view() == encode_tokens(self.deep_view()),
    {
        match self.to_element() {
            Some(root) => {
                let mut tokens: Vec<Token> = Vec::new();
                assert(tokens.deep_view() =~= Seq::<TokenView>::empty());
                push_tokens(&root, &mut tokens);
                assert(tokens.deep_view() =~= encode_tokens(self.deep_view()));
                Some(tokens)
            },
            None => None,
        }
    }

    /// Writes the model as the text of a document. `None` where the model
    /// holds a timestamp that lies outside the calendar's range.
    pub fn to_xml(&self) -> (r: Option<String>)
        ensures
            r is Some <==> <Edmx as ElementForm>::writable(self.deep_view()),
            r matches Some(text) ==> text@ == encode_text(self.deep_view()),
    {
        match self.to_element() {
            Some(root) => {
                let mut text = String::new();
                write_element(&root, &mut text);
                assert(text@ =~= encode_text(self.deep_view()));
                Some(text)
            },
            None => None,
        }
    }
}

} // verus!
