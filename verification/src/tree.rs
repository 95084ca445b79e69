//! Elements as a tree, built from a run of tags.

use vstd::prelude::*;

use crate::xml::{escape_value, xml_escaped, Attribute, AttributeView, Token, TokenView};

verus! {

/// An element: its name, its attributes, and the elements inside it.
#[derive(Debug, PartialEq, Eq)]
pub struct Element {
    pub name: String,
    pub attributes: Vec<Attribute>,
    pub children: Vec<Element>,
}

/// What an `Element` is, apart from how it is stored.
pub struct ElementView {
    pub name: Seq<char>,
    pub attributes: Seq<AttributeView>,
    pub children: Seq<ElementView>,
}

/// What an element is, apart from how it is stored.
pub open spec fn element_view(e: Element) -> ElementView
    decreases e,
{
    ElementView {
        name: e.name@,
        attributes: e.attributes.deep_view(),
        children: Seq::new(
            e.children.len() as nat,
            |i: int|
                if 0 <= i < e.children.len() {
                    element_view(e.children[i])
                } else {
                    arbitrary()
                },
        ),
    }
}

impl DeepView for Element {
    type V = ElementView;

    open spec fn deep_view(&self) -> ElementView {
        element_view(*self)
    }
}

/// The tags of an element, from its opening tag to its closing tag.
pub open spec fn element_tokens(e: ElementView) -> Seq<TokenView>
    decreases e, 0nat,
{
    seq![TokenView::Open { name: e.name, attributes: e.attributes }] + forest_tokens(
        e.children,
        e.children.len(),
    ) + seq![TokenView::Close]
}

/// The tags of the first `n` of `elements`, one element after the other.
pub open spec fn forest_tokens(elements: Seq<ElementView>, n: nat) -> Seq<TokenView>
    decreases elements, n,
{
    if n == 0 || n > elements.len() {
        Seq::empty()
    } else {
        forest_tokens(elements, (n - 1) as nat) + element_tokens(elements[n - 1])
    }
}

/// How deep elements are kept: the document's root is at depth one, and what
/// lies deeper than this is passed over. Nothing that a metadata document
/// means lies that deep.
pub const KEPT_DEPTH: usize = 8;

/// The frame that stands for the document itself: the elements at the top
/// are gathered as its children.
pub open spec fn document_frame() -> ElementView {
    ElementView { name: Seq::empty(), attributes: Seq::empty(), children: Seq::empty() }
}

/// The open elements `stack`, with `children` added to the innermost of them.
pub open spec fn with_children(stack: Seq<ElementView>, children: Seq<ElementView>) -> Seq<
    ElementView,
> {
    let parent = stack.last();
    stack.drop_last().push(
        ElementView {
            name: parent.name,
            attributes: parent.attributes,
            children: parent.children + children,
        },
    )
}

/// The open elements `stack`, with `child` added to the innermost of them.
pub open spec fn with_child(stack: Seq<ElementView>, child: ElementView) -> Seq<ElementView> {
    with_children(stack, seq![child])
}

/// Reads `tokens` with the elements of `stack` open, the innermost last, and
/// `skipped` more elements open that are passed over. The result is the
/// elements at the top of the document, once every element is closed;
/// `None` where a closing tag closes nothing, or an element stays open.
pub open spec fn run(tokens: Seq<TokenView>, stack: Seq<ElementView>, skipped: nat) -> Option<
    Seq<ElementView>,
>
    decreases tokens.len(),
{
    if stack.len() == 0 {
        None
    } else if tokens.len() == 0 {
        if stack.len() == 1 && skipped == 0 {
            Some(stack[0].children)
        } else {
            None
        }
    } else {
        match tokens[0] {
            TokenView::Open { name, attributes } => if skipped > 0 || stack.len() > KEPT_DEPTH {
                run(tokens.drop_first(), stack, skipped + 1)
            } else {
                run(
                    tokens.drop_first(),
                    stack.push(ElementView { name, attributes, children: Seq::empty() }),
                    0,
                )
            },
            TokenView::Close => if skipped > 0 {
                run(tokens.drop_first(), stack, (skipped - 1) as nat)
            } else if stack.len() < 2 {
                None
            } else {
                run(tokens.drop_first(), with_child(stack.drop_last(), stack.last()), 0)
            },
        }
    }
}

/// The elements at the top of the document that `tokens` spell, each with
/// what it holds down to `KEPT_DEPTH`.
pub open spec fn forest_of(tokens: Seq<TokenView>) -> Option<Seq<ElementView>> {
    run(tokens, seq![document_frame()], 0)
}

/// `e` is at most `room` levels deep.
pub open spec fn fits(e: ElementView, room: nat) -> bool
    decreases room,
{
    room > 0 && forall|i: int|
        0 <= i < e.children.len() ==> fits(#[trigger] e.children[i], (room - 1) as nat)
}

proof fn lemma_run_element(
    e: ElementView,
    room: nat,
    rest: Seq<TokenView>,
    stack: Seq<ElementView>,
)
    requires
        fits(e, room),
        stack.len() >= 1,
        stack.len() + room <= KEPT_DEPTH + 1,
    ensures
        run(element_tokens(e) + rest, stack, 0) == run(rest, with_child(stack, e), 0),
    decreases room, 0nat,
{
    let tokens = element_tokens(e) + rest;
    let frame = ElementView { name: e.name, attributes: e.attributes, children: Seq::empty() };
    let inner = forest_tokens(e.children, e.children.len());
    let after = seq![TokenView::Close] + rest;
    assert(tokens.drop_first() =~= inner + after);
    assert(tokens[0] == TokenView::Open { name: e.name, attributes: e.attributes });
    assert forall|i: int| 0 <= i < e.children.len() implies fits(
        #[trigger] e.children[i],
        (room - 1) as nat,
    ) by {}
    lemma_run_forest(e.children, e.children.len(), (room - 1) as nat, after, stack.push(frame));
    let filled = with_children(stack.push(frame), e.children.take(e.children.len() as int));
    assert(e.children.take(e.children.len() as int) =~= e.children);
    assert(Seq::<ElementView>::empty() + e.children =~= e.children);
    assert(filled =~= stack.push(e));
    assert(after.drop_first() =~= rest);
    assert(filled.drop_last() =~= stack);
}

proof fn lemma_run_forest(
    elements: Seq<ElementView>,
    n: nat,
    room: nat,
    rest: Seq<TokenView>,
    stack: Seq<ElementView>,
)
    requires
        n <= elements.len(),
        forall|i: int| 0 <= i < n ==> fits(#[trigger] elements[i], room),
        stack.len() >= 1,
        stack.len() + room <= KEPT_DEPTH + 1,
    ensures
        run(forest_tokens(elements, n) + rest, stack, 0) == run(
            rest,
            with_children(stack, elements.take(n as int)),
            0,
        ),
    decreases room, n,
{
    if n == 0 {
        assert(forest_tokens(elements, n) + rest =~= rest);
        assert(stack.last().children + elements.take(0) =~= stack.last().children);
        assert(with_children(stack, elements.take(0)) =~= stack);
    } else {
        let last = elements[n - 1];
        let before = forest_tokens(elements, (n - 1) as nat);
        let after = element_tokens(last) + rest;
        assert(forest_tokens(elements, n) + rest =~= before + after);
        lemma_run_forest(elements, (n - 1) as nat, room, after, stack);
        let mid = with_children(stack, elements.take(n - 1));
        lemma_run_element(last, room, rest, mid);
        assert(elements.take(n as int) =~= elements.take(n - 1).push(last));
        assert(stack.last().children + elements.take(n - 1) + seq![last] =~= stack.last().children
            + elements.take(n as int));
        assert(with_child(mid, last) =~= with_children(stack, elements.take(n as int)));
    }
}

/// The tags of an element that is not too deep spell that element, alone.
pub proof fn lemma_forest_of_element(e: ElementView)
    requires
        fits(e, KEPT_DEPTH as nat),
    ensures
        forest_of(element_tokens(e)) == Some(seq![e]),
{
    let stack = seq![document_frame()];
    lemma_run_element(e, KEPT_DEPTH as nat, Seq::empty(), stack);
    assert(element_tokens(e) + Seq::<TokenView>::empty() =~= element_tokens(e));
    assert(with_child(stack, e)[0].children =~= seq![e]);
}

/// In its view, an element's children are the views of its children.
pub proof fn lemma_children_view(e: &Element)
    ensures
        e.deep_view().children == e.children.deep_view(),
{
    assert(e.deep_view().children =~= e.children.deep_view());
}

/// A copy of an attribute.
pub fn clone_attribute(a: &Attribute) -> (r: Attribute)
    ensures
        r.deep_view() == a.deep_view(),
{
    Attribute { name: a.name.clone(), value: a.value.clone() }
}

/// A copy of a run of attributes.
pub fn clone_attributes(attributes: &Vec<Attribute>) -> (r: Vec<Attribute>)
    ensures
        r.deep_view() == attributes.deep_view(),
{
    let mut r: Vec<Attribute> = Vec::new();
    let mut i: usize = 0;
    while i < attributes.len()
        invariant
            i <= attributes.len(),
            r.deep_view() == attributes.deep_view().take(i as int),
        decreases attributes.len() - i,
    {
        let ghost before = r.deep_view();
        r.push(clone_attribute(&attributes[i]));
        assert(r.deep_view() =~= before.push(attributes[i as int].deep_view()));
        assert(attributes.deep_view().take(i + 1) =~= before.push(attributes[i as int].deep_view()));
        i += 1;
    }
    assert(attributes.deep_view().take(i as int) =~= attributes.deep_view());
    r
}

/// Builds the elements that `tokens` spell. `None` where a closing tag closes
/// nothing, or an element stays open at the end.
pub fn build_forest(tokens: &Vec<Token>) -> (r: Option<Vec<Element>>)
    ensures
        r.deep_view() == forest_of(tokens.deep_view()),
{
    let mut stack: Vec<Element> = Vec::new();
    stack.push(Element { name: String::new(), attributes: Vec::new(), children: Vec::new() });
    let mut skipped: usize = 0;
    let mut i: usize = 0;
    proof {
        lemma_children_view(&stack[0]);
        assert(stack[0].deep_view().children =~= Seq::<ElementView>::empty());
        assert(stack[0].deep_view().attributes =~= Seq::<AttributeView>::empty());
        assert(stack[0].deep_view() == document_frame());
        assert(stack.deep_view() =~= seq![document_frame()]);
    }
    assert(tokens.deep_view().skip(0) =~= tokens.deep_view());
    while i < tokens.len()
        invariant
            i <= tokens.len(),
            skipped <= i,
            stack.len() >= 1,
            forest_of(tokens.deep_view()) == run(
                tokens.deep_view().skip(i as int),
                stack.deep_view(),
                skipped as nat,
            ),
        decreases tokens.len() - i,
    {
        let ghost todo = tokens.deep_view().skip(i as int);
        let ghost frames = stack.deep_view();
        proof {
            assert(todo.drop_first() =~= tokens.deep_view().skip(i + 1));
            assert(todo[0] == tokens[i as int].deep_view());
        }
        match &tokens[i] {
            Token::Open { name, attributes } => {
                if skipped > 0 || stack.len() > KEPT_DEPTH {
                    skipped += 1;
                } else {
                    let frame = Element {
                        name: name.clone(),
                        attributes: clone_attributes(attributes),
                        children: Vec::new(),
                    };
                    let ghost frame_view = frame.deep_view();
                    stack.push(frame);
                    assert(frame_view.children =~= Seq::<ElementView>::empty());
                    assert(stack.deep_view() =~= frames.push(frame_view));
                    assert(stack.deep_view() =~~= frames.push(
                        ElementView {
                            name: name@,
                            attributes: attributes.deep_view(),
                            children: Seq::empty(),
                        },
                    ));
                }
            },
            Token::Close => {
                if skipped > 0 {
                    skipped -= 1;
                } else if stack.len() < 2 {
                    return None;
                } else {
                    let child = stack.pop().unwrap();
                    let mut parent = stack.pop().unwrap();
                    let ghost parent_view = parent.deep_view();
                    let ghost child_view = child.deep_view();
                    let ghost below = stack.deep_view();
                    assert(below =~= frames.drop_last().drop_last());
                    assert(parent_view == frames.drop_last().last());
                    assert(child_view == frames.last());
                    let ghost siblings = parent.children.deep_view();
                    proof {
                        lemma_children_view(&parent);
                    }
                    parent.children.push(child);
                    assert(parent.children.deep_view() =~= siblings.push(child_view));
                    proof {
                        lemma_children_view(&parent);
                    }
                    let ghost grown = parent.deep_view();
                    assert(grown.children == parent_view.children.push(child_view));
                    stack.push(parent);
                    assert(stack.deep_view() =~= below.push(grown));
                    assert(parent_view.children + seq![child_view] =~~= parent_view.children.push(
                        child_view,
                    ));
                    assert(stack.deep_view() =~~= with_child(frames.drop_last(), frames.last()));
                }
            },
        }
        i += 1;
    }
    assert(tokens.deep_view().skip(i as int) =~= Seq::<TokenView>::empty());
    if stack.len() == 1 && skipped == 0 {
        let document = stack.pop().unwrap();
        proof {
            lemma_children_view(&document);
        }
        Some(document.children)
    } else {
        None
    }
}

/// Attributes as text: before each a blank, its value escaped and in
/// double quotes.
pub open spec fn attributes_text(attributes: Seq<AttributeView>) -> Seq<char>
    decreases attributes.len(),
{
    if attributes.len() == 0 {
        Seq::empty()
    } else {
        attributes_text(attributes.drop_last()) + " "@ + attributes.last().name + "=\""@
            + xml_escaped(attributes.last().value) + "\""@
    }
}

/// An element as text. One without children is written as an
/// empty-element tag.
pub open spec fn element_text(e: ElementView) -> Seq<char>
    decreases e, 0nat,
{
    if e.children.len() == 0 {
        "<"@ + e.name + attributes_text(e.attributes) + "/>"@
    } else {
        "<"@ + e.name + attributes_text(e.attributes) + ">"@ + forest_text(
            e.children,
            e.children.len(),
        ) + "</"@ + e.name + ">"@
    }
}

/// The first `n` of `elements` as text, one after the other.
pub open spec fn forest_text(elements: Seq<ElementView>, n: nat) -> Seq<char>
    decreases elements, n,
{
    if n == 0 || n > elements.len() {
        Seq::empty()
    } else {
        forest_text(elements, (n - 1) as nat) + element_text(elements[n - 1])
    }
}

/// Writes `attributes` behind what `out` holds.
pub fn write_attributes(attributes: &Vec<Attribute>, out: &mut String)
    ensures
        final(out)@ == old(out)@ + attributes_text(attributes.deep_view()),
{
    let ghost views = attributes.deep_view();
    let mut i: usize = 0;
    assert(views.take(0) =~= Seq::<AttributeView>::empty());
    assert(out@ =~= old(out)@ + attributes_text(views.take(0)));
    while i < attributes.len()
        invariant
            i <= attributes.len(),
            views == attributes.deep_view(),
            out@ == old(out)@ + attributes_text(views.take(i as int)),
        decreases attributes.len() - i,
    {
        let value = escape_value(attributes[i].value.as_str());
        out.append(" ");
        out.append(attributes[i].name.as_str());
        out.append("=\"");
        out.append(value.as_str());
        out.append("\"");
        proof {
            assert(views.take(i + 1).drop_last() =~= views.take(i as int));
            assert(views.take(i + 1).last() == attributes[i as int].deep_view());
            assert(out@ =~= old(out)@ + attributes_text(views.take(i + 1)));
        }
        i += 1;
    }
    assert(views.take(i as int) =~= views);
}

/// Writes `e` as text behind what `out` holds.
pub fn write_element(e: &Element, out: &mut String)
    ensures
        final(out)@ == old(out)@ + element_text(e.deep_view()),
    decreases e,
{
    let ghost view = e.deep_view();
    proof {
        lemma_children_view(e);
    }
    out.append("<");
    out.append(e.name.as_str());
    write_attributes(&e.attributes, out);
    if e.children.len() == 0 {
        out.append("/>");
        assert(out@ =~= old(out)@ + element_text(view));
    } else {
        out.append(">");
        let ghost head = out@;
        let mut i: usize = 0;
        assert(out@ =~= head + forest_text(view.children, 0));
        while i < e.children.len()
            invariant
                i <= e.children.len(),
                view == e.deep_view(),
                view.children == e.children.deep_view(),
                out@ == head + forest_text(view.children, i as nat),
            decreases e.children.len() - i,
        {
            write_element(&e.children[i], out);
            proof {
                assert(view.children[i as int] == e.children[i as int].deep_view());
                assert(out@ =~= head + forest_text(view.children, (i + 1) as nat));
            }
            i += 1;
        }
        out.append("</");
        out.append(e.name.as_str());
        out.append(">");
        assert(out@ =~= old(out)@ + element_text(view));
    }
}
} // verus!
