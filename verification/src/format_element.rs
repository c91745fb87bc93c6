use vstd::prelude::*;

verus! {

/// A token of source text.
#[derive(Debug, PartialEq, Eq)]
pub enum Token {
    /// Text known at compile time.
    Static { text: &'static str },
}

/// A group of content that the printer tries to fit on one line.
#[derive(Debug, PartialEq, Eq)]
pub struct Group {
    pub content: Box<FormatElement>,
}

/// A sequence of elements.
#[derive(Debug, PartialEq, Eq)]
pub struct List {
    pub content: Vec<FormatElement>,
}

/// The intermediate representation that formatting produces.
#[derive(Debug, PartialEq, Eq)]
pub enum FormatElement {
    Space,
    Token(Token),
    Group(Group),
    List(List),
}

/// Mathematical model of a [`FormatElement`].
pub enum Element {
    Space,
    Token(Seq<char>),
    Group(Box<Element>),
    List(Seq<Element>),
}

impl FormatElement {
    /// The model of this element.
    pub open spec fn view(&self) -> Element
        decreases self,
    {
        match self {
            FormatElement::Space => Element::Space,
            FormatElement::Token(Token::Static { text }) => Element::Token(text@),
            FormatElement::Group(g) => Element::Group(Box::new(g.content.view())),
            FormatElement::List(l) => Element::List(
                Seq::new(
                    l.content@.len(),
                    |i: int|
                        if 0 <= i < l.content@.len() {
                            l.content@[i].view()
                        } else {
                            Element::Space
                        },
                ),
            ),
        }
    }
}

/// The models of a sequence of elements, in order.
pub open spec fn views(elements: Seq<FormatElement>) -> Seq<Element> {
    elements.map_values(|e: FormatElement| e@)
}

/// A list's model is the models of its elements, in order.
pub proof fn lemma_list_view(l: List)
    ensures
        FormatElement::List(l)@ == Element::List(views(l.content@)),
{
    assert(views(l.content@) =~= (match FormatElement::List(l)@ {
        Element::List(s) => s,
        _ => Seq::empty(),
    }));
}

impl Group {
    /// A group around `content`.
    pub fn new(content: FormatElement) -> (r: Group)
        ensures
            *r.content == content,
    {
        Group { content: Box::new(content) }
    }
}

impl List {
    /// A list of `content`, in order.
    pub fn new(content: Vec<FormatElement>) -> (r: List)
        ensures
            r.content@ == content@,
    {
        List { content }
    }
}

/// The formatted document: the elements written to a buffer, in order.
#[derive(Debug, PartialEq, Eq)]
pub struct Document {
    elements: Vec<FormatElement>,
}

impl Document {
    /// The models of the document's elements.
    pub closed spec fn view(&self) -> Seq<Element> {
        views(self.elements@)
    }

    /// A document of `elements`, in order.
    pub fn from_iter(elements: Vec<FormatElement>) -> (r: Document)
        ensures
            r@ == views(elements@),
    {
        Document { elements }
    }
}

} // verus!
