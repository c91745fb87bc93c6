use vstd::prelude::*;
use crate::arguments::Argument;
use crate::formatter::{AsFormat, Format, FormatRef, FormatResult, Formatted, Formatter};
use crate::format_element::{lemma_list_view, views, Element, FormatElement, Group, List, Token};

verus! {

/// Formats a token of static text.
pub struct StaticToken {
    text: &'static str,
}

impl StaticToken {
    /// The token's text.
    pub closed spec fn text(&self) -> Seq<char> {
        self.text@
    }
}

/// A token with the static text `text`.
pub fn token(text: &'static str) -> (r: StaticToken)
    ensures
        r.text() == text@,
{
    StaticToken { text }
}

impl<O> Format<O> for StaticToken {
    open spec fn formatted(&self) -> Formatted {
        Formatted::ok(seq![Element::Token(self.text())])
    }

    fn format(&self, formatter: &mut Formatter<O>) -> (r: FormatResult<()>) {
        let ghost before = formatter@;
        formatter.write_element(FormatElement::Token(Token::Static { text: self.text }));
        assert(formatter@ =~= before + seq![Element::Token(self.text())]);
        Ok(())
    }
}

impl<O> AsFormat<O> for StaticToken {
    fn as_format(&self) -> (r: FormatRef<'_, O>) {
        FormatRef(self)
    }
}

/// Formats a space.
pub struct Space;

/// A space.
pub fn space_token() -> Space {
    Space
}

impl<O> Format<O> for Space {
    open spec fn formatted(&self) -> Formatted {
        Formatted::ok(seq![Element::Space])
    }

    fn format(&self, formatter: &mut Formatter<O>) -> (r: FormatResult<()>) {
        let ghost before = formatter@;
        formatter.write_element(FormatElement::Space);
        assert(formatter@ =~= before + seq![Element::Space]);
        Ok(())
    }
}

impl<O> AsFormat<O> for Space {
    fn as_format(&self) -> (r: FormatRef<'_, O>) {
        FormatRef(self)
    }
}

/// Formats its content as one group.
#[verifier::reject_recursive_types(O)]
pub struct GroupElements<'a, O> {
    content: Argument<'a, O>,
}

impl<'a, O> GroupElements<'a, O> {
    /// What the content writes.
    pub closed spec fn content(&self) -> Formatted {
        self.content@
    }
}

/// A group of what `content` writes.
pub fn group_elements<'a, O, F: AsFormat<O>>(content: &'a F) -> (r: GroupElements<'a, O>)
    ensures
        r.content() == content.formatted(),
{
    GroupElements { content: Argument::new(content) }
}

impl<'a, O> Format<O> for GroupElements<'a, O> {
    /// One group of the content's elements; if the content fails, nothing
    /// is written and the content's error is returned.
    open spec fn formatted(&self) -> Formatted {
        match self.content().error {
            None => Formatted::ok(seq![Element::Group(Box::new(Element::List(self.content().written)))]),
            Some(e) => Formatted { written: Seq::empty(), error: Some(e) },
        }
    }

    fn format(&self, formatter: &mut Formatter<O>) -> (r: FormatResult<()>) {
        let mut content: Formatter<O> = Formatter::new();
        match self.content.format(&mut content) {
            Ok(()) => {},
            Err(e) => {
                assert(formatter@ =~= formatter@ + Seq::<Element>::empty());
                return Err(e);
            },
        }
        let elements = content.into_elements();
        let list = List::new(elements);
        let group = Group::new(FormatElement::List(list));
        let ghost inner = views(list.content@);
        proof {
            lemma_list_view(list);
            assert(inner =~= self.content().written);
        }
        let element = FormatElement::Group(group);
        let ghost before = formatter@;
        formatter.write_element(element);
        assert(formatter@ =~= before + seq![Element::Group(Box::new(Element::List(inner)))]);
        Ok(())
    }
}

impl<'a, O> AsFormat<O> for GroupElements<'a, O> {
    fn as_format(&self) -> (r: FormatRef<'_, O>) {
        FormatRef(self)
    }
}

/// Formatting a token of any static text succeeds and writes exactly one
/// element: a token of that text.
pub proof fn law_token_writes_its_text<O>(t: StaticToken)
    ensures
        <StaticToken as Format<O>>::formatted(&t).error is None,
        <StaticToken as Format<O>>::formatted(&t).written.len() == 1,
        <StaticToken as Format<O>>::formatted(&t).written[0] == Element::Token(t.text()),
{
}

/// Formatting a space succeeds and writes exactly one space.
pub proof fn law_space_writes_one_space<O>(s: Space)
    ensures
        <Space as Format<O>>::formatted(&s).error is None,
        <Space as Format<O>>::formatted(&s).written =~= seq![Element::Space],
{
}

/// A group whose content succeeds writes exactly one element: a group of a
/// list of every element the content writes, in order. A group whose
/// content fails writes nothing and fails with the content's error.
pub proof fn law_group_holds_all_its_content<'a, O>(g: GroupElements<'a, O>)
    ensures
        g.content().error is None ==> {
            &&& g.formatted().error is None
            &&& g.formatted().written.len() == 1
            &&& g.formatted().written[0] == Element::Group(Box::new(Element::List(g.content().written)))
        },
        g.content().error is Some ==> {
            &&& g.formatted().error == g.content().error
            &&& g.formatted().written.len() == 0
        },
{
}

} // verus!
