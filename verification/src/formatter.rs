use vstd::prelude::*;
use core::marker::PhantomData;
use crate::arguments::{Arguments, concat};
use crate::format_element::{views, Document, Element, FormatElement};

verus! {

/// Why formatting a value failed.
#[derive(Debug, Clone, Copy, PartialEq, Eq)]
pub enum FormatError {
    /// The value holds a syntax error and cannot be formatted.
    SyntaxError,
}

pub type FormatResult<T> = Result<T, FormatError>;

/// What formatting a value does: the elements it writes, in order, and the
/// error it stops with, if any. Elements written before an error stay
/// written.
pub struct Formatted {
    pub written: Seq<Element>,
    pub error: Option<FormatError>,
}

impl Formatted {
    /// Writes `written` and succeeds.
    pub open spec fn ok(written: Seq<Element>) -> Formatted {
        Formatted { written, error: None }
    }

    /// The result that formatting returns.
    pub open spec fn result(self) -> FormatResult<()> {
        match self.error {
            None => Ok(()),
            Some(e) => Err(e),
        }
    }
}

/// The contract of every formattable value: `format` appends exactly the
/// elements that `formatted` names, keeps what was there before, and returns
/// the result it names, whether that is success or an error.
pub open spec fn formats_as(
    result: FormatResult<()>,
    before: Seq<Element>,
    after: Seq<Element>,
    expected: Formatted,
) -> bool {
    &&& after == before + expected.written
    &&& result == expected.result()
}

/// A value that can be written into a [`Formatter`].
///
/// What a value writes is a function of the value alone (`formatted`): the
/// contract of `format` holds every implementation verified here to it.
pub trait Format<O> {
    /// What formatting this value writes, and the error it stops with.
    spec fn formatted(&self) -> Formatted;

    /// Writes this value into `formatter`.
    fn format(&self, formatter: &mut Formatter<O>) -> (r: FormatResult<()>)
        ensures
            formats_as(r, old(formatter)@, final(formatter)@, self.formatted()),
    ;
}

/// A formattable value behind a trait object.
#[verifier::reject_recursive_types(O)]
pub struct FormatRef<'a, O>(pub &'a dyn Format<O>);

/// A formattable value that can hand itself out behind a trait object.
///
/// Each implementation is the one-line `FormatRef(self)`: the conversion to
/// a trait object is made where the value's type is known, so that what the
/// trait object formats to is known to be what the value formats to.
pub trait AsFormat<O>: Format<O> {
    fn as_format(&self) -> (r: FormatRef<'_, O>)
        ensures
            r.0.formatted() == self.formatted(),
    ;
}

/// State shared by the buffers of one formatting run.
pub struct FormatState<C> {
    context: C,
}

impl<C> FormatState<C> {
    pub closed spec fn context_spec(&self) -> C {
        self.context
    }

    /// A state that carries `context`.
    pub fn new(context: C) -> (r: FormatState<C>)
        ensures
            r.context_spec() == context,
    {
        FormatState { context }
    }

    /// The context of this run.
    pub fn context(&self) -> (r: &C)
        ensures
            *r == self.context_spec(),
    {
        &self.context
    }
}

/// What values are formatted into: the elements written so far, in order.
#[verifier::reject_recursive_types(O)]
pub struct Formatter<O> {
    elements: Vec<FormatElement>,
    options: PhantomData<O>,
}

impl<O> Formatter<O> {
    /// The models of the elements written so far.
    pub closed spec fn view(&self) -> Seq<Element> {
        views(self.elements@)
    }

    /// A formatter with nothing written.
    pub fn new() -> (r: Formatter<O>)
        ensures
            r@ == Seq::<Element>::empty(),
    {
        let r = Formatter { elements: Vec::new(), options: PhantomData };
        assert(r@ =~= Seq::<Element>::empty());
        r
    }

    /// Appends `element`.
    pub fn write_element(&mut self, element: FormatElement)
        ensures
            final(self)@ == old(self)@.push(element@),
    {
        let ghost before = self.elements@;
        self.elements.push(element);
        assert(views(self.elements@) =~= views(before).push(element@));
    }

    /// Writes each of `arguments`, in order, stopping at the first that fails.
    pub fn write_fmt(&mut self, arguments: Arguments<'_, O>) -> (r: FormatResult<()>)
        ensures
            formats_as(r, old(self)@, final(self)@, arguments.formatted()),
    {
        let items = arguments.items();
        let ghost results = arguments.results();
        let ghost start = self@;
        let mut i: usize = 0;
        while i < items.len()
            invariant
                i <= items@.len(),
                start == old(self)@,
                results == arguments.results(),
                results.len() == items@.len(),
                forall|j: int| 0 <= j < items@.len() ==> #[trigger] results[j] == items@[j]@,
                concat(results.take(i as int)).error is None,
                self@ == start + concat(results.take(i as int)).written,
            decreases items@.len() - i,
        {
            let ghost prefix = results.take(i as int);
            assert(results.take(i + 1).drop_last() =~= prefix);
            match items[i].format(self) {
                Ok(()) => {},
                Err(e) => {
                    proof {
                        assert(results.take(i + 1).last() == results[i as int]);
                        assert(concat(results.take(i + 1)).error == Some(e));
                        assert(self@ =~= start + concat(results.take(i + 1)).written);
                        crate::arguments::lemma_concat_first_error(results, i + 1);
                    }
                    return Err(e);
                },
            }
            proof {
                assert(self@ =~= start + concat(results.take(i + 1)).written);
            }
            i += 1;
        }
        assert(results.take(i as int) =~= results);
        Ok(())
    }

    /// The elements written, in order.
    pub fn into_elements(self) -> (r: Vec<FormatElement>)
        ensures
            views(r@) == self@,
    {
        self.elements
    }
}

/// A buffer that collects formatted elements into a [`Document`].
#[verifier::reject_recursive_types(O)]
pub struct VecBuffer<O> {
    formatter: Formatter<O>,
}

impl<O> VecBuffer<O> {
    /// The models of the elements written so far.
    pub closed spec fn view(&self) -> Seq<Element> {
        self.formatter@
    }

    /// An empty buffer for a run with `state`.
    pub fn new(state: &mut FormatState<O>) -> (r: VecBuffer<O>)
        ensures
            r@ == Seq::<Element>::empty(),
            *final(state) == *old(state),
    {
        VecBuffer { formatter: Formatter::new() }
    }

    /// Appends `element`.
    pub fn write_element(&mut self, element: FormatElement)
        ensures
            final(self)@ == old(self)@.push(element@),
    {
        self.formatter.write_element(element);
    }

    /// Writes each of `arguments`, in order, stopping at the first that fails.
    pub fn write_fmt(&mut self, arguments: Arguments<'_, O>) -> (r: FormatResult<()>)
        ensures
            formats_as(r, old(self)@, final(self)@, arguments.formatted()),
    {
        self.formatter.write_fmt(arguments)
    }

    /// The document of everything written, in order.
    pub fn into_document(self) -> (r: Document)
        ensures
            r@ == self@,
    {
        Document::from_iter(self.formatter.into_elements())
    }
}

} // verus!
