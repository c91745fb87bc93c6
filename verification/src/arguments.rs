use vstd::prelude::*;
use crate::formatter::{formats_as, AsFormat, Format, FormatRef, FormatResult, Formatted, Formatter};
use crate::format_element::Element;

verus! {

/// What writing `results` in order does: their elements one after another,
/// up to and including the first that fails, whose error it stops with.
pub open spec fn concat(results: Seq<Formatted>) -> Formatted
    decreases results.len(),
{
    if results.len() == 0 {
        Formatted::ok(Seq::empty())
    } else {
        let prefix = concat(results.drop_last());
        if prefix.error is Some {
            prefix
        } else {
            Formatted { written: prefix.written + results.last().written, error: results.last().error }
        }
    }
}

/// The elements written by each of `results`, in order.
pub open spec fn writes(results: Seq<Formatted>) -> Seq<Seq<Element>> {
    results.map_values(|r: Formatted| r.written)
}

/// Once a prefix of `results` fails, the whole does exactly what that prefix
/// does: nothing after it is written.
pub proof fn lemma_concat_first_error(results: Seq<Formatted>, k: int)
    requires
        0 <= k <= results.len(),
        concat(results.take(k)).error is Some,
    ensures
        concat(results) == concat(results.take(k)),
    decreases results.len(),
{
    if k == results.len() {
        assert(results.take(k) =~= results);
    } else {
        assert(results.drop_last().take(k) =~= results.take(k));
        lemma_concat_first_error(results.drop_last(), k);
    }
}

/// Writing the sequence `a` and then, if that succeeded, the sequence `b`
/// is writing `a + b`.
pub proof fn lemma_concat_append(a: Seq<Formatted>, b: Seq<Formatted>)
    ensures
        concat(a + b) == concat(seq![concat(a), concat(b)]),
    decreases b.len(),
{
    reveal_with_fuel(concat, 3);
    let ca = concat(a);
    assert(seq![ca].drop_last() =~= Seq::<Formatted>::empty());
    assert(Seq::<Element>::empty() + ca.written =~= ca.written);
    if b.len() == 0 {
        assert(a + b =~= a);
        assert(ca.written + Seq::<Element>::empty() =~= ca.written);
    } else {
        assert((a + b).drop_last() =~= a + b.drop_last());
        assert((a + b).last() == b.last());
        lemma_concat_append(a, b.drop_last());
        let cb = concat(b.drop_last());
        assert(ca.written + cb.written + b.last().written =~= ca.written + (cb.written
            + b.last().written));
    }
}

/// An argument that itself writes the sequence `inner` (nested arguments)
/// formats exactly as `inner` spliced into the enclosing sequence.
pub proof fn lemma_concat_nested(before: Seq<Formatted>, inner: Seq<Formatted>, after: Seq<Formatted>)
    ensures
        concat(before + seq![concat(inner)] + after) == concat(before + inner + after),
{
    reveal_with_fuel(concat, 3);
    lemma_concat_append(before + seq![concat(inner)], after);
    lemma_concat_append(before, seq![concat(inner)]);
    lemma_concat_append(before + inner, after);
    lemma_concat_append(before, inner);
    let one = seq![concat(inner)];
    assert(one.drop_last() =~= Seq::<Formatted>::empty());
    assert(Seq::<Element>::empty() + concat(inner).written =~= concat(inner).written);
}

/// A sequence of results is written in full exactly when each of them
/// succeeds, and then it writes their elements one after another.
pub proof fn lemma_concat_ok(results: Seq<Formatted>)
    ensures
        concat(results).error is None <==> forall|i: int|
            0 <= i < results.len() ==> (#[trigger] results[i]).error is None,
        concat(results).error is None ==> concat(results).written == writes(results).flatten(),
    decreases results.len(),
{
    if results.len() > 0 {
        let init = results.drop_last();
        lemma_concat_ok(init);
        let outs = writes(results);
        assert(outs.drop_last() =~= writes(init));
        if concat(results).error is None {
            assert forall|i: int| 0 <= i < results.len() implies (#[trigger] results[i]).error is None by {
                if i < results.len() - 1 {
                    assert(init[i] == results[i]);
                }
            }
            outs.lemma_flatten_and_flatten_alt_are_equivalent();
            outs.drop_last().lemma_flatten_and_flatten_alt_are_equivalent();
        } else {
            if forall|i: int| 0 <= i < results.len() ==> (#[trigger] results[i]).error is None {
                assert forall|i: int| 0 <= i < init.len() implies (#[trigger] init[i]).error is None by {
                    assert(results[i].error is None);
                }
                assert(results[results.len() - 1].error is None);
            }
        }
    } else {
        assert(writes(results) =~= Seq::empty());
    }
}

/// When every result before the `k`-th succeeds and the `k`-th fails, the
/// sequence fails with the `k`-th error, having written the elements of the
/// first `k + 1` results, in order, and nothing after them.
pub proof fn lemma_concat_first_failure(results: Seq<Formatted>, k: int)
    requires
        0 <= k < results.len(),
        forall|i: int| 0 <= i < k ==> (#[trigger] results[i]).error is None,
        results[k].error is Some,
    ensures
        concat(results).error == results[k].error,
        concat(results).written == writes(results.take(k + 1)).flatten(),
{
    let pre = results.take(k);
    lemma_concat_ok(pre);
    assert forall|i: int| 0 <= i < k implies (#[trigger] pre[i]).error is None by {
        assert(pre[i] == results[i]);
    }
    let upto = results.take(k + 1);
    assert(upto.drop_last() =~= pre);
    lemma_concat_first_error(results, k + 1);
    let outs = writes(upto);
    assert(outs.drop_last() =~= writes(pre));
    outs.lemma_flatten_and_flatten_alt_are_equivalent();
    outs.drop_last().lemma_flatten_and_flatten_alt_are_equivalent();
}

/// A value pending for formatting, whatever its type.
#[verifier::reject_recursive_types(O)]
pub struct Argument<'fmt, O> {
    /// The value to format.
    value: FormatRef<'fmt, O>,
}

impl<'fmt, O> Argument<'fmt, O> {
    /// What formatting this argument writes: what its value writes.
    pub closed spec fn view(&self) -> Formatted {
        self.value.0.formatted()
    }

    /// An argument that formats `value`.
    pub fn new<F: AsFormat<O>>(value: &'fmt F) -> (r: Argument<'fmt, O>)
        ensures
            r@ == value.formatted(),
    {
        Argument { value: value.as_format() }
    }

    /// Formats the value stored by this argument using the given formatter.
    pub fn format(&self, formatter: &mut Formatter<O>) -> (r: FormatResult<()>)
        ensures
            formats_as(r, old(formatter)@, final(formatter)@, self@),
    {
        self.value.0.format(formatter)
    }
}

/// A sequence of values to be formatted one after another.
#[verifier::reject_recursive_types(O)]
pub struct Arguments<'fmt, O>(pub &'fmt [Argument<'fmt, O>]);

impl<'fmt, O> Clone for Arguments<'fmt, O> {
    /// The same arguments: the clone refers to the same slice.
    fn clone(&self) -> (r: Self)
        ensures
            r == *self,
    {
        Arguments(self.0)
    }
}

impl<'fmt, O> Copy for Arguments<'fmt, O> {}

impl<'fmt, O> Arguments<'fmt, O> {
    /// What each argument writes, in order.
    pub open spec fn results(&self) -> Seq<Formatted> {
        self.0@.map_values(|a: Argument<'fmt, O>| a@)
    }

    /// The arguments `arguments`, in order.
    pub fn new(arguments: &'fmt [Argument<'fmt, O>]) -> (r: Arguments<'fmt, O>)
        ensures
            r.0@ == arguments@,
    {
        Arguments(arguments)
    }

    /// Returns the arguments.
    pub fn items(&self) -> (r: &'fmt [Argument<'fmt, O>])
        ensures
            r@ == self.0@,
    {
        self.0
    }
}

impl<'fmt, O> Format<O> for Arguments<'fmt, O> {
    open spec fn formatted(&self) -> Formatted {
        concat(self.results())
    }

    fn format(&self, formatter: &mut Formatter<O>) -> (r: FormatResult<()>) {
        formatter.write_fmt(Arguments(self.0))
    }
}

impl<'fmt, O> AsFormat<O> for Arguments<'fmt, O> {
    fn as_format(&self) -> (r: FormatRef<'_, O>) {
        FormatRef(self)
    }
}

/// The elements that the first `n` of `args` write, one after another.
pub open spec fn written_by_first<'fmt, O>(args: Arguments<'fmt, O>, n: int) -> Seq<Element> {
    Seq::new(n as nat, |i: int| args.0@[i]@.written).flatten()
}

/// Formatting arguments of which none fails succeeds and writes every
/// argument's elements, in the order of the slice, and nothing else.
pub proof fn law_arguments_write_every_argument_in_order<'fmt, O>(args: Arguments<'fmt, O>)
    requires
        forall|i: int| 0 <= i < args.0@.len() ==> (#[trigger] args.0@[i])@.error is None,
    ensures
        args.formatted() == Formatted::ok(written_by_first(args, args.0@.len() as int)),
{
    let results = args.results();
    lemma_concat_ok(results);
    assert forall|i: int| 0 <= i < results.len() implies (#[trigger] results[i]).error is None by {
        assert(results[i] == args.0@[i]@);
    }
    assert(writes(results) =~= Seq::new(args.0@.len(), |i: int| args.0@[i]@.written));
}

/// Formatting arguments whose `k`-th argument is the first to fail fails
/// with that argument's error, having written the elements of the arguments
/// up to and including it, in order, and nothing of those after it.
pub proof fn law_arguments_stop_at_first_failure<'fmt, O>(args: Arguments<'fmt, O>, k: int)
    requires
        0 <= k < args.0@.len(),
        forall|i: int| 0 <= i < k ==> (#[trigger] args.0@[i])@.error is None,
        args.0@[k]@.error is Some,
    ensures
        args.formatted().error == args.0@[k]@.error,
        args.formatted().written == written_by_first(args, k + 1),
{
    let results = args.results();
    assert forall|i: int| 0 <= i < k implies (#[trigger] results[i]).error is None by {
        assert(results[i] == args.0@[i]@);
    }
    assert(results[k] == args.0@[k]@);
    lemma_concat_first_failure(results, k);
    assert(writes(results.take(k + 1)) =~= Seq::new((k + 1) as nat, |i: int| args.0@[i]@.written));
}

/// Formatting arguments fails exactly when one of them fails.
pub proof fn law_arguments_fail_iff_an_argument_fails<'fmt, O>(args: Arguments<'fmt, O>)
    ensures
        args.formatted().error is Some <==> exists|i: int|
            0 <= i < args.0@.len() && (#[trigger] args.0@[i])@.error is Some,
{
    let results = args.results();
    lemma_concat_ok(results);
    if exists|i: int| 0 <= i < args.0@.len() && (#[trigger] args.0@[i])@.error is Some {
        let i = choose|i: int| 0 <= i < args.0@.len() && (#[trigger] args.0@[i])@.error is Some;
        assert(results[i] == args.0@[i]@);
    } else {
        assert forall|i: int| 0 <= i < results.len() implies (#[trigger] results[i]).error is None by {
            assert(results[i] == args.0@[i]@);
        }
    }
}

} // verus!
