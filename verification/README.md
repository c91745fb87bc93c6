# rome_formatter (formatting arguments)

A small verified core of a document formatter: values that know how to
format themselves are collected, behind trait objects, into `Arguments`,
and written in order into a `Formatter` or `VecBuffer`, whose elements
become a `Document`.

Layout of `src/`:

- `format_element.rs` — the intermediate representation (`FormatElement`,
  `Token`, `Group`, `List`, `Document`) and its mathematical model `Element`.
- `formatter.rs` — the `Format` trait and its contract, `AsFormat` (the
  conversion to a trait object), `Formatter`, `VecBuffer`, `FormatState`.
- `arguments.rs` — `Argument`, `Arguments`, the spec `concat` of what a
  sequence of arguments writes, and its laws (append, nesting, success,
  first failure).
- `builders.rs` — `token`, `space_token`, `group_elements`.
- `type_member.rs` — the formatting rule that formats a TypeScript type
  member as the member node it holds.

Formatting is described by `Formatted`: the elements a value writes, in
order, and the error it stops with, if any. Elements written before an error
stay in the formatter.

The formatting rule for JavaScript `in` expressions is not included: all it
does is hand the expression to the shared binary-expression formatter, which
is not part of this crate.
