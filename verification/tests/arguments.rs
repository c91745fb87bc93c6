use rome_formatter::{
    group_elements, space_token, token, Argument, Arguments, Document, Format, FormatElement,
    FormatState, Formatter, Group, List, Token, VecBuffer,
};

#[test]
fn test_nesting() {
    // Format_arguments not very useful, but I guess the same as normal format_args

    let mut state = FormatState::new(());
    let mut buffer = VecBuffer::new(&mut state);

    buffer
        .write_fmt(Arguments::new(&[
            Argument::new(&token("function")),
            Argument::new(&space_token()),
            Argument::new(&token("a")),
            Argument::new(&space_token()),
            Argument::new(&group_elements(&Arguments::new(&[
                Argument::new(&token("(")),
                Argument::new(&token(")")),
            ]))),
        ]))
        .unwrap();

    assert_eq!(
        buffer.into_document(),
        Document::from_iter(vec![
            FormatElement::Token(Token::Static { text: "function" }),
            FormatElement::Space,
            FormatElement::Token(Token::Static { text: "a" }),
            FormatElement::Space,
            FormatElement::Group(Group::new(FormatElement::List(List::new(vec![
                FormatElement::Token(Token::Static { text: "(" }),
                FormatElement::Token(Token::Static { text: ")" }),
            ]))))
        ])
    );
}

fn document(f: Formatter<()>) -> Document {
    Document::from_iter(f.into_elements())
}

#[test]
fn argument_formats_as_its_value() {
    let t = token("x");
    let argument: Argument<'_, ()> = Argument::new(&t);
    let mut f = Formatter::new();
    assert_eq!(argument.format(&mut f), Ok(()));
    assert_eq!(
        document(f),
        Document::from_iter(vec![FormatElement::Token(Token::Static { text: "x" })])
    );
}

#[test]
fn empty_arguments_write_nothing() {
    let arguments: Arguments<'_, ()> = Arguments::new(&[]);
    let mut f = Formatter::new();
    assert_eq!(arguments.format(&mut f), Ok(()));
    assert_eq!(arguments.items().len(), 0);
    assert_eq!(document(f), Document::from_iter(vec![]));
}

#[test]
fn nested_arguments_flatten() {
    let mut nested = Formatter::<()>::new();
    Arguments::new(&[
        Argument::new(&token("a")),
        Argument::new(&Arguments::new(&[
            Argument::new(&space_token()),
            Argument::new(&token("b")),
        ])),
        Argument::new(&token("c")),
    ])
    .format(&mut nested)
    .unwrap();

    let mut flat = Formatter::<()>::new();
    Arguments::new(&[
        Argument::new(&token("a")),
        Argument::new(&space_token()),
        Argument::new(&token("b")),
        Argument::new(&token("c")),
    ])
    .format(&mut flat)
    .unwrap();

    assert_eq!(document(nested), document(flat));
}

#[test]
fn writing_appends_to_what_is_there() {
    let mut state = FormatState::new(7u32);
    assert_eq!(*state.context(), 7);
    let mut buffer = VecBuffer::new(&mut state);
    buffer.write_element(FormatElement::Space);
    buffer
        .write_fmt(Arguments::new(&[Argument::new(&token("z"))]))
        .unwrap();
    buffer.write_fmt(Arguments::new(&[])).unwrap();
    assert_eq!(
        buffer.into_document(),
        Document::from_iter(vec![
            FormatElement::Space,
            FormatElement::Token(Token::Static { text: "z" }),
        ])
    );
}

#[test]
fn group_of_nothing_is_an_empty_list() {
    let mut f = Formatter::<()>::new();
    let empty: Arguments<'_, ()> = Arguments::new(&[]);
    group_elements(&empty).format(&mut f).unwrap();
    assert_eq!(
        document(f),
        Document::from_iter(vec![FormatElement::Group(Group::new(FormatElement::List(
            List::new(vec![])
        )))])
    );
}

#[test]
fn clone_of_arguments_keeps_the_slice() {
    let t = token("x");
    let items: [Argument<'_, ()>; 1] = [Argument::new(&t)];
    let arguments = Arguments::new(&items);
    #[allow(clippy::clone_on_copy)]
    let cloned = arguments.clone();
    assert!(std::ptr::eq(cloned.items(), arguments.items()));
    assert_eq!(cloned.items().len(), 1);
    let mut f = Formatter::new();
    cloned.format(&mut f).unwrap();
    assert_eq!(
        document(f),
        Document::from_iter(vec![FormatElement::Token(Token::Static { text: "x" })])
    );
}
