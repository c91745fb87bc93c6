use rome_formatter::{
    space_token, token, Document, Format, FormatElement, FormatTsAnyTypeMember, Formatter,
    Space, StaticToken, Token, TsAnyTypeMember,
};

type Member = TsAnyTypeMember<
    StaticToken,
    StaticToken,
    StaticToken,
    StaticToken,
    StaticToken,
    StaticToken,
    StaticToken,
    Space,
>;

fn formatted(member: &Member) -> Document {
    let mut f = Formatter::<()>::new();
    FormatTsAnyTypeMember::fmt(member, &mut f).unwrap();
    Document::from_iter(f.into_elements())
}

fn token_doc(text: &'static str) -> Document {
    Document::from_iter(vec![FormatElement::Token(Token::Static { text })])
}

#[test]
fn each_member_formats_as_its_node() {
    assert_eq!(
        formatted(&TsAnyTypeMember::TsCallSignatureTypeMember(token("call"))),
        token_doc("call")
    );
    assert_eq!(
        formatted(&TsAnyTypeMember::TsPropertySignatureTypeMember(token("prop"))),
        token_doc("prop")
    );
    assert_eq!(
        formatted(&TsAnyTypeMember::TsConstructSignatureTypeMember(token("new"))),
        token_doc("new")
    );
    assert_eq!(
        formatted(&TsAnyTypeMember::TsMethodSignatureTypeMember(token("m"))),
        token_doc("m")
    );
    assert_eq!(
        formatted(&TsAnyTypeMember::TsGetterSignatureTypeMember(token("get"))),
        token_doc("get")
    );
    assert_eq!(
        formatted(&TsAnyTypeMember::TsSetterSignatureTypeMember(token("set"))),
        token_doc("set")
    );
    assert_eq!(
        formatted(&TsAnyTypeMember::TsIndexSignatureTypeMember(token("[k]"))),
        token_doc("[k]")
    );
    assert_eq!(
        formatted(&TsAnyTypeMember::JsUnknownMember(space_token())),
        Document::from_iter(vec![FormatElement::Space])
    );
}

#[test]
fn member_format_matches_rule() {
    let member: Member = TsAnyTypeMember::TsMethodSignatureTypeMember(token("m"));
    let mut f = Formatter::<()>::new();
    member.format(&mut f).unwrap();
    assert_eq!(Document::from_iter(f.into_elements()), formatted(&member));
}
