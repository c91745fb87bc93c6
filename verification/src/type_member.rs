use vstd::prelude::*;
use crate::formatter::{formats_as, AsFormat, Format, FormatRef, FormatResult, Formatted, Formatter};

verus! {

/// A member of a TypeScript object type, holding the syntax node of its kind.
pub enum TsAnyTypeMember<C, P, K, M, G, S, I, U> {
    TsCallSignatureTypeMember(C),
    TsPropertySignatureTypeMember(P),
    TsConstructSignatureTypeMember(K),
    TsMethodSignatureTypeMember(M),
    TsGetterSignatureTypeMember(G),
    TsSetterSignatureTypeMember(S),
    TsIndexSignatureTypeMember(I),
    JsUnknownMember(U),
}

/// The formatting rule for [`TsAnyTypeMember`].
pub struct FormatTsAnyTypeMember;

impl FormatTsAnyTypeMember {
    /// Formats `node` as the member node that it holds.
    pub fn fmt<O, C, P, K, M, G, S, I, U>(
        node: &TsAnyTypeMember<C, P, K, M, G, S, I, U>,
        f: &mut Formatter<O>,
    ) -> (r: FormatResult<()>) where
        C: Format<O>,
        P: Format<O>,
        K: Format<O>,
        M: Format<O>,
        G: Format<O>,
        S: Format<O>,
        I: Format<O>,
        U: Format<O>,

        ensures
            formats_as(r, old(f)@, final(f)@, node.formatted()),
    {
        match node {
            TsAnyTypeMember::TsCallSignatureTypeMember(node) => node.format(f),
            TsAnyTypeMember::TsPropertySignatureTypeMember(node) => node.format(f),
            TsAnyTypeMember::TsConstructSignatureTypeMember(node) => node.format(f),
            TsAnyTypeMember::TsMethodSignatureTypeMember(node) => node.format(f),
            TsAnyTypeMember::TsGetterSignatureTypeMember(node) => node.format(f),
            TsAnyTypeMember::TsSetterSignatureTypeMember(node) => node.format(f),
            TsAnyTypeMember::TsIndexSignatureTypeMember(node) => node.format(f),
            TsAnyTypeMember::JsUnknownMember(node) => node.format(f),
        }
    }
}

impl<O, C, P, K, M, G, S, I, U> Format<O> for TsAnyTypeMember<C, P, K, M, G, S, I, U> where
    C: Format<O>,
    P: Format<O>,
    K: Format<O>,
    M: Format<O>,
    G: Format<O>,
    S: Format<O>,
    I: Format<O>,
    U: Format<O>,
 {
    /// A member formats as the node it holds.
    open spec fn formatted(&self) -> Formatted {
        match self {
            TsAnyTypeMember::TsCallSignatureTypeMember(node) => node.formatted(),
            TsAnyTypeMember::TsPropertySignatureTypeMember(node) => node.formatted(),
            TsAnyTypeMember::TsConstructSignatureTypeMember(node) => node.formatted(),
            TsAnyTypeMember::TsMethodSignatureTypeMember(node) => node.formatted(),
            TsAnyTypeMember::TsGetterSignatureTypeMember(node) => node.formatted(),
            TsAnyTypeMember::TsSetterSignatureTypeMember(node) => node.formatted(),
            TsAnyTypeMember::TsIndexSignatureTypeMember(node) => node.formatted(),
            TsAnyTypeMember::JsUnknownMember(node) => node.formatted(),
        }
    }

    fn format(&self, formatter: &mut Formatter<O>) -> (r: FormatResult<()>) {
        FormatTsAnyTypeMember::fmt(self, formatter)
    }
}

impl<O, C, P, K, M, G, S, I, U> AsFormat<O> for TsAnyTypeMember<C, P, K, M, G, S, I, U> where
    C: Format<O>,
    P: Format<O>,
    K: Format<O>,
    M: Format<O>,
    G: Format<O>,
    S: Format<O>,
    I: Format<O>,
    U: Format<O>,
 {
    fn as_format(&self) -> (r: FormatRef<'_, O>) {
        FormatRef(self)
    }
}

/// Whatever kind of member it is, a type member formats exactly as the node
/// it holds: the same elements and the same error.
pub proof fn law_member_formats_as_its_node<O, C, P, K, M, G, S, I, U>(
    c: C,
    p: P,
    k: K,
    m: M,
    g: G,
    s: S,
    i: I,
    u: U,
) where
    C: Format<O>,
    P: Format<O>,
    K: Format<O>,
    M: Format<O>,
    G: Format<O>,
    S: Format<O>,
    I: Format<O>,
    U: Format<O>,

    ensures
        TsAnyTypeMember::<C, P, K, M, G, S, I, U>::TsCallSignatureTypeMember(c).formatted()
            == c.formatted(),
        TsAnyTypeMember::<C, P, K, M, G, S, I, U>::TsPropertySignatureTypeMember(p).formatted()
            == p.formatted(),
        TsAnyTypeMember::<C, P, K, M, G, S, I, U>::TsConstructSignatureTypeMember(k).formatted()
            == k.formatted(),
        TsAnyTypeMember::<C, P, K, M, G, S, I, U>::TsMethodSignatureTypeMember(m).formatted()
            == m.formatted(),
        TsAnyTypeMember::<C, P, K, M, G, S, I, U>::TsGetterSignatureTypeMember(g).formatted()
            == g.formatted(),
        TsAnyTypeMember::<C, P, K, M, G, S, I, U>::TsSetterSignatureTypeMember(s).formatted()
            == s.formatted(),
        TsAnyTypeMember::<C, P, K, M, G, S, I, U>::TsIndexSignatureTypeMember(i).formatted()
            == i.formatted(),
        TsAnyTypeMember::<C, P, K, M, G, S, I, U>::JsUnknownMember(u).formatted() == u.formatted(),
{
}

} // verus!
