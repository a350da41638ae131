//! The laws of the expander, stated over the mathematical models that
//! the public functions' contracts use.

use vstd::prelude::*;
use crate::digits::{dec_digits, dec_value, lemma_dec_digits_roundtrip};
use crate::expand::{array_expansion, comma_joined, copies, copy_model, elements_of, tuple_expansion};
use crate::token::{Delimiter, Spacing, TokenModel};

verus! {

/// For every count, binder, and body, the array expansion is a bracket
/// group and the tuple expansion a parenthesis group, each holding
/// exactly `n` elements, in ascending index order: the element at
/// position `k` is the copy of the body whose binder literal denotes
/// `k`.
pub proof fn lemma_expansion_elements(
    n: nat,
    binder: Seq<char>,
    binder_raw: bool,
    body: Seq<TokenModel>,
)
    ensures
        array_expansion(n, binder, binder_raw, body)->delim == Delimiter::Bracket,
        tuple_expansion(n, binder, binder_raw, body)->delim == Delimiter::Paren,
        elements_of(array_expansion(n, binder, binder_raw, body)->items) == copies(
            n,
            binder,
            binder_raw,
            body,
        ),
        elements_of(tuple_expansion(n, binder, binder_raw, body)->items) == copies(
            n,
            binder,
            binder_raw,
            body,
        ),
        copies(n, binder, binder_raw, body).len() == n,
        forall|k: int|
            0 <= k < n ==> #[trigger] copies(n, binder, binder_raw, body)[k] == copy_model(
                binder,
                binder_raw,
                k as nat,
                body,
            ),
        forall|k: nat|
            k < n ==> dec_value(
                #[trigger] copy_model(binder, binder_raw, k, body)->items[3]->text,
            ) == k,
{
    let cs = copies(n, binder, binder_raw, body);
    assert(elements_of(comma_joined(cs)) =~= cs);
    if n == 1 {
        assert(elements_of(
            comma_joined(cs).push(TokenModel::Punct { ch: ',', spacing: Spacing::Alone }),
        ) =~= cs);
    }
    assert forall|k: nat| k < n implies dec_value(
        #[trigger] copy_model(binder, binder_raw, k, body)->items[3]->text,
    ) == k by {
        lemma_dec_digits_roundtrip(k);
        assert(copy_model(binder, binder_raw, k, body)->items[3] == TokenModel::Lit {
            text: dec_digits(k),
        });
    }
}

/// A count of zero yields an empty array and an empty tuple, each a
/// well-formed standalone group with nothing inside.
pub proof fn lemma_empty_expansion(binder: Seq<char>, binder_raw: bool, body: Seq<TokenModel>)
    ensures
        array_expansion(0, binder, binder_raw, body) == (TokenModel::Group {
            delim: Delimiter::Bracket,
            items: Seq::<TokenModel>::empty(),
        }),
        tuple_expansion(0, binder, binder_raw, body) == (TokenModel::Group {
            delim: Delimiter::Paren,
            items: Seq::<TokenModel>::empty(),
        }),
{
    assert(comma_joined(copies(0, binder, binder_raw, body)) =~= Seq::<TokenModel>::empty());
}

/// A count of one yields a single-element array, and a tuple whose
/// single element is followed by a trailing comma, which keeps the
/// tuple form distinct from a parenthesized expression.
pub proof fn lemma_single_expansion(binder: Seq<char>, binder_raw: bool, body: Seq<TokenModel>)
    ensures
        array_expansion(1, binder, binder_raw, body)->items == seq![
            copy_model(binder, binder_raw, 0, body),
        ],
        tuple_expansion(1, binder, binder_raw, body)->items == seq![
            copy_model(binder, binder_raw, 0, body),
            TokenModel::Punct { ch: ',', spacing: Spacing::Alone },
        ],
{
    assert(comma_joined(copies(1, binder, binder_raw, body)) =~= seq![
        copy_model(binder, binder_raw, 0, body),
    ]);
    assert(comma_joined(copies(1, binder, binder_raw, body)).push(
        TokenModel::Punct { ch: ',', spacing: Spacing::Alone },
    ) =~= seq![
        copy_model(binder, binder_raw, 0, body),
        TokenModel::Punct { ch: ',', spacing: Spacing::Alone },
    ]);
}

/// Expansion is a function of the invocation alone: two expansions of
/// the same count, binder, and body are identical, token for token.
pub proof fn lemma_expansion_deterministic(
    a1: TokenModel,
    a2: TokenModel,
    t1: TokenModel,
    t2: TokenModel,
    n: nat,
    binder: Seq<char>,
    binder_raw: bool,
    body: Seq<TokenModel>,
)
    requires
        a1 == array_expansion(n, binder, binder_raw, body),
        a2 == array_expansion(n, binder, binder_raw, body),
        t1 == tuple_expansion(n, binder, binder_raw, body),
        t2 == tuple_expansion(n, binder, binder_raw, body),
    ensures
        a1 == a2,
        t1 == t2,
{
}

} // verus!
