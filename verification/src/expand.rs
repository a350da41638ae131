//! The expansion itself: `n` copies of the body, each prefixed by a
//! binding of the binder to its index, joined with commas and wrapped
//! in brackets (array) or parentheses (tuple).

use vstd::prelude::*;
use vstd::string::*;
use crate::digits::{dec_digits, dec_string};
use crate::parse::{ParseError, parse_invocation, spec_parse};
use crate::token::{Delimiter, Spacing, Token, TokenModel, clone_tokens, lemma_tokens_model, token_model, tokens_model};

verus! {

/// The copy of the body for one index: a braced block that binds the
/// binder to the index's decimal literal and then runs the body block.
pub open spec fn copy_model(
    binder: Seq<char>,
    binder_raw: bool,
    index: nat,
    body: Seq<TokenModel>,
) -> TokenModel {
    TokenModel::Group {
        delim: Delimiter::Brace,
        items: seq![
            TokenModel::Ident { name: "let"@, raw: false },
            TokenModel::Ident { name: binder, raw: binder_raw },
            TokenModel::Punct { ch: '=', spacing: Spacing::Alone },
            TokenModel::Lit { text: dec_digits(index) },
            TokenModel::Punct { ch: ';', spacing: Spacing::Alone },
            TokenModel::Group { delim: Delimiter::Brace, items: body },
        ],
    }
}

/// The `n` body copies, in ascending index order.
pub open spec fn copies(
    n: nat,
    binder: Seq<char>,
    binder_raw: bool,
    body: Seq<TokenModel>,
) -> Seq<TokenModel> {
    Seq::new(n, |k: int| copy_model(binder, binder_raw, k as nat, body))
}

/// A list of elements joined by comma tokens: elements at the even
/// positions, a comma between each pair of neighbours.
pub open spec fn comma_joined(elems: Seq<TokenModel>) -> Seq<TokenModel> {
    if elems.len() == 0 {
        Seq::empty()
    } else {
        Seq::new(
            (2 * elems.len() - 1) as nat,
            |j: int| if j % 2 == 0 {
                elems[j / 2]
            } else {
                TokenModel::Punct { ch: ',', spacing: Spacing::Alone }
            },
        )
    }
}

/// The elements of a comma-joined list: what stands at the even
/// positions.
pub open spec fn elements_of(list: Seq<TokenModel>) -> Seq<TokenModel> {
    Seq::new((list.len() + 1) / 2, |k: int| list[2 * k])
}

/// The whole array expansion: the comma-joined copies in brackets.
pub open spec fn array_expansion(
    n: nat,
    binder: Seq<char>,
    binder_raw: bool,
    body: Seq<TokenModel>,
) -> TokenModel {
    TokenModel::Group {
        delim: Delimiter::Bracket,
        items: comma_joined(copies(n, binder, binder_raw, body)),
    }
}

/// The whole tuple expansion: the comma-joined copies in parentheses,
/// with a trailing comma when there is exactly one copy, so that the
/// result stays a tuple rather than a parenthesized expression.
pub open spec fn tuple_expansion(
    n: nat,
    binder: Seq<char>,
    binder_raw: bool,
    body: Seq<TokenModel>,
) -> TokenModel {
    TokenModel::Group {
        delim: Delimiter::Paren,
        items: if n == 1 {
            comma_joined(copies(n, binder, binder_raw, body)).push(
                TokenModel::Punct { ch: ',', spacing: Spacing::Alone },
            )
        } else {
            comma_joined(copies(n, binder, binder_raw, body))
        },
    }
}

/// Builds the body copy for one index.
pub fn make_copy(binder: &String, binder_raw: bool, index: usize, body: &Vec<Token>) -> (t: Token)
    ensures
        t@ == copy_model(binder@, binder_raw, index as nat, tokens_model(body@)),
{
    let mut items: Vec<Token> = Vec::new();
    items.push(Token::Ident { name: String::from_str("let"), raw: false });
    items.push(Token::Ident { name: binder.clone(), raw: binder_raw });
    items.push(Token::Punct { ch: '=', spacing: Spacing::Alone });
    items.push(Token::Lit { text: dec_string(index) });
    items.push(Token::Punct { ch: ';', spacing: Spacing::Alone });
    items.push(Token::Group { delim: Delimiter::Brace, items: clone_tokens(body) });
    let ghost items_view = items@;
    let t = Token::Group { delim: Delimiter::Brace, items };
    proof {
        lemma_tokens_model(items_view);
        assert(tokens_model(items_view) =~= copy_model(
            binder@,
            binder_raw,
            index as nat,
            tokens_model(body@),
        )->items);
    }
    t
}

/// Builds the comma-joined list of the `count` body copies.
pub fn expand(count: usize, binder: &String, binder_raw: bool, body: &Vec<Token>) -> (out: Vec<
    Token,
>)
    ensures
        tokens_model(out@) == comma_joined(
            copies(count as nat, binder@, binder_raw, tokens_model(body@)),
        ),
{
    let mut out: Vec<Token> = Vec::new();
    let mut i: usize = 0;
    while i < count
        invariant
            i <= count,
            out.len() == if i == 0 { 0int } else { 2 * i - 1 },
            forall|j: int| 0 <= j < out.len() ==> token_model(#[trigger] out@[j]) == (
                if j % 2 == 0 {
                    copy_model(binder@, binder_raw, (j / 2) as nat, tokens_model(body@))
                } else {
                    TokenModel::Punct { ch: ',', spacing: Spacing::Alone }
                }
            ),
        decreases count - i,
    {
        if i > 0 {
            out.push(Token::Punct { ch: ',', spacing: Spacing::Alone });
        }
        out.push(make_copy(binder, binder_raw, i, body));
        i = i + 1;
    }
    proof {
        lemma_tokens_model(out@);
        assert(tokens_model(out@) =~= comma_joined(
            copies(count as nat, binder@, binder_raw, tokens_model(body@)),
        ));
    }
    out
}

/// Expands an `array` invocation: on success a bracket group holding
/// the comma-joined body copies, on failure the parse error, with no
/// output.
pub fn array(tokens: &Vec<Token>) -> (r: Result<Token, ParseError>)
    ensures
        ({
            let p = spec_parse(tokens_model(tokens@));
            match r {
                Ok(t) => p matches Ok(m) && t@ == array_expansion(
                    m.count,
                    m.binder,
                    m.binder_raw,
                    m.body,
                ),
                Err(e) => p matches Err(pe) && pe == e,
            }
        }),
{
    let inv = match parse_invocation(tokens) {
        Ok(inv) => inv,
        Err(e) => {
            return Err(e);
        },
    };
    let items = expand(inv.count, &inv.binder, inv.binder_raw, &inv.body);
    Ok(Token::Group { delim: Delimiter::Bracket, items })
}

/// Expands a `tuple` invocation: on success a parenthesis group
/// holding the comma-joined body copies (with a trailing comma when
/// the count is one), on failure the parse error, with no output.
pub fn tuple(tokens: &Vec<Token>) -> (r: Result<Token, ParseError>)
    ensures
        ({
            let p = spec_parse(tokens_model(tokens@));
            match r {
                Ok(t) => p matches Ok(m) && t@ == tuple_expansion(
                    m.count,
                    m.binder,
                    m.binder_raw,
                    m.body,
                ),
                Err(e) => p matches Err(pe) && pe == e,
            }
        }),
{
    let inv = match parse_invocation(tokens) {
        Ok(inv) => inv,
        Err(e) => {
            return Err(e);
        },
    };
    let mut items = expand(inv.count, &inv.binder, inv.binder_raw, &inv.body);
    if inv.count == 1 {
        let ghost before = items@;
        items.push(Token::Punct { ch: ',', spacing: Spacing::Alone });
        proof {
            lemma_tokens_model(before);
            lemma_tokens_model(items@);
            assert(tokens_model(items@) =~= tokens_model(before).push(
                TokenModel::Punct { ch: ',', spacing: Spacing::Alone },
            ));
        }
    }
    Ok(Token::Group { delim: Delimiter::Paren, items })
}

} // verus!
