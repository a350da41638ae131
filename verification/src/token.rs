//! The token-tree model the expander works on, and its mathematical view.

use vstd::prelude::*;

verus! {

/// The three bracket shapes a token group can carry.
#[derive(Clone, Copy, PartialEq, Eq, Structural, Debug)]
pub enum Delimiter {
    Paren,
    Bracket,
    Brace,
}

/// Whether a punctuation character may join with the next one to form
/// a longer operator (`Joint`), or certainly ends its operator
/// (`Alone`). Losing this bit would turn `==` into `= =`.
#[derive(Clone, Copy, PartialEq, Eq, Structural, Debug)]
pub enum Spacing {
    Alone,
    Joint,
}

/// One node of a token tree: an identifier (possibly raw, as in
/// `r#type`), a punctuation character with its spacing, a literal
/// (held as its source text), or a delimited group of tokens.
#[derive(Debug, PartialEq, Eq)]
pub enum Token {
    Ident { name: String, raw: bool },
    Punct { ch: char, spacing: Spacing },
    Lit { text: String },
    Group { delim: Delimiter, items: Vec<Token> },
}

/// The mathematical shape of a token tree: the same structure with
/// strings as character sequences and groups as sequences of models.
#[verifier::ext_equal]
pub enum TokenModel {
    Ident { name: Seq<char>, raw: bool },
    Punct { ch: char, spacing: Spacing },
    Lit { text: Seq<char> },
    Group { delim: Delimiter, items: Seq<TokenModel> },
}

/// The mathematical shape of one token tree.
pub open spec fn token_model(t: Token) -> TokenModel
    decreases t,
{
    match t {
        Token::Ident { name, raw } => TokenModel::Ident { name: name@, raw },
        Token::Punct { ch, spacing } => TokenModel::Punct { ch, spacing },
        Token::Lit { text } => TokenModel::Lit { text: text@ },
        Token::Group { delim, items } => TokenModel::Group {
            delim,
            items: tokens_model(items@),
        },
    }
}

/// The mathematical shape of a token list, node by node.
pub open spec fn tokens_model(ts: Seq<Token>) -> Seq<TokenModel>
    decreases ts,
{
    if ts.len() == 0 {
        Seq::empty()
    } else {
        seq![token_model(ts[0])] + tokens_model(ts.subrange(1, ts.len() as int))
    }
}

/// A token list's shape has one model per token, in order.
pub broadcast proof fn lemma_tokens_model(ts: Seq<Token>)
    ensures
        (#[trigger] tokens_model(ts)).len() == ts.len(),
        forall|i: int| 0 <= i < ts.len() ==> tokens_model(ts)[i] == token_model(ts[i]),
    decreases ts,
{
    if ts.len() > 0 {
        lemma_tokens_model(ts.subrange(1, ts.len() as int));
    }
}

impl View for Token {
    type V = TokenModel;

    open spec fn view(&self) -> TokenModel {
        token_model(*self)
    }
}

impl Clone for Token {
    /// A clone of a token tree has the same mathematical shape.
    fn clone(&self) -> (res: Self)
        ensures
            res@ == self@,
        decreases self,
    {
        match self {
            Token::Ident { name, raw } => Token::Ident { name: name.clone(), raw: *raw },
            Token::Punct { ch, spacing } => Token::Punct { ch: *ch, spacing: *spacing },
            Token::Lit { text } => Token::Lit { text: text.clone() },
            Token::Group { delim, items } => {
                let res = Token::Group { delim: *delim, items: clone_tokens(items) };
                proof {
                    assert(res@ =~= self@);
                }
                res
            },
        }
    }
}

/// Clones a token list node by node, keeping its mathematical shape.
pub fn clone_tokens(tokens: &Vec<Token>) -> (res: Vec<Token>)
    ensures
        tokens_model(res@) == tokens_model(tokens@),
    decreases tokens,
{
    let mut res: Vec<Token> = Vec::new();
    let mut i: usize = 0;
    while i < tokens.len()
        invariant
            i <= tokens.len(),
            res.len() == i,
            forall|k: int| 0 <= k < i ==> token_model(res@[k]) == token_model(tokens@[k]),
        decreases tokens.len() - i,
    {
        res.push(tokens[i].clone());
        i = i + 1;
    }
    proof {
        lemma_tokens_model(res@);
        lemma_tokens_model(tokens@);
        assert(tokens_model(res@) =~= tokens_model(tokens@));
    }
    res
}

} // verus!
