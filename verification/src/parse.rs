//! Parsing of the invocation grammar: an integer literal (with an
//! optional minus sign), a comma, an identifier, a comma, and a braced
//! body, with nothing after it. The grammar is checked first; the
//! count is converted afterwards, as the algorithm's separate step.

use vstd::prelude::*;
use vstd::string::*;
use crate::digits::{is_int_literal, int_literal_value, is_int_literal_exec, int_literal_value_exec};
use crate::token::{Delimiter, Token, TokenModel, clone_tokens, tokens_model, lemma_tokens_model};

verus! {

/// Why an invocation was rejected.
#[derive(Clone, Copy, Debug, PartialEq, Eq, Structural)]
pub enum ParseError {
    /// The count position holds no literal.
    ExpectedCount,
    /// The count literal does not have integer-literal form.
    CountNotInteger,
    /// The count is negative: a minus sign stands in front of it.
    NegativeCount,
    /// The count does not fit the machine's word size.
    CountTooLarge,
    /// The comma after the count is missing.
    ExpectedCommaAfterCount,
    /// The binder position does not hold an identifier.
    ExpectedBinder,
    /// The comma after the binder is missing.
    ExpectedCommaAfterBinder,
    /// The body position does not hold a braced group.
    ExpectedBody,
    /// Tokens follow the body.
    UnexpectedToken,
}

/// A parsed invocation: the count, the binder name (with its rawness),
/// and the body tokens.
#[derive(Debug)]
pub struct Invocation {
    pub count: usize,
    pub binder: String,
    pub binder_raw: bool,
    pub body: Vec<Token>,
}

/// The mathematical shape of a parsed invocation.
#[verifier::ext_equal]
pub struct InvocationModel {
    pub count: nat,
    pub binder: Seq<char>,
    pub binder_raw: bool,
    pub body: Seq<TokenModel>,
}

impl View for Invocation {
    type V = InvocationModel;

    open spec fn view(&self) -> InvocationModel {
        InvocationModel {
            count: self.count as nat,
            binder: self.binder@,
            binder_raw: self.binder_raw,
            body: tokens_model(self.body@),
        }
    }
}

/// Whether the invocation starts with a minus sign, which can only
/// belong to a (rejected) negative count.
pub open spec fn has_minus(ts: Seq<TokenModel>) -> bool {
    ts.len() > 0 && ts[0] matches TokenModel::Punct { ch: '-', .. }
}

/// How many tokens the count literal takes: two with a minus sign in
/// front, otherwise one.
pub open spec fn count_width(ts: Seq<TokenModel>) -> int {
    if has_minus(ts) {
        2
    } else {
        1
    }
}

/// What parsing a token list yields: the invocation when the list fits
/// the grammar, and otherwise the error for the first deviation. The
/// grammar is checked in order first — count literal, comma, binder,
/// comma, body, end — and only then is the count converted, where a
/// minus sign, or a value beyond the machine's word size, is rejected.
pub open spec fn spec_parse(ts: Seq<TokenModel>) -> Result<InvocationModel, ParseError> {
    let off = count_width(ts) - 1;
    if ts.len() <= off || !(ts[off] is Lit) {
        Err(ParseError::ExpectedCount)
    } else if !is_int_literal(ts[off]->text) {
        Err(ParseError::CountNotInteger)
    } else if ts.len() < off + 2 || !(ts[off + 1] matches TokenModel::Punct { ch: ',', .. }) {
        Err(ParseError::ExpectedCommaAfterCount)
    } else if ts.len() < off + 3 || !(ts[off + 2] is Ident) {
        Err(ParseError::ExpectedBinder)
    } else if ts.len() < off + 4 || !(ts[off + 3] matches TokenModel::Punct { ch: ',', .. }) {
        Err(ParseError::ExpectedCommaAfterBinder)
    } else if ts.len() < off + 5 || !(ts[off + 4] matches TokenModel::Group {
        delim: Delimiter::Brace,
        ..
    }) {
        Err(ParseError::ExpectedBody)
    } else if ts.len() > off + 5 {
        Err(ParseError::UnexpectedToken)
    } else if off == 1 {
        Err(ParseError::NegativeCount)
    } else if int_literal_value(ts[off]->text) > usize::MAX as nat {
        Err(ParseError::CountTooLarge)
    } else {
        Ok(InvocationModel {
            count: int_literal_value(ts[off]->text),
            binder: ts[off + 2]->name,
            binder_raw: ts[off + 2]->raw,
            body: ts[off + 4]->items,
        })
    }
}

/// Parses an invocation out of a token list: on success the parsed
/// parts, on failure the error for the first deviation from the
/// grammar.
pub fn parse_invocation(tokens: &Vec<Token>) -> (r: Result<Invocation, ParseError>)
    ensures
        match r {
            Ok(inv) => spec_parse(tokens_model(tokens@)) == Ok::<InvocationModel, ParseError>(
                inv@,
            ),
            Err(e) => spec_parse(tokens_model(tokens@)) == Err::<InvocationModel, ParseError>(e),
        },
{
    proof {
        lemma_tokens_model(tokens@);
    }
    let ghost ts = tokens_model(tokens@);
    let minus = tokens.len() > 0 && (match &tokens[0] {
        Token::Punct { ch, .. } => *ch == '-',
        _ => false,
    });
    let off: usize = if minus {
        1
    } else {
        0
    };
    if tokens.len() <= off {
        return Err(ParseError::ExpectedCount);
    }
    let text = match &tokens[off] {
        Token::Lit { text } => text,
        _ => {
            return Err(ParseError::ExpectedCount);
        },
    };
    if !is_int_literal_exec(text.as_str()) {
        return Err(ParseError::CountNotInteger);
    }
    if tokens.len() < off + 2 {
        return Err(ParseError::ExpectedCommaAfterCount);
    }
    match &tokens[off + 1] {
        Token::Punct { ch, .. } if *ch == ',' => {},
        _ => {
            return Err(ParseError::ExpectedCommaAfterCount);
        },
    }
    if tokens.len() < off + 3 {
        return Err(ParseError::ExpectedBinder);
    }
    let (binder, binder_raw) = match &tokens[off + 2] {
        Token::Ident { name, raw } => (name.clone(), *raw),
        _ => {
            return Err(ParseError::ExpectedBinder);
        },
    };
    if tokens.len() < off + 4 {
        return Err(ParseError::ExpectedCommaAfterBinder);
    }
    match &tokens[off + 3] {
        Token::Punct { ch, .. } if *ch == ',' => {},
        _ => {
            return Err(ParseError::ExpectedCommaAfterBinder);
        },
    }
    if tokens.len() < off + 5 {
        return Err(ParseError::ExpectedBody);
    }
    let body = match &tokens[off + 4] {
        Token::Group { delim: Delimiter::Brace, items } => clone_tokens(items),
        _ => {
            return Err(ParseError::ExpectedBody);
        },
    };
    if tokens.len() > off + 5 {
        return Err(ParseError::UnexpectedToken);
    }
    if minus {
        return Err(ParseError::NegativeCount);
    }
    let count = match int_literal_value_exec(text.as_str()) {
        Some(v) => v,
        None => {
            return Err(ParseError::CountTooLarge);
        },
    };
    let inv = Invocation { count, binder, binder_raw, body };
    proof {
        assert(inv@ =~= spec_parse(ts)->Ok_0);
    }
    Ok(inv)
}

impl ParseError {
    /// The diagnostic line for the error.
    pub open spec fn message_spec(&self) -> Seq<char> {
        match self {
            ParseError::ExpectedCount => "expected a nonnegative integer literal count"@,
            ParseError::CountNotInteger => "the count literal must be an integer literal"@,
            ParseError::NegativeCount => "the count must not be negative"@,
            ParseError::CountTooLarge => "the count does not fit a machine-sized integer"@,
            ParseError::ExpectedCommaAfterCount => "expected a comma after the count"@,
            ParseError::ExpectedBinder => "expected an identifier after the first comma"@,
            ParseError::ExpectedCommaAfterBinder => "expected a comma after the identifier"@,
            ParseError::ExpectedBody => "expected a braced block as the body"@,
            ParseError::UnexpectedToken => "unexpected tokens after the body"@,
        }
    }

    /// A diagnostic line for the error, for the host compiler to show.
    pub fn message(&self) -> (s: String)
        ensures
            s@ == self.message_spec(),
            s@.len() > 0,
    {
        let text = match self {
            ParseError::ExpectedCount => "expected a nonnegative integer literal count",
            ParseError::CountNotInteger => "the count literal must be an integer literal",
            ParseError::NegativeCount => "the count must not be negative",
            ParseError::CountTooLarge => "the count does not fit a machine-sized integer",
            ParseError::ExpectedCommaAfterCount => "expected a comma after the count",
            ParseError::ExpectedBinder => "expected an identifier after the first comma",
            ParseError::ExpectedCommaAfterBinder => "expected a comma after the identifier",
            ParseError::ExpectedBody => "expected a braced block as the body",
            ParseError::UnexpectedToken => "unexpected tokens after the body",
        };
        proof {
            reveal_strlit("expected a nonnegative integer literal count");
            reveal_strlit("the count literal must be an integer literal");
            reveal_strlit("the count must not be negative");
            reveal_strlit("the count does not fit a machine-sized integer");
            reveal_strlit("expected a comma after the count");
            reveal_strlit("expected an identifier after the first comma");
            reveal_strlit("expected a comma after the identifier");
            reveal_strlit("expected a braced block as the body");
            reveal_strlit("unexpected tokens after the body");
        }
        String::from_str(text)
    }
}

} // verus!
