use vstd::prelude::*;
use vstd::string::*;

use crate::schema::{ColType, declared_name};
use crate::text::push_char;
use crate::tokens::{Lexeme, Token};

verus! {

/// The grammar position at which the parser stopped.
#[derive(Clone, Copy, Debug, PartialEq, Eq, Structural)]
pub enum Expected {
    OpenBracket,
    CloseBracket,
    Expr,
    Op,
    Ident,
    /// The end of the query, after a complete expression.
    End,
}

/// Every way in which reading a header, a query or a row can fail.
#[derive(Clone, Debug, PartialEq)]
pub enum QueryError {
    /// `&` not followed by `&`: the character that followed, or `None` at the end.
    IncompleteAnd(Option<char>),
    /// `|` not followed by `|`: the character that followed, or `None` at the end.
    IncompleteOr(Option<char>),
    /// A character that starts no token.
    UnexpectedChar(char),
    /// A token (or the end, `None`) where the grammar wanted something else.
    Syntax(Expected, Option<Token>),
    /// A header entry not of the shape `name[type]`.
    MalformedColumn(String),
    /// A header entry naming a type that the registry lacks.
    UnknownType(String),
    /// A comparison neither of whose operands names a column.
    NoColumn(String, String),
    /// A comparison of two columns of different types.
    TypeMismatch(String, String),
    /// A value that does not parse as the type of its column.
    BadValue(ColType, String),
}

/// The mathematical content of a `QueryError`.
pub enum ErrorModel {
    IncompleteAnd(Option<char>),
    IncompleteOr(Option<char>),
    UnexpectedChar(char),
    Syntax(Expected, Option<Lexeme>),
    MalformedColumn(Seq<char>),
    UnknownType(Seq<char>),
    NoColumn(Seq<char>, Seq<char>),
    TypeMismatch(Seq<char>, Seq<char>),
    BadValue(ColType, Seq<char>),
}

impl View for QueryError {
    type V = ErrorModel;

    open spec fn view(&self) -> ErrorModel {
        match self {
            QueryError::IncompleteAnd(c) => ErrorModel::IncompleteAnd(*c),
            QueryError::IncompleteOr(c) => ErrorModel::IncompleteOr(*c),
            QueryError::UnexpectedChar(c) => ErrorModel::UnexpectedChar(*c),
            QueryError::Syntax(e, t) => ErrorModel::Syntax(
                *e,
                match t {
                    Some(t) => Some(t@),
                    None => None,
                },
            ),
            QueryError::MalformedColumn(s) => ErrorModel::MalformedColumn(s@),
            QueryError::UnknownType(s) => ErrorModel::UnknownType(s@),
            QueryError::NoColumn(a, b) => ErrorModel::NoColumn(a@, b@),
            QueryError::TypeMismatch(a, b) => ErrorModel::TypeMismatch(a@, b@),
            QueryError::BadValue(t, v) => ErrorModel::BadValue(*t, v@),
        }
    }
}

/// How a token is shown in a message: its variant, and a word's text in quotes.
pub open spec fn token_shown(t: Lexeme) -> Seq<char> {
    match t {
        Lexeme::OpenBracket => "OpenBracket"@,
        Lexeme::CloseBracket => "CloseBracket"@,
        Lexeme::Word(w) => "ConstOrIdentifier(\""@ + w + "\")"@,
        Lexeme::Eq => "Eq"@,
        Lexeme::Not => "Not"@,
        Lexeme::NotEq => "NotEq"@,
        Lexeme::Lt => "Lt"@,
        Lexeme::LEq => "LEq"@,
        Lexeme::Gt => "Gt"@,
        Lexeme::GEq => "GEq"@,
        Lexeme::And => "And"@,
        Lexeme::Or => "Or"@,
    }
}

/// How what the parser found is shown: a token, or `<EOL>` at the end.
pub open spec fn found_shown(t: Option<Lexeme>) -> Seq<char> {
    match t {
        Some(t) => token_shown(t),
        None => "<EOL>"@,
    }
}

/// The character after a lone `&` or `|`, or `<EOF>` at the end.
pub open spec fn next_shown(c: Option<char>) -> Seq<char> {
    match c {
        Some(c) => seq![c],
        None => "<EOF>"@,
    }
}

/// The human-readable text of an error.
pub open spec fn message_of(e: ErrorModel) -> Seq<char> {
    match e {
        ErrorModel::IncompleteAnd(c) => "expected '&&' - found '&"@ + next_shown(c) + "'"@,
        ErrorModel::IncompleteOr(c) => "expected '||' - found '|"@ + next_shown(c) + "'"@,
        ErrorModel::UnexpectedChar(c) => "Unexpected token "@ + seq![c],
        ErrorModel::Syntax(Expected::OpenBracket, f) => "Expected '(', found "@ + found_shown(f),
        ErrorModel::Syntax(Expected::CloseBracket, f) => "Expected ')', found "@ + found_shown(f),
        ErrorModel::Syntax(Expected::Expr, f) => "Expected expr, got "@ + found_shown(f),
        ErrorModel::Syntax(Expected::Op, f) => "Expected op, got "@ + found_shown(f),
        ErrorModel::Syntax(Expected::Ident, f) => "Expected ident, got "@ + found_shown(f),
        ErrorModel::Syntax(Expected::End, f) => "Expected <EOL>, found "@ + found_shown(f),
        ErrorModel::MalformedColumn(s) => "Failed to parse "@ + s + " to a name/type pair"@,
        ErrorModel::UnknownType(s) => "unable to find type matching '"@ + s + "'"@,
        ErrorModel::NoColumn(a, b) => "Could not find "@ + a + " or "@ + b + " as a column"@,
        ErrorModel::TypeMismatch(a, b) => "Tried to compare values of "@ + a + " and "@ + b
            + " but the types don't match"@,
        ErrorModel::BadValue(t, v) => "Could not make a "@ + declared_name(t) + " from '"@ + v
            + "'"@,
    }
}

fn shown_token(t: &Token) -> (r: String)
    ensures
        r@ == token_shown(t@),
{
    match t {
        Token::OpenBracket => "OpenBracket".to_owned(),
        Token::CloseBracket => "CloseBracket".to_owned(),
        Token::ConstOrIdentifier(w) => {
            let mut s = "ConstOrIdentifier(\"".to_owned();
            s.append(w.as_str());
            s.append("\")");
            s
        },
        Token::Eq => "Eq".to_owned(),
        Token::Not => "Not".to_owned(),
        Token::NotEq => "NotEq".to_owned(),
        Token::Lt => "Lt".to_owned(),
        Token::LEq => "LEq".to_owned(),
        Token::Gt => "Gt".to_owned(),
        Token::GEq => "GEq".to_owned(),
        Token::And => "And".to_owned(),
        Token::Or => "Or".to_owned(),
    }
}

fn shown_found(t: &Option<Token>) -> (r: String)
    ensures
        r@ == found_shown(
            match t {
                Some(t) => Some(t@),
                None => None,
            },
        ),
{
    match t {
        Some(t) => shown_token(t),
        None => "<EOL>".to_owned(),
    }
}

fn shown_next(c: Option<char>) -> (r: String)
    ensures
        r@ == next_shown(c),
{
    match c {
        Some(c) => {
            let mut s = String::new();
            push_char(&mut s, c);
            assert(s@ =~= seq![c]);
            s
        },
        None => "<EOF>".to_owned(),
    }
}

impl QueryError {
    /// The human-readable text of this error.
    pub fn message(&self) -> (r: String)
        ensures
            r@ == message_of(self@),
    {
        match self {
            QueryError::IncompleteAnd(c) => {
                let mut s = "expected '&&' - found '&".to_owned();
                s.append(shown_next(*c).as_str());
                s.append("'");
                s
            },
            QueryError::IncompleteOr(c) => {
                let mut s = "expected '||' - found '|".to_owned();
                s.append(shown_next(*c).as_str());
                s.append("'");
                s
            },
            QueryError::UnexpectedChar(c) => {
                let mut s = "Unexpected token ".to_owned();
                push_char(&mut s, *c);
                s
            },
            QueryError::Syntax(e, f) => {
                let mut s = match e {
                    Expected::OpenBracket => "Expected '(', found ".to_owned(),
                    Expected::CloseBracket => "Expected ')', found ".to_owned(),
                    Expected::Expr => "Expected expr, got ".to_owned(),
                    Expected::Op => "Expected op, got ".to_owned(),
                    Expected::Ident => "Expected ident, got ".to_owned(),
                    Expected::End => "Expected <EOL>, found ".to_owned(),
                };
                s.append(shown_found(f).as_str());
                s
            },
            QueryError::MalformedColumn(c) => {
                let mut s = "Failed to parse ".to_owned();
                s.append(c.as_str());
                s.append(" to a name/type pair");
                s
            },
            QueryError::UnknownType(t) => {
                let mut s = "unable to find type matching '".to_owned();
                s.append(t.as_str());
                s.append("'");
                s
            },
            QueryError::NoColumn(a, b) => {
                let mut s = "Could not find ".to_owned();
                s.append(a.as_str());
                s.append(" or ");
                s.append(b.as_str());
                s.append(" as a column");
                s
            },
            QueryError::TypeMismatch(a, b) => {
                let mut s = "Tried to compare values of ".to_owned();
                s.append(a.as_str());
                s.append(" and ");
                s.append(b.as_str());
                s.append(" but the types don't match");
                s
            },
            QueryError::BadValue(t, v) => {
                let mut s = "Could not make a ".to_owned();
                s.append(t.name().as_str());
                s.append(" from '");
                s.append(v.as_str());
                s.append("'");
                s
            },
        }
    }


    /// A copy of this error.
    pub fn duplicate(&self) -> (r: QueryError)
        ensures
            r@ == self@,
    {
        match self {
            QueryError::IncompleteAnd(c) => QueryError::IncompleteAnd(*c),
            QueryError::IncompleteOr(c) => QueryError::IncompleteOr(*c),
            QueryError::UnexpectedChar(c) => QueryError::UnexpectedChar(*c),
            QueryError::Syntax(e, t) => QueryError::Syntax(
                *e,
                match t {
                    Some(t) => Some(t.duplicate()),
                    None => None,
                },
            ),
            QueryError::MalformedColumn(s) => QueryError::MalformedColumn(s.clone()),
            QueryError::UnknownType(s) => QueryError::UnknownType(s.clone()),
            QueryError::NoColumn(a, b) => QueryError::NoColumn(a.clone(), b.clone()),
            QueryError::TypeMismatch(a, b) => QueryError::TypeMismatch(a.clone(), b.clone()),
            QueryError::BadValue(t, v) => QueryError::BadValue(*t, v.clone()),
        }
    }
}

} // verus!
