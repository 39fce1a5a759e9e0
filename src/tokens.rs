use vstd::prelude::*;
use vstd::string::*;

use crate::error::{ErrorModel, QueryError};
use crate::text::{alphanumeric, chars_of, is_alnum, is_space, push_char, whitespace};

verus! {

/// One token of the query language.
#[derive(Clone, Debug, PartialEq)]
pub enum Token {
    OpenBracket,
    CloseBracket,
    /// A column name or a constant: which of the two is settled when the query is bound.
    ConstOrIdentifier(String),
    Eq,
    Not,
    NotEq,
    Lt,
    LEq,
    Gt,
    GEq,
    And,
    Or,
}

/// The mathematical content of a `Token`.
pub enum Lexeme {
    OpenBracket,
    CloseBracket,
    Word(Seq<char>),
    Eq,
    Not,
    NotEq,
    Lt,
    LEq,
    Gt,
    GEq,
    And,
    Or,
}

impl View for Token {
    type V = Lexeme;

    open spec fn view(&self) -> Lexeme {
        match self {
            Token::OpenBracket => Lexeme::OpenBracket,
            Token::CloseBracket => Lexeme::CloseBracket,
            Token::ConstOrIdentifier(s) => Lexeme::Word(s@),
            Token::Eq => Lexeme::Eq,
            Token::Not => Lexeme::Not,
            Token::NotEq => Lexeme::NotEq,
            Token::Lt => Lexeme::Lt,
            Token::LEq => Lexeme::LEq,
            Token::Gt => Lexeme::Gt,
            Token::GEq => Lexeme::GEq,
            Token::And => Lexeme::And,
            Token::Or => Lexeme::Or,
        }
    }
}

impl Token {
    /// A copy of this token.
    pub fn duplicate(&self) -> (r: Token)
        ensures
            r@ == self@,
    {
        match self {
            Token::OpenBracket => Token::OpenBracket,
            Token::CloseBracket => Token::CloseBracket,
            Token::ConstOrIdentifier(s) => Token::ConstOrIdentifier(s.clone()),
            Token::Eq => Token::Eq,
            Token::Not => Token::Not,
            Token::NotEq => Token::NotEq,
            Token::Lt => Token::Lt,
            Token::LEq => Token::LEq,
            Token::Gt => Token::Gt,
            Token::GEq => Token::GEq,
            Token::And => Token::And,
            Token::Or => Token::Or,
        }
    }
}

pub open spec fn lexemes(ts: Seq<Token>) -> Seq<Lexeme> {
    ts.map_values(|t: Token| t@)
}

/// White space between tokens. (The space is white space; naming it
/// here lets proofs see so.)
pub open spec fn is_blank(c: char) -> bool {
    c == ' ' || is_space(c)
}

/// Characters that may stand in a column name or a constant.
/// (No alphanumeric character is white space; the first test only says so.)
pub open spec fn is_ident_char(c: char) -> bool {
    !is_blank(c) && (is_alnum(c) || c == '.')
}

/// `t` in front of the tokens of `r`, or the error of `r`.
pub open spec fn then_lex(t: Lexeme, r: Result<Seq<Lexeme>, ErrorModel>) -> Result<
    Seq<Lexeme>,
    ErrorModel,
> {
    match r {
        Ok(ts) => Ok(seq![t] + ts),
        Err(e) => Err(e),
    }
}

/// `p` in front of the tokens of `r`, or the error of `r`.
pub open spec fn then_all(p: Seq<Lexeme>, r: Result<Seq<Lexeme>, ErrorModel>) -> Result<
    Seq<Lexeme>,
    ErrorModel,
> {
    match r {
        Ok(ts) => Ok(p + ts),
        Err(e) => Err(e),
    }
}

/// The tokens of `s`, or the first lexical error in it.
pub open spec fn lex(s: Seq<char>) -> Result<Seq<Lexeme>, ErrorModel>
    decreases s.len(), 0nat,
{
    if s.len() == 0 {
        Ok(Seq::empty())
    } else {
        let c = s[0];
        let next: Option<char> = if s.len() > 1 {
            Some(s[1])
        } else {
            None
        };
        if c == '(' {
            then_lex(Lexeme::OpenBracket, lex(s.drop_first()))
        } else if c == ')' {
            then_lex(Lexeme::CloseBracket, lex(s.drop_first()))
        } else if c == '=' {
            then_lex(Lexeme::Eq, lex(s.drop_first()))
        } else if c == '<' {
            if next == Some('=') {
                then_lex(Lexeme::LEq, lex(s.skip(2)))
            } else {
                then_lex(Lexeme::Lt, lex(s.drop_first()))
            }
        } else if c == '>' {
            if next == Some('=') {
                then_lex(Lexeme::GEq, lex(s.skip(2)))
            } else {
                then_lex(Lexeme::Gt, lex(s.drop_first()))
            }
        } else if c == '!' {
            if next == Some('=') {
                then_lex(Lexeme::NotEq, lex(s.skip(2)))
            } else {
                then_lex(Lexeme::Not, lex(s.drop_first()))
            }
        } else if c == '&' {
            if next == Some('&') {
                then_lex(Lexeme::And, lex(s.skip(2)))
            } else {
                Err(ErrorModel::IncompleteAnd(next))
            }
        } else if c == '|' {
            if next == Some('|') {
                then_lex(Lexeme::Or, lex(s.skip(2)))
            } else {
                Err(ErrorModel::IncompleteOr(next))
            }
        } else if is_blank(c) {
            lex(s.drop_first())
        } else if is_ident_char(c) {
            lex_word(seq![c], s.drop_first())
        } else {
            Err(ErrorModel::UnexpectedChar(c))
        }
    }
}

/// Lexing inside a word: `w` read so far, `s` still to read.
pub open spec fn lex_word(w: Seq<char>, s: Seq<char>) -> Result<Seq<Lexeme>, ErrorModel>
    decreases s.len(), 1nat,
{
    if s.len() > 0 && is_ident_char(s[0]) {
        lex_word(w.push(s[0]), s.drop_first())
    } else {
        then_lex(Lexeme::Word(w), lex(s))
    }
}

/// The canonical text of a token.
pub open spec fn token_text(t: Lexeme) -> Seq<char> {
    match t {
        Lexeme::OpenBracket => "("@,
        Lexeme::CloseBracket => ")"@,
        Lexeme::Word(w) => w,
        Lexeme::Eq => "="@,
        Lexeme::Not => "!"@,
        Lexeme::NotEq => "!="@,
        Lexeme::Lt => "<"@,
        Lexeme::LEq => "<="@,
        Lexeme::Gt => ">"@,
        Lexeme::GEq => ">="@,
        Lexeme::And => "&&"@,
        Lexeme::Or => "||"@,
    }
}

/// The canonical texts of tokens, separated by single spaces.
pub open spec fn render(ts: Seq<Lexeme>) -> Seq<char>
    decreases ts.len(),
{
    if ts.len() == 0 {
        Seq::empty()
    } else if ts.len() == 1 {
        token_text(ts[0])
    } else {
        render(ts.drop_last()) + seq![' '] + token_text(ts.last())
    }
}

/// What `tokenise` returned, as a model.
pub open spec fn lexed(r: Result<Vec<Token>, QueryError>) -> Result<Seq<Lexeme>, ErrorModel> {
    match r {
        Ok(ts) => Ok(lexemes(ts@)),
        Err(e) => Err(e@),
    }
}

fn ident_char(c: char) -> (r: bool)
    ensures
        r == is_ident_char(c),
{
    !blank(c) && (alphanumeric(c) || c == '.')
}

fn blank(c: char) -> (r: bool)
    ensures
        r == is_blank(c),
{
    c == ' ' || whitespace(c)
}

proof fn lemma_lexemes_push(ts: Seq<Token>, t: Token)
    ensures
        lexemes(ts.push(t)) == lexemes(ts) + seq![t@],
{
    assert(lexemes(ts.push(t)) =~= lexemes(ts) + seq![t@]);
}

impl Token {
    /// The canonical text of this token.
    pub fn text(&self) -> (r: String)
        ensures
            r@ == token_text(self@),
    {
        match self {
            Token::OpenBracket => "(".to_owned(),
            Token::CloseBracket => ")".to_owned(),
            Token::ConstOrIdentifier(w) => w.clone(),
            Token::Eq => "=".to_owned(),
            Token::Not => "!".to_owned(),
            Token::NotEq => "!=".to_owned(),
            Token::Lt => "<".to_owned(),
            Token::LEq => "<=".to_owned(),
            Token::Gt => ">".to_owned(),
            Token::GEq => ">=".to_owned(),
            Token::And => "&&".to_owned(),
            Token::Or => "||".to_owned(),
        }
    }
}

/// The canonical texts of `tokens`, separated by single spaces.
pub fn render_tokens(tokens: &Vec<Token>) -> (r: String)
    ensures
        r@ == render(lexemes(tokens@)),
{
    let ghost ls = lexemes(tokens@);
    let mut out = String::new();
    let mut i: usize = 0;
    assert(ls.take(0) =~= Seq::<Lexeme>::empty());
    while i < tokens.len()
        invariant
            ls == lexemes(tokens@),
            i <= tokens.len(),
            out@ == render(ls.take(i as int)),
        decreases tokens.len() - i,
    {
        if i > 0 {
            push_char(&mut out, ' ');
        }
        let t = tokens[i].text();
        out.append(t.as_str());
        i = i + 1;
        proof {
            let pre = ls.take(i as int);
            assert(pre.drop_last() =~= ls.take(i - 1));
            assert(pre.last() == tokens@[i - 1]@);
            if i == 1 {
                assert(out@ =~= render(pre));
            } else {
                assert(out@ =~= render(pre));
            }
        }
    }
    assert(ls.take(tokens.len() as int) =~= ls);
    out
}

/// Splits a query into tokens, skipping white space.
pub fn tokenise(s: &String) -> (r: Result<Vec<Token>, QueryError>)
    ensures
        lexed(r) == lex(s@),
{
    let chars = chars_of(s.as_str());
    let n = chars.len();
    let mut tokens: Vec<Token> = Vec::new();
    let mut i: usize = 0;
    proof {
        assert(s@.skip(0) =~= s@);
        assert(lexemes(tokens@) =~= Seq::<Lexeme>::empty());
        assert(then_all(Seq::empty(), lex(s@)) == lex(s@)) by {
            match lex(s@) {
                Ok(ts) => {
                    assert(Seq::<Lexeme>::empty() + ts =~= ts);
                },
                Err(e) => {},
            }
        }
    }
    while i < n
        invariant
            chars@ == s@,
            n == chars.len(),
            i <= n,
            lex(s@) == then_all(lexemes(tokens@), lex(s@.skip(i as int))),
        decreases n - i,
    {
        let c = chars[i];
        let ghost rest = s@.skip(i as int);
        let ghost toks = lexemes(tokens@);
        assert(rest[0] == c);
        assert(rest.drop_first() =~= s@.skip(i + 1));
        let next: Option<char> = if i + 1 < n {
            Some(chars[i + 1])
        } else {
            None
        };
        assert(rest.len() > 1 ==> rest[1] == chars@[i + 1]);
        assert(i + 1 < n ==> rest.skip(2) =~= s@.skip(i + 2));
        let single: Option<Token> = if c == '(' {
            Some(Token::OpenBracket)
        } else if c == ')' {
            Some(Token::CloseBracket)
        } else if c == '=' {
            Some(Token::Eq)
        } else if c == '<' && next != Some('=') {
            Some(Token::Lt)
        } else if c == '>' && next != Some('=') {
            Some(Token::Gt)
        } else if c == '!' && next != Some('=') {
            Some(Token::Not)
        } else {
            None
        };
        let double: Option<Token> = if c == '<' && next == Some('=') {
            Some(Token::LEq)
        } else if c == '>' && next == Some('=') {
            Some(Token::GEq)
        } else if c == '!' && next == Some('=') {
            Some(Token::NotEq)
        } else if c == '&' && next == Some('&') {
            Some(Token::And)
        } else if c == '|' && next == Some('|') {
            Some(Token::Or)
        } else {
            None
        };
        if let Some(t) = single {
            proof {
                lemma_lexemes_push(tokens@, t);
                assert(lex(rest) == then_lex(t@, lex(s@.skip(i + 1))));
                match lex(s@.skip(i + 1)) {
                    Ok(ts) => {
                        assert(toks + (seq![t@] + ts) =~= (toks + seq![t@]) + ts);
                    },
                    Err(e) => {},
                }
            }
            tokens.push(t);
            i = i + 1;
        } else if let Some(t) = double {
            proof {
                lemma_lexemes_push(tokens@, t);
                assert(lex(rest) == then_lex(t@, lex(s@.skip(i + 2))));
                match lex(s@.skip(i + 2)) {
                    Ok(ts) => {
                        assert(toks + (seq![t@] + ts) =~= (toks + seq![t@]) + ts);
                    },
                    Err(e) => {},
                }
            }
            tokens.push(t);
            i = i + 2;
        } else if c == '&' {
            return Err(QueryError::IncompleteAnd(next));
        } else if c == '|' {
            return Err(QueryError::IncompleteOr(next));
        } else if blank(c) {
            i = i + 1;
        } else if ident_char(c) {
            let mut word = String::new();
            push_char(&mut word, c);
            let mut j: usize = i + 1;
            let mut more: bool = j < n && ident_char(chars[j]);
            assert(word@ =~= seq![c]);
            while more
                invariant
                    chars@ == s@,
                    n == chars.len(),
                    i < j <= n,
                    more == (j < n && is_ident_char(s@[j as int])),
                    toks == lexemes(tokens@),
                    lex(s@) == then_all(toks, lex_word(word@, s@.skip(j as int))),
                decreases n - j,
            {
                let d = chars[j];
                assert(s@.skip(j as int).drop_first() =~= s@.skip(j + 1));
                push_char(&mut word, d);
                j = j + 1;
                more = j < n && ident_char(chars[j]);
            }
            let t = Token::ConstOrIdentifier(word);
            proof {
                lemma_lexemes_push(tokens@, t);
                assert(lex_word(word@, s@.skip(j as int)) == then_lex(t@, lex(s@.skip(j as int))));
                match lex(s@.skip(j as int)) {
                    Ok(ts) => {
                        assert(toks + (seq![t@] + ts) =~= (toks + seq![t@]) + ts);
                    },
                    Err(e) => {},
                }
            }
            tokens.push(t);
            i = j;
        } else {
            return Err(QueryError::UnexpectedChar(c));
        }
    }
    proof {
        assert(s@.skip(n as int) =~= Seq::<char>::empty());
        assert(lexemes(tokens@) + Seq::<Lexeme>::empty() =~= lexemes(tokens@));
    }
    Ok(tokens)
}

} // verus!
