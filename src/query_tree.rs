use vstd::prelude::*;

use crate::error::{ErrorModel, Expected, QueryError};
use crate::tokens::{Lexeme, Token, lex, lexemes, tokenise};

verus! {

/// The six comparison operators.
#[derive(Clone, Copy, Debug, PartialEq, Eq, Structural)]
pub enum Op {
    Eq,
    NotEq,
    Lt,
    LEq,
    Gt,
    GEq,
}

/// A parsed query. Both operands of a comparison are still raw text: which
/// is a column and which a constant is settled when the query is bound.
#[derive(Debug, PartialEq)]
pub enum QueryTree {
    Op { left: String, op: Op, right: String },
    Not { q: Box<QueryTree> },
    And { q1: Box<QueryTree>, q2: Box<QueryTree> },
    Or { q1: Box<QueryTree>, q2: Box<QueryTree> },
}

/// The mathematical content of a `QueryTree`.
pub enum Expr {
    Cmp(Seq<char>, Op, Seq<char>),
    Not(Box<Expr>),
    And(Box<Expr>, Box<Expr>),
    Or(Box<Expr>, Box<Expr>),
}

pub open spec fn tree_model(t: QueryTree) -> Expr
    decreases t,
{
    match t {
        QueryTree::Op { left, op, right } => Expr::Cmp(left@, op, right@),
        QueryTree::Not { q } => Expr::Not(Box::new(tree_model(*q))),
        QueryTree::And { q1, q2 } => Expr::And(Box::new(tree_model(*q1)), Box::new(tree_model(*q2))),
        QueryTree::Or { q1, q2 } => Expr::Or(Box::new(tree_model(*q1)), Box::new(tree_model(*q2))),
    }
}

impl View for QueryTree {
    type V = Expr;

    open spec fn view(&self) -> Expr {
        tree_model(*self)
    }
}

/// A tree and the position of the first token after it, or a syntax error.
pub type Parsed = Result<(Expr, int), ErrorModel>;

/// The token at `pos`, if there is one.
pub open spec fn found(t: Seq<Lexeme>, pos: int) -> Option<Lexeme> {
    if 0 <= pos < t.len() {
        Some(t[pos])
    } else {
        None
    }
}

/// `andOr := expr (("&&" | "||") andOr)?`, read from `pos`: right-associative.
pub open spec fn p_and_or(t: Seq<Lexeme>, pos: int) -> Parsed
    decreases t.len() - pos, 2int,
{
    match p_expr(t, pos) {
        Err(e) => Err(e),
        Ok((lhs, p)) => {
            // p > pos always holds: an expression takes at least one token.
            if pos < p < t.len() && (t[p] is And || t[p] is Or) {
                match p_and_or(t, p + 1) {
                    Err(e) => Err(e),
                    Ok((rhs, q)) => Ok(
                        (
                            if t[p] is And {
                                Expr::And(Box::new(lhs), Box::new(rhs))
                            } else {
                                Expr::Or(Box::new(lhs), Box::new(rhs))
                            },
                            q,
                        ),
                    ),
                }
            } else {
                Ok((lhs, p))
            }
        },
    }
}

/// `expr := "!" bracketed | "(" S ")" | IDENT op IDENT`, read from `pos`.
pub open spec fn p_expr(t: Seq<Lexeme>, pos: int) -> Parsed
    decreases t.len() - pos, 1int,
{
    match found(t, pos) {
        None => Err(ErrorModel::Syntax(Expected::Expr, None)),
        Some(Lexeme::Word(w)) => p_binop(w, t, pos + 1),
        Some(Lexeme::Not) => match p_bracketed(true, t, pos + 1) {
            Err(e) => Err(e),
            Ok((inner, q)) => Ok((Expr::Not(Box::new(inner)), q)),
        },
        Some(Lexeme::OpenBracket) => p_bracketed(false, t, pos + 1),
        Some(other) => Err(ErrorModel::Syntax(Expected::Expr, Some(other))),
    }
}

/// A bracketed query read from `pos`; the opening bracket is read here only
/// when `check_open` holds, else it was read already.
pub open spec fn p_bracketed(check_open: bool, t: Seq<Lexeme>, pos: int) -> Parsed
    decreases t.len() - pos, 3int,
{
    if check_open {
        match found(t, pos) {
            Some(Lexeme::OpenBracket) => p_close(p_and_or(t, pos + 1), t),
            other => Err(ErrorModel::Syntax(Expected::OpenBracket, other)),
        }
    } else {
        p_close(p_and_or(t, pos), t)
    }
}

/// The closing bracket after an inner query.
pub open spec fn p_close(inner: Parsed, t: Seq<Lexeme>) -> Parsed {
    match inner {
        Err(e) => Err(e),
        Ok((e, q)) => match found(t, q) {
            Some(Lexeme::CloseBracket) => Ok((e, q + 1)),
            other => Err(ErrorModel::Syntax(Expected::CloseBracket, other)),
        },
    }
}

/// The operator of `l` at `pos`, or `None`.
pub open spec fn op_of(l: Lexeme) -> Option<Op> {
    match l {
        Lexeme::Eq => Some(Op::Eq),
        Lexeme::NotEq => Some(Op::NotEq),
        Lexeme::Lt => Some(Op::Lt),
        Lexeme::LEq => Some(Op::LEq),
        Lexeme::Gt => Some(Op::Gt),
        Lexeme::GEq => Some(Op::GEq),
        _ => None,
    }
}

/// `op` read at `pos`.
pub open spec fn p_op(t: Seq<Lexeme>, pos: int) -> Result<Op, ErrorModel> {
    match found(t, pos) {
        Some(l) => match op_of(l) {
            Some(o) => Ok(o),
            None => Err(ErrorModel::Syntax(Expected::Op, Some(l))),
        },
        None => Err(ErrorModel::Syntax(Expected::Op, None)),
    }
}

/// An identifier read at `pos`.
pub open spec fn p_ident(t: Seq<Lexeme>, pos: int) -> Result<Seq<char>, ErrorModel> {
    match found(t, pos) {
        Some(Lexeme::Word(w)) => Ok(w),
        other => Err(ErrorModel::Syntax(Expected::Ident, other)),
    }
}

/// The rest of a comparison whose left operand `left` was read: `op IDENT` from `pos`.
pub open spec fn p_binop(left: Seq<char>, t: Seq<Lexeme>, pos: int) -> Parsed {
    match p_op(t, pos) {
        Err(e) => Err(e),
        Ok(o) => match p_ident(t, pos + 1) {
            Err(e) => Err(e),
            Ok(right) => Ok((Expr::Cmp(left, o, right), pos + 2)),
        },
    }
}

/// What a parsing function returned, read with the position it left.
pub open spec fn parsed_as(r: Result<Box<QueryTree>, QueryError>, pos: int) -> Parsed {
    match r {
        Ok(t) => Ok((t@, pos)),
        Err(e) => Err(e@),
    }
}

/// The parse of a whole token sequence: one query, then the end.
pub open spec fn parse_tokens(t: Seq<Lexeme>) -> Result<Expr, ErrorModel> {
    match p_and_or(t, 0) {
        Ok((e, q)) => match found(t, q) {
            None => Ok(e),
            Some(l) => Err(ErrorModel::Syntax(Expected::End, Some(l))),
        },
        Err(e) => Err(e),
    }
}

/// The parse of a query string: its tokens, then the tree.
pub open spec fn parse_query(s: Seq<char>) -> Result<Expr, ErrorModel> {
    match lex(s) {
        Ok(t) => parse_tokens(t),
        Err(e) => Err(e),
    }
}

/// A sequence of tokens and a read position in it.
pub struct TokenStream {
    tokens: Vec<Token>,
    pos: usize,
}

impl TokenStream {
    pub closed spec fn toks(&self) -> Seq<Lexeme> {
        lexemes(self.tokens@)
    }

    pub closed spec fn at(&self) -> int {
        self.pos as int
    }

    pub open spec fn wf(&self) -> bool {
        0 <= self.at() <= self.toks().len()
    }

    /// A stream at the first of `tokens`.
    pub fn new(tokens: Vec<Token>) -> (r: TokenStream)
        ensures
            r.toks() == lexemes(tokens@),
            r.at() == 0,
            r.wf(),
    {
        TokenStream { tokens, pos: 0 }
    }

    /// The token at the read position.
    pub fn peek(&self) -> (r: Option<&Token>)
        requires
            self.wf(),
        ensures
            match r {
                Some(t) => found(self.toks(), self.at()) == Some(t@),
                None => found(self.toks(), self.at()) == None::<Lexeme>,
            },
    {
        if self.pos < self.tokens.len() {
            Some(&self.tokens[self.pos])
        } else {
            None
        }
    }

    /// Moves past the token at the read position.
    fn advance(&mut self)
        requires
            old(self).at() < old(self).toks().len(),
        ensures
            final(self).toks() == old(self).toks(),
            final(self).at() == old(self).at() + 1,
    {
        if self.pos < self.tokens.len() {
            self.pos = self.pos + 1;
        }
    }
}

/// `S := andOr`.
pub fn entry(p: &mut TokenStream) -> (r: Result<Box<QueryTree>, QueryError>)
    requires
        old(p).wf(),
    ensures
        final(p).wf(),
        final(p).toks() == old(p).toks(),
        parsed_as(r, final(p).at()) == p_and_or(old(p).toks(), old(p).at()),
        r is Ok ==> final(p).at() > old(p).at(),
    decreases old(p).toks().len() - old(p).at(), 3int,
{
    maybe_and_or(p)
}

/// An expression, then, if `&&` or `||` follows, the rest of the chain
/// as its right operand.
pub fn maybe_and_or(p: &mut TokenStream) -> (r: Result<Box<QueryTree>, QueryError>)
    requires
        old(p).wf(),
    ensures
        final(p).wf(),
        final(p).toks() == old(p).toks(),
        parsed_as(r, final(p).at()) == p_and_or(old(p).toks(), old(p).at()),
        r is Ok ==> final(p).at() > old(p).at(),
    decreases old(p).toks().len() - old(p).at(), 2int,
{
    let current = expr(p)?;
    let is_and = match p.peek() {
        Some(Token::And) => true,
        Some(Token::Or) => false,
        _ => {
            return Ok(current);
        },
    };
    p.advance();
    let other = entry(p)?;
    if is_and {
        Ok(Box::new(QueryTree::And { q1: current, q2: other }))
    } else {
        Ok(Box::new(QueryTree::Or { q1: current, q2: other }))
    }
}

/// A query between brackets; the opening one is read here only when
/// `check_open` holds.
pub fn bracketed(check_open: bool, p: &mut TokenStream) -> (r: Result<Box<QueryTree>, QueryError>)
    requires
        old(p).wf(),
    ensures
        final(p).wf(),
        final(p).toks() == old(p).toks(),
        parsed_as(r, final(p).at()) == p_bracketed(check_open, old(p).toks(), old(p).at()),
        r is Ok ==> final(p).at() > old(p).at(),
    decreases old(p).toks().len() - old(p).at(), 4int,
{
    if check_open {
        match p.peek() {
            Some(Token::OpenBracket) => {
                p.advance();
            },
            Some(t) => {
                return Err(QueryError::Syntax(Expected::OpenBracket, Some(t.duplicate())));
            },
            None => {
                return Err(QueryError::Syntax(Expected::OpenBracket, None));
            },
        }
    }
    let inner = entry(p)?;
    match p.peek() {
        Some(Token::CloseBracket) => {
            p.advance();
            Ok(inner)
        },
        Some(t) => Err(QueryError::Syntax(Expected::CloseBracket, Some(t.duplicate()))),
        None => Err(QueryError::Syntax(Expected::CloseBracket, None)),
    }
}

/// A negation, a bracketed query or a comparison.
pub fn expr(p: &mut TokenStream) -> (r: Result<Box<QueryTree>, QueryError>)
    requires
        old(p).wf(),
    ensures
        final(p).wf(),
        final(p).toks() == old(p).toks(),
        parsed_as(r, final(p).at()) == p_expr(old(p).toks(), old(p).at()),
        r is Ok ==> final(p).at() > old(p).at(),
    decreases old(p).toks().len() - old(p).at(), 1int,
{
    match p.peek() {
        None => Err(QueryError::Syntax(Expected::Expr, None)),
        Some(Token::ConstOrIdentifier(nm)) => {
            let left = nm.clone();
            p.advance();
            binop(left, p)
        },
        Some(Token::Not) => {
            p.advance();
            let inner_q = bracketed(true, p)?;
            Ok(Box::new(QueryTree::Not { q: inner_q }))
        },
        Some(Token::OpenBracket) => {
            p.advance();
            bracketed(false, p)
        },
        Some(t) => Err(QueryError::Syntax(Expected::Expr, Some(t.duplicate()))),
    }
}

/// An operator token.
pub fn op(p: &mut TokenStream) -> (r: Result<Op, QueryError>)
    requires
        old(p).wf(),
    ensures
        final(p).wf(),
        final(p).toks() == old(p).toks(),
        match r {
            Ok(o) => p_op(old(p).toks(), old(p).at()) == Ok::<Op, ErrorModel>(o) && final(p).at()
                == old(p).at() + 1,
            Err(e) => p_op(old(p).toks(), old(p).at()) == Err::<Op, ErrorModel>(e@),
        },
{
    let o = match p.peek() {
        None => {
            return Err(QueryError::Syntax(Expected::Op, None));
        },
        Some(Token::Eq) => Op::Eq,
        Some(Token::NotEq) => Op::NotEq,
        Some(Token::Lt) => Op::Lt,
        Some(Token::Gt) => Op::Gt,
        Some(Token::GEq) => Op::GEq,
        Some(Token::LEq) => Op::LEq,
        Some(t) => {
            return Err(QueryError::Syntax(Expected::Op, Some(t.duplicate())));
        },
    };
    p.advance();
    Ok(o)
}

/// An identifier token's text.
fn ident(p: &mut TokenStream) -> (r: Result<String, QueryError>)
    requires
        old(p).wf(),
    ensures
        final(p).wf(),
        final(p).toks() == old(p).toks(),
        match r {
            Ok(s) => p_ident(old(p).toks(), old(p).at()) == Ok::<Seq<char>, ErrorModel>(s@)
                && final(p).at() == old(p).at() + 1,
            Err(e) => p_ident(old(p).toks(), old(p).at()) == Err::<Seq<char>, ErrorModel>(e@),
        },
{
    match p.peek() {
        Some(Token::ConstOrIdentifier(id)) => {
            let s = id.clone();
            p.advance();
            Ok(s)
        },
        Some(t) => Err(QueryError::Syntax(Expected::Ident, Some(t.duplicate()))),
        None => Err(QueryError::Syntax(Expected::Ident, None)),
    }
}

/// The rest of a comparison whose left operand was read.
fn binop(left: String, p: &mut TokenStream) -> (r: Result<Box<QueryTree>, QueryError>)
    requires
        old(p).wf(),
    ensures
        final(p).wf(),
        final(p).toks() == old(p).toks(),
        parsed_as(r, final(p).at()) == p_binop(left@, old(p).toks(), old(p).at()),
        r is Ok ==> final(p).at() == old(p).at() + 2,
{
    let operation = op(p)?;
    let right = ident(p)?;
    Ok(Box::new(QueryTree::Op { left, op: operation, right }))
}

impl QueryTree {
    fn from_tokens(tokens: Vec<Token>) -> (r: Result<Box<QueryTree>, QueryError>)
        ensures
            match r {
                Ok(t) => parse_tokens(lexemes(tokens@)) == Ok::<Expr, ErrorModel>(t@),
                Err(e) => parse_tokens(lexemes(tokens@)) == Err::<Expr, ErrorModel>(e@),
            },
    {
        let mut stream = TokenStream::new(tokens);
        let tree = entry(&mut stream)?;
        match stream.peek() {
            None => Ok(tree),
            Some(t) => Err(QueryError::Syntax(Expected::End, Some(t.duplicate()))),
        }
    }

    /// Reads a query string into a tree.
    pub fn from_qstring(s: &String) -> (r: Result<Box<QueryTree>, QueryError>)
        ensures
            match r {
                Ok(t) => parse_query(s@) == Ok::<Expr, ErrorModel>(t@),
                Err(e) => parse_query(s@) == Err::<Expr, ErrorModel>(e@),
            },
    {
        let tokens = tokenise(s)?;
        QueryTree::from_tokens(tokens)
    }
}

} // verus!
