use vstd::prelude::*;
use std::cmp::Ordering;

use crate::error::ErrorModel;
use crate::query::{
    LeafModel, PredModel, compile, eval, eval_leaf, field, float_count, inverse, leaf_type,
    outcome,
};
use crate::query_tree::{Expr, Op};
use crate::schema::{ColType, col_index};
use crate::values::{Value, holds, order, parse_value, text_order};

use crate::tokens::{
    Lexeme, is_blank, is_ident_char, lex, lex_word, render, then_all, then_lex, token_text,
};

verus! {

/// The characters that start an operator or a bracket.
pub open spec fn is_punct(c: char) -> bool {
    c == '(' || c == ')' || c == '=' || c == '<' || c == '>' || c == '!' || c == '&' || c == '|'
}

/// A token as the lexer makes it: a word is a non-empty run of identifier
/// characters that does not start with punctuation.
pub open spec fn well_formed(t: Lexeme) -> bool {
    match t {
        Lexeme::Word(w) => {
            &&& w.len() > 0
            &&& !is_punct(w[0])
            &&& forall|i: int| 0 <= i < w.len() ==> is_ident_char(#[trigger] w[i])
        },
        _ => true,
    }
}

pub open spec fn all_well_formed(ts: Seq<Lexeme>) -> bool {
    forall|i: int| 0 <= i < ts.len() ==> well_formed(#[trigger] ts[i])
}

proof fn lemma_then_lex_well_formed(t: Lexeme, r: Result<Seq<Lexeme>, crate::error::ErrorModel>)
    requires
        well_formed(t),
        r matches Ok(ts) ==> all_well_formed(ts),
    ensures
        then_lex(t, r) matches Ok(ts) ==> all_well_formed(ts),
{
    if let Ok(ts) = r {
        let all = seq![t] + ts;
        assert forall|i: int| 0 <= i < all.len() implies well_formed(#[trigger] all[i]) by {
            if i > 0 {
                assert(all[i] == ts[i - 1]);
            }
        }
    }
}

proof fn lemma_lex_well_formed(s: Seq<char>)
    ensures
        lex(s) matches Ok(ts) ==> all_well_formed(ts),
    decreases s.len(), 0nat,
{
    if s.len() > 0 {
        let c = s[0];
        if is_punct(c) || is_blank(c) {
            lemma_lex_well_formed(s.drop_first());
            if s.len() > 1 {
                lemma_lex_well_formed(s.skip(2));
            }
            lemma_then_lex_well_formed(Lexeme::OpenBracket, lex(s.drop_first()));
            lemma_then_lex_well_formed(Lexeme::CloseBracket, lex(s.drop_first()));
            lemma_then_lex_well_formed(Lexeme::Eq, lex(s.drop_first()));
            lemma_then_lex_well_formed(Lexeme::Lt, lex(s.drop_first()));
            lemma_then_lex_well_formed(Lexeme::Gt, lex(s.drop_first()));
            lemma_then_lex_well_formed(Lexeme::Not, lex(s.drop_first()));
            if s.len() > 1 {
                lemma_then_lex_well_formed(Lexeme::LEq, lex(s.skip(2)));
                lemma_then_lex_well_formed(Lexeme::GEq, lex(s.skip(2)));
                lemma_then_lex_well_formed(Lexeme::NotEq, lex(s.skip(2)));
                lemma_then_lex_well_formed(Lexeme::And, lex(s.skip(2)));
                lemma_then_lex_well_formed(Lexeme::Or, lex(s.skip(2)));
            }
        } else if is_ident_char(c) {
            lemma_lex_word_well_formed(seq![c], s.drop_first());
        }
    }
}

proof fn lemma_lex_word_well_formed(w: Seq<char>, s: Seq<char>)
    requires
        w.len() > 0,
        !is_punct(w[0]),
        forall|i: int| 0 <= i < w.len() ==> is_ident_char(#[trigger] w[i]),
    ensures
        lex_word(w, s) matches Ok(ts) ==> all_well_formed(ts),
    decreases s.len(), 1nat,
{
    if s.len() > 0 && is_ident_char(s[0]) {
        let w2 = w.push(s[0]);
        assert forall|i: int| 0 <= i < w2.len() implies is_ident_char(#[trigger] w2[i]) by {
            if i < w.len() {
                assert(w2[i] == w[i]);
            }
        }
        lemma_lex_word_well_formed(w2, s.drop_first());
    } else {
        lemma_lex_well_formed(s);
        lemma_then_lex_well_formed(Lexeme::Word(w), lex(s));
    }
}

/// Inside a word, a run of identifier characters is read whole.
proof fn lemma_lex_word_run(p: Seq<char>, q: Seq<char>, tail: Seq<char>)
    requires
        forall|i: int| 0 <= i < q.len() ==> is_ident_char(#[trigger] q[i]),
    ensures
        lex_word(p, q + tail) == lex_word(p + q, tail),
    decreases q.len(),
{
    if q.len() == 0 {
        assert(q + tail =~= tail);
        assert(p + q =~= p);
    } else {
        assert((q + tail)[0] == q[0]);
        assert((q + tail).drop_first() =~= q.drop_first() + tail);
        assert(p.push(q[0]) + q.drop_first() =~= p + q);
        let q2 = q.drop_first();
        assert forall|i: int| 0 <= i < q2.len() implies is_ident_char(#[trigger] q2[i]) by {
            assert(q2[i] == q[i + 1]);
        }
        lemma_lex_word_run(p.push(q[0]), q2, tail);
    }
}

/// A token's text, followed by nothing or by a space, lexes to that token.
proof fn lemma_lex_token(t: Lexeme, tail: Seq<char>)
    requires
        well_formed(t),
        tail.len() == 0 || tail[0] == ' ',
    ensures
        lex(token_text(t) + tail) == then_lex(t, lex(tail)),
{
    let s = token_text(t) + tail;
    reveal_strlit("(");
    reveal_strlit(")");
    reveal_strlit("=");
    reveal_strlit("!");
    reveal_strlit("!=");
    reveal_strlit("<");
    reveal_strlit("<=");
    reveal_strlit(">");
    reveal_strlit(">=");
    reveal_strlit("&&");
    reveal_strlit("||");
    match t {
        Lexeme::Word(w) => {
            assert(s[0] == w[0]);
            assert(is_ident_char(w[0]));
            assert(s.drop_first() =~= w.drop_first() + tail);
            let q = w.drop_first();
            assert forall|i: int| 0 <= i < q.len() implies is_ident_char(#[trigger] q[i]) by {
                assert(q[i] == w[i + 1]);
            }
            lemma_lex_word_run(seq![w[0]], q, tail);
            assert(seq![w[0]] + q =~= w);
        },
        _ => {
            let n = token_text(t).len();
            assert(s.skip(n as int) =~= tail);
            assert(s.drop_first() =~= s.skip(1));
            if n == 1 && s.len() > 1 {
                assert(s[1] == ' ');
            }
        },
    }
}

/// The rendering of well-formed tokens, followed by nothing or by a space,
/// lexes to those tokens.
proof fn lemma_render_lex(ts: Seq<Lexeme>, tail: Seq<char>)
    requires
        all_well_formed(ts),
        tail.len() == 0 || tail[0] == ' ',
    ensures
        lex(render(ts) + tail) == then_all(ts, lex(tail)),
    decreases ts.len(),
{
    if ts.len() == 0 {
        assert(render(ts) + tail =~= tail);
        if let Ok(x) = lex(tail) {
            assert(ts + x =~= x);
        }
    } else if ts.len() == 1 {
        assert(well_formed(ts[0]));
        lemma_lex_token(ts[0], tail);
        if let Ok(x) = lex(tail) {
            assert(seq![ts[0]] + x =~= ts + x);
        }
    } else {
        let init = ts.drop_last();
        let last = ts.last();
        assert(well_formed(ts[ts.len() - 1]));
        assert forall|i: int| 0 <= i < init.len() implies well_formed(#[trigger] init[i]) by {
            assert(init[i] == ts[i]);
        }
        let tail2 = seq![' '] + (token_text(last) + tail);
        assert(render(ts) + tail =~= render(init) + tail2);
        lemma_render_lex(init, tail2);
        assert(tail2.drop_first() =~= token_text(last) + tail);
        assert(is_blank(tail2[0]));
        assert(lex(tail2) == lex(token_text(last) + tail));
        lemma_lex_token(last, tail);
        if let Ok(x) = lex(tail) {
            assert(init + (seq![last] + x) =~= ts + x);
        }
    }
}

/// Lexing the canonical texts of a query's tokens, separated by single
/// spaces, gives back the same tokens.
pub proof fn lex_round_trip(s: Seq<char>)
    requires
        lex(s) is Ok,
    ensures
        lex(render(lex(s)->Ok_0)) == lex(s),
{
    let ts = lex(s)->Ok_0;
    lemma_lex_well_formed(s);
    lemma_render_lex(ts, Seq::empty());
    assert(render(ts) + Seq::<char>::empty() =~= render(ts));
    assert(ts + Seq::<Lexeme>::empty() =~= ts);
}

/// Swaps the two ends of an order.
pub open spec fn flip(o: Option<Ordering>) -> Option<Ordering> {
    match o {
        Some(Ordering::Less) => Some(Ordering::Greater),
        Some(Ordering::Greater) => Some(Ordering::Less),
        other => other,
    }
}

proof fn lemma_text_order_flip(a: Seq<char>, b: Seq<char>)
    ensures
        Some(text_order(b, a)) == flip(Some(text_order(a, b))),
    decreases a.len(),
{
    if a.len() > 0 && b.len() > 0 && a[0] == b[0] {
        lemma_text_order_flip(a.drop_first(), b.drop_first());
    }
}

proof fn lemma_order_flip(x: Value, y: Value)
    ensures
        order(y, x) == flip(order(x, y)),
{
    match (x, y) {
        (Value::Text(a), Value::Text(b)) => lemma_text_order_flip(a, b),
        _ => {},
    }
}

/// `op` on swapped operands is `inverse(op)` on the operands in place.
proof fn lemma_holds_inverse(op: Op, o: Option<Ordering>)
    ensures
        holds(inverse(op), flip(o)) == holds(op, o),
{
}

/// A constant and a column may trade places when the operator is inverted:
/// both comparisons bind to the same predicate, so they agree on every row.
pub proof fn swapped_operands_bind_alike(
    constant: Seq<char>,
    op: Op,
    column: Seq<char>,
    cols: Seq<(Seq<char>, ColType)>,
)
    requires
        col_index(cols, column) is Some,
        col_index(cols, constant) is None,
    ensures
        compile(Expr::Cmp(constant, op, column), cols) == compile(
            Expr::Cmp(column, inverse(op), constant),
            cols,
        ),
{
    assert(inverse(inverse(op)) == op);
}

/// A comparison of a column with a constant on its right reads
/// `field op constant` on every row, though the constant is bound as the
/// left operand (for the types whose order the library computes).
pub proof fn constant_on_right_reads_in_order(
    column: Seq<char>,
    op: Op,
    constant: Seq<char>,
    cols: Seq<(Seq<char>, ColType)>,
    row: Seq<Seq<char>>,
    fl: Seq<Result<Option<Ordering>, ErrorModel>>,
)
    requires
        col_index(cols, column) is Some,
        col_index(cols, constant) is None,
        cols[col_index(cols, column)->Some_0].1 != ColType::Float,
        compile(Expr::Cmp(column, op, constant), cols) is Ok,
    ensures
        ({
            let i = col_index(cols, column)->Some_0;
            let t = cols[i].1;
            eval(compile(Expr::Cmp(column, op, constant), cols)->Ok_0, row, fl) == outcome(
                op,
                parse_value(t, field(row, i)),
                parse_value(t, constant),
                t,
                field(row, i),
                constant,
            )
        }),
{
    let i = col_index(cols, column)->Some_0;
    let t = cols[i].1;
    let v = parse_value(t, constant)->Some_0;
    if let Some(x) = parse_value(t, field(row, i)) {
        lemma_order_flip(x, v);
        lemma_holds_inverse(op, order(x, v));
    }
}

/// Two columns of different declared types are never compared: binding
/// fails with a type mismatch, whatever the operator and the two types.
pub proof fn mismatched_columns_fail(
    left: Seq<char>,
    op: Op,
    right: Seq<char>,
    cols: Seq<(Seq<char>, ColType)>,
)
    requires
        col_index(cols, left) is Some,
        col_index(cols, right) is Some,
        cols[col_index(cols, left)->Some_0].1 != cols[col_index(cols, right)->Some_0].1,
    ensures
        compile(Expr::Cmp(left, op, right), cols) == Err::<PredModel, ErrorModel>(
            ErrorModel::TypeMismatch(left, right),
        ),
{
}

/// Whether a bound comparison reads field `j` of a row.
pub open spec fn reads_field(l: LeafModel, j: int) -> bool {
    match l {
        LeafModel::Fields(_, _, a, b) => j == a || j == b,
        LeafModel::Baked(_, _, _, b) => j == b,
    }
}

/// A field that does not read as its column's type makes a comparison
/// that reads it an error naming that type, never a `false`.
pub proof fn unreadable_field_is_error(
    l: LeafModel,
    row: Seq<Seq<char>>,
    fl: Seq<Result<Option<Ordering>, ErrorModel>>,
    j: int,
)
    requires
        leaf_type(l) != ColType::Float,
        reads_field(l, j),
        parse_value(leaf_type(l), field(row, j)) is None,
    ensures
        eval_leaf(l, row, fl) matches Err(ErrorModel::BadValue(t, _)) && t == leaf_type(l),
{
}

/// Whether some comparison of `p` fails on `row`.
pub open spec fn fails_somewhere(
    p: PredModel,
    row: Seq<Seq<char>>,
    fl: Seq<Result<Option<Ordering>, ErrorModel>>,
) -> bool
    decreases p,
{
    match p {
        PredModel::Leaf(l) => eval_leaf(l, row, fl) is Err,
        PredModel::Not(a) => fails_somewhere(*a, row, fl),
        PredModel::And(a, b) => fails_somewhere(*a, row, fl.take(float_count(*a) as int))
            || fails_somewhere(*b, row, fl.skip(float_count(*a) as int)),
        PredModel::Or(a, b) => fails_somewhere(*a, row, fl.take(float_count(*a) as int))
            || fails_somewhere(*b, row, fl.skip(float_count(*a) as int)),
    }
}

/// An error in any comparison is the error of the whole predicate: `!`,
/// `&&` and `||` never turn it into a boolean.
pub proof fn failure_anywhere_fails(
    p: PredModel,
    row: Seq<Seq<char>>,
    fl: Seq<Result<Option<Ordering>, ErrorModel>>,
)
    ensures
        fails_somewhere(p, row, fl) ==> eval(p, row, fl) is Err,
    decreases p,
{
    match p {
        PredModel::Leaf(_) => {},
        PredModel::Not(a) => failure_anywhere_fails(*a, row, fl),
        PredModel::And(a, b) | PredModel::Or(a, b) => {
            failure_anywhere_fails(*a, row, fl.take(float_count(*a) as int));
            failure_anywhere_fails(*b, row, fl.skip(float_count(*a) as int));
        },
    }
}

} // verus!
