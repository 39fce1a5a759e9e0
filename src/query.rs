use vstd::prelude::*;
use std::cmp::Ordering;

use crate::error::{ErrorModel, QueryError};
use crate::query_tree::{Expr, Op, QueryTree, parse_query};
use crate::schema::{ColType, Schema, col_index};
use crate::text::{trim, trimmed};
use crate::values::{Scalar, Value, apply_op, compare, holds, order, parse_value};

verus! {

/// The operator that, with its operands swapped, says the same:
/// `a op b` exactly when `b inverse(op) a`.
pub open spec fn inverse(op: Op) -> Op {
    match op {
        Op::Eq => Op::Eq,
        Op::NotEq => Op::NotEq,
        Op::Gt => Op::Lt,
        Op::Lt => Op::Gt,
        Op::LEq => Op::GEq,
        Op::GEq => Op::LEq,
    }
}

/// The operator for swapped operands.
pub fn invert(op: Op) -> (r: Op)
    ensures
        r == inverse(op),
{
    match op {
        Op::Eq => Op::Eq,
        Op::NotEq => Op::NotEq,
        Op::Gt => Op::Lt,
        Op::Lt => Op::Gt,
        Op::LEq => Op::GEq,
        Op::GEq => Op::LEq,
    }
}

/// A bound comparison, as a model.
pub enum LeafModel {
    /// `row[left] op row[right]`, both read as `ty`.
    Fields(ColType, Op, int, int),
    /// `constant op row[field]`, the field read as `ty`.
    Baked(ColType, Op, Value, int),
}

/// A bound query, as a model.
pub enum PredModel {
    Leaf(LeafModel),
    Not(Box<PredModel>),
    And(Box<PredModel>, Box<PredModel>),
    Or(Box<PredModel>, Box<PredModel>),
}

/// Binds the comparison `left op right` to the columns `cols`.
/// A constant is always bound as the left operand: where it stands on the
/// right, the operator is inverted.
pub open spec fn bind_cmp(left: Seq<char>, op: Op, right: Seq<char>, cols: Seq<(Seq<char>, ColType)>) -> Result<
    LeafModel,
    ErrorModel,
> {
    match (col_index(cols, left), col_index(cols, right)) {
        (None, None) => Err(ErrorModel::NoColumn(left, right)),
        (Some(i), Some(j)) => if cols[i].1 == cols[j].1 {
            Ok(LeafModel::Fields(cols[i].1, op, i, j))
        } else {
            Err(ErrorModel::TypeMismatch(left, right))
        },
        (None, Some(j)) => match parse_value(cols[j].1, left) {
            Some(v) => Ok(LeafModel::Baked(cols[j].1, op, v, j)),
            None => Err(ErrorModel::BadValue(cols[j].1, left)),
        },
        (Some(i), None) => match parse_value(cols[i].1, right) {
            Some(v) => Ok(LeafModel::Baked(cols[i].1, inverse(op), v, i)),
            None => Err(ErrorModel::BadValue(cols[i].1, right)),
        },
    }
}

/// Binds a whole query, left operands first; the first error ends it.
pub open spec fn compile(e: Expr, cols: Seq<(Seq<char>, ColType)>) -> Result<PredModel, ErrorModel>
    decreases e,
{
    match e {
        Expr::Cmp(l, op, r) => match bind_cmp(l, op, r, cols) {
            Ok(leaf) => Ok(PredModel::Leaf(leaf)),
            Err(err) => Err(err),
        },
        Expr::Not(a) => match compile(*a, cols) {
            Ok(p) => Ok(PredModel::Not(Box::new(p))),
            Err(err) => Err(err),
        },
        Expr::And(a, b) => match compile(*a, cols) {
            Err(err) => Err(err),
            Ok(pa) => match compile(*b, cols) {
                Err(err) => Err(err),
                Ok(pb) => Ok(PredModel::And(Box::new(pa), Box::new(pb))),
            },
        },
        Expr::Or(a, b) => match compile(*a, cols) {
            Err(err) => Err(err),
            Ok(pa) => match compile(*b, cols) {
                Err(err) => Err(err),
                Ok(pb) => Ok(PredModel::Or(Box::new(pa), Box::new(pb))),
            },
        },
    }
}

pub open spec fn leaf_type(l: LeafModel) -> ColType {
    match l {
        LeafModel::Fields(t, _, _, _) => t,
        LeafModel::Baked(t, _, _, _) => t,
    }
}

/// The number of float comparisons in `p`: their order is computed outside the library.
pub open spec fn float_count(p: PredModel) -> nat
    decreases p,
{
    match p {
        PredModel::Leaf(l) => if leaf_type(l) == ColType::Float {
            1
        } else {
            0
        },
        PredModel::Not(a) => float_count(*a),
        PredModel::And(a, b) => float_count(*a) + float_count(*b),
        PredModel::Or(a, b) => float_count(*a) + float_count(*b),
    }
}

/// Field `i` of `row`, without surrounding white space.
pub open spec fn field(row: Seq<Seq<char>>, i: int) -> Seq<char> {
    trimmed(row[i])
}

/// The text of a float value.
pub open spec fn value_text(v: Value) -> Seq<char> {
    match v {
        Value::Float(s) => s,
        _ => Seq::empty(),
    }
}

/// The operand pairs whose float order `p` needs on `row`, in the order of
/// its leaves.
pub open spec fn float_requests(p: PredModel, row: Seq<Seq<char>>) -> Seq<(Seq<char>, Seq<char>)>
    decreases p,
{
    match p {
        PredModel::Leaf(l) => match l {
            LeafModel::Fields(ColType::Float, _, i, j) => seq![(field(row, i), field(row, j))],
            LeafModel::Baked(ColType::Float, _, v, j) => seq![(value_text(v), field(row, j))],
            _ => Seq::empty(),
        },
        PredModel::Not(a) => float_requests(*a, row),
        PredModel::And(a, b) => float_requests(*a, row) + float_requests(*b, row),
        PredModel::Or(a, b) => float_requests(*a, row) + float_requests(*b, row),
    }
}

/// The constants of the float comparisons of `p`, in the order of its leaves.
pub open spec fn float_constants(p: PredModel) -> Seq<Seq<char>>
    decreases p,
{
    match p {
        PredModel::Leaf(LeafModel::Baked(ColType::Float, _, v, _)) => seq![value_text(v)],
        PredModel::Leaf(_) => Seq::empty(),
        PredModel::Not(a) => float_constants(*a),
        PredModel::And(a, b) => float_constants(*a) + float_constants(*b),
        PredModel::Or(a, b) => float_constants(*a) + float_constants(*b),
    }
}

/// The outcome of a comparison whose operands read as `a` and `b`.
pub open spec fn outcome(op: Op, a: Option<Value>, b: Option<Value>, t: ColType, ta: Seq<char>, tb: Seq<char>) -> Result<
    bool,
    ErrorModel,
> {
    match a {
        None => Err(ErrorModel::BadValue(t, ta)),
        Some(x) => match b {
            None => Err(ErrorModel::BadValue(t, tb)),
            Some(y) => Ok(holds(op, order(x, y))),
        },
    }
}

/// A bound comparison on `row`; a float comparison reads its order from `fl[0]`.
pub open spec fn eval_leaf(
    l: LeafModel,
    row: Seq<Seq<char>>,
    fl: Seq<Result<Option<Ordering>, ErrorModel>>,
) -> Result<bool, ErrorModel> {
    if leaf_type(l) == ColType::Float {
        match fl[0] {
            Ok(o) => Ok(holds(
                match l {
                    LeafModel::Fields(_, op, _, _) => op,
                    LeafModel::Baked(_, op, _, _) => op,
                },
                o,
            )),
            Err(e) => Err(e),
        }
    } else {
        match l {
            LeafModel::Fields(t, op, i, j) => outcome(
                op,
                parse_value(t, field(row, i)),
                parse_value(t, field(row, j)),
                t,
                field(row, i),
                field(row, j),
            ),
            LeafModel::Baked(t, op, v, j) => outcome(
                op,
                Some(v),
                parse_value(t, field(row, j)),
                t,
                value_text(v),
                field(row, j),
            ),
        }
    }
}

/// Both operands are evaluated; the left one's error comes first.
pub open spec fn both(a: Result<bool, ErrorModel>, b: Result<bool, ErrorModel>, conj: bool) -> Result<
    bool,
    ErrorModel,
> {
    match a {
        Err(e) => Err(e),
        Ok(x) => match b {
            Err(e) => Err(e),
            Ok(y) => Ok(
                if conj {
                    x && y
                } else {
                    x || y
                },
            ),
        },
    }
}

/// A bound query on `row`, given the orders of its float comparisons in `fl`.
pub open spec fn eval(p: PredModel, row: Seq<Seq<char>>, fl: Seq<Result<Option<Ordering>, ErrorModel>>) -> Result<
    bool,
    ErrorModel,
>
    decreases p,
{
    match p {
        PredModel::Leaf(l) => eval_leaf(l, row, fl),
        PredModel::Not(a) => match eval(*a, row, fl) {
            Ok(x) => Ok(!x),
            Err(e) => Err(e),
        },
        PredModel::And(a, b) => both(
            eval(*a, row, fl.take(float_count(*a) as int)),
            eval(*b, row, fl.skip(float_count(*a) as int)),
            true,
        ),
        PredModel::Or(a, b) => both(
            eval(*a, row, fl.take(float_count(*a) as int)),
            eval(*b, row, fl.skip(float_count(*a) as int)),
            false,
        ),
    }
}

/// A bound comparison.
pub enum ColumnOp {
    Fields { ty: ColType, op: Op, left: usize, right: usize },
    Baked { ty: ColType, op: Op, constant: Scalar, field: usize },
}

impl View for ColumnOp {
    type V = LeafModel;

    open spec fn view(&self) -> LeafModel {
        match self {
            ColumnOp::Fields { ty, op, left, right } => LeafModel::Fields(
                *ty,
                *op,
                *left as int,
                *right as int,
            ),
            ColumnOp::Baked { ty, op, constant, field } => LeafModel::Baked(
                *ty,
                *op,
                constant@,
                *field as int,
            ),
        }
    }
}

/// A bound query.
pub enum Predicate {
    Leaf(ColumnOp),
    Not(Box<Predicate>),
    And(Box<Predicate>, Box<Predicate>),
    Or(Box<Predicate>, Box<Predicate>),
}

pub open spec fn pred_model(p: Predicate) -> PredModel
    decreases p,
{
    match p {
        Predicate::Leaf(l) => PredModel::Leaf(l@),
        Predicate::Not(a) => PredModel::Not(Box::new(pred_model(*a))),
        Predicate::And(a, b) => PredModel::And(Box::new(pred_model(*a)), Box::new(pred_model(*b))),
        Predicate::Or(a, b) => PredModel::Or(Box::new(pred_model(*a)), Box::new(pred_model(*b))),
    }
}

impl View for Predicate {
    type V = PredModel;

    open spec fn view(&self) -> PredModel {
        pred_model(*self)
    }
}

/// Every field index of `p` is below `width`.
pub open spec fn within(p: PredModel, width: int) -> bool
    decreases p,
{
    match p {
        PredModel::Leaf(LeafModel::Fields(_, _, i, j)) => 0 <= i < width && 0 <= j < width,
        PredModel::Leaf(LeafModel::Baked(_, _, _, j)) => 0 <= j < width,
        PredModel::Not(a) => within(*a, width),
        PredModel::And(a, b) => within(*a, width) && within(*b, width),
        PredModel::Or(a, b) => within(*a, width) && within(*b, width),
    }
}

proof fn lemma_compile_within(e: Expr, cols: Seq<(Seq<char>, ColType)>)
    requires
        compile(e, cols) is Ok,
    ensures
        within(compile(e, cols)->Ok_0, cols.len() as int),
    decreases e,
{
    match e {
        Expr::Cmp(l, op, r) => {
            if let Some(i) = col_index(cols, l) {
                assert(crate::schema::is_first_col(cols, l, i));
            }
            if let Some(j) = col_index(cols, r) {
                assert(crate::schema::is_first_col(cols, r, j));
            }
        },
        Expr::Not(a) => lemma_compile_within(*a, cols),
        Expr::And(a, b) => {
            lemma_compile_within(*a, cols);
            lemma_compile_within(*b, cols);
        },
        Expr::Or(a, b) => {
            lemma_compile_within(*a, cols);
            lemma_compile_within(*b, cols);
        },
    }
}

impl ColumnOp {
    /// Binds `left op right`: each operand is a column of `schema` or a constant.
    pub fn form_op(schema: &Schema, left: String, op: Op, right: String) -> (r: Result<ColumnOp, QueryError>)
        ensures
            match r {
                Ok(c) => bind_cmp(left@, op, right@, schema@) == Ok::<LeafModel, ErrorModel>(c@),
                Err(e) => bind_cmp(left@, op, right@, schema@) == Err::<LeafModel, ErrorModel>(e@),
            },
    {
        match (schema.try_find_col(&left), schema.try_find_col(&right)) {
            (None, None) => Err(QueryError::NoColumn(left, right)),
            (Some((idx_a, col_a)), Some((idx_b, col_b))) => {
                if col_a.col_type == col_b.col_type {
                    Ok(ColumnOp::Fields { ty: col_a.col_type, op, left: idx_a, right: idx_b })
                } else {
                    Err(QueryError::TypeMismatch(left, right))
                }
            },
            (None, Some((idx, col))) => {
                let ty = col.col_type;
                match ty.parse(left.as_str()) {
                    Some(constant) => Ok(ColumnOp::Baked { ty, op, constant, field: idx }),
                    None => Err(QueryError::BadValue(ty, left)),
                }
            },
            (Some((idx, col)), None) => {
                // Only a left operand can be baked in: swap the operands.
                let ty = col.col_type;
                let alternate_op = invert(op);
                match ty.parse(right.as_str()) {
                    Some(constant) => Ok(ColumnOp::Baked { ty, op: alternate_op, constant, field: idx }),
                    None => Err(QueryError::BadValue(ty, right)),
                }
            },
        }
    }
}

} // verus!

verus! {

/// The order of a float comparison's operands as computed outside the
/// library (`None` for a NaN), or the error of an operand that is no float.
pub type FloatOrder = Result<Option<Ordering>, QueryError>;

pub open spec fn order_model(a: FloatOrder) -> Result<Option<Ordering>, ErrorModel> {
    match a {
        Ok(o) => Ok(o),
        Err(e) => Err(e@),
    }
}

pub open spec fn orders(fl: Seq<FloatOrder>) -> Seq<Result<Option<Ordering>, ErrorModel>> {
    fl.map_values(|a: FloatOrder| order_model(a))
}

pub open spec fn row_model(row: Seq<String>) -> Seq<Seq<char>> {
    row.map_values(|s: String| s@)
}

pub open spec fn pairs_model(v: Seq<(String, String)>) -> Seq<(Seq<char>, Seq<char>)> {
    v.map_values(|x: (String, String)| (x.0@, x.1@))
}

pub open spec fn texts_model(v: Seq<String>) -> Seq<Seq<char>> {
    v.map_values(|x: String| x@)
}

pub open spec fn result_model(r: Result<bool, QueryError>) -> Result<bool, ErrorModel> {
    match r {
        Ok(b) => Ok(b),
        Err(e) => Err(e@),
    }
}

/// A query string read and bound to the columns `cols`.
pub open spec fn query_of(s: Seq<char>, cols: Seq<(Seq<char>, ColType)>) -> Result<PredModel, ErrorModel> {
    match parse_query(s) {
        Ok(e) => compile(e, cols),
        Err(e) => Err(e),
    }
}

fn read_field(row: &Vec<String>, i: usize) -> (r: &str)
    requires
        i < row.len(),
    ensures
        r@ == field(row_model(row@), i as int),
{
    trim(row[i].as_str())
}

fn eval_leaf_at(l: &ColumnOp, row: &Vec<String>, fl: &Vec<FloatOrder>, at: usize) -> (r: Result<bool, QueryError>)
    requires
        within(PredModel::Leaf(l@), row.len() as int),
        leaf_type(l@) == ColType::Float ==> at < fl.len(),
    ensures
        result_model(r) == eval_leaf(l@, row_model(row@), orders(fl@).subrange(at as int, fl.len() as int)),
{
    let ghost f = orders(fl@).subrange(at as int, fl.len() as int);
    match l {
        ColumnOp::Fields { ty, op, left, right } => {
            if *ty == ColType::Float {
                assert(f[0] == order_model(fl@[at as int]));
                match &fl[at] {
                    Ok(o) => Ok(apply_op(*op, *o)),
                    Err(e) => Err(e.duplicate()),
                }
            } else {
                let a = read_field(row, *left);
                let b = read_field(row, *right);
                match ty.parse(a) {
                    None => Err(QueryError::BadValue(*ty, a.to_owned())),
                    Some(x) => match ty.parse(b) {
                        None => Err(QueryError::BadValue(*ty, b.to_owned())),
                        Some(y) => Ok(apply_op(*op, compare(&x, &y))),
                    },
                }
            }
        },
        ColumnOp::Baked { ty, op, constant, field } => {
            if *ty == ColType::Float {
                assert(f[0] == order_model(fl@[at as int]));
                match &fl[at] {
                    Ok(o) => Ok(apply_op(*op, *o)),
                    Err(e) => Err(e.duplicate()),
                }
            } else {
                let b = read_field(row, *field);
                match ty.parse(b) {
                    None => Err(QueryError::BadValue(*ty, b.to_owned())),
                    Some(y) => Ok(apply_op(*op, compare(constant, &y))),
                }
            }
        },
    }
}

fn eval_at(p: &Predicate, row: &Vec<String>, fl: &Vec<FloatOrder>, at: &mut usize) -> (r: Result<bool, QueryError>)
    requires
        within(p@, row.len() as int),
        *old(at) + float_count(p@) <= fl.len(),
    ensures
        *final(at) == *old(at) + float_count(p@),
        result_model(r) == eval(
            p@,
            row_model(row@),
            orders(fl@).subrange(*old(at) as int, *old(at) + float_count(p@)),
        ),
    decreases p,
{
    let ghost start = *at as int;
    let ghost all = orders(fl@);
    match p {
        Predicate::Leaf(l) => {
            let r = eval_leaf_at(l, row, fl, *at);
            proof {
                let f = all.subrange(start, fl.len() as int);
                let g = all.subrange(start, start + float_count(p@));
                if leaf_type(l@) == ColType::Float {
                    assert(f[0] == g[0]);
                }
            }
            if leaf_is_float(l) {
                *at = *at + 1;
            }
            r
        },
        Predicate::Not(a) => match eval_at(a, row, fl, at) {
            Ok(x) => Ok(!x),
            Err(e) => Err(e),
        },
        Predicate::And(a, b) => {
            let ra = eval_at(a, row, fl, at);
            let rb = eval_at(b, row, fl, at);
            proof {
                let na = float_count(a@);
                let g = all.subrange(start, start + float_count(p@));
                assert(g.take(na as int) =~= all.subrange(start, start + na));
                assert(g.skip(na as int) =~= all.subrange(start + na, start + float_count(p@)));
            }
            match ra {
                Err(e) => Err(e),
                Ok(x) => match rb {
                    Err(e) => Err(e),
                    Ok(y) => Ok(x && y),
                },
            }
        },
        Predicate::Or(a, b) => {
            let ra = eval_at(a, row, fl, at);
            let rb = eval_at(b, row, fl, at);
            proof {
                let na = float_count(a@);
                let g = all.subrange(start, start + float_count(p@));
                assert(g.take(na as int) =~= all.subrange(start, start + na));
                assert(g.skip(na as int) =~= all.subrange(start + na, start + float_count(p@)));
            }
            match ra {
                Err(e) => Err(e),
                Ok(x) => match rb {
                    Err(e) => Err(e),
                    Ok(y) => Ok(x || y),
                },
            }
        },
    }
}

fn leaf_is_float(l: &ColumnOp) -> (r: bool)
    ensures
        r == (leaf_type(l@) == ColType::Float),
{
    match l {
        ColumnOp::Fields { ty, .. } => *ty == ColType::Float,
        ColumnOp::Baked { ty, .. } => *ty == ColType::Float,
    }
}

fn text_of(v: &Scalar) -> (r: String)
    ensures
        r@ == value_text(v@),
{
    match v {
        Scalar::Float(s) => s.clone(),
        _ => String::new(),
    }
}

fn collect_requests(p: &Predicate, row: &Vec<String>, out: &mut Vec<(String, String)>)
    requires
        within(p@, row.len() as int),
    ensures
        pairs_model(final(out)@) == pairs_model(old(out)@) + float_requests(p@, row_model(row@)),
    decreases p,
{
    let ghost before = pairs_model(out@);
    match p {
        Predicate::Leaf(l) => {
            let pair = match l {
                ColumnOp::Fields { ty: ColType::Float, left, right, .. } => Some(
                    (read_field(row, *left).to_owned(), read_field(row, *right).to_owned()),
                ),
                ColumnOp::Baked { ty: ColType::Float, constant, field, .. } => Some(
                    (text_of(constant), read_field(row, *field).to_owned()),
                ),
                _ => None,
            };
            match pair {
                Some(x) => {
                    out.push(x);
                    assert(pairs_model(out@) =~= before + float_requests(p@, row_model(row@)));
                },
                None => {
                    assert(pairs_model(out@) =~= before + float_requests(p@, row_model(row@)));
                },
            }
        },
        Predicate::Not(a) => collect_requests(a, row, out),
        Predicate::And(a, b) | Predicate::Or(a, b) => {
            collect_requests(a, row, out);
            collect_requests(b, row, out);
            assert(pairs_model(out@) =~= before + float_requests(p@, row_model(row@)));
        },
    }
}

fn collect_constants(p: &Predicate, out: &mut Vec<String>)
    ensures
        texts_model(final(out)@) == texts_model(old(out)@) + float_constants(p@),
    decreases p,
{
    let ghost before = texts_model(out@);
    match p {
        Predicate::Leaf(ColumnOp::Baked { ty: ColType::Float, constant, .. }) => {
            out.push(text_of(constant));
            assert(texts_model(out@) =~= before + float_constants(p@));
        },
        Predicate::Leaf(_) => {
            assert(texts_model(out@) =~= before + float_constants(p@));
        },
        Predicate::Not(a) => collect_constants(a, out),
        Predicate::And(a, b) | Predicate::Or(a, b) => {
            collect_constants(a, out);
            collect_constants(b, out);
            assert(texts_model(out@) =~= before + float_constants(p@));
        },
    }
}

proof fn lemma_requests_count(p: PredModel, row: Seq<Seq<char>>)
    ensures
        float_requests(p, row).len() == float_count(p),
    decreases p,
{
    match p {
        PredModel::Leaf(l) => {},
        PredModel::Not(a) => lemma_requests_count(*a, row),
        PredModel::And(a, b) => {
            lemma_requests_count(*a, row);
            lemma_requests_count(*b, row);
        },
        PredModel::Or(a, b) => {
            lemma_requests_count(*a, row);
            lemma_requests_count(*b, row);
        },
    }
}

/// A compiled query: a predicate over the rows of one schema.
pub struct QueryFn {
    pred: Predicate,
    width: usize,
}

impl View for QueryFn {
    type V = PredModel;

    closed spec fn view(&self) -> PredModel {
        self.pred@
    }
}

impl QueryFn {
    /// The number of fields in each row.
    pub closed spec fn width(&self) -> nat {
        self.width as nat
    }

    pub closed spec fn wf(&self) -> bool {
        within(self.pred@, self.width as int)
    }

    fn from_query_inner(q: QueryTree, s: &Schema) -> (r: Result<Predicate, QueryError>)
        ensures
            match r {
                Ok(p) => compile(q@, s@) == Ok::<PredModel, ErrorModel>(p@),
                Err(e) => compile(q@, s@) == Err::<PredModel, ErrorModel>(e@),
            },
        decreases q,
    {
        match q {
            QueryTree::And { q1, q2 } => {
                let a = QueryFn::from_query_inner(*q1, s)?;
                let b = QueryFn::from_query_inner(*q2, s)?;
                Ok(Predicate::And(Box::new(a), Box::new(b)))
            },
            QueryTree::Or { q1, q2 } => {
                let a = QueryFn::from_query_inner(*q1, s)?;
                let b = QueryFn::from_query_inner(*q2, s)?;
                Ok(Predicate::Or(Box::new(a), Box::new(b)))
            },
            QueryTree::Not { q } => {
                let f = QueryFn::from_query_inner(*q, s)?;
                Ok(Predicate::Not(Box::new(f)))
            },
            QueryTree::Op { left, op, right } => {
                let leaf = ColumnOp::form_op(s, left, op, right)?;
                Ok(Predicate::Leaf(leaf))
            },
        }
    }

    fn from_query(q: QueryTree, s: &Schema) -> (r: Result<QueryFn, QueryError>)
        ensures
            match r {
                Ok(f) => compile(q@, s@) == Ok::<PredModel, ErrorModel>(f@) && f.width() == s@.len()
                    && f.wf(),
                Err(e) => compile(q@, s@) == Err::<PredModel, ErrorModel>(e@),
            },
    {
        let ghost e = q@;
        let inner = QueryFn::from_query_inner(q, s)?;
        proof {
            lemma_compile_within(e, s@);
        }
        Ok(QueryFn { pred: inner, width: s.len() })
    }

    /// Evaluates the query on `row`, given the order of each of its float
    /// comparisons (see `float_requests`). Every comparison is evaluated;
    /// the first error, from the left, is the result.
    pub fn matches(&self, row: &Vec<String>, floats: &Vec<FloatOrder>) -> (r: Result<bool, QueryError>)
        requires
            self.wf(),
            row.len() == self.width(),
            floats.len() == float_count(self@),
        ensures
            result_model(r) == eval(self@, row_model(row@), orders(floats@)),
    {
        let mut at: usize = 0;
        let r = eval_at(&self.pred, row, floats, &mut at);
        assert(orders(floats@).subrange(0, float_count(self@) as int) =~= orders(floats@));
        r
    }

    /// The operand pairs, in the order of the query's float comparisons, whose
    /// order `matches` needs for `row`; each pair reads as `(left, right)`.
    pub fn float_requests(&self, row: &Vec<String>) -> (r: Vec<(String, String)>)
        requires
            self.wf(),
            row.len() == self.width(),
        ensures
            pairs_model(r@) == float_requests(self@, row_model(row@)),
            r.len() == float_count(self@),
    {
        let mut out: Vec<(String, String)> = Vec::new();
        assert(pairs_model(out@) =~= Seq::<(Seq<char>, Seq<char>)>::empty());
        collect_requests(&self.pred, row, &mut out);
        assert(pairs_model(out@) =~= float_requests(self@, row_model(row@)));
        proof {
            lemma_requests_count(self@, row_model(row@));
        }
        out
    }

    /// The constants that the query compares with float columns.
    pub fn float_constants(&self) -> (r: Vec<String>)
        ensures
            texts_model(r@) == float_constants(self@),
    {
        let mut out: Vec<String> = Vec::new();
        assert(texts_model(out@) =~= Seq::<Seq<char>>::empty());
        collect_constants(&self.pred, &mut out);
        assert(texts_model(out@) =~= float_constants(self@));
        out
    }
}

/// Reads the query `q` and binds it to the schema `s`.
pub fn parse(q: &String, s: &Schema) -> (r: Result<QueryFn, QueryError>)
    ensures
        match r {
            Ok(f) => query_of(q@, s@) == Ok::<PredModel, ErrorModel>(f@) && f.width() == s@.len()
                && f.wf(),
            Err(e) => query_of(q@, s@) == Err::<PredModel, ErrorModel>(e@),
        },
{
    let query = QueryTree::from_qstring(q)?;
    QueryFn::from_query(*query, s)
}

} // verus!
