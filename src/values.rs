use vstd::prelude::*;
use std::cmp::Ordering;

use crate::query_tree::Op;
use crate::schema::ColType;
use crate::text::chars_of;

verus! {

/// The value of a decimal digit.
pub open spec fn digit_value(c: char) -> int {
    (c as u32) as int - ('0' as u32) as int
}

pub open spec fn is_digit(c: char) -> bool {
    '0' <= c <= '9'
}

/// The number that a run of decimal digits spells.
pub open spec fn digits_value(d: Seq<char>) -> int
    decreases d.len(),
{
    if d.len() == 0 {
        0
    } else {
        digits_value(d.drop_last()) * 10 + digit_value(d.last())
    }
}

/// An optional sign, then one or more decimal digits, spelling a number
/// that fits in an `i32`.
pub open spec fn int_of(s: Seq<char>) -> Option<int> {
    let neg = s.len() > 0 && s[0] == '-';
    let d = if s.len() > 0 && (s[0] == '-' || s[0] == '+') {
        s.drop_first()
    } else {
        s
    };
    let v = if neg {
        -digits_value(d)
    } else {
        digits_value(d)
    };
    if d.len() > 0 && (forall|i: int| 0 <= i < d.len() ==> is_digit(#[trigger] d[i])) && i32::MIN
        <= v <= i32::MAX {
        Some(v)
    } else {
        None
    }
}

/// Relies on `<i32 as FromStr>::from_str`: an optional `+` or `-`, then
/// decimal digits, whose value must fit in an `i32`.
#[verifier::external_body]
fn parse_int(s: &str) -> (r: Option<i32>)
    ensures
        match int_of(s@) {
            Some(v) => r == Some(v as i32),
            None => r is None,
        },
{
    s.parse::<i32>().ok()
}

/// Relies on `<bool as FromStr>::from_str`: exactly `true` or `false`.
#[verifier::external_body]
fn parse_bool(s: &str) -> (r: Option<bool>)
    ensures
        s@ == "true"@ ==> r == Some(true),
        s@ == "false"@ ==> r == Some(false),
        s@ != "true"@ && s@ != "false"@ ==> r is None,
{
    s.parse::<bool>().ok()
}

/// A typed value, as a model.
pub enum Value {
    Text(Seq<char>),
    Int(int),
    Bool(bool),
    /// A float's text: its value, and so its order, is computed outside the library.
    Float(Seq<char>),
}

/// A typed value: a parsed field or constant.
#[derive(Clone, Debug, PartialEq)]
pub enum Scalar {
    Text(Vec<char>),
    Int(i32),
    Bool(bool),
    Float(String),
}

impl View for Scalar {
    type V = Value;

    open spec fn view(&self) -> Value {
        match self {
            Scalar::Text(c) => Value::Text(c@),
            Scalar::Int(i) => Value::Int(*i as int),
            Scalar::Bool(b) => Value::Bool(*b),
            Scalar::Float(s) => Value::Float(s@),
        }
    }
}

/// The value of text `s` in a column of type `t`, if it has one. Any text
/// is a string; a float keeps its text, to be read outside the library.
pub open spec fn parse_value(t: ColType, s: Seq<char>) -> Option<Value> {
    match t {
        ColType::Text => Some(Value::Text(s)),
        ColType::Int => match int_of(s) {
            Some(v) => Some(Value::Int(v)),
            None => None,
        },
        ColType::Bool => if s == "true"@ {
            Some(Value::Bool(true))
        } else if s == "false"@ {
            Some(Value::Bool(false))
        } else {
            None
        },
        ColType::Float => Some(Value::Float(s)),
    }
}

/// The order of two integers.
pub open spec fn int_order(a: int, b: int) -> Ordering {
    if a < b {
        Ordering::Less
    } else if a == b {
        Ordering::Equal
    } else {
        Ordering::Greater
    }
}

/// Lexical order of two texts, character by character.
pub open spec fn text_order(a: Seq<char>, b: Seq<char>) -> Ordering
    decreases a.len(),
{
    if a.len() == 0 {
        if b.len() == 0 {
            Ordering::Equal
        } else {
            Ordering::Less
        }
    } else if b.len() == 0 {
        Ordering::Greater
    } else if a[0] != b[0] {
        int_order(a[0] as u32 as int, b[0] as u32 as int)
    } else {
        text_order(a.drop_first(), b.drop_first())
    }
}

/// The order of two values of one type; `false` before `true`. Floats are
/// ordered outside the library, and values of different types not at all.
pub open spec fn order(a: Value, b: Value) -> Option<Ordering> {
    match (a, b) {
        (Value::Text(x), Value::Text(y)) => Some(text_order(x, y)),
        (Value::Int(x), Value::Int(y)) => Some(int_order(x, y)),
        (Value::Bool(x), Value::Bool(y)) => Some(
            int_order(
                if x {
                    1
                } else {
                    0
                },
                if y {
                    1
                } else {
                    0
                },
            ),
        ),
        _ => None,
    }
}

/// Whether `op` holds of two operands in the order `o`; `None` stands for
/// unordered operands (a float NaN), of which only `!=` holds.
pub open spec fn holds(op: Op, o: Option<Ordering>) -> bool {
    match op {
        Op::Eq => o == Some(Ordering::Equal),
        Op::NotEq => o != Some(Ordering::Equal),
        Op::Lt => o == Some(Ordering::Less),
        Op::LEq => o == Some(Ordering::Less) || o == Some(Ordering::Equal),
        Op::Gt => o == Some(Ordering::Greater),
        Op::GEq => o == Some(Ordering::Greater) || o == Some(Ordering::Equal),
    }
}

/// `op` on operands in the order `o`.
pub fn apply_op(op: Op, o: Option<Ordering>) -> (r: bool)
    ensures
        r == holds(op, o),
{
    let eq = matches!(o, Some(Ordering::Equal));
    let lt = matches!(o, Some(Ordering::Less));
    let gt = matches!(o, Some(Ordering::Greater));
    match op {
        Op::Eq => eq,
        Op::NotEq => !eq,
        Op::Lt => lt,
        Op::LEq => lt || eq,
        Op::Gt => gt,
        Op::GEq => gt || eq,
    }
}

fn compare_ints(a: i32, b: i32) -> (r: Ordering)
    ensures
        r == int_order(a as int, b as int),
{
    if a < b {
        Ordering::Less
    } else if a == b {
        Ordering::Equal
    } else {
        Ordering::Greater
    }
}

fn compare_texts(a: &Vec<char>, b: &Vec<char>) -> (r: Ordering)
    ensures
        r == text_order(a@, b@),
{
    let mut i: usize = 0;
    assert(a@.skip(0) =~= a@);
    assert(b@.skip(0) =~= b@);
    while i < a.len() && i < b.len() && a[i] == b[i]
        invariant
            i <= a.len(),
            i <= b.len(),
            text_order(a@, b@) == text_order(a@.skip(i as int), b@.skip(i as int)),
        decreases a.len() - i,
    {
        assert(a@.skip(i as int).drop_first() =~= a@.skip(i + 1));
        assert(b@.skip(i as int).drop_first() =~= b@.skip(i + 1));
        i = i + 1;
    }
    if i == a.len() {
        if i == b.len() {
            Ordering::Equal
        } else {
            Ordering::Less
        }
    } else if i == b.len() {
        Ordering::Greater
    } else {
        assert(a@.skip(i as int)[0] == a@[i as int]);
        assert(b@.skip(i as int)[0] == b@[i as int]);
        let x = a[i] as u32;
        let y = b[i] as u32;
        if x < y {
            Ordering::Less
        } else if x == y {
            Ordering::Equal
        } else {
            Ordering::Greater
        }
    }
}

/// The order of two values of one type; `None` for floats, which the library
/// does not order.
pub fn compare(a: &Scalar, b: &Scalar) -> (r: Option<Ordering>)
    ensures
        r == order(a@, b@),
{
    match (a, b) {
        (Scalar::Text(x), Scalar::Text(y)) => Some(compare_texts(x, y)),
        (Scalar::Int(x), Scalar::Int(y)) => Some(compare_ints(*x, *y)),
        (Scalar::Bool(x), Scalar::Bool(y)) => Some(
            compare_ints(
                if *x {
                    1
                } else {
                    0
                },
                if *y {
                    1
                } else {
                    0
                },
            ),
        ),
        _ => None,
    }
}

impl ColType {
    /// The value of `s` in a column of this type, if it has one.
    pub fn parse(&self, s: &str) -> (r: Option<Scalar>)
        ensures
            match parse_value(*self, s@) {
                Some(v) => r matches Some(x) && x@ == v,
                None => r is None,
            },
    {
        match self {
            ColType::Text => Some(Scalar::Text(chars_of(s))),
            ColType::Int => match parse_int(s) {
                Some(v) => Some(Scalar::Int(v)),
                None => None,
            },
            ColType::Bool => match parse_bool(s) {
                Some(b) => Some(Scalar::Bool(b)),
                None => None,
            },
            ColType::Float => Some(Scalar::Float(s.to_owned())),
        }
    }
}

} // verus!
