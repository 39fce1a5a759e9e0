use csvfilt::error::QueryError;
use csvfilt::query::{invert, parse, ColumnOp, FloatOrder, QueryFn};
use csvfilt::query_tree::Op;
use csvfilt::schema::{ColType, Schema};

fn schema(cols: &[&str]) -> Schema {
    Schema::from_header(&cols.iter().map(|c| c.to_string()).collect()).unwrap()
}

fn row(fields: &[&str]) -> Vec<String> {
    fields.iter().map(|f| f.to_string()).collect()
}

fn float_orders(q: &QueryFn, r: &Vec<String>) -> Vec<FloatOrder> {
    q.float_requests(r)
        .iter()
        .map(|(a, b)| {
            let x: f32 = a.parse().map_err(|_| QueryError::BadValue(ColType::Float, a.clone()))?;
            let y: f32 = b.parse().map_err(|_| QueryError::BadValue(ColType::Float, b.clone()))?;
            Ok(x.partial_cmp(&y))
        })
        .collect()
}

fn eval(q: &QueryFn, r: &[&str]) -> Result<bool, QueryError> {
    let r = row(r);
    let fl = float_orders(q, &r);
    q.matches(&r, &fl)
}

fn query(q: &str, s: &Schema) -> Result<QueryFn, QueryError> {
    parse(&q.to_owned(), s)
}

#[test]
fn inversion_table_covers_every_operator() {
    assert_eq!(invert(Op::Eq), Op::Eq);
    assert_eq!(invert(Op::NotEq), Op::NotEq);
    assert_eq!(invert(Op::Lt), Op::Gt);
    assert_eq!(invert(Op::Gt), Op::Lt);
    assert_eq!(invert(Op::LEq), Op::GEq);
    assert_eq!(invert(Op::GEq), Op::LEq);
}

#[test]
fn constant_left_of_float_column_is_inverted() {
    let s = schema(&["price[float]"]);
    let a = query("100 > price", &s).unwrap();
    let b = query("price < 100", &s).unwrap();
    for p in ["99", "100", "101", "-3.5", "1e3", " 42 ", "NaN"] {
        assert_eq!(eval(&a, &[p]), eval(&b, &[p]), "row {}", p);
    }
    assert_eq!(eval(&b, &["99.5"]), Ok(true));
    assert_eq!(eval(&b, &["100"]), Ok(false));
    assert_eq!(eval(&b, &["NaN"]), Ok(false));
    assert_eq!(a.float_constants(), vec!["100".to_owned()]);
}

#[test]
fn constant_on_either_side_of_int_column() {
    let s = schema(&["n[int]"]);
    let cases = [
        ("n < 10", "10 > n"),
        ("n <= 10", "10 >= n"),
        ("n > 10", "10 < n"),
        ("n >= 10", "10 <= n"),
        ("n = 10", "10 = n"),
        ("n != 10", "10 != n"),
    ];
    for (x, y) in cases {
        let qx = query(x, &s).unwrap();
        let qy = query(y, &s).unwrap();
        for v in ["9", "10", "11", "-2147483648", "+10"] {
            assert_eq!(eval(&qx, &[v]), eval(&qy, &[v]), "{} vs {} on {}", x, y, v);
        }
    }
    let q = query("n < 10", &s).unwrap();
    assert_eq!(eval(&q, &["9"]), Ok(true));
    assert_eq!(eval(&q, &["10"]), Ok(false));
    assert_eq!(eval(&q, &[" 3 "]), Ok(true));
    let q = query("n >= 10", &s).unwrap();
    assert_eq!(eval(&q, &["10"]), Ok(true));
    assert_eq!(eval(&q, &["-11"]), Ok(false));
}

#[test]
fn columns_of_different_types_never_compare() {
    let names = ["s", "i", "f", "b"];
    let s = schema(&["s[string]", "i[int]", "f[float]", "b[bool]"]);
    for (x, a) in names.iter().enumerate() {
        for (y, b) in names.iter().enumerate() {
            let r = query(&format!("{} = {}", a, b), &s);
            if x == y {
                assert!(r.is_ok());
            } else {
                let e = r.err().unwrap();
                assert_eq!(e, QueryError::TypeMismatch(a.to_string(), b.to_string()));
                assert_eq!(
                    e.message(),
                    format!("Tried to compare values of {} and {} but the types don't match", a, b)
                );
            }
        }
    }
}

#[test]
fn unreadable_field_is_an_error_not_false() {
    let s = schema(&["n[int]", "m[int]", "ok[bool]", "f[float]"]);
    let q = query("n = 3", &s).unwrap();
    let e = eval(&q, &["three", "1", "true", "1"]).unwrap_err();
    assert_eq!(e, QueryError::BadValue(ColType::Int, "three".to_owned()));
    assert_eq!(e.message(), "Could not make a int from 'three'");

    let q = query("ok = true", &s).unwrap();
    let e = eval(&q, &["1", "1", " yes ", "1"]).unwrap_err();
    assert_eq!(e, QueryError::BadValue(ColType::Bool, "yes".to_owned()));

    let q = query("n < m", &s).unwrap();
    assert_eq!(eval(&q, &["1", "x", "true", "1"]).unwrap_err(), QueryError::BadValue(ColType::Int, "x".to_owned()));
    assert_eq!(eval(&q, &["y", "x", "true", "1"]).unwrap_err(), QueryError::BadValue(ColType::Int, "y".to_owned()));
    assert_eq!(eval(&q, &["1", "2", "true", "1"]), Ok(true));

    let q = query("f > 2", &s).unwrap();
    assert_eq!(eval(&q, &["1", "1", "true", "abc"]).unwrap_err(), QueryError::BadValue(ColType::Float, "abc".to_owned()));
}

#[test]
fn both_sides_of_and_or_are_evaluated() {
    let s = schema(&["a[int]", "b[int]"]);
    let q = query("a = 1 && b = 2", &s).unwrap();
    assert_eq!(eval(&q, &["5", "bad"]).unwrap_err(), QueryError::BadValue(ColType::Int, "bad".to_owned()));
    let q = query("a = 5 || b = 2", &s).unwrap();
    assert_eq!(eval(&q, &["5", "bad"]).unwrap_err(), QueryError::BadValue(ColType::Int, "bad".to_owned()));
    let q = query("a = x || b = 2", &s);
    assert_eq!(q.err().unwrap(), QueryError::BadValue(ColType::Int, "x".to_owned()));
    let q = query("!(a = 5) || b = 2", &s).unwrap();
    assert_eq!(eval(&q, &["5", "2"]), Ok(true));
    assert_eq!(eval(&q, &["5", "3"]), Ok(false));
    assert_eq!(eval(&q, &["4", "3"]), Ok(true));
}

#[test]
fn strings_compare_by_characters() {
    let s = schema(&["name[string]", "other[string]"]);
    let q = query("name < bob", &s).unwrap();
    assert_eq!(eval(&q, &["alice", ""]), Ok(true));
    assert_eq!(eval(&q, &["bob", ""]), Ok(false));
    assert_eq!(eval(&q, &["bo", ""]), Ok(true));
    assert_eq!(eval(&q, &["Zed", ""]), Ok(true));
    let q = query("name = other", &s).unwrap();
    assert_eq!(eval(&q, &[" x ", "x"]), Ok(true));
    assert_eq!(eval(&q, &["x", "y"]), Ok(false));
}

#[test]
fn booleans_compare_false_before_true() {
    let s = schema(&["b[bool]"]);
    assert_eq!(eval(&query("b = true", &s).unwrap(), &["true"]), Ok(true));
    assert_eq!(eval(&query("b != true", &s).unwrap(), &["false"]), Ok(true));
    assert_eq!(eval(&query("b < true", &s).unwrap(), &["false"]), Ok(true));
    assert_eq!(eval(&query("b > false", &s).unwrap(), &["false"]), Ok(false));
}

#[test]
fn int_fields_follow_decimal_syntax() {
    let s = schema(&["n[int]"]);
    let q = query("n = 5", &s).unwrap();
    assert_eq!(eval(&q, &["+5"]), Ok(true));
    assert_eq!(eval(&q, &["05"]), Ok(true));
    assert_eq!(eval(&q, &["2147483648"]).unwrap_err(), QueryError::BadValue(ColType::Int, "2147483648".to_owned()));
    assert_eq!(eval(&q, &["-"]).unwrap_err(), QueryError::BadValue(ColType::Int, "-".to_owned()));
    assert_eq!(eval(&q, &["5.0"]).unwrap_err(), QueryError::BadValue(ColType::Int, "5.0".to_owned()));
}

#[test]
fn two_constants_are_rejected() {
    let s = schema(&["a[int]"]);
    let e = query("1 = 2", &s).err().unwrap();
    assert_eq!(e, QueryError::NoColumn("1".to_owned(), "2".to_owned()));
    assert_eq!(e.message(), "Could not find 1 or 2 as a column");
}

#[test]
fn float_columns_compare_outside() {
    let s = schema(&["x[float]", "y[float]"]);
    let q = query("x <= y", &s).unwrap();
    let r = row(&[" 1.5", "2 "]);
    assert_eq!(q.float_requests(&r), vec![("1.5".to_owned(), "2".to_owned())]);
    assert_eq!(eval(&q, &["1.5", "2"]), Ok(true));
    assert_eq!(eval(&q, &["2", "2.0"]), Ok(true));
    assert_eq!(eval(&q, &["3", "2"]), Ok(false));
    assert!(q.float_constants().is_empty());
}

#[test]
fn parse_reports_lexing_and_syntax_errors() {
    let s = schema(&["a[int]"]);
    assert_eq!(query("a = 1 & a = 2", &s).err().unwrap(), QueryError::IncompleteAnd(Some(' ')));
    assert_eq!(query("(a = 1", &s).err().unwrap().message(), "Expected ')', found <EOL>");
}

#[test]
fn stray_bracket_fails_to_parse() {
    let s = schema(&["a[int]", "b[int]"]);
    let e = query("(a = b))", &s).err().unwrap();
    assert_eq!(e.message(), "Expected <EOL>, found CloseBracket");
}

#[test]
fn form_op_inverts_a_right_hand_constant() {
    let s = schema(&["price[float]", "n[int]"]);
    let f1 = ColumnOp::form_op(&s, "100".into(), Op::Gt, "price".into());
    let f2 = ColumnOp::form_op(&s, "price".into(), Op::Lt, "100".into());
    assert!(f1.is_ok() && f2.is_ok());
    let e = ColumnOp::form_op(&s, "price".into(), Op::LEq, "n".into()).err().unwrap();
    assert_eq!(e.message(), "Tried to compare values of price and n but the types don't match");
}
