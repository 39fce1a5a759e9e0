use csvfilt::error::QueryError;
use csvfilt::query_tree::{bracketed, entry, expr, maybe_and_or, op, Op, QueryTree, TokenStream};
use csvfilt::tokens::{tokenise, Token};

fn cmp(left: &str, op: Op, right: &str) -> Box<QueryTree> {
    Box::new(QueryTree::Op { left: left.to_owned(), op, right: right.to_owned() })
}

fn stream(q: &str) -> TokenStream {
    TokenStream::new(tokenise(&q.to_owned()).unwrap())
}

#[test]
fn exhaustive_op_parsing() {
    fn fail_on(tok: Token) -> (Token, Result<Op, String>) {
        (tok.clone(), Err(format!("Expected op, got {:?}", tok)))
    }
    let ops: [(Token, Result<Op, String>); 12] = [
        (Token::Eq, Ok(Op::Eq)),
        (Token::NotEq, Ok(Op::NotEq)),
        (Token::Lt, Ok(Op::Lt)),
        (Token::Gt, Ok(Op::Gt)),
        (Token::GEq, Ok(Op::GEq)),
        (Token::LEq, Ok(Op::LEq)),
        fail_on(Token::OpenBracket),
        fail_on(Token::CloseBracket),
        fail_on(Token::ConstOrIdentifier("a".to_owned())),
        fail_on(Token::Not),
        fail_on(Token::And),
        fail_on(Token::Or),
    ];

    for (x, expected) in ops.iter() {
        let v = vec![x.clone()];
        let mut s = TokenStream::new(v);
        let actual = op(&mut s);
        match (expected, actual) {
            (Err(x), Err(y)) => {
                let str_y = y.message();
                assert_eq!(*x, str_y)
            }
            (Ok(_), Err(_)) => panic!("doesn't match"),
            (Err(_), Ok(_)) => panic!("doesn't match"),
            (Ok(x), Ok(y)) => assert_eq!(*x, y),
        }
    }
}

#[test]
fn and_works() {
    let expected = Box::new(QueryTree::And {
        q1: cmp("foo", Op::Eq, "true"),
        q2: cmp("bar", Op::Eq, "false"),
    });

    let actual = entry(&mut stream("foo = true && bar = false")).unwrap();

    assert_eq!(expected, actual);
}

#[test]
fn or_works() {
    let expected = Box::new(QueryTree::Or {
        q1: cmp("foo", Op::Eq, "true"),
        q2: cmp("bar", Op::Eq, "false"),
    });

    let actual = entry(&mut stream("foo = true || bar = false")).unwrap();

    assert_eq!(expected, actual);
}

#[test]
fn maybe_and_or_is_right_associative() {
    let expected = Box::new(QueryTree::And {
        q1: cmp("foo", Op::Eq, "true"),
        q2: Box::new(QueryTree::Or {
            q1: cmp("bar", Op::Eq, "false"),
            q2: cmp("baz", Op::Eq, "true"),
        }),
    });

    let actual = entry(&mut stream("foo = true && bar = false || baz = true")).unwrap();

    assert_eq!(expected, actual);
}

#[test]
fn brackets_correctly_override_right_associativity() {
    let expected = Box::new(QueryTree::Or {
        q1: Box::new(QueryTree::And {
            q1: cmp("foo", Op::Eq, "true"),
            q2: cmp("bar", Op::Eq, "false"),
        }),
        q2: cmp("baz", Op::Eq, "true"),
    });

    let actual = entry(&mut stream("(foo = true && bar = false) || baz = true")).unwrap();

    assert_eq!(expected, actual);
}

#[test]
fn brackets_nest_correctly() {
    let expected = cmp("foo", Op::Eq, "true");

    let actual = entry(&mut stream("(((foo = true)))")).unwrap();

    assert_eq!(expected, actual);
}

#[test]
fn mismatched_brackets_result_in_error() {
    let actual = entry(&mut stream("(((foo = true))"));

    match actual {
        Err(e) => {
            let err = e.message();
            assert_eq!("Expected ')', found <EOL>", err);
        }
        Ok(_) => panic!("was supposed to fail!"),
    }
}

#[test]
fn negation_needs_brackets() {
    let actual = entry(&mut stream("!(a < 3)")).unwrap();
    assert_eq!(actual, Box::new(QueryTree::Not { q: cmp("a", Op::Lt, "3") }));

    let e = entry(&mut stream("! a < 3")).unwrap_err();
    assert_eq!(e.message(), "Expected '(', found ConstOrIdentifier(\"a\")");
    let e = entry(&mut stream("!")).unwrap_err();
    assert_eq!(e.message(), "Expected '(', found <EOL>");
}

#[test]
fn syntax_errors_name_what_was_found() {
    let e = entry(&mut stream("")).unwrap_err();
    assert_eq!(e.message(), "Expected expr, got <EOL>");
    let e = entry(&mut stream(") a = b")).unwrap_err();
    assert_eq!(e.message(), "Expected expr, got CloseBracket");
    let e = entry(&mut stream("a = b &&")).unwrap_err();
    assert_eq!(e.message(), "Expected expr, got <EOL>");
    let e = entry(&mut stream("a =")).unwrap_err();
    assert_eq!(e.message(), "Expected ident, got <EOL>");
    let e = entry(&mut stream("a = (")).unwrap_err();
    assert_eq!(e.message(), "Expected ident, got OpenBracket");
    let e = entry(&mut stream("a")).unwrap_err();
    assert_eq!(e.message(), "Expected op, got <EOL>");
    let e = entry(&mut stream("(a = b c")).unwrap_err();
    assert_eq!(e.message(), "Expected ')', found ConstOrIdentifier(\"c\")");
    assert!(matches!(e, QueryError::Syntax(_, Some(Token::ConstOrIdentifier(_)))));
}

#[test]
fn parts_of_the_grammar_read_alone() {
    assert_eq!(expr(&mut stream("a != b && c = d")).unwrap(), cmp("a", Op::NotEq, "b"));
    assert_eq!(
        maybe_and_or(&mut stream("a >= b || c <= d")).unwrap(),
        Box::new(QueryTree::Or { q1: cmp("a", Op::GEq, "b"), q2: cmp("c", Op::LEq, "d") })
    );
    assert_eq!(bracketed(true, &mut stream("(a > b)")).unwrap(), cmp("a", Op::Gt, "b"));
    assert_eq!(bracketed(false, &mut stream("a > b)")).unwrap(), cmp("a", Op::Gt, "b"));
}

#[test]
fn whole_query_strings_parse() {
    let t = QueryTree::from_qstring(&"!(x = 1) && y < 2".to_owned()).unwrap();
    assert_eq!(
        t,
        Box::new(QueryTree::And {
            q1: Box::new(QueryTree::Not { q: cmp("x", Op::Eq, "1") }),
            q2: cmp("y", Op::Lt, "2"),
        })
    );
    let e = QueryTree::from_qstring(&"x = 1 & y".to_owned()).unwrap_err();
    assert_eq!(e, QueryError::IncompleteAnd(Some(' ')));
}

#[test]
fn tokens_after_a_complete_query_are_an_error() {
    let e = QueryTree::from_qstring(&"(a = b))".to_owned()).unwrap_err();
    assert_eq!(e, QueryError::Syntax(csvfilt::error::Expected::End, Some(Token::CloseBracket)));
    assert_eq!(e.message(), "Expected <EOL>, found CloseBracket");

    let e = QueryTree::from_qstring(&"a = b c".to_owned()).unwrap_err();
    assert_eq!(e.message(), "Expected <EOL>, found ConstOrIdentifier(\"c\")");

    assert!(QueryTree::from_qstring(&"(a = b)".to_owned()).is_ok());
}
