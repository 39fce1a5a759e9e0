use csvfilt::error::QueryError;
use csvfilt::tokens::{render_tokens, tokenise, Token};

fn all_tokens() -> Vec<Token> {
    vec![
        Token::OpenBracket,
        Token::CloseBracket,
        Token::Eq,
        Token::Lt,
        Token::LEq,
        Token::Gt,
        Token::GEq,
        Token::NotEq,
        Token::Not,
        Token::And,
        Token::Or,
        Token::ConstOrIdentifier("abc".to_owned()),
    ]
}

#[test]
fn tokenise_recognises_all_chars() {
    let s = "()=<<=>>=!=!&&||abc".to_owned();

    let actual = tokenise(&s).unwrap();

    assert_eq!(all_tokens().len(), actual.len());
    for (e, a) in all_tokens().iter().zip(actual.iter()) {
        assert_eq!(e, a);
    }
}

#[test]
fn whitespace_doesnt_matter() {
    let s = "( ) = < <= > >= != ! && || abc".to_owned();

    let actual = tokenise(&s).unwrap();

    assert_eq!(all_tokens().len(), actual.len());
    for (e, a) in all_tokens().iter().zip(actual.iter()) {
        assert_eq!(e, a);
    }
}

#[test]
fn whitespace_separates_constants() {
    let s = "abc def".to_owned();

    let expected = vec![
        Token::ConstOrIdentifier("abc".to_owned()),
        Token::ConstOrIdentifier("def".to_owned()),
    ];

    let actual = tokenise(&s).unwrap();

    assert_eq!(expected.len(), actual.len());
    for (e, a) in expected.iter().zip(actual.iter()) {
        assert_eq!(e, a);
    }
}

#[test]
fn test_not_vs_noteq() {
    let s = "!a!b!!=c!=!d".to_owned();
    let expected = vec![
        Token::Not,
        Token::ConstOrIdentifier("a".to_owned()),
        Token::Not,
        Token::ConstOrIdentifier("b".to_owned()),
        Token::Not,
        Token::NotEq,
        Token::ConstOrIdentifier("c".to_owned()),
        Token::NotEq,
        Token::Not,
        Token::ConstOrIdentifier("d".to_owned()),
    ];
    let actual = tokenise(&s).unwrap();

    assert_eq!(expected.len(), actual.len());
    for (e, a) in expected.iter().zip(actual.iter()) {
        assert_eq!(e, a);
    }
}

#[test]
fn incomplete_and_causes_error() {
    let s1 = "abc & def".to_owned();

    match tokenise(&s1) {
        Ok(_) => panic!("Expected failure, got success"),
        _ => (),
    }

    let s2 = "&".to_owned();

    match tokenise(&s2) {
        Ok(_) => panic!("Expected failure, got success"),
        _ => (),
    }
}

#[test]
fn incomplete_or_causes_error() {
    let s1 = "abc | def".to_owned();

    match tokenise(&s1) {
        Ok(_) => panic!("Expected failure, got success"),
        _ => (),
    }

    let s2 = "|".to_owned();

    match tokenise(&s2) {
        Ok(_) => panic!("Expected failure, got success"),
        _ => (),
    }
}

#[test]
fn lone_ampersand_names_what_follows() {
    let e = tokenise(&"abc & def".to_owned()).unwrap_err();
    assert_eq!(e, QueryError::IncompleteAnd(Some(' ')));
    assert_eq!(e.message(), "expected '&&' - found '& '");

    let e = tokenise(&"&".to_owned()).unwrap_err();
    assert_eq!(e, QueryError::IncompleteAnd(None));
    assert_eq!(e.message(), "expected '&&' - found '&<EOF>'");
}

#[test]
fn lone_bar_names_what_follows() {
    let e = tokenise(&"a |b".to_owned()).unwrap_err();
    assert_eq!(e, QueryError::IncompleteOr(Some('b')));
    assert_eq!(e.message(), "expected '||' - found '|b'");

    let e = tokenise(&"|".to_owned()).unwrap_err();
    assert_eq!(e.message(), "expected '||' - found '|<EOF>'");
}

#[test]
fn unknown_character_is_an_error() {
    let e = tokenise(&"price > 3 ; drop".to_owned()).unwrap_err();
    assert_eq!(e, QueryError::UnexpectedChar(';'));
    assert_eq!(e.message(), "Unexpected token ;");
}

#[test]
fn rendered_tokens_lex_back_to_themselves() {
    for q in [
        "()=<<=>>=!=!&&||abc",
        "!a!b!!=c!=!d",
        "(price>=10.5&&name!=bob)||!(x<y)",
        "a<=b<c>d>=e=f",
    ] {
        let tokens = tokenise(&q.to_owned()).unwrap();
        let text = render_tokens(&tokens);
        assert_eq!(tokenise(&text).unwrap(), tokens);
    }
    let tokens = tokenise(&"(a<=b)&&c".to_owned()).unwrap();
    assert_eq!(render_tokens(&tokens), "( a <= b ) && c");
    assert_eq!(render_tokens(&Vec::new()), "");
}

#[test]
fn tokens_have_canonical_text() {
    assert_eq!(Token::LEq.text(), "<=");
    assert_eq!(Token::Or.text(), "||");
    assert_eq!(Token::ConstOrIdentifier("v.1".to_owned()).text(), "v.1");
}

#[test]
fn identifiers_take_letters_digits_and_dots() {
    let tokens = tokenise(&"VOD.L=12.5 é1".to_owned()).unwrap();
    assert_eq!(
        tokens,
        vec![
            Token::ConstOrIdentifier("VOD.L".to_owned()),
            Token::Eq,
            Token::ConstOrIdentifier("12.5".to_owned()),
            Token::ConstOrIdentifier("é1".to_owned()),
        ]
    );
}

#[test]
fn any_white_space_separates() {
    let tokens = tokenise(&"a\t=\nb\u{3000}".to_owned()).unwrap();
    assert_eq!(
        tokens,
        vec![
            Token::ConstOrIdentifier("a".to_owned()),
            Token::Eq,
            Token::ConstOrIdentifier("b".to_owned()),
        ]
    );
    assert_eq!(tokenise(&"   ".to_owned()).unwrap(), Vec::new());
}
