use csvfilt::error::QueryError;
use csvfilt::schema::{ColType, Schema};

fn header(cols: &[&str]) -> Vec<String> {
    cols.iter().map(|c| c.to_string()).collect()
}

#[test]
fn header_entries_declare_typed_columns() {
    let s = Schema::from_header(&header(&["stock[string]", "price[float]", "qty[int]", "live[bool]", "a_1[int]"])).unwrap();
    assert_eq!(s.len(), 5);
    let (i, c) = s.try_find_col(&"qty".to_owned()).unwrap();
    assert_eq!(i, 2);
    assert_eq!(c.name, "qty");
    assert_eq!(c.col_type, ColType::Int);
    let (i, c) = s.try_find_col(&"a_1".to_owned()).unwrap();
    assert_eq!((i, c.col_type), (4, ColType::Int));
    assert!(s.try_find_col(&"missing".to_owned()).is_none());
}

#[test]
fn first_column_of_a_name_wins() {
    let s = Schema::from_header(&header(&["a[int]", "a[bool]"])).unwrap();
    let (i, c) = s.try_find_col(&"a".to_owned()).unwrap();
    assert_eq!((i, c.col_type), (0, ColType::Int));
}

#[test]
fn malformed_entries_are_rejected() {
    for bad in ["price", "price[]", "[int]", "pr-ice[int]", "price[int] ", "price[int]x", "a[b[int]]"] {
        let e = Schema::from_header(&header(&["ok[int]", bad])).err().unwrap();
        assert_eq!(e, QueryError::MalformedColumn(bad.to_owned()), "{}", bad);
        assert_eq!(e.message(), format!("Failed to parse {} to a name/type pair", bad));
    }
}

#[test]
fn unknown_types_are_rejected() {
    let e = Schema::from_header(&header(&["price[decimal]", "x"])).err().unwrap();
    assert_eq!(e, QueryError::UnknownType("decimal".to_owned()));
    assert_eq!(e.message(), "unable to find type matching 'decimal'");
}

#[test]
fn types_are_found_by_name() {
    for (n, t) in [("string", ColType::Text), ("int", ColType::Int), ("float", ColType::Float), ("bool", ColType::Bool)] {
        assert_eq!(ColType::find(&n.to_owned()), Ok(t));
        assert_eq!(t.name(), n);
    }
    assert!(ColType::find(&"Int".to_owned()).is_err());
}

#[test]
fn empty_header_is_an_empty_schema() {
    let s = Schema::from_header(&Vec::new()).unwrap();
    assert_eq!(s.len(), 0);
}
