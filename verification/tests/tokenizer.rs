use skyd::tokenizer::{get_query, SequentialQuery, TokenizerError};
use skytable::Query;

fn args(inp: &[u8]) -> Vec<Vec<u8>> {
    get_query(inp).unwrap()
}

fn strs(v: &[&str]) -> Vec<Vec<u8>> {
    v.iter().map(|s| s.as_bytes().to_vec()).collect()
}

#[test]
fn splits_on_spaces() {
    assert_eq!(args(b"set x y"), strs(&["set", "x", "y"]));
    assert_eq!(args(b"  set   x  "), strs(&["set", "x"]));
    assert_eq!(args(b"heya"), strs(&["heya"]));
    assert_eq!(args(b" "), strs(&[]));
    assert_eq!(args(b"a\tb"), strs(&["a\tb"]));
}

#[test]
fn quoted_runs_are_passed_on_without_the_quotes() {
    assert_eq!(args(b"set 'x y' z"), strs(&["set", "x y", "z"]));
    assert_eq!(args(b"set \"x y\" z"), strs(&["set", "x y", "z"]));
    assert_eq!(args(b"set \"it's\""), strs(&["set", "it's"]));
    assert_eq!(args(b"set '1 2'"), strs(&["set", "1 2"]));
    assert_eq!(args(b"''"), strs(&[""]));
    assert_eq!(args(b"'a'b"), strs(&["a", "b"]));
    assert_eq!(args(b"'a''b'"), strs(&["a", "b"]));
}

#[test]
fn a_plain_run_takes_quotes_and_digits_inside() {
    assert_eq!(args(b"x1 y'z"), strs(&["x1", "y'z"]));
    assert_eq!(args(b"a'b c'"), strs(&["a'b", "c'"]));
}

#[test]
fn digit_at_the_start_is_a_bad_expression() {
    match get_query::<Vec<Vec<u8>>>(b"set 1x") {
        Err(TokenizerError::BadExpression(text)) => assert_eq!(text, "set 1"),
        other => panic!("{:?}", other),
    }
    match get_query::<Vec<Vec<u8>>>(b"9") {
        Err(TokenizerError::BadExpression(text)) => assert_eq!(text, "9"),
        other => panic!("{:?}", other),
    }
}

#[test]
fn open_quote_is_a_quote_mismatch() {
    match get_query::<Vec<Vec<u8>>>(b"set 'x y") {
        Err(TokenizerError::QuoteMismatch(text)) => assert_eq!(text, "x y"),
        other => panic!("{:?}", other),
    }
    match get_query::<Vec<Vec<u8>>>(b"set \"x' y") {
        Err(TokenizerError::QuoteMismatch(text)) => assert_eq!(text, "x' y"),
        other => panic!("{:?}", other),
    }
    match get_query::<Vec<Vec<u8>>>(b"'") {
        Err(TokenizerError::QuoteMismatch(text)) => assert_eq!(text, ""),
        other => panic!("{:?}", other),
    }
}

#[test]
fn error_text_is_lossy_utf8() {
    match get_query::<Vec<Vec<u8>>>(b"'\xffab") {
        Err(TokenizerError::QuoteMismatch(text)) => assert_eq!(text, "\u{fffd}ab"),
        other => panic!("{:?}", other),
    }
    match get_query::<Vec<Vec<u8>>>("'é".as_bytes()) {
        Err(TokenizerError::QuoteMismatch(text)) => assert_eq!(text, "é"),
        other => panic!("{:?}", other),
    }
}

#[test]
fn error_messages() {
    assert_eq!(
        TokenizerError::QuoteMismatch("x y".to_owned()).message(),
        "mismatched quotes near end of: `x y`"
    );
    assert_eq!(
        TokenizerError::BadExpression("set 1".to_owned()).message(),
        "bad expression near end of: `set 1`"
    );
}

#[test]
fn builds_a_client_query() {
    let q: Query = get_query(b"set 'x y' v100").ok().unwrap();
    assert_eq!(q.len(), 3);
    assert_eq!(q.into_raw_query(), b"*1\n~3\n3\nset\n3\nx y\n4\nv100\n".to_vec());
    let q: Query = get_query(b" ").ok().unwrap();
    assert_eq!(q.len(), 0);
    assert!(q.is_empty());
}

#[test]
fn sequential_query_pushes_in_order() {
    let mut q = <Vec<Vec<u8>> as SequentialQuery>::new();
    assert!(q.is_empty());
    SequentialQuery::push(&mut q, b"a");
    SequentialQuery::push(&mut q, b"");
    SequentialQuery::push(&mut q, b"bc");
    assert_eq!(q, strs(&["a", "", "bc"]));
    let mut q = <Query as SequentialQuery>::new();
    assert_eq!(q.len(), 0);
    SequentialQuery::push(&mut q, b"a");
    SequentialQuery::push(&mut q, b"bc");
    assert_eq!(q.len(), 2);
    assert_eq!(q.into_raw_query(), b"*1\n~2\n1\na\n2\nbc\n".to_vec());
}
