use skyd::data::{Datacell, Lit, LitIR};
use skyd::error::LangError;
use skyd::ql::ast::{compile, compile_params, compile_state, compile_test, minidx};
use skyd::ql::ast::{Entity, InplaceData, QueryData, State, Statement, SubstitutedData};
use skyd::ql::ddl::{parse_drop, parse_drop_full, parse_inspect, parse_inspect_full};
use skyd::ql::ddl::{AlterKind, AlterModel, AlterSpace, CreateModel, CreateSpace};
use skyd::ql::ddl::{DropModel, DropSpace, DropStatementAST};
use skyd::ql::dml::{DeleteStatement, InsertStatement, SelectStatement, UpdateStatement};
use skyd::ql::items::{Expr, Field};
use skyd::ql::lex::{lex_insecure, lex_secure, Keyword, Symbol, Token};

fn ident(s: &str) -> Token<'_> {
    Token::Ident(s.as_bytes())
}

fn full<'a>(a: &'a str, b: &'a str) -> Entity<'a> {
    Entity::Full(a.as_bytes(), b.as_bytes())
}

fn single(a: &str) -> Entity<'_> {
    Entity::Single(a.as_bytes())
}

fn expr<'a>(lhs: &'a str, op: Symbol, rhs: Datacell) -> Expr<'a> {
    Expr { lhs: lhs.as_bytes(), op, rhs }
}

fn field<'a>(name: &'a str, ty: &'a str) -> Field<'a> {
    Field { name: name.as_bytes(), ty: ty.as_bytes() }
}

#[test]
fn empty_token_stream_is_unexpected_eos() {
    assert_eq!(compile_test(&[]), Err(LangError::UnexpectedEOS));
    assert_eq!(compile(&[], InplaceData::new()), Err(LangError::UnexpectedEOS));
}

#[test]
fn single_token_use_is_unexpected_eos() {
    let tokens = lex_insecure(b"use").unwrap();
    assert_eq!(tokens.len(), 1);
    assert_eq!(compile_test(&tokens), Err(LangError::UnexpectedEOS));
}

#[test]
fn drop_model_with_trailing_token_is_unexpected_token() {
    let tokens = lex_insecure(b"drop model x force extra").unwrap();
    assert_eq!(compile_test(&tokens), Err(LangError::UnexpectedToken));
}

#[test]
fn inspect_spaces_with_trailing_token_is_unexpected_token() {
    let tokens = lex_insecure(b"inspect spaces extra").unwrap();
    assert_eq!(compile_test(&tokens), Err(LangError::UnexpectedToken));
}

#[test]
fn inspect_model_without_entity_is_expected_entity() {
    let tokens = lex_insecure(b"inspect model").unwrap();
    assert_eq!(compile_test(&tokens), Err(LangError::ExpectedEntity));
}

#[test]
fn use_full_entity() {
    let tokens = lex_insecure(b"use space.model").unwrap();
    assert_eq!(compile_test(&tokens), Ok(Statement::Use(full("space", "model"))));
    let mut state = State::new_inplace(&tokens);
    assert_eq!(compile_state(&mut state), Ok(Statement::Use(full("space", "model"))));
    assert_eq!(state.cursor(), 4);
    assert_eq!(state.consumed(), 4);
    assert!(state.okay());
    assert!(state.exhausted());
}

#[test]
fn use_full_entity_from_hand_made_tokens() {
    let tokens = [
        Token::Keyword(Keyword::Use),
        ident("space"),
        Token::Symbol(Symbol::SymPeriod),
        ident("model"),
    ];
    let mut state = State::new(&tokens, InplaceData::new());
    assert_eq!(compile_state(&mut state), Ok(Statement::Use(full("space", "model"))));
    assert_eq!(state.cursor(), 4);
    assert!(state.okay());
}

#[test]
fn use_single_entity() {
    let tokens = lex_insecure(b"use mymodel").unwrap();
    assert_eq!(compile_test(&tokens), Ok(Statement::Use(single("mymodel"))));
}

#[test]
fn use_leaves_trailing_tokens_alone() {
    let tokens = lex_insecure(b"use a.b c").unwrap();
    let mut state = State::new_inplace(&tokens);
    assert_eq!(compile_state(&mut state), Ok(Statement::Use(full("a", "b"))));
    assert_eq!(state.cursor(), 4);
    assert_eq!(state.remaining(), 1);
}

#[test]
fn use_without_entity() {
    let tokens = lex_insecure(b"use 1").unwrap();
    let mut state = State::new_inplace(&tokens);
    assert_eq!(compile_state(&mut state), Err(LangError::ExpectedEntity));
    assert!(!state.okay());
    assert_eq!(state.cursor(), 1);
}

#[test]
fn drop_model_forced() {
    let tokens = lex_insecure(b"drop model foo.bar force").unwrap();
    assert_eq!(
        compile_test(&tokens),
        Ok(Statement::DropModel(DropModel::new(full("foo", "bar"), true)))
    );
    assert_eq!(
        compile_test(&tokens),
        Ok(Statement::DropModel(DropModel { entity: full("foo", "bar"), force: true }))
    );
}

#[test]
fn drop_model_force_in_any_case() {
    let tokens = lex_insecure(b"DROP MODEL foo FoRcE").unwrap();
    assert_eq!(
        compile_test(&tokens),
        Ok(Statement::DropModel(DropModel::new(single("foo"), true)))
    );
}

#[test]
fn drop_model_not_forced() {
    let tokens = lex_insecure(b"drop model foo.bar").unwrap();
    assert_eq!(
        compile_test(&tokens),
        Ok(Statement::DropModel(DropModel::new(full("foo", "bar"), false)))
    );
}

#[test]
fn drop_space_not_forced() {
    let tokens = lex_insecure(b"drop space mydata").unwrap();
    assert_eq!(
        compile_test(&tokens),
        Ok(Statement::DropSpace(DropSpace::new(b"mydata", false)))
    );
    assert_eq!(
        compile_test(&tokens),
        Ok(Statement::DropSpace(DropSpace { space: b"mydata", force: false }))
    );
}

#[test]
fn drop_space_forced() {
    let tokens = lex_insecure(b"drop space mydata force").unwrap();
    assert_eq!(
        compile_test(&tokens),
        Ok(Statement::DropSpace(DropSpace::new(b"mydata", true)))
    );
}

#[test]
fn drop_space_named_force() {
    let tokens = lex_insecure(b"drop space force").unwrap();
    assert_eq!(
        compile_test(&tokens),
        Ok(Statement::DropSpace(DropSpace::new(b"force", false)))
    );
    let tokens = lex_insecure(b"drop space force force").unwrap();
    assert_eq!(
        compile_test(&tokens),
        Ok(Statement::DropSpace(DropSpace::new(b"force", true)))
    );
}

#[test]
fn drop_errors() {
    let tokens = lex_insecure(b"drop space mydata extra").unwrap();
    assert_eq!(compile_test(&tokens), Err(LangError::UnexpectedToken));
    let tokens = lex_insecure(b"drop space 1").unwrap();
    assert_eq!(compile_test(&tokens), Err(LangError::UnexpectedToken));
    let tokens = lex_insecure(b"drop table x").unwrap();
    assert_eq!(compile_test(&tokens), Err(LangError::UnexpectedToken));
    let tokens = lex_insecure(b"drop model 1").unwrap();
    assert_eq!(compile_test(&tokens), Err(LangError::ExpectedEntity));
    // with fewer than two tokens after `drop` there is no statement
    let tokens = lex_insecure(b"drop model").unwrap();
    assert_eq!(compile_test(&tokens), Err(LangError::ExpectedStatement));
}

#[test]
fn parse_drop_directly() {
    let tokens = lex_insecure(b"model a.b force").unwrap();
    let mut state = State::new_inplace(&tokens);
    assert_eq!(
        parse_drop(&mut state),
        Ok(Statement::DropModel(DropModel::new(full("a", "b"), true)))
    );
    assert!(state.exhausted());
    assert_eq!(
        parse_drop_full(&tokens),
        Ok(Statement::DropModel(DropModel::new(full("a", "b"), true)))
    );
    let mut state = State::new_inplace(&tokens);
    let node = DropStatementAST::_from_state(&mut state).unwrap();
    assert_eq!(node.0, Statement::DropModel(DropModel::new(full("a", "b"), true)));

    let tokens = lex_insecure(b"x force").unwrap();
    let mut state = State::new_inplace(&tokens);
    assert_eq!(DropSpace::parse(&mut state), Ok(DropSpace::new(b"x", true)));
    let mut state = State::new_inplace(&tokens);
    assert_eq!(DropSpace::_from_state(&mut state), Ok(DropSpace::new(b"x", true)));
    let mut state = State::new_inplace(&tokens);
    assert_eq!(DropModel::parse(&mut state), Ok(DropModel::new(single("x"), true)));
    let mut state = State::new_inplace(&tokens);
    assert_eq!(DropModel::_from_state(&mut state), Ok(DropModel::new(single("x"), true)));

    // a lone `space` has no name after it
    let tokens = lex_insecure(b"space").unwrap();
    let mut state = State::new_inplace(&tokens);
    assert_eq!(parse_drop(&mut state), Err(LangError::UnexpectedToken));
}

#[test]
fn inspect_spaces() {
    let tokens = lex_insecure(b"inspect spaces").unwrap();
    assert_eq!(compile_test(&tokens), Ok(Statement::InspectSpaces));
    let tokens = lex_insecure(b"INSPECT SPACES").unwrap();
    assert_eq!(compile_test(&tokens), Ok(Statement::InspectSpaces));
}

#[test]
fn inspect_space_and_model() {
    let tokens = lex_insecure(b"inspect space myspace").unwrap();
    assert_eq!(compile_test(&tokens), Ok(Statement::InspectSpace(b"myspace")));
    let tokens = lex_insecure(b"inspect model myspace.mymodel").unwrap();
    assert_eq!(compile_test(&tokens), Ok(Statement::InspectModel(full("myspace", "mymodel"))));
    let tokens = lex_insecure(b"inspect model mymodel").unwrap();
    assert_eq!(compile_test(&tokens), Ok(Statement::InspectModel(single("mymodel"))));
}

#[test]
fn inspect_unknown_backs_the_cursor() {
    let tokens = lex_insecure(b"inspect something").unwrap();
    let mut state = State::new_inplace(&tokens);
    assert_eq!(compile_state(&mut state), Err(LangError::ExpectedStatement));
    assert_eq!(state.cursor(), 1);

    let tokens = lex_insecure(b"inspect space 1").unwrap();
    let mut state = State::new_inplace(&tokens);
    assert_eq!(compile_state(&mut state), Err(LangError::ExpectedStatement));
    assert_eq!(state.cursor(), 1);
}

#[test]
fn parse_inspect_directly() {
    let mut state = State::new_inplace(&[]);
    assert_eq!(parse_inspect(&mut state), Err(LangError::UnexpectedEndofStatement));
    let tokens = lex_insecure(b"spaces").unwrap();
    assert_eq!(parse_inspect_full(&tokens), Ok(Statement::InspectSpaces));
    let tokens = lex_insecure(b"space x").unwrap();
    assert_eq!(parse_inspect_full(&tokens), Ok(Statement::InspectSpace(b"x")));
}

#[test]
fn unknown_statement() {
    let tokens = lex_insecure(b"model x").unwrap();
    assert_eq!(compile_test(&tokens), Err(LangError::ExpectedStatement));
    let tokens = lex_insecure(b"frobnicate x").unwrap();
    assert_eq!(compile_test(&tokens), Err(LangError::ExpectedStatement));
    let tokens = lex_insecure(b"1 2").unwrap();
    assert_eq!(compile_test(&tokens), Err(LangError::ExpectedStatement));
}

#[test]
fn unknown_create_and_alter() {
    let tokens = lex_insecure(b"create table x").unwrap();
    assert_eq!(compile_test(&tokens), Err(LangError::StmtUnknownCreate));
    let tokens = lex_insecure(b"create x").unwrap();
    assert_eq!(compile_test(&tokens), Err(LangError::StmtUnknownCreate));
    let tokens = lex_insecure(b"alter table x").unwrap();
    assert_eq!(compile_test(&tokens), Err(LangError::StmtUnknownAlter));
}

#[test]
fn create_space() {
    let tokens = lex_insecure(b"create space myspace").unwrap();
    assert_eq!(
        compile_test(&tokens),
        Ok(Statement::CreateSpace(CreateSpace { space_name: b"myspace", props: vec![] }))
    );
    let tokens = lex_insecure(b"create space myspace with (max_models = 100, tag = 'x')").unwrap();
    assert_eq!(
        compile_test(&tokens),
        Ok(Statement::CreateSpace(CreateSpace {
            space_name: b"myspace",
            props: vec![
                expr("max_models", Symbol::OpEq, Datacell::UnsignedInt(100)),
                expr("tag", Symbol::OpEq, Datacell::Str(b"x".to_vec())),
            ],
        }))
    );
    let tokens = lex_insecure(b"create space myspace with ()").unwrap();
    assert_eq!(
        compile_test(&tokens),
        Ok(Statement::CreateSpace(CreateSpace { space_name: b"myspace", props: vec![] }))
    );
}

#[test]
fn create_space_errors() {
    let tokens = lex_insecure(b"create space").unwrap();
    assert_eq!(compile_test(&tokens), Err(LangError::UnexpectedEndofStatement));
    let tokens = lex_insecure(b"create space 1").unwrap();
    assert_eq!(compile_test(&tokens), Err(LangError::UnexpectedToken));
    let tokens = lex_insecure(b"create space s with").unwrap();
    assert_eq!(compile_test(&tokens), Err(LangError::UnexpectedEndofStatement));
    let tokens = lex_insecure(b"create space s with (a < 1)").unwrap();
    assert_eq!(compile_test(&tokens), Err(LangError::UnexpectedToken));
    let tokens = lex_insecure(b"create space s with (a = 1").unwrap();
    assert_eq!(compile_test(&tokens), Err(LangError::UnexpectedEndofStatement));
    let tokens = lex_insecure(b"create space s with (a = )").unwrap();
    assert_eq!(compile_test(&tokens), Err(LangError::UnexpectedToken));
}

#[test]
fn create_model() {
    let tokens =
        lex_insecure(b"create model myspace.mymodel (username string, password binary)").unwrap();
    assert_eq!(
        compile_test(&tokens),
        Ok(Statement::CreateModel(CreateModel {
            model_name: full("myspace", "mymodel"),
            fields: vec![field("username", "string"), field("password", "binary")],
            props: vec![],
        }))
    );
    let tokens = lex_insecure(b"create model m (a string,) with (volatile = true)").unwrap();
    assert_eq!(
        compile_test(&tokens),
        Ok(Statement::CreateModel(CreateModel {
            model_name: single("m"),
            fields: vec![field("a", "string")],
            props: vec![expr("volatile", Symbol::OpEq, Datacell::Bool(true))],
        }))
    );
}

#[test]
fn create_model_errors() {
    let tokens = lex_insecure(b"create model (a string)").unwrap();
    assert_eq!(compile_test(&tokens), Err(LangError::ExpectedEntity));
    let tokens = lex_insecure(b"create model m").unwrap();
    assert_eq!(compile_test(&tokens), Err(LangError::UnexpectedEndofStatement));
    let tokens = lex_insecure(b"create model m (a)").unwrap();
    assert_eq!(compile_test(&tokens), Err(LangError::UnexpectedToken));
    let tokens = lex_insecure(b"create model m (a string b string)").unwrap();
    assert_eq!(compile_test(&tokens), Err(LangError::UnexpectedToken));
    let tokens = lex_insecure(b"create model m (a string,, b string)").unwrap();
    assert_eq!(compile_test(&tokens), Err(LangError::UnexpectedToken));
}

#[test]
fn alter_space() {
    let tokens = lex_insecure(b"alter space myspace with (max_models = 5)").unwrap();
    assert_eq!(
        compile_test(&tokens),
        Ok(Statement::AlterSpace(AlterSpace {
            space_name: b"myspace",
            updated_props: vec![expr("max_models", Symbol::OpEq, Datacell::UnsignedInt(5))],
        }))
    );
    let tokens = lex_insecure(b"alter space myspace").unwrap();
    assert_eq!(compile_test(&tokens), Err(LangError::UnexpectedEndofStatement));
    let tokens = lex_insecure(b"alter space myspace (a = 1)").unwrap();
    assert_eq!(compile_test(&tokens), Err(LangError::UnexpectedToken));
}

#[test]
fn alter_model() {
    let tokens = lex_insecure(b"alter model m add (a string, b binary)").unwrap();
    assert_eq!(
        compile_test(&tokens),
        Ok(Statement::AlterModel(AlterModel {
            model: single("m"),
            kind: AlterKind::Add(vec![field("a", "string"), field("b", "binary")]),
        }))
    );
    let tokens = lex_insecure(b"alter model s.m remove (a, b)").unwrap();
    assert_eq!(
        compile_test(&tokens),
        Ok(Statement::AlterModel(AlterModel {
            model: full("s", "m"),
            kind: AlterKind::Remove(vec![b"a", b"b"]),
        }))
    );
    let tokens = lex_insecure(b"alter model m update (a binary)").unwrap();
    assert_eq!(
        compile_test(&tokens),
        Ok(Statement::AlterModel(AlterModel {
            model: single("m"),
            kind: AlterKind::Update(vec![field("a", "binary")]),
        }))
    );
    let tokens = lex_insecure(b"alter model m rename (a)").unwrap();
    assert_eq!(compile_test(&tokens), Err(LangError::UnexpectedToken));
    let tokens = lex_insecure(b"alter model m").unwrap();
    assert_eq!(compile_test(&tokens), Err(LangError::UnexpectedEndofStatement));
}

#[test]
fn insert_with_inline_values() {
    let tokens = lex_insecure(b"insert into s.m (1, 'hi', -3, true, null, b'x')").unwrap();
    assert_eq!(
        compile_test(&tokens),
        Ok(Statement::Insert(InsertStatement {
            entity: full("s", "m"),
            data: vec![
                Datacell::UnsignedInt(1),
                Datacell::Str(b"hi".to_vec()),
                Datacell::SignedInt(-3),
                Datacell::Bool(true),
                Datacell::Null,
                Datacell::Bin(b"x".to_vec()),
            ],
        }))
    );
}

#[test]
fn insert_with_parameters() {
    let tokens = lex_secure(b"insert into foo (?, ?)").unwrap();
    let params = [LitIR::UnsignedInt(1), LitIR::Str(b"hi")];
    let expected = Statement::Insert(InsertStatement {
        entity: single("foo"),
        data: vec![Datacell::UnsignedInt(1), Datacell::Str(b"hi".to_vec())],
    });
    assert_eq!(compile(&tokens, SubstitutedData::new(&params)).as_ref(), Ok(&expected));
    assert_eq!(compile_params(&tokens, &params).as_ref(), Ok(&expected));

    // the source of values is empty afterward
    let mut state = State::new(&tokens, SubstitutedData::new(&params));
    assert!(state.loop_data_tt());
    assert!(state.can_read_lit_from(&Token::Placeholder));
    assert_eq!(compile_state(&mut state).as_ref(), Ok(&expected));
    assert!(state.okay());
    assert!(state.exhausted());
    assert!(!state.can_read_lit_from(&Token::Placeholder));
    assert!(!state.loop_data_tt());
}

#[test]
fn parameter_count_mismatch() {
    let tokens = lex_secure(b"insert into foo (?, ?)").unwrap();
    // too few
    let params = [LitIR::UnsignedInt(1)];
    assert_eq!(
        compile(&tokens, SubstitutedData::new(&params)),
        Err(LangError::ParameterCountMismatch)
    );
    assert_eq!(compile_params(&tokens, &params), Err(LangError::ParameterCountMismatch));
    assert_eq!(compile_params(&tokens, &[]), Err(LangError::ParameterCountMismatch));
    // too many
    let params = [LitIR::UnsignedInt(1), LitIR::Bool(false), LitIR::Null];
    assert_eq!(compile_params(&tokens, &params), Err(LangError::ParameterCountMismatch));
    assert!(compile(&tokens, SubstitutedData::new(&params)).is_ok());
    // a placeholder has no value of its own
    assert_eq!(compile_test(&tokens), Err(LangError::ParameterCountMismatch));
}

#[test]
fn literal_is_no_parameter() {
    let tokens = lex_insecure(b"insert into foo (1)").unwrap();
    let params = [LitIR::UnsignedInt(1)];
    assert_eq!(
        compile(&tokens, SubstitutedData::new(&params)),
        Err(LangError::UnexpectedToken)
    );
}

#[test]
fn insert_errors() {
    let tokens = lex_insecure(b"insert foo (1)").unwrap();
    assert_eq!(compile_test(&tokens), Err(LangError::UnexpectedToken));
    let tokens = lex_insecure(b"insert into (1)").unwrap();
    assert_eq!(compile_test(&tokens), Err(LangError::ExpectedEntity));
    let tokens = lex_insecure(b"insert into foo").unwrap();
    assert_eq!(compile_test(&tokens), Err(LangError::UnexpectedEndofStatement));
    let tokens = lex_insecure(b"insert into foo (1 2)").unwrap();
    assert_eq!(compile_test(&tokens), Err(LangError::UnexpectedToken));
    let tokens = lex_insecure(b"insert into foo (,)").unwrap();
    assert_eq!(compile_test(&tokens), Err(LangError::UnexpectedToken));
    let tokens = lex_insecure(b"insert into foo (1,").unwrap();
    assert_eq!(compile_test(&tokens), Err(LangError::UnexpectedEndofStatement));
}

#[test]
fn insert_empty_and_trailing_comma() {
    let tokens = lex_insecure(b"insert into foo ()").unwrap();
    assert_eq!(
        compile_test(&tokens),
        Ok(Statement::Insert(InsertStatement { entity: single("foo"), data: vec![] }))
    );
    let expected = Statement::Insert(InsertStatement {
        entity: single("foo"),
        data: vec![Datacell::UnsignedInt(1), Datacell::UnsignedInt(2)],
    });
    for src in [
        &b"insert into foo (1, 2)"[..],
        &b"insert into foo (1, 2,)"[..],
        &b"insert into foo (1, 2\r)"[..],
        &b"insert into foo (1\r 2)"[..],
    ] {
        let tokens = lex_insecure(src).unwrap();
        assert_eq!(compile_test(&tokens).as_ref(), Ok(&expected));
    }
    let tokens = lex_insecure(b"insert into foo (1, 2,,)").unwrap();
    assert_eq!(compile_test(&tokens), Err(LangError::UnexpectedToken));
    let tokens = lex_insecure(b"insert into foo (1, 2,\r)").unwrap();
    assert_eq!(compile_test(&tokens), Err(LangError::UnexpectedToken));
}

#[test]
fn select() {
    let tokens = lex_insecure(b"select * from s.m").unwrap();
    assert_eq!(
        compile_test(&tokens),
        Ok(Statement::Select(SelectStatement {
            entity: full("s", "m"),
            fields: vec![],
            wildcard: true,
            clauses: vec![],
        }))
    );
    let tokens =
        lex_insecure(b"select a, b from m where x = 1 and y != 'n' and z <= -2").unwrap();
    assert_eq!(
        compile_test(&tokens),
        Ok(Statement::Select(SelectStatement {
            entity: single("m"),
            fields: vec![b"a", b"b"],
            wildcard: false,
            clauses: vec![
                expr("x", Symbol::OpEq, Datacell::UnsignedInt(1)),
                expr("y", Symbol::OpNe, Datacell::Str(b"n".to_vec())),
                expr("z", Symbol::OpLe, Datacell::SignedInt(-2)),
            ],
        }))
    );
}

#[test]
fn select_errors() {
    let tokens = lex_insecure(b"select from m").unwrap();
    assert_eq!(compile_test(&tokens), Err(LangError::UnexpectedToken));
    let tokens = lex_insecure(b"select a, from m").unwrap();
    assert_eq!(compile_test(&tokens), Err(LangError::UnexpectedToken));
    let tokens = lex_insecure(b"select a b from m").unwrap();
    assert_eq!(compile_test(&tokens), Err(LangError::UnexpectedToken));
    let tokens = lex_insecure(b"select a").unwrap();
    assert_eq!(compile_test(&tokens), Err(LangError::UnexpectedEndofStatement));
    let tokens = lex_insecure(b"select a from").unwrap();
    assert_eq!(compile_test(&tokens), Err(LangError::ExpectedEntity));
    let tokens = lex_insecure(b"select a from m where").unwrap();
    assert_eq!(compile_test(&tokens), Err(LangError::UnexpectedEndofStatement));
    let tokens = lex_insecure(b"select a from m where x = 1 and").unwrap();
    assert_eq!(compile_test(&tokens), Err(LangError::UnexpectedEndofStatement));
    let tokens = lex_insecure(b"select a from m where x").unwrap();
    assert_eq!(compile_test(&tokens), Err(LangError::UnexpectedEndofStatement));
    let tokens = lex_insecure(b"select a from m where x , 1").unwrap();
    assert_eq!(compile_test(&tokens), Err(LangError::UnexpectedToken));
}

#[test]
fn update() {
    let tokens = lex_insecure(b"update s.m set a = 1, b = 'x' where id > 10").unwrap();
    assert_eq!(
        compile_test(&tokens),
        Ok(Statement::Update(UpdateStatement {
            entity: full("s", "m"),
            expressions: vec![
                expr("a", Symbol::OpEq, Datacell::UnsignedInt(1)),
                expr("b", Symbol::OpEq, Datacell::Str(b"x".to_vec())),
            ],
            clauses: vec![expr("id", Symbol::OpGt, Datacell::UnsignedInt(10))],
        }))
    );
    let tokens = lex_insecure(b"update m set a < 1").unwrap();
    assert_eq!(compile_test(&tokens), Err(LangError::UnexpectedToken));
    let tokens = lex_insecure(b"update m a = 1").unwrap();
    assert_eq!(compile_test(&tokens), Err(LangError::UnexpectedToken));
    let tokens = lex_insecure(b"update m set").unwrap();
    assert_eq!(compile_test(&tokens), Err(LangError::UnexpectedEndofStatement));
}

#[test]
fn update_with_parameters() {
    let tokens = lex_secure(b"update m set a = ? where id >= ?").unwrap();
    let params = [LitIR::Bin(b"\x01"), LitIR::SignedInt(-1)];
    assert_eq!(
        compile_params(&tokens, &params),
        Ok(Statement::Update(UpdateStatement {
            entity: single("m"),
            expressions: vec![expr("a", Symbol::OpEq, Datacell::Bin(vec![1]))],
            clauses: vec![expr("id", Symbol::OpGe, Datacell::SignedInt(-1))],
        }))
    );
}

#[test]
fn delete() {
    let tokens = lex_insecure(b"delete from m where username = 'sayan'").unwrap();
    assert_eq!(
        compile_test(&tokens),
        Ok(Statement::Delete(DeleteStatement {
            entity: single("m"),
            clauses: vec![expr("username", Symbol::OpEq, Datacell::Str(b"sayan".to_vec()))],
        }))
    );
    let tokens = lex_insecure(b"delete from s.m").unwrap();
    assert_eq!(
        compile_test(&tokens),
        Ok(Statement::Delete(DeleteStatement { entity: full("s", "m"), clauses: vec![] }))
    );
    let tokens = lex_insecure(b"delete m").unwrap();
    assert_eq!(compile_test(&tokens), Err(LangError::UnexpectedToken));
}

#[test]
fn state_cursor_operations() {
    let tokens = lex_insecure(b"a ( ) b . c 5").unwrap();
    assert_eq!(tokens.len(), 7);
    let mut state = State::new(&tokens, InplaceData::new());
    assert!(state.okay());
    assert_eq!(state.cursor(), 0);
    assert_eq!(state.remaining(), 7);
    assert!(state.has_remaining(7));
    assert!(!state.has_remaining(8));
    assert!(state.not_exhausted());
    assert!(state.loop_tt());
    assert!(state.loop_data_tt());
    assert!(state.cursor_is_ident());
    assert!(state.cursor_has_ident_rounded());
    assert!(state.cursor_has_word_rounded("a"));
    assert!(!state.cursor_has_word_rounded("b"));
    assert!(state.cursor_signature_match_fn_arity0_rounded());
    assert!(!state.cursor_signature_match_entity_full_rounded());
    assert_eq!(state.read(), &ident("a"));
    assert_eq!(state.read_ahead(1), &Token::Symbol(Symbol::SymOpenParen));
    assert_eq!(state.current().len(), 7);
    assert_eq!(state.fw_read(), &ident("a"));
    assert_eq!(state.cursor(), 1);
    assert!(state.cursor_eq(Token::Symbol(Symbol::SymOpenParen)));
    assert!(state.cursor_rounded_eq(Token::Symbol(Symbol::SymOpenParen)));
    assert!(!state.cursor_rounded_eq(Token::Symbol(Symbol::SymCloseParen)));
    state.cursor_ahead();
    state.cursor_ahead_if(false);
    assert_eq!(state.cursor(), 2);
    state.cursor_ahead_if(true);
    assert_eq!(state.cursor(), 3);
    assert!(state.cursor_signature_match_entity_full_rounded());
    assert!(!state.cursor_signature_match_fn_arity0_rounded());
    state.cursor_ahead_by(3);
    assert_eq!(state.consumed(), 6);
    assert_eq!(state.current().len(), 1);
    assert!(state.can_read_lit_rounded());
    assert!(state.can_read_lit_from(&tokens[6]));
    assert!(!state.can_read_lit_from(&tokens[0]));
    assert_eq!(state.read_cursor_lit_unchecked().to_data(), Datacell::UnsignedInt(5));
    assert_eq!(state.read_lit_unchecked_from(&tokens[6]).to_data(), Datacell::UnsignedInt(5));
    assert_eq!(
        state.read_lit_into_data_type_unchecked_from(&tokens[6]),
        Datacell::UnsignedInt(5)
    );
    assert_eq!(state.cursor(), 6);
    state.cursor_back();
    state.cursor_back_by(2);
    assert_eq!(state.cursor(), 3);
    state.cursor_ahead_by(4);
    assert!(state.exhausted());
    assert!(!state.loop_tt());
    // the rounded checks take an exhausted state
    assert!(!state.cursor_rounded_eq(ident("a")));
    assert!(!state.cursor_has_ident_rounded());
    assert!(!state.cursor_has_word_rounded("a"));
    assert!(!state.can_read_lit_rounded());
    assert!(!state.cursor_signature_match_entity_full_rounded());
    assert!(!state.cursor_signature_match_fn_arity0_rounded());
    assert_eq!(state.current().len(), 0);
}

#[test]
fn cursor_never_passes_the_end() {
    for src in [
        &b"use a.b"[..],
        &b"drop model x force extra"[..],
        &b"insert into foo (1, 2"[..],
        &b"select a, b from m where"[..],
        &b"create model m (a string) with (x = 1)"[..],
        &b"alter"[..],
        &b""[..],
    ] {
        let tokens = lex_insecure(src).unwrap();
        let mut state = State::new_inplace(&tokens);
        let _ = compile_state(&mut state);
        assert!(state.cursor() <= tokens.len());
        assert_eq!(state.cursor() + state.remaining(), tokens.len());
    }
}

#[test]
fn rounded_checks_on_no_tokens() {
    let state = State::new_inplace(&[]);
    assert!(state.exhausted());
    assert!(!state.cursor_rounded_eq(Token::Placeholder));
    assert!(!state.cursor_has_ident_rounded());
    assert!(!state.can_read_lit_rounded());
    assert!(!state.cursor_signature_match_entity_full_rounded());
    assert!(!state.cursor_signature_match_fn_arity0_rounded());
}

#[test]
fn poison_is_for_good() {
    let tokens = lex_insecure(b"a.b").unwrap();
    let mut state = State::new_inplace(&tokens);
    state.poison_if(false);
    assert!(state.okay());
    state.poison_if_not(true);
    assert!(state.okay());
    state.poison_if(true);
    assert!(!state.okay());
    state.poison_if(false);
    state.poison_if_not(true);
    assert!(!state.okay());
    assert!(!state.loop_tt());
    // an entity is there, but the state was poisoned before
    assert_eq!(Entity::attempt_process_entity_result(&mut state), Err(LangError::ExpectedEntity));
    assert_eq!(state.cursor(), 3);

    let mut state = State::new_inplace(&tokens);
    state.poison();
    assert!(!state.okay());
    state.poison_if_not(false);
    assert!(!state.okay());
}

#[test]
fn entity_parsing() {
    let tokens = lex_insecure(b"a.b").unwrap();
    assert!(Entity::tokens_with_full(&tokens));
    assert!(Entity::tokens_with_single(&tokens));
    assert_eq!(Entity::full_entity_from_slice(&tokens), full("a", "b"));
    assert_eq!(Entity::single_entity_from_slice(&tokens), single("a"));
    let mut c = 10;
    assert_eq!(Entity::parse_from_tokens(&tokens, &mut c), Ok(full("a", "b")));
    assert_eq!(c, 13);

    let mut state = State::new_inplace(&tokens);
    let mut e = None;
    Entity::parse_entity(&mut state, &mut e);
    assert_eq!(e, Some(full("a", "b")));
    assert_eq!(state.cursor(), 3);

    let tokens = lex_insecure(b"a .").unwrap();
    assert!(!Entity::tokens_with_full(&tokens));
    assert!(Entity::tokens_with_single(&tokens));
    let mut c = 0;
    assert_eq!(Entity::parse_from_tokens(&tokens, &mut c), Ok(single("a")));
    assert_eq!(c, 1);
    let mut state = State::new_inplace(&tokens);
    let mut e = None;
    Entity::attempt_process_entity(&mut state, &mut e);
    assert_eq!(e, Some(single("a")));
    assert_eq!(state.cursor(), 1);
    assert!(state.okay());

    let tokens = lex_insecure(b". a").unwrap();
    assert!(!Entity::tokens_with_single(&tokens));
    let mut c = 7;
    assert_eq!(Entity::parse_from_tokens(&tokens, &mut c), Err(LangError::ExpectedEntity));
    assert_eq!(c, 7);
    let mut state = State::new_inplace(&tokens);
    let mut e = None;
    Entity::attempt_process_entity(&mut state, &mut e);
    assert_eq!(e, None);
    assert_eq!(state.cursor(), 0);
    assert!(!state.okay());
    let mut state = State::new_inplace(&tokens);
    let mut e = Some(single("kept"));
    Entity::parse_entity(&mut state, &mut e);
    assert_eq!(e, Some(single("kept")));
    assert!(!state.okay());

    assert!(!Entity::tokens_with_single(&[]));
    assert!(!Entity::tokens_with_full(&[]));
}

#[test]
fn query_data_sources() {
    let lit = Token::Lit(Lit::Bool(true));
    let mut inline = InplaceData::new();
    assert!(inline.nonzero());
    assert!(inline.can_read_lit_from(&lit));
    assert!(!inline.can_read_lit_from(&Token::Placeholder));
    assert_eq!(inline.read_lit(&lit).to_data(), Datacell::Bool(true));
    assert_eq!(inline.read_data_type(&lit), Datacell::Bool(true));

    let params = [LitIR::UnsignedInt(7), LitIR::Str(b"s")];
    let mut subst = SubstitutedData::new(&params);
    assert!(subst.nonzero());
    assert!(subst.can_read_lit_from(&Token::Placeholder));
    assert!(!subst.can_read_lit_from(&lit));
    assert_eq!(subst.read_lit(&Token::Placeholder).to_data(), Datacell::UnsignedInt(7));
    assert_eq!(subst.read_data_type(&Token::Placeholder), Datacell::Str(b"s".to_vec()));
    assert!(!subst.nonzero());
    assert!(!subst.can_read_lit_from(&Token::Placeholder));
    assert!(!SubstitutedData::new(&[]).nonzero());
}

#[test]
fn minidx_clamps() {
    let v = [1, 2, 3];
    assert_eq!(minidx(&v, 0), 0);
    assert_eq!(minidx(&v, 2), 2);
    assert_eq!(minidx(&v, 3), 2);
    assert_eq!(minidx(&v, usize::MAX), 2);
}

#[test]
fn compile_is_total_on_short_inputs() {
    let words = [
        "use", "create", "alter", "drop", "inspect", "insert", "select", "update", "delete",
        "model", "space", "into", "from", "where", "set", "with", "x", "(", ")", ",", "1", "?",
    ];
    for a in words {
        for b in words {
            for c in words {
                let src = format!("{} {} {}", a, b, c);
                let tokens = lex_insecure(src.as_bytes()).unwrap();
                let mut state = State::new_inplace(&tokens);
                let r = compile_state(&mut state);
                assert!(state.cursor() <= tokens.len());
                if r.is_err() {
                    assert!(matches!(
                        r,
                        Err(LangError::UnexpectedEOS)
                            | Err(LangError::UnexpectedEndofStatement)
                            | Err(LangError::ExpectedStatement)
                            | Err(LangError::ExpectedEntity)
                            | Err(LangError::UnexpectedToken)
                            | Err(LangError::StmtUnknownCreate)
                            | Err(LangError::StmtUnknownAlter)
                            | Err(LangError::ParameterCountMismatch)
                    ));
                }
            }
        }
    }
}
