//! Data manipulation: `insert`, `select`, `update` and `delete`.
use vstd::prelude::*;
use crate::data::{each, Datacell, Value};
use crate::error::{agrees, LangResult};
use crate::ql::ast::{Entity, EntityView, Parsed, QueryData, State, StateView};
use crate::ql::items::{agrees_each, at_keyword, expr_item, list_at, miss, name_item};
use crate::ql::items::{lemma_items_keep_state, lemma_list_keeps_state};
use crate::ql::items::lemma_paren_list_keeps_state;
use crate::ql::items::{paren_list_at, read_exprs, read_keyword, read_names, read_paren_values};
use crate::ql::items::{value_item, Expr, ExprView, Shape};
use crate::ql::lex::{Ident, Keyword, Symbol, Token, TokenView};

verus! {

/// `insert into <entity> ( <value>, ... )`
#[derive(Debug, PartialEq)]
pub struct InsertStatement<'a> {
    pub entity: Entity<'a>,
    pub data: Vec<Datacell>,
}

/// The mathematical value of an [`InsertStatement`]
pub struct InsertView {
    pub entity: EntityView,
    pub data: Seq<Value>,
}

impl<'a> View for InsertStatement<'a> {
    type V = InsertView;

    open spec fn view(&self) -> InsertView {
        InsertView { entity: self.entity@, data: each(self.data@) }
    }
}

/// `select * from <entity> [where ...]`, or with a list of field names in place of `*`
#[derive(Debug, PartialEq)]
pub struct SelectStatement<'a> {
    pub entity: Entity<'a>,
    /// The fields asked for; none where all are
    pub fields: Vec<Ident<'a>>,
    /// Whether all fields are asked for
    pub wildcard: bool,
    pub clauses: Vec<Expr<'a>>,
}

/// The mathematical value of a [`SelectStatement`]
pub struct SelectView {
    pub entity: EntityView,
    pub fields: Seq<Seq<u8>>,
    pub wildcard: bool,
    pub clauses: Seq<ExprView>,
}

impl<'a> View for SelectStatement<'a> {
    type V = SelectView;

    open spec fn view(&self) -> SelectView {
        SelectView {
            entity: self.entity@,
            fields: each(self.fields@),
            wildcard: self.wildcard,
            clauses: each(self.clauses@),
        }
    }
}

/// `update <entity> set <name> = <value>, ... [where ...]`
#[derive(Debug, PartialEq)]
pub struct UpdateStatement<'a> {
    pub entity: Entity<'a>,
    pub expressions: Vec<Expr<'a>>,
    pub clauses: Vec<Expr<'a>>,
}

/// The mathematical value of an [`UpdateStatement`]
pub struct UpdateView {
    pub entity: EntityView,
    pub expressions: Seq<ExprView>,
    pub clauses: Seq<ExprView>,
}

impl<'a> View for UpdateStatement<'a> {
    type V = UpdateView;

    open spec fn view(&self) -> UpdateView {
        UpdateView {
            entity: self.entity@,
            expressions: each(self.expressions@),
            clauses: each(self.clauses@),
        }
    }
}

/// `delete from <entity> [where ...]`
#[derive(Debug, PartialEq)]
pub struct DeleteStatement<'a> {
    pub entity: Entity<'a>,
    pub clauses: Vec<Expr<'a>>,
}

/// The mathematical value of a [`DeleteStatement`]
pub struct DeleteView {
    pub entity: EntityView,
    pub clauses: Seq<ExprView>,
}

impl<'a> View for DeleteStatement<'a> {
    type V = DeleteView;

    open spec fn view(&self) -> DeleteView {
        DeleteView { entity: self.entity@, clauses: each(self.clauses@) }
    }
}

/// The conditions that may follow a statement: `where <name> <op> <value> and ...`, or
/// nothing, which stands for no condition
pub open spec fn where_at(sv: StateView) -> Parsed<Seq<ExprView>> {
    if at_keyword(sv, Keyword::Where) {
        list_at(expr_item(false), Shape::Ands, sv.advance(1), Seq::empty())
    } else {
        Parsed::done(sv, Seq::empty())
    }
}

/// What follows `insert`: `into`, an entity, and the values in parentheses
pub open spec fn insert_at(sv: StateView) -> Parsed<InsertView> {
    let s1 = sv.advance(1);
    let data = paren_list_at(value_item(), s1.after_entity());
    if !at_keyword(sv, Keyword::Into) {
        Parsed::miss(sv)
    } else {
        match (s1.entity_result(), data.result) {
            (Err(e), _) => Parsed { state: s1.after_entity(), result: Err(e) },
            (Ok(_), Err(e)) => Parsed { state: data.state, result: Err(e) },
            (Ok(entity), Ok(data_)) => Parsed::done(
                data.state,
                InsertView { entity, data: data_ },
            ),
        }
    }
}

/// What `select` asks for: `*`, or names set apart by commas
pub open spec fn selection_at(sv: StateView) -> Parsed<(Seq<Seq<u8>>, bool)> {
    if sv.at(TokenView::Symbol(Symbol::SymAsterisk)) {
        Parsed::done(sv.advance(1), (Seq::empty(), true))
    } else {
        let names = list_at(name_item(), Shape::Commas, sv, Seq::empty());
        Parsed {
            state: names.state,
            result: match names.result {
                Ok(n) => Ok((n, false)),
                Err(e) => Err(e),
            },
        }
    }
}

/// What follows `select`: what is asked for, `from`, an entity, and conditions if any
pub open spec fn select_at(sv: StateView) -> Parsed<SelectView> {
    let sel = selection_at(sv);
    let s1 = sel.state.advance(1);
    let clauses = where_at(s1.after_entity());
    match sel.result {
        Err(e) => Parsed { state: sel.state, result: Err(e) },
        Ok((fields, wildcard)) => if !at_keyword(sel.state, Keyword::From) {
            Parsed::miss(sel.state)
        } else {
            match (s1.entity_result(), clauses.result) {
                (Err(e), _) => Parsed { state: s1.after_entity(), result: Err(e) },
                (Ok(_), Err(e)) => Parsed { state: clauses.state, result: Err(e) },
                (Ok(entity), Ok(clauses_)) => Parsed::done(
                    clauses.state,
                    SelectView { entity, fields, wildcard, clauses: clauses_ },
                ),
            }
        },
    }
}

/// What follows `update`: an entity, `set`, assignments set apart by commas, and
/// conditions if any
pub open spec fn update_at(sv: StateView) -> Parsed<UpdateView> {
    let s1 = sv.after_entity();
    let exprs = list_at(expr_item(true), Shape::Commas, s1.advance(1), Seq::empty());
    let clauses = where_at(exprs.state);
    match sv.entity_result() {
        Err(e) => Parsed { state: s1, result: Err(e) },
        Ok(entity) => if !at_keyword(s1, Keyword::SetTo) {
            Parsed::miss(s1)
        } else {
            match (exprs.result, clauses.result) {
                (Err(e), _) => Parsed { state: exprs.state, result: Err(e) },
                (Ok(_), Err(e)) => Parsed { state: clauses.state, result: Err(e) },
                (Ok(expressions), Ok(clauses_)) => Parsed::done(
                    clauses.state,
                    UpdateView { entity, expressions, clauses: clauses_ },
                ),
            }
        },
    }
}

/// What follows `delete`: `from`, an entity, and conditions if any
pub open spec fn delete_at(sv: StateView) -> Parsed<DeleteView> {
    let s1 = sv.advance(1);
    let clauses = where_at(s1.after_entity());
    if !at_keyword(sv, Keyword::From) {
        Parsed::miss(sv)
    } else {
        match (s1.entity_result(), clauses.result) {
            (Err(e), _) => Parsed { state: s1.after_entity(), result: Err(e) },
            (Ok(_), Err(e)) => Parsed { state: clauses.state, result: Err(e) },
            (Ok(entity), Ok(clauses_)) => Parsed::done(
                clauses.state,
                DeleteView { entity, clauses: clauses_ },
            ),
        }
    }
}

/// Reads the conditions that may follow a statement
fn read_where<'a, Qd: QueryData<'a>>(state: &mut State<'a, Qd>) -> (r: LangResult<Vec<Expr<'a>>>)
    ensures
        final(state)@ == where_at(old(state)@).state,
        agrees_each(r, where_at(old(state)@).result),
        old(state)@.wf() ==> final(state)@.wf(),
{
    if state.cursor_rounded_eq(Token::Keyword(Keyword::Where)) {
        state.cursor_ahead();
        read_exprs(state, Shape::Ands, false)
    } else {
        let clauses: Vec<Expr<'a>> = Vec::new();
        assert(each(clauses@) =~= Seq::empty());
        Ok(clauses)
    }
}

impl<'a> InsertStatement<'a> {
    /// Reads what follows `insert`
    pub fn parse<Qd: QueryData<'a>>(state: &mut State<'a, Qd>) -> (r: LangResult<Self>)
        ensures
            final(state)@ == insert_at(old(state)@).state,
            agrees(r, insert_at(old(state)@).result),
            final(state)@.wf(),
    {
        match read_keyword(state, Keyword::Into) {
            Ok(()) => {},
            Err(e) => {
                return Err(e);
            },
        }
        let entity = match Entity::attempt_process_entity_result(state) {
            Ok(e) => e,
            Err(e) => {
                return Err(e);
            },
        };
        match read_paren_values(state) {
            Ok(data) => Ok(InsertStatement { entity, data }),
            Err(e) => Err(e),
        }
    }
}

impl<'a> SelectStatement<'a> {
    /// Reads what follows `select`
    pub fn parse<Qd: QueryData<'a>>(state: &mut State<'a, Qd>) -> (r: LangResult<Self>)
        ensures
            final(state)@ == select_at(old(state)@).state,
            agrees(r, select_at(old(state)@).result),
            final(state)@.wf(),
    {
        let (fields, wildcard): (Vec<Ident<'a>>, bool) = if state.cursor_rounded_eq(
            Token::Symbol(Symbol::SymAsterisk),
        ) {
            state.cursor_ahead();
            let none: Vec<Ident<'a>> = Vec::new();
            assert(each(none@) =~= Seq::empty());
            (none, true)
        } else {
            match read_names(state, Shape::Commas) {
                Ok(names) => (names, false),
                Err(e) => {
                    return Err(e);
                },
            }
        };
        match read_keyword(state, Keyword::From) {
            Ok(()) => {},
            Err(e) => {
                return Err(e);
            },
        }
        let entity = match Entity::attempt_process_entity_result(state) {
            Ok(e) => e,
            Err(e) => {
                return Err(e);
            },
        };
        match read_where(state) {
            Ok(clauses) => Ok(SelectStatement { entity, fields, wildcard, clauses }),
            Err(e) => Err(e),
        }
    }
}

impl<'a> UpdateStatement<'a> {
    /// Reads what follows `update`
    pub fn parse<Qd: QueryData<'a>>(state: &mut State<'a, Qd>) -> (r: LangResult<Self>)
        ensures
            final(state)@ == update_at(old(state)@).state,
            agrees(r, update_at(old(state)@).result),
            final(state)@.wf(),
    {
        let entity = match Entity::attempt_process_entity_result(state) {
            Ok(e) => e,
            Err(e) => {
                return Err(e);
            },
        };
        match read_keyword(state, Keyword::SetTo) {
            Ok(()) => {},
            Err(e) => {
                return Err(e);
            },
        }
        let expressions = match read_exprs(state, Shape::Commas, true) {
            Ok(x) => x,
            Err(e) => {
                return Err(e);
            },
        };
        match read_where(state) {
            Ok(clauses) => Ok(UpdateStatement { entity, expressions, clauses }),
            Err(e) => Err(e),
        }
    }
}

impl<'a> DeleteStatement<'a> {
    /// Reads what follows `delete`
    pub fn parse<Qd: QueryData<'a>>(state: &mut State<'a, Qd>) -> (r: LangResult<Self>)
        ensures
            final(state)@ == delete_at(old(state)@).state,
            agrees(r, delete_at(old(state)@).result),
            final(state)@.wf(),
    {
        match read_keyword(state, Keyword::From) {
            Ok(()) => {},
            Err(e) => {
                return Err(e);
            },
        }
        let entity = match Entity::attempt_process_entity_result(state) {
            Ok(e) => e,
            Err(e) => {
                return Err(e);
            },
        };
        match read_where(state) {
            Ok(clauses) => Ok(DeleteStatement { entity, clauses }),
            Err(e) => Err(e),
        }
    }
}

/// Reading conditions keeps the state
pub proof fn lemma_where_keeps_state(sv: StateView)
    requires
        sv.wf(),
    ensures
        sv.leads_to(where_at(sv).state),
{
    lemma_items_keep_state();
    if at_keyword(sv, Keyword::Where) {
        lemma_list_keeps_state(expr_item(false), Shape::Ands, sv.advance(1), Seq::empty());
    }
}

/// Reading the body of a data manipulation statement keeps the state
pub proof fn lemma_dml_keeps_state(sv: StateView)
    requires
        sv.wf(),
    ensures
        sv.leads_to(insert_at(sv).state),
        sv.leads_to(select_at(sv).state),
        sv.leads_to(update_at(sv).state),
        sv.leads_to(delete_at(sv).state),
{
    lemma_items_keep_state();
    // insert
    if at_keyword(sv, Keyword::Into) {
        lemma_paren_list_keeps_state(value_item(), sv.advance(1).after_entity());
    }
    // select
    lemma_list_keeps_state(name_item(), Shape::Commas, sv, Seq::empty());
    let sel = selection_at(sv);
    if at_keyword(sel.state, Keyword::From) {
        lemma_where_keeps_state(sel.state.advance(1).after_entity());
    }
    // update
    let s1 = sv.after_entity();
    if at_keyword(s1, Keyword::SetTo) {
        lemma_list_keeps_state(expr_item(true), Shape::Commas, s1.advance(1), Seq::empty());
        let exprs = list_at(expr_item(true), Shape::Commas, s1.advance(1), Seq::empty());
        lemma_where_keeps_state(exprs.state);
    }
    // delete
    if at_keyword(sv, Keyword::From) {
        lemma_where_keeps_state(sv.advance(1).after_entity());
    }
}

} // verus!
