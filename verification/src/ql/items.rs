//! The parts that statements are made of: values, names, fields and expressions.
use vstd::prelude::*;
use crate::data::{each, Datacell, Value};
use crate::error::{agrees, LangError, LangResult};
use crate::ql::ast::{ident_of, Parsed, QueryData, State, StateView};
use crate::ql::lex::{Ident, Keyword, Symbol, Token, TokenView};

verus! {

/// A field of a model: its name and the name of its type
#[derive(Debug, PartialEq)]
pub struct Field<'a> {
    pub name: Ident<'a>,
    pub ty: Ident<'a>,
}

/// The mathematical value of a field
pub struct FieldView {
    pub name: Seq<u8>,
    pub ty: Seq<u8>,
}

impl<'a> View for Field<'a> {
    type V = FieldView;

    open spec fn view(&self) -> FieldView {
        FieldView { name: self.name@, ty: self.ty@ }
    }
}

/// A name, an operator and a value: a property or an assignment (`name = value`), or a
/// condition (`name < value` and the like)
#[derive(Debug, PartialEq)]
pub struct Expr<'a> {
    pub lhs: Ident<'a>,
    pub op: Symbol,
    pub rhs: Datacell,
}

/// The mathematical value of an expression
pub struct ExprView {
    pub lhs: Seq<u8>,
    pub op: Symbol,
    pub rhs: Value,
}

impl<'a> View for Expr<'a> {
    type V = ExprView;

    open spec fn view(&self) -> ExprView {
        ExprView { lhs: self.lhs@, op: self.op, rhs: self.rhs@ }
    }
}

/// The error for a token that is missing or is not the one needed: the statement ends too
/// early where no token is left, else the token is unexpected
pub open spec fn unexpected(sv: StateView) -> LangError {
    if sv.remaining() < 1 {
        LangError::UnexpectedEndofStatement
    } else {
        LangError::UnexpectedToken
    }
}

impl<T> Parsed<T> {
    /// The step fails for want of the token that it needs under the cursor
    pub open spec fn miss(sv: StateView) -> Parsed<T> {
        Parsed::fail(sv, unexpected(sv))
    }
}

/// Poisons the state and reports the error `e`
pub fn fail<'a, Qd: QueryData<'a>, T>(state: &mut State<'a, Qd>, e: LangError) -> (r: LangResult<T>)
    ensures
        final(state)@ == old(state)@.poison_if(true),
        final(state)@.wf(),
        r matches Err(x) && x == e,
{
    state.poison();
    Err(e)
}

/// Poisons the state and reports that the token under the cursor is missing or unexpected
pub fn miss<'a, Qd: QueryData<'a>, T>(state: &mut State<'a, Qd>) -> (r: LangResult<T>)
    ensures
        final(state)@ == old(state)@.poison_if(true),
        final(state)@.wf(),
        r matches Err(x) && x == unexpected(old(state)@),
{
    let e = if state.exhausted() {
        LangError::UnexpectedEndofStatement
    } else {
        LangError::UnexpectedToken
    };
    state.poison();
    Err(e)
}

/// A value: a token that the data source can read. A placeholder for which the source has
/// nothing is a parameter count mismatch.
pub open spec fn value_at(sv: StateView) -> Parsed<Value> {
    if sv.remaining() < 1 {
        Parsed::miss(sv)
    } else if sv.data.can_read(sv.current()) {
        Parsed::done(sv.after_read().advance(1), sv.data.read(sv.current()))
    } else if sv.current() is Placeholder {
        Parsed::fail(sv, LangError::ParameterCountMismatch)
    } else {
        Parsed::miss(sv)
    }
}

/// A name: an identifier
pub open spec fn name_at(sv: StateView) -> Parsed<Seq<u8>> {
    if sv.at_ident() {
        Parsed::done(sv.advance(1), sv.current()->Ident_0)
    } else {
        Parsed::miss(sv)
    }
}

/// A field: its name and the name of its type
pub open spec fn field_at(sv: StateView) -> Parsed<FieldView> {
    if sv.at_ident() && sv.advance(1).at_ident() {
        Parsed::done(
            sv.advance(2),
            FieldView { name: sv.ahead(0)->Ident_0, ty: sv.ahead(1)->Ident_0 },
        )
    } else if sv.at_ident() {
        Parsed::miss(sv.advance(1))
    } else {
        Parsed::miss(sv)
    }
}

/// Whether `op` may stand in an expression: `=` in any, the other comparisons only in a
/// condition
pub open spec fn operator_allowed(op: Symbol, assign_only: bool) -> bool {
    op == Symbol::OpEq || (!assign_only && (op == Symbol::OpLt || op == Symbol::OpGt || op
        == Symbol::OpLe || op == Symbol::OpGe || op == Symbol::OpNe))
}

/// An expression: a name, an operator that is allowed, and a value
pub open spec fn expr_at(sv: StateView, assign_only: bool) -> Parsed<ExprView> {
    let s1 = sv.advance(1);
    let s2 = sv.advance(2);
    if !sv.at_ident() {
        Parsed::miss(sv)
    } else if !(s1.remaining() >= 1 && s1.current() is Symbol && operator_allowed(
        s1.current()->Symbol_0,
        assign_only,
    )) {
        Parsed::miss(s1)
    } else {
        let v = value_at(s2);
        Parsed {
            state: v.state,
            result: match v.result {
                Ok(rhs) => Ok(
                    ExprView { lhs: sv.current()->Ident_0, op: s1.current()->Symbol_0, rhs },
                ),
                Err(e) => Err(e),
            },
        }
    }
}

/// Reads a value
pub fn read_value<'a, Qd: QueryData<'a>>(state: &mut State<'a, Qd>) -> (r: LangResult<Datacell>)
    ensures
        final(state)@ == value_at(old(state)@).state,
        agrees(r, value_at(old(state)@).result),
        final(state)@.wf(),
{
    if state.can_read_lit_rounded() {
        let tok = state.fw_read();
        Ok(state.read_lit_into_data_type_unchecked_from(tok))
    } else if state.cursor_rounded_eq(Token::Placeholder) {
        fail(state, LangError::ParameterCountMismatch)
    } else {
        miss(state)
    }
}

/// Reads a name
pub fn read_name<'a, Qd: QueryData<'a>>(state: &mut State<'a, Qd>) -> (r: LangResult<Ident<'a>>)
    ensures
        final(state)@ == name_at(old(state)@).state,
        agrees(r, name_at(old(state)@).result),
        final(state)@.wf(),
{
    if state.cursor_has_ident_rounded() {
        Ok(ident_of(state.fw_read()))
    } else {
        miss(state)
    }
}

/// Reads a field
pub fn read_field<'a, Qd: QueryData<'a>>(state: &mut State<'a, Qd>) -> (r: LangResult<Field<'a>>)
    ensures
        final(state)@ == field_at(old(state)@).state,
        agrees(r, field_at(old(state)@).result),
        final(state)@.wf(),
{
    if !state.cursor_has_ident_rounded() {
        return miss(state);
    }
    let name = ident_of(state.fw_read());
    if !state.cursor_has_ident_rounded() {
        return miss(state);
    }
    let ty = ident_of(state.fw_read());
    Ok(Field { name, ty })
}

/// Reads an expression
pub fn read_expr<'a, Qd: QueryData<'a>>(state: &mut State<'a, Qd>, assign_only: bool) -> (r:
    LangResult<Expr<'a>>)
    ensures
        final(state)@ == expr_at(old(state)@, assign_only).state,
        agrees(r, expr_at(old(state)@, assign_only).result),
        final(state)@.wf(),
{
    if !state.cursor_has_ident_rounded() {
        return miss(state);
    }
    let lhs = ident_of(state.fw_read());
    if state.exhausted() {
        return miss(state);
    }
    let op = match state.read() {
        Token::Symbol(op) => {
            let op = *op;
            let allowed = match op {
                Symbol::OpEq => true,
                Symbol::OpLt | Symbol::OpGt | Symbol::OpLe | Symbol::OpGe | Symbol::OpNe => {
                    !assign_only
                },
                _ => false,
            };
            if !allowed {
                return miss(state);
            }
            op
        },
        _ => {
            return miss(state);
        },
    };
    state.cursor_ahead();
    match read_value(state) {
        Ok(rhs) => Ok(Expr { lhs, op, rhs }),
        Err(e) => Err(e),
    }
}

/// How the items of a list are set apart and how the list ends
#[derive(Debug, Clone, Copy, PartialEq, Eq, Structural)]
pub enum Shape {
    /// Items set apart by commas, up to a closing parenthesis. The list may be empty, and
    /// a comma may follow the last item. An `IgnorableComma` counts as a comma.
    Paren,
    /// One item or more, set apart by `,`. The list ends where no `,` follows an item.
    Commas,
    /// One item or more, set apart by `and`. The list ends where no `and` follows an item.
    Ands,
}

/// How a list goes on after an item
pub enum Next {
    /// Another item is to follow, or the end of the list; the separator has been consumed
    More(StateView),
    /// The list is complete
    Done(StateView),
    /// The token after the item is neither a separator nor the end of the list
    Miss,
}

/// Whether a comma stands under the cursor, or an `IgnorableComma`, which counts as one
pub open spec fn at_comma(sv: StateView) -> bool {
    sv.at(TokenView::Symbol(Symbol::SymComma)) || sv.at(TokenView::IgnorableComma)
}

/// Whether a closing parenthesis stands under the cursor
pub open spec fn at_close(sv: StateView) -> bool {
    sv.at(TokenView::Symbol(Symbol::SymCloseParen))
}

/// How a list of the given shape goes on in the state `sv`, which an item has left
pub open spec fn next_at(sv: StateView, shape: Shape) -> Next {
    match shape {
        Shape::Paren => if at_comma(sv) {
            Next::More(sv.advance(1))
        } else if at_close(sv) {
            Next::Done(sv.advance(1))
        } else {
            Next::Miss
        },
        Shape::Commas => if sv.at(TokenView::Symbol(Symbol::SymComma)) {
            Next::More(sv.advance(1))
        } else {
            Next::Done(sv)
        },
        Shape::Ands => if sv.at(TokenView::Keyword(Keyword::And)) {
            Next::More(sv.advance(1))
        } else {
            Next::Done(sv)
        },
    }
}

/// The list of the given shape that begins in the state `sv`, after the items `acc`.
///
/// `item` says what one item is. An item takes up one token at least; a step that does
/// not move the cursor ahead ends the list with an error.
pub open spec fn list_at<T>(
    item: spec_fn(StateView) -> Parsed<T>,
    shape: Shape,
    sv: StateView,
    acc: Seq<T>,
) -> Parsed<Seq<T>>
    decreases sv.remaining(),
{
    if shape == Shape::Paren && at_close(sv) {
        Parsed::done(sv.advance(1), acc)
    } else {
        let p = item(sv);
        match p.result {
            Err(e) => Parsed { state: p.state, result: Err(e) },
            Ok(v) => match next_at(p.state, shape) {
                Next::More(s) => if 0 <= s.remaining() < sv.remaining() {
                    list_at(item, shape, s, acc.push(v))
                } else {
                    Parsed::miss(p.state)
                },
                Next::Done(s) => Parsed::done(s, acc.push(v)),
                Next::Miss => Parsed::miss(p.state),
            },
        }
    }
}

/// The list in parentheses that begins in the state `sv`
pub open spec fn paren_list_at<T>(item: spec_fn(StateView) -> Parsed<T>, sv: StateView) -> Parsed<
    Seq<T>,
> {
    if sv.at(TokenView::Symbol(Symbol::SymOpenParen)) {
        list_at(item, Shape::Paren, sv.advance(1), Seq::empty())
    } else {
        Parsed::miss(sv)
    }
}

/// What a value is, as an item of a list
pub open spec fn value_item() -> spec_fn(StateView) -> Parsed<Value> {
    |sv: StateView| value_at(sv)
}

/// What a name is, as an item of a list
pub open spec fn name_item() -> spec_fn(StateView) -> Parsed<Seq<u8>> {
    |sv: StateView| name_at(sv)
}

/// What a field is, as an item of a list
pub open spec fn field_item() -> spec_fn(StateView) -> Parsed<FieldView> {
    |sv: StateView| field_at(sv)
}

/// What an expression is, as an item of a list
pub open spec fn expr_item(assign_only: bool) -> spec_fn(StateView) -> Parsed<ExprView> {
    |sv: StateView| expr_at(sv, assign_only)
}

/// Whether `r` is the outcome `expected`: the error that it names, or a list of values
/// that amount to the ones that it names
pub open spec fn agrees_each<T: View>(
    r: LangResult<Vec<T>>,
    expected: Result<Seq<T::V>, LangError>,
) -> bool {
    match expected {
        Ok(v) => r matches Ok(x) && each(x@) == v,
        Err(e) => r matches Err(x) && x == e,
    }
}

/// What a list step may do next
enum Then {
    More,
    Done,
    Miss(LangError),
}

/// Looks at what follows an item and consumes it if it belongs to the list
fn read_next<'a, Qd: QueryData<'a>>(state: &mut State<'a, Qd>, shape: Shape) -> (r: Then)
    ensures
        match next_at(old(state)@, shape) {
            Next::More(s) => r is More && final(state)@ == s,
            Next::Done(s) => r is Done && final(state)@ == s,
            Next::Miss => r matches Then::Miss(e) && e == unexpected(old(state)@)
                && final(state)@ == old(state)@.poison_if(true),
        },
{
    let more = match shape {
        Shape::Paren => state.cursor_rounded_eq(Token::Symbol(Symbol::SymComma))
            || state.cursor_rounded_eq(Token::IgnorableComma),
        Shape::Commas => state.cursor_rounded_eq(Token::Symbol(Symbol::SymComma)),
        Shape::Ands => state.cursor_rounded_eq(Token::Keyword(Keyword::And)),
    };
    if more {
        state.cursor_ahead();
        Then::More
    } else if shape == Shape::Paren {
        if state.cursor_rounded_eq(Token::Symbol(Symbol::SymCloseParen)) {
            state.cursor_ahead();
            Then::Done
        } else {
            match miss::<Qd, ()>(state) {
                Err(e) => Then::Miss(e),
                Ok(_) => Then::Done,
            }
        }
    } else {
        Then::Done
    }
}

/// Reads a list of values
pub fn read_values<'a, Qd: QueryData<'a>>(state: &mut State<'a, Qd>, shape: Shape) -> (r:
    LangResult<Vec<Datacell>>)
    ensures
        final(state)@ == list_at(value_item(), shape, old(state)@, Seq::empty()).state,
        agrees_each(r, list_at(value_item(), shape, old(state)@, Seq::empty()).result),
        final(state)@.wf(),
{
    let mut acc: Vec<Datacell> = Vec::new();
    assert(each(acc@) =~= Seq::empty());
    loop
        invariant
            list_at(value_item(), shape, old(state)@, Seq::empty()) == list_at(
                value_item(),
                shape,
                state@,
                each(acc@),
            ),
        decreases state@.remaining(),
    {
        if shape == Shape::Paren && state.cursor_rounded_eq(
            Token::Symbol(Symbol::SymCloseParen),
        ) {
            state.cursor_ahead();
            return Ok(acc);
        }
        let ghost items = each(acc@);
        match read_value(state) {
            Err(e) => {
                return Err(e);
            },
            Ok(v) => {
                acc.push(v);
                assert(each(acc@) =~= items.push(v@));
                match read_next(state, shape) {
                    Then::More => {},
                    Then::Done => {
                        return Ok(acc);
                    },
                    Then::Miss(e) => {
                        return Err(e);
                    },
                }
            },
        }
    }
}

/// Reads a list of names
pub fn read_names<'a, Qd: QueryData<'a>>(state: &mut State<'a, Qd>, shape: Shape) -> (r:
    LangResult<Vec<Ident<'a>>>)
    ensures
        final(state)@ == list_at(name_item(), shape, old(state)@, Seq::empty()).state,
        agrees_each(r, list_at(name_item(), shape, old(state)@, Seq::empty()).result),
        final(state)@.wf(),
{
    let mut acc: Vec<Ident<'a>> = Vec::new();
    assert(each(acc@) =~= Seq::empty());
    loop
        invariant
            list_at(name_item(), shape, old(state)@, Seq::empty()) == list_at(
                name_item(),
                shape,
                state@,
                each(acc@),
            ),
        decreases state@.remaining(),
    {
        if shape == Shape::Paren && state.cursor_rounded_eq(
            Token::Symbol(Symbol::SymCloseParen),
        ) {
            state.cursor_ahead();
            return Ok(acc);
        }
        let ghost items = each(acc@);
        match read_name(state) {
            Err(e) => {
                return Err(e);
            },
            Ok(v) => {
                acc.push(v);
                assert(each(acc@) =~= items.push(v@));
                match read_next(state, shape) {
                    Then::More => {},
                    Then::Done => {
                        return Ok(acc);
                    },
                    Then::Miss(e) => {
                        return Err(e);
                    },
                }
            },
        }
    }
}

/// Reads a list of fields
pub fn read_fields<'a, Qd: QueryData<'a>>(state: &mut State<'a, Qd>, shape: Shape) -> (r:
    LangResult<Vec<Field<'a>>>)
    ensures
        final(state)@ == list_at(field_item(), shape, old(state)@, Seq::empty()).state,
        agrees_each(r, list_at(field_item(), shape, old(state)@, Seq::empty()).result),
        final(state)@.wf(),
{
    let mut acc: Vec<Field<'a>> = Vec::new();
    assert(each(acc@) =~= Seq::empty());
    loop
        invariant
            list_at(field_item(), shape, old(state)@, Seq::empty()) == list_at(
                field_item(),
                shape,
                state@,
                each(acc@),
            ),
        decreases state@.remaining(),
    {
        if shape == Shape::Paren && state.cursor_rounded_eq(
            Token::Symbol(Symbol::SymCloseParen),
        ) {
            state.cursor_ahead();
            return Ok(acc);
        }
        let ghost items = each(acc@);
        match read_field(state) {
            Err(e) => {
                return Err(e);
            },
            Ok(v) => {
                acc.push(v);
                assert(each(acc@) =~= items.push(v@));
                match read_next(state, shape) {
                    Then::More => {},
                    Then::Done => {
                        return Ok(acc);
                    },
                    Then::Miss(e) => {
                        return Err(e);
                    },
                }
            },
        }
    }
}

/// Reads a list of expressions
pub fn read_exprs<'a, Qd: QueryData<'a>>(
    state: &mut State<'a, Qd>,
    shape: Shape,
    assign_only: bool,
) -> (r: LangResult<Vec<Expr<'a>>>)
    ensures
        final(state)@ == list_at(expr_item(assign_only), shape, old(state)@, Seq::empty()).state,
        agrees_each(r, list_at(expr_item(assign_only), shape, old(state)@, Seq::empty()).result),
        final(state)@.wf(),
{
    let mut acc: Vec<Expr<'a>> = Vec::new();
    assert(each(acc@) =~= Seq::empty());
    loop
        invariant
            list_at(expr_item(assign_only), shape, old(state)@, Seq::empty()) == list_at(
                expr_item(assign_only),
                shape,
                state@,
                each(acc@),
            ),
        decreases state@.remaining(),
    {
        if shape == Shape::Paren && state.cursor_rounded_eq(
            Token::Symbol(Symbol::SymCloseParen),
        ) {
            state.cursor_ahead();
            return Ok(acc);
        }
        let ghost items = each(acc@);
        match read_expr(state, assign_only) {
            Err(e) => {
                return Err(e);
            },
            Ok(v) => {
                acc.push(v);
                assert(each(acc@) =~= items.push(v@));
                match read_next(state, shape) {
                    Then::More => {},
                    Then::Done => {
                        return Ok(acc);
                    },
                    Then::Miss(e) => {
                        return Err(e);
                    },
                }
            },
        }
    }
}

/// Reads an opening parenthesis
pub fn read_open<'a, Qd: QueryData<'a>>(state: &mut State<'a, Qd>) -> (r: LangResult<()>)
    ensures
        final(state)@.wf(),
        if old(state)@.at(TokenView::Symbol(Symbol::SymOpenParen)) {
            r is Ok && final(state)@ == old(state)@.advance(1)
        } else {
            (r matches Err(e) && e == unexpected(old(state)@)) && final(state)@
                == old(state)@.poison_if(true)
        },
{
    if state.cursor_rounded_eq(Token::Symbol(Symbol::SymOpenParen)) {
        state.cursor_ahead();
        Ok(())
    } else {
        miss(state)
    }
}

/// Whether the keyword `k` stands under the cursor
pub open spec fn at_keyword(sv: StateView, k: Keyword) -> bool {
    sv.at(TokenView::Keyword(k))
}

/// Reads the keyword `k`
pub fn read_keyword<'a, Qd: QueryData<'a>>(state: &mut State<'a, Qd>, k: Keyword) -> (r:
    LangResult<()>)
    ensures
        final(state)@.wf(),
        if at_keyword(old(state)@, k) {
            r is Ok && final(state)@ == old(state)@.advance(1)
        } else {
            (r matches Err(e) && e == unexpected(old(state)@)) && final(state)@
                == old(state)@.poison_if(true)
        },
{
    if state.cursor_rounded_eq(Token::Keyword(k)) {
        state.cursor_ahead();
        Ok(())
    } else {
        miss(state)
    }
}

/// Reads a list of expressions in parentheses
pub fn read_paren_exprs<'a, Qd: QueryData<'a>>(state: &mut State<'a, Qd>, assign_only: bool) -> (r:
    LangResult<Vec<Expr<'a>>>)
    ensures
        final(state)@ == paren_list_at(expr_item(assign_only), old(state)@).state,
        agrees_each(r, paren_list_at(expr_item(assign_only), old(state)@).result),
        final(state)@.wf(),
{
    match read_open(state) {
        Ok(()) => read_exprs(state, Shape::Paren, assign_only),
        Err(e) => Err(e),
    }
}

/// Reads a list of fields in parentheses
pub fn read_paren_fields<'a, Qd: QueryData<'a>>(state: &mut State<'a, Qd>) -> (r: LangResult<
    Vec<Field<'a>>,
>)
    ensures
        final(state)@ == paren_list_at(field_item(), old(state)@).state,
        agrees_each(r, paren_list_at(field_item(), old(state)@).result),
        final(state)@.wf(),
{
    match read_open(state) {
        Ok(()) => read_fields(state, Shape::Paren),
        Err(e) => Err(e),
    }
}

/// Reads a list of names in parentheses
pub fn read_paren_names<'a, Qd: QueryData<'a>>(state: &mut State<'a, Qd>) -> (r: LangResult<
    Vec<Ident<'a>>,
>)
    ensures
        final(state)@ == paren_list_at(name_item(), old(state)@).state,
        agrees_each(r, paren_list_at(name_item(), old(state)@).result),
        final(state)@.wf(),
{
    match read_open(state) {
        Ok(()) => read_names(state, Shape::Paren),
        Err(e) => Err(e),
    }
}

/// Reads a list of values in parentheses
pub fn read_paren_values<'a, Qd: QueryData<'a>>(state: &mut State<'a, Qd>) -> (r: LangResult<
    Vec<Datacell>,
>)
    ensures
        final(state)@ == paren_list_at(value_item(), old(state)@).state,
        agrees_each(r, paren_list_at(value_item(), old(state)@).result),
        final(state)@.wf(),
{
    match read_open(state) {
        Ok(()) => read_values(state, Shape::Paren),
        Err(e) => Err(e),
    }
}

/// Whether every step of `item` leaves the tokens as they are and the cursor within them
/// or just past them, and never clears the poison of a state
pub open spec fn keeps_state<T>(item: spec_fn(StateView) -> Parsed<T>) -> bool {
    forall|sv: StateView| sv.wf() ==> sv.leads_to(#[trigger] item(sv).state)
}

/// Each of the four kinds of item keeps the state
pub proof fn lemma_items_keep_state()
    ensures
        keeps_state(value_item()),
        keeps_state(name_item()),
        keeps_state(field_item()),
        forall|assign_only: bool| keeps_state(#[trigger] expr_item(assign_only)),
{
    assert forall|assign_only: bool| keeps_state(#[trigger] expr_item(assign_only)) by {
        assert forall|sv: StateView| sv.wf() implies sv.leads_to(
            #[trigger] expr_item(assign_only)(sv).state,
        ) by {
            assert(sv.advance(2).wf() ==> sv.advance(2).leads_to(value_at(sv.advance(2)).state));
        }
    }
}

/// A list of items that keep the state keeps the state
pub proof fn lemma_list_keeps_state<T>(
    item: spec_fn(StateView) -> Parsed<T>,
    shape: Shape,
    sv: StateView,
    acc: Seq<T>,
)
    requires
        keeps_state(item),
        sv.wf(),
    ensures
        sv.leads_to(list_at(item, shape, sv, acc).state),
    decreases sv.remaining(),
{
    if !(shape == Shape::Paren && at_close(sv)) {
        let p = item(sv);
        if let Ok(v) = p.result {
            if let Next::More(s) = next_at(p.state, shape) {
                if 0 <= s.remaining() < sv.remaining() {
                    lemma_list_keeps_state(item, shape, s, acc.push(v));
                }
            }
        }
    }
}

/// A list in parentheses of items that keep the state keeps the state
pub proof fn lemma_paren_list_keeps_state<T>(item: spec_fn(StateView) -> Parsed<T>, sv: StateView)
    requires
        keeps_state(item),
        sv.wf(),
    ensures
        sv.leads_to(paren_list_at(item, sv).state),
{
    if sv.at(TokenView::Symbol(Symbol::SymOpenParen)) {
        lemma_list_keeps_state(item, Shape::Paren, sv.advance(1), Seq::empty());
    }
}

} // verus!
