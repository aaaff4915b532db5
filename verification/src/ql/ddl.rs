//! Data definition: `create`, `alter`, `drop` and `inspect`.
use vstd::prelude::*;
use crate::data::each;
use crate::error::{agrees, LangError, LangResult};
use crate::ql::ast::{ident_of, initial, DataModel, Entity, EntityView, Parsed, QueryData};
use crate::ql::ast::{State, StateView};
use crate::ql::ast::{Statement, StatementView};
use crate::ql::items::{at_keyword, expr_item, field_item, name_at, name_item, paren_list_at};
use crate::ql::items::{lemma_items_keep_state, lemma_paren_list_keeps_state};
use crate::ql::items::{miss, read_keyword, read_name, read_paren_exprs, read_paren_fields};
use crate::ql::items::{read_paren_names, Expr, ExprView, Field, FieldView};
use crate::ql::lex::{views, Ident, Keyword, Slice, Token, TokenView};

verus! {

/// `create space <name> [with ( <property> = <value>, ... )]`
#[derive(Debug, PartialEq)]
pub struct CreateSpace<'a> {
    pub space_name: Ident<'a>,
    pub props: Vec<Expr<'a>>,
}

/// The mathematical value of a [`CreateSpace`]
pub struct CreateSpaceView {
    pub space_name: Seq<u8>,
    pub props: Seq<ExprView>,
}

impl<'a> View for CreateSpace<'a> {
    type V = CreateSpaceView;

    open spec fn view(&self) -> CreateSpaceView {
        CreateSpaceView { space_name: self.space_name@, props: each(self.props@) }
    }
}

/// `create model <entity> ( <field> <type>, ... ) [with ( <property> = <value>, ... )]`
#[derive(Debug, PartialEq)]
pub struct CreateModel<'a> {
    pub model_name: Entity<'a>,
    pub fields: Vec<Field<'a>>,
    pub props: Vec<Expr<'a>>,
}

/// The mathematical value of a [`CreateModel`]
pub struct CreateModelView {
    pub model_name: EntityView,
    pub fields: Seq<FieldView>,
    pub props: Seq<ExprView>,
}

impl<'a> View for CreateModel<'a> {
    type V = CreateModelView;

    open spec fn view(&self) -> CreateModelView {
        CreateModelView {
            model_name: self.model_name@,
            fields: each(self.fields@),
            props: each(self.props@),
        }
    }
}

/// `alter space <name> with ( <property> = <value>, ... )`
#[derive(Debug, PartialEq)]
pub struct AlterSpace<'a> {
    pub space_name: Ident<'a>,
    pub updated_props: Vec<Expr<'a>>,
}

/// The mathematical value of an [`AlterSpace`]
pub struct AlterSpaceView {
    pub space_name: Seq<u8>,
    pub updated_props: Seq<ExprView>,
}

impl<'a> View for AlterSpace<'a> {
    type V = AlterSpaceView;

    open spec fn view(&self) -> AlterSpaceView {
        AlterSpaceView {
            space_name: self.space_name@,
            updated_props: each(self.updated_props@),
        }
    }
}

/// What an `alter model` statement does to the model
#[derive(Debug, PartialEq)]
pub enum AlterKind<'a> {
    /// `add ( <field> <type>, ... )`
    Add(Vec<Field<'a>>),
    /// `remove ( <field>, ... )`
    Remove(Vec<Ident<'a>>),
    /// `update ( <field> <type>, ... )`
    Update(Vec<Field<'a>>),
}

/// The mathematical value of an [`AlterKind`]
pub enum AlterKindView {
    Add(Seq<FieldView>),
    Remove(Seq<Seq<u8>>),
    Update(Seq<FieldView>),
}

impl<'a> View for AlterKind<'a> {
    type V = AlterKindView;

    open spec fn view(&self) -> AlterKindView {
        match self {
            AlterKind::Add(f) => AlterKindView::Add(each(f@)),
            AlterKind::Remove(i) => AlterKindView::Remove(each(i@)),
            AlterKind::Update(f) => AlterKindView::Update(each(f@)),
        }
    }
}

/// `alter model <entity> (add | remove | update) ( ... )`
#[derive(Debug, PartialEq)]
pub struct AlterModel<'a> {
    pub model: Entity<'a>,
    pub kind: AlterKind<'a>,
}

/// The mathematical value of an [`AlterModel`]
pub struct AlterModelView {
    pub model: EntityView,
    pub kind: AlterKindView,
}

impl<'a> View for AlterModel<'a> {
    type V = AlterModelView;

    open spec fn view(&self) -> AlterModelView {
        AlterModelView { model: self.model@, kind: self.kind@ }
    }
}

/// `drop space <name> [force]`
#[derive(Debug, PartialEq)]
pub struct DropSpace<'a> {
    pub space: Slice<'a>,
    pub force: bool,
}

/// The mathematical value of a [`DropSpace`]
pub struct DropSpaceView {
    pub space: Seq<u8>,
    pub force: bool,
}

impl<'a> View for DropSpace<'a> {
    type V = DropSpaceView;

    open spec fn view(&self) -> DropSpaceView {
        DropSpaceView { space: self.space@, force: self.force }
    }
}

/// `drop model <entity> [force]`
#[derive(Debug, PartialEq)]
pub struct DropModel<'a> {
    pub entity: Entity<'a>,
    pub force: bool,
}

/// The mathematical value of a [`DropModel`]
pub struct DropModelView {
    pub entity: EntityView,
    pub force: bool,
}

impl<'a> View for DropModel<'a> {
    type V = DropModelView;

    open spec fn view(&self) -> DropModelView {
        DropModelView { entity: self.entity@, force: self.force }
    }
}

/// The state after the optional word `force`
pub open spec fn after_force(sv: StateView) -> StateView {
    sv.advance(
        if sv.at_word("force"@) {
            1
        } else {
            0
        },
    )
}

/// The rest of `drop space`: an identifier, then `force` or nothing, then the end of the
/// tokens. Anything else is an unexpected token.
pub open spec fn drop_space_at(sv: StateView) -> Parsed<DropSpaceView> {
    if sv.at_ident() {
        let s1 = sv.advance(1);
        let s2 = after_force(s1);
        Parsed {
            state: s2,
            result: if s2.remaining() == 0 {
                Ok(DropSpaceView { space: sv.current()->Ident_0, force: s1.at_word("force"@) })
            } else {
                Err(LangError::UnexpectedToken)
            },
        }
    } else {
        Parsed { state: sv, result: Err(LangError::UnexpectedToken) }
    }
}

/// The rest of `drop model`: an entity, then `force` or nothing, then the end of the
/// tokens
pub open spec fn drop_model_at(sv: StateView) -> Parsed<DropModelView> {
    let s1 = sv.after_entity();
    match sv.entity_result() {
        Err(e) => Parsed { state: s1, result: Err(e) },
        Ok(entity) => {
            let s2 = after_force(s1);
            Parsed {
                state: s2,
                result: if s2.remaining() == 0 {
                    Ok(DropModelView { entity, force: s1.at_word("force"@) })
                } else {
                    Err(LangError::UnexpectedToken)
                },
            }
        },
    }
}

/// The rest of `drop`, of which one token at least is left: `model` or `space` and what
/// follows it
pub open spec fn drop_at(sv: StateView) -> Parsed<StatementView> {
    let s1 = sv.advance(1);
    if sv.current() == TokenView::Keyword(Keyword::Model) {
        let p = drop_model_at(s1);
        Parsed {
            state: p.state,
            result: match p.result {
                Ok(d) => Ok(StatementView::DropModel(d)),
                Err(e) => Err(e),
            },
        }
    } else if sv.current() == TokenView::Keyword(Keyword::Space) {
        let p = drop_space_at(s1);
        Parsed {
            state: p.state,
            result: match p.result {
                Ok(d) => Ok(StatementView::DropSpace(d)),
                Err(e) => Err(e),
            },
        }
    } else {
        Parsed { state: s1, result: Err(LangError::UnexpectedToken) }
    }
}

/// Reads the word `force` if it stands under the cursor
fn read_force<'a, Qd: QueryData<'a>>(state: &mut State<'a, Qd>) -> (force: bool)
    ensures
        force == old(state)@.at_word("force"@),
        final(state)@ == after_force(old(state)@),
        final(state)@.wf(),
{
    proof {
        reveal_strlit("force");
    }
    let force = state.cursor_has_word_rounded("force");
    state.cursor_ahead_if(force);
    force
}

impl<'a> DropSpace<'a> {
    /// Instantiate
    pub fn new(space: Slice<'a>, force: bool) -> (r: Self)
        ensures
            r@ == (DropSpaceView { space: space@, force }),
    {
        Self { space, force }
    }

    /// Reads what follows `drop space`
    pub fn parse<Qd: QueryData<'a>>(state: &mut State<'a, Qd>) -> (r: LangResult<DropSpace<'a>>)
        ensures
            final(state)@ == drop_space_at(old(state)@).state,
            agrees(r, drop_space_at(old(state)@).result),
            final(state)@.wf(),
    {
        if state.cursor_has_ident_rounded() {
            let ident = state.fw_read();
            // should we force drop?
            let force = read_force(state);
            // either `force` or nothing
            if state.exhausted() {
                return Ok(DropSpace::new(ident_of(ident), force));
            }
        }
        Err(LangError::UnexpectedToken)
    }

    /// Reads what follows `drop space`
    pub fn _from_state<Qd: QueryData<'a>>(state: &mut State<'a, Qd>) -> (r: LangResult<
        DropSpace<'a>,
    >)
        ensures
            final(state)@ == drop_space_at(old(state)@).state,
            agrees(r, drop_space_at(old(state)@).result),
            final(state)@.wf(),
    {
        Self::parse(state)
    }
}

impl<'a> DropModel<'a> {
    /// Instantiate
    pub fn new(entity: Entity<'a>, force: bool) -> (r: Self)
        ensures
            r@ == (DropModelView { entity: entity@, force }),
    {
        Self { entity, force }
    }

    /// Reads what follows `drop model`
    pub fn parse<Qd: QueryData<'a>>(state: &mut State<'a, Qd>) -> (r: LangResult<Self>)
        ensures
            final(state)@ == drop_model_at(old(state)@).state,
            agrees(r, drop_model_at(old(state)@).result),
            final(state)@.wf(),
    {
        let e = match Entity::attempt_process_entity_result(state) {
            Ok(e) => e,
            Err(e) => {
                return Err(e);
            },
        };
        let force = read_force(state);
        if state.exhausted() {
            Ok(DropModel::new(e, force))
        } else {
            Err(LangError::UnexpectedToken)
        }
    }

    /// Reads what follows `drop model`
    pub fn _from_state<Qd: QueryData<'a>>(state: &mut State<'a, Qd>) -> (r: LangResult<Self>)
        ensures
            final(state)@ == drop_model_at(old(state)@).state,
            agrees(r, drop_model_at(old(state)@).result),
            final(state)@.wf(),
    {
        Self::parse(state)
    }
}

/// Reads what follows `drop`: `(model <entity> | space <ident>) [force]`, which must be
/// all that is left. One token at least must be left.
pub fn parse_drop<'a, Qd: QueryData<'a>>(state: &mut State<'a, Qd>) -> (r: LangResult<
    Statement<'a>,
>)
    requires
        old(state)@.remaining() >= 1,
    ensures
        final(state)@ == drop_at(old(state)@).state,
        agrees(r, drop_at(old(state)@).result),
        final(state)@.wf(),
{
    match state.fw_read() {
        Token::Keyword(Keyword::Model) => match DropModel::parse(state) {
            Ok(d) => Ok(Statement::DropModel(d)),
            Err(e) => Err(e),
        },
        Token::Keyword(Keyword::Space) => match DropSpace::parse(state) {
            Ok(d) => Ok(Statement::DropSpace(d)),
            Err(e) => Err(e),
        },
        _ => Err(LangError::UnexpectedToken),
    }
}

/// A `drop` statement as a node of its own
#[derive(Debug)]
pub struct DropStatementAST<'a>(pub Statement<'a>);

impl<'a> View for DropStatementAST<'a> {
    type V = StatementView;

    open spec fn view(&self) -> StatementView {
        self.0@
    }
}

impl<'a> DropStatementAST<'a> {
    /// Reads what follows `drop`; one token at least must be left
    pub fn _from_state<Qd: QueryData<'a>>(state: &mut State<'a, Qd>) -> (r: LangResult<Self>)
        requires
            old(state)@.remaining() >= 1,
        ensures
            final(state)@ == drop_at(old(state)@).state,
            agrees(r, drop_at(old(state)@).result),
            final(state)@.wf(),
    {
        match parse_drop(state) {
            Ok(s) => Ok(DropStatementAST(s)),
            Err(e) => Err(e),
        }
    }
}

/// What follows `inspect`:
///
/// - `model` and an entity;
/// - `space` and an identifier;
/// - the word `spaces`, which must be the last token;
/// - anything else is no statement, and the cursor stays where it is.
pub open spec fn inspect_at(sv: StateView) -> Parsed<StatementView> {
    let s1 = sv.advance(1);
    if sv.remaining() < 1 {
        Parsed { state: sv, result: Err(LangError::UnexpectedEndofStatement) }
    } else if sv.current() == TokenView::Keyword(Keyword::Model) {
        Parsed {
            state: s1.after_entity(),
            result: match s1.entity_result() {
                Ok(e) => Ok(StatementView::InspectModel(e)),
                Err(e) => Err(e),
            },
        }
    } else if sv.current() == TokenView::Keyword(Keyword::Space) && s1.at_ident() {
        Parsed {
            state: s1.advance(1),
            result: Ok(StatementView::InspectSpace(s1.current()->Ident_0)),
        }
    } else if sv.at_word("spaces"@) {
        Parsed {
            state: s1,
            result: if s1.remaining() == 0 {
                Ok(StatementView::InspectSpaces)
            } else {
                Err(LangError::UnexpectedToken)
            },
        }
    } else {
        Parsed { state: sv, result: Err(LangError::ExpectedStatement) }
    }
}

/// Reads what follows `inspect`
pub fn parse_inspect<'a, Qd: QueryData<'a>>(state: &mut State<'a, Qd>) -> (r: LangResult<
    Statement<'a>,
>)
    ensures
        final(state)@ == inspect_at(old(state)@).state,
        agrees(r, inspect_at(old(state)@).result),
        final(state)@.wf(),
{
    proof {
        reveal_strlit("spaces");
    }
    if state.remaining() < 1 {
        return Err(LangError::UnexpectedEndofStatement);
    }
    let spaces = state.cursor_has_word_rounded("spaces");
    match state.fw_read() {
        Token::Keyword(Keyword::Model) => match Entity::attempt_process_entity_result(state) {
            Ok(e) => Ok(Statement::InspectModel(e)),
            Err(e) => Err(e),
        },
        Token::Keyword(Keyword::Space) if state.cursor_has_ident_rounded() => {
            Ok(Statement::InspectSpace(ident_of(state.fw_read())))
        },
        _ => {
            if spaces {
                if state.exhausted() {
                    Ok(Statement::InspectSpaces)
                } else {
                    Err(LangError::UnexpectedToken)
                }
            } else {
                state.cursor_back();
                Err(LangError::ExpectedStatement)
            }
        },
    }
}

/// The properties that may follow a statement: `with ( <name> = <value>, ... )`, or
/// nothing, which stands for no properties
pub open spec fn with_props_at(sv: StateView) -> Parsed<Seq<ExprView>> {
    if at_keyword(sv, Keyword::With) {
        paren_list_at(expr_item(true), sv.advance(1))
    } else {
        Parsed::done(sv, Seq::empty())
    }
}

/// What follows `create space`: a name, and properties if any
pub open spec fn create_space_at(sv: StateView) -> Parsed<CreateSpaceView> {
    let name = name_at(sv);
    let props = with_props_at(name.state);
    match (name.result, props.result) {
        (Err(e), _) => Parsed { state: name.state, result: Err(e) },
        (Ok(_), Err(e)) => Parsed { state: props.state, result: Err(e) },
        (Ok(space_name), Ok(props_)) => Parsed::done(
            props.state,
            CreateSpaceView { space_name, props: props_ },
        ),
    }
}

/// What follows `create model`: an entity, the fields in parentheses, and properties if
/// any
pub open spec fn create_model_at(sv: StateView) -> Parsed<CreateModelView> {
    let fields = paren_list_at(field_item(), sv.after_entity());
    let props = with_props_at(fields.state);
    match (sv.entity_result(), fields.result, props.result) {
        (Err(e), _, _) => Parsed { state: sv.after_entity(), result: Err(e) },
        (Ok(_), Err(e), _) => Parsed { state: fields.state, result: Err(e) },
        (Ok(_), Ok(_), Err(e)) => Parsed { state: props.state, result: Err(e) },
        (Ok(model_name), Ok(fields_), Ok(props_)) => Parsed::done(
            props.state,
            CreateModelView { model_name, fields: fields_, props: props_ },
        ),
    }
}

/// What follows `alter space`: a name, `with`, and the properties in parentheses
pub open spec fn alter_space_at(sv: StateView) -> Parsed<AlterSpaceView> {
    let name = name_at(sv);
    let props = paren_list_at(expr_item(true), name.state.advance(1));
    match name.result {
        Err(e) => Parsed { state: name.state, result: Err(e) },
        Ok(space_name) => if !at_keyword(name.state, Keyword::With) {
            Parsed::miss(name.state)
        } else {
            match props.result {
                Err(e) => Parsed { state: props.state, result: Err(e) },
                Ok(updated_props) => Parsed::done(
                    props.state,
                    AlterSpaceView { space_name, updated_props },
                ),
            }
        },
    }
}

/// What follows the entity of `alter model`: `add` or `update` and fields in parentheses,
/// or `remove` and names in parentheses
pub open spec fn alter_kind_at(sv: StateView) -> Parsed<AlterKindView> {
    let s1 = sv.advance(1);
    if at_keyword(sv, Keyword::Add) {
        let fields = paren_list_at(field_item(), s1);
        Parsed {
            state: fields.state,
            result: match fields.result {
                Ok(f) => Ok(AlterKindView::Add(f)),
                Err(e) => Err(e),
            },
        }
    } else if at_keyword(sv, Keyword::Update) {
        let fields = paren_list_at(field_item(), s1);
        Parsed {
            state: fields.state,
            result: match fields.result {
                Ok(f) => Ok(AlterKindView::Update(f)),
                Err(e) => Err(e),
            },
        }
    } else if at_keyword(sv, Keyword::Remove) {
        let names = paren_list_at(name_item(), s1);
        Parsed {
            state: names.state,
            result: match names.result {
                Ok(n) => Ok(AlterKindView::Remove(n)),
                Err(e) => Err(e),
            },
        }
    } else {
        Parsed::miss(sv)
    }
}

/// What follows `alter model`: an entity and what is to be done to it
pub open spec fn alter_model_at(sv: StateView) -> Parsed<AlterModelView> {
    let kind = alter_kind_at(sv.after_entity());
    match (sv.entity_result(), kind.result) {
        (Err(e), _) => Parsed { state: sv.after_entity(), result: Err(e) },
        (Ok(_), Err(e)) => Parsed { state: kind.state, result: Err(e) },
        (Ok(model), Ok(kind_)) => Parsed::done(kind.state, AlterModelView { model, kind: kind_ }),
    }
}

/// Reads the properties that may follow a statement
fn read_with_props<'a, Qd: QueryData<'a>>(state: &mut State<'a, Qd>) -> (r: LangResult<
    Vec<Expr<'a>>,
>)
    ensures
        final(state)@ == with_props_at(old(state)@).state,
        crate::ql::items::agrees_each(r, with_props_at(old(state)@).result),
        old(state)@.wf() ==> final(state)@.wf(),
{
    if state.cursor_rounded_eq(Token::Keyword(Keyword::With)) {
        state.cursor_ahead();
        read_paren_exprs(state, true)
    } else {
        let props: Vec<Expr<'a>> = Vec::new();
        assert(each(props@) =~= Seq::empty());
        Ok(props)
    }
}

impl<'a> CreateSpace<'a> {
    /// Reads what follows `create space`
    pub fn parse<Qd: QueryData<'a>>(state: &mut State<'a, Qd>) -> (r: LangResult<Self>)
        ensures
            final(state)@ == create_space_at(old(state)@).state,
            agrees(r, create_space_at(old(state)@).result),
            final(state)@.wf(),
    {
        let space_name = match read_name(state) {
            Ok(n) => n,
            Err(e) => {
                return Err(e);
            },
        };
        match read_with_props(state) {
            Ok(props) => Ok(CreateSpace { space_name, props }),
            Err(e) => Err(e),
        }
    }
}

impl<'a> CreateModel<'a> {
    /// Reads what follows `create model`
    pub fn parse<Qd: QueryData<'a>>(state: &mut State<'a, Qd>) -> (r: LangResult<Self>)
        ensures
            final(state)@ == create_model_at(old(state)@).state,
            agrees(r, create_model_at(old(state)@).result),
            final(state)@.wf(),
    {
        let model_name = match Entity::attempt_process_entity_result(state) {
            Ok(e) => e,
            Err(e) => {
                return Err(e);
            },
        };
        let fields = match read_paren_fields(state) {
            Ok(f) => f,
            Err(e) => {
                return Err(e);
            },
        };
        match read_with_props(state) {
            Ok(props) => Ok(CreateModel { model_name, fields, props }),
            Err(e) => Err(e),
        }
    }
}

impl<'a> AlterSpace<'a> {
    /// Reads what follows `alter space`
    pub fn parse<Qd: QueryData<'a>>(state: &mut State<'a, Qd>) -> (r: LangResult<Self>)
        ensures
            final(state)@ == alter_space_at(old(state)@).state,
            agrees(r, alter_space_at(old(state)@).result),
            final(state)@.wf(),
    {
        let space_name = match read_name(state) {
            Ok(n) => n,
            Err(e) => {
                return Err(e);
            },
        };
        match read_keyword(state, Keyword::With) {
            Ok(()) => {},
            Err(e) => {
                return Err(e);
            },
        }
        match read_paren_exprs(state, true) {
            Ok(updated_props) => Ok(AlterSpace { space_name, updated_props }),
            Err(e) => Err(e),
        }
    }
}

impl<'a> AlterKind<'a> {
    /// Reads what follows the entity of `alter model`
    pub fn parse<Qd: QueryData<'a>>(state: &mut State<'a, Qd>) -> (r: LangResult<Self>)
        ensures
            final(state)@ == alter_kind_at(old(state)@).state,
            agrees(r, alter_kind_at(old(state)@).result),
            final(state)@.wf(),
    {
        if state.cursor_rounded_eq(Token::Keyword(Keyword::Add)) {
            state.cursor_ahead();
            match read_paren_fields(state) {
                Ok(f) => Ok(AlterKind::Add(f)),
                Err(e) => Err(e),
            }
        } else if state.cursor_rounded_eq(Token::Keyword(Keyword::Update)) {
            state.cursor_ahead();
            match read_paren_fields(state) {
                Ok(f) => Ok(AlterKind::Update(f)),
                Err(e) => Err(e),
            }
        } else if state.cursor_rounded_eq(Token::Keyword(Keyword::Remove)) {
            state.cursor_ahead();
            match read_paren_names(state) {
                Ok(n) => Ok(AlterKind::Remove(n)),
                Err(e) => Err(e),
            }
        } else {
            miss(state)
        }
    }
}

impl<'a> AlterModel<'a> {
    /// Reads what follows `alter model`
    pub fn parse<Qd: QueryData<'a>>(state: &mut State<'a, Qd>) -> (r: LangResult<Self>)
        ensures
            final(state)@ == alter_model_at(old(state)@).state,
            agrees(r, alter_model_at(old(state)@).result),
            final(state)@.wf(),
    {
        let model = match Entity::attempt_process_entity_result(state) {
            Ok(e) => e,
            Err(e) => {
                return Err(e);
            },
        };
        match AlterKind::parse(state) {
            Ok(kind) => Ok(AlterModel { model, kind }),
            Err(e) => Err(e),
        }
    }
}

/// Reads the tokens as what follows `drop`. The tokens must be such that all of them are
/// consumed.
pub fn parse_drop_full<'a>(tok: &'a [Token<'a>]) -> (r: LangResult<Statement<'a>>)
    requires
        tok@.len() >= 1,
        drop_at(initial(views(tok@), DataModel::Inline)).state.remaining() == 0,
    ensures
        agrees(r, drop_at(initial(views(tok@), DataModel::Inline)).result),
{
    let mut state = State::new_inplace(tok);
    parse_drop(&mut state)
}

/// Reads the tokens as what follows `inspect`. The tokens must be such that all of them
/// are consumed.
pub fn parse_inspect_full<'a>(tok: &'a [Token<'a>]) -> (r: LangResult<Statement<'a>>)
    requires
        inspect_at(initial(views(tok@), DataModel::Inline)).state.remaining() == 0,
    ensures
        agrees(r, inspect_at(initial(views(tok@), DataModel::Inline)).result),
{
    let mut state = State::new_inplace(tok);
    parse_inspect(&mut state)
}

/// Reading what follows `drop` keeps the state
pub proof fn lemma_drop_keeps_state(sv: StateView)
    requires
        sv.wf(),
        sv.remaining() >= 1,
    ensures
        sv.leads_to(drop_at(sv).state),
{
}

/// Reading what follows `inspect` keeps the state
pub proof fn lemma_inspect_keeps_state(sv: StateView)
    requires
        sv.wf(),
    ensures
        sv.leads_to(inspect_at(sv).state),
{
}

/// Reading properties keeps the state
pub proof fn lemma_with_props_keeps_state(sv: StateView)
    requires
        sv.wf(),
    ensures
        sv.leads_to(with_props_at(sv).state),
{
    lemma_items_keep_state();
    if at_keyword(sv, Keyword::With) {
        lemma_paren_list_keeps_state(expr_item(true), sv.advance(1));
    }
}

/// Reading what follows `create model` or `create space` keeps the state
pub proof fn lemma_create_keeps_state(sv: StateView)
    requires
        sv.wf(),
    ensures
        sv.leads_to(create_model_at(sv).state),
        sv.leads_to(create_space_at(sv).state),
{
    lemma_items_keep_state();
    lemma_with_props_keeps_state(name_at(sv).state);
    let fields = paren_list_at(field_item(), sv.after_entity());
    lemma_paren_list_keeps_state(field_item(), sv.after_entity());
    lemma_with_props_keeps_state(fields.state);
}

/// Reading what follows `alter model` or `alter space` keeps the state
pub proof fn lemma_alter_keeps_state(sv: StateView)
    requires
        sv.wf(),
    ensures
        sv.leads_to(alter_model_at(sv).state),
        sv.leads_to(alter_space_at(sv).state),
{
    lemma_items_keep_state();
    let name = name_at(sv);
    if at_keyword(name.state, Keyword::With) {
        lemma_paren_list_keeps_state(expr_item(true), name.state.advance(1));
    }
    let s = sv.after_entity();
    if s.remaining() >= 1 {
        lemma_paren_list_keeps_state(field_item(), s.advance(1));
        lemma_paren_list_keeps_state(name_item(), s.advance(1));
    }
}

} // verus!
