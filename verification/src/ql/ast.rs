//! The parser state, the sources of literal values, entities and statements.
use vstd::prelude::*;
use crate::data::{each, Datacell, LitIR, Value};
use crate::error::{agrees, LangError, LangResult};
use crate::ql::ddl::{alter_model_at, alter_space_at, create_model_at, create_space_at};
use crate::ql::ddl::{drop_at, inspect_at, parse_drop, parse_inspect};
use crate::ql::ddl::{lemma_alter_keeps_state, lemma_create_keeps_state};
use crate::ql::ddl::{lemma_drop_keeps_state, lemma_inspect_keeps_state};
use crate::ql::ddl::{AlterModel, AlterModelView, AlterSpace, AlterSpaceView};
use crate::ql::ddl::{CreateModel, CreateModelView, CreateSpace, CreateSpaceView};
use crate::ql::ddl::{DropModel, DropModelView, DropSpace, DropSpaceView};
use crate::ql::dml::{delete_at, insert_at, lemma_dml_keeps_state, select_at, update_at};
use crate::ql::dml::{DeleteStatement, DeleteView, InsertStatement, InsertView};
use crate::ql::dml::{SelectStatement, SelectView, UpdateStatement, UpdateView};
use crate::ql::lex::{ascii, lowered, spells, views, Ident, Keyword, Symbol, Token, TokenView};
use vstd::string::is_ascii;

verus! {

/// The last valid index of `src`, or `index` if that is smaller
pub fn minidx<T>(src: &[T], index: usize) -> (r: usize)
    requires
        src@.len() > 0,
    ensures
        r == if index < src@.len() {
            index as int
        } else {
            src@.len() - 1
        },
{
    let last = src.len() - 1;
    if index < last {
        index
    } else {
        last
    }
}

/// What a source of literal values amounts to
pub enum DataModel {
    /// Values are the literals in the tokens themselves
    Inline,
    /// Values are supplied apart from the tokens; these are the ones not yet consumed
    Substituted(Seq<Value>),
}

impl DataModel {
    /// Whether the token `tok` yields a value from this source
    pub open spec fn can_read(self, tok: TokenView) -> bool {
        match self {
            DataModel::Inline => tok is Lit,
            DataModel::Substituted(d) => tok is Placeholder && d.len() > 0,
        }
    }

    /// The value that the token `tok` yields
    pub open spec fn read(self, tok: TokenView) -> Value {
        match self {
            DataModel::Inline => tok->Lit_0,
            DataModel::Substituted(d) => d[0],
        }
    }

    /// The source after it has yielded a value
    pub open spec fn after_read(self) -> DataModel {
        match self {
            DataModel::Inline => DataModel::Inline,
            DataModel::Substituted(d) => DataModel::Substituted(d.drop_first()),
        }
    }

    /// Whether the source has a value left
    pub open spec fn nonzero(self) -> bool {
        match self {
            DataModel::Inline => true,
            DataModel::Substituted(d) => d.len() > 0,
        }
    }
}

/// A source of literal values for the parser
pub trait QueryData<'a> {
    /// What the source amounts to
    spec fn model(&self) -> DataModel;

    /// Check if the given token is a lit, while also checking `self`'s data if necessary
    fn can_read_lit_from(&self, tok: &Token) -> (r: bool)
        ensures
            r == self.model().can_read(tok@),
    ;

    /// Read a lit using the given token, using `self`'s data as necessary
    fn read_lit(&mut self, tok: &'a Token) -> (r: LitIR<'a>)
        requires
            old(self).model().can_read(tok@),
        ensures
            r@ == old(self).model().read(tok@),
            final(self).model() == old(self).model().after_read(),
    ;

    /// Read a lit using the given token and then copy it into a [`Datacell`]
    fn read_data_type(&mut self, tok: &'a Token) -> (r: Datacell)
        requires
            old(self).model().can_read(tok@),
        ensures
            r@ == old(self).model().read(tok@),
            final(self).model() == old(self).model().after_read(),
    ;

    /// Returns true if the data source has enough data
    fn nonzero(&self) -> (r: bool)
        ensures
            r == self.model().nonzero(),
    ;
}

/// The source that takes each value from the literal token itself
#[derive(Debug)]
pub struct InplaceData;

impl InplaceData {
    /// The source that reads literals from the tokens
    pub fn new() -> (r: Self)
        ensures
            r.model() == DataModel::Inline,
    {
        InplaceData
    }
}

impl<'a> QueryData<'a> for InplaceData {
    open spec fn model(&self) -> DataModel {
        DataModel::Inline
    }

    fn can_read_lit_from(&self, tok: &Token) -> (r: bool) {
        tok.is_lit()
    }

    fn read_lit(&mut self, tok: &'a Token) -> (r: LitIR<'a>) {
        match tok {
            Token::Lit(l) => l.as_ir(),
            _ => LitIR::Null,
        }
    }

    fn read_data_type(&mut self, tok: &'a Token) -> (r: Datacell) {
        match tok {
            Token::Lit(l) => l.as_ir().to_data(),
            _ => Datacell::Null,
        }
    }

    fn nonzero(&self) -> (r: bool) {
        true
    }
}

/// The source that takes the values, in order, from a list supplied with the query: each
/// placeholder consumes the first value that is left
#[derive(Debug)]
pub struct SubstitutedData<'a> {
    data: &'a [LitIR<'a>],
}

impl<'a> SubstitutedData<'a> {
    /// The source that hands out the values of `src` in order
    pub fn new(src: &'a [LitIR<'a>]) -> (r: Self)
        ensures
            r.model() == DataModel::Substituted(each(src@)),
    {
        Self { data: src }
    }

    /// Takes the first value that is left
    fn take(&mut self) -> (r: LitIR<'a>)
        requires
            old(self).data@.len() > 0,
        ensures
            r@ == old(self).model().read(TokenView::Placeholder),
            final(self).model() == old(self).model().after_read(),
    {
        let ret = self.data[0];
        self.data = &self.data[1..self.data.len()];
        assert(each(self.data@) =~= each(old(self).data@).drop_first());
        ret
    }
}

impl<'a> QueryData<'a> for SubstitutedData<'a> {
    closed spec fn model(&self) -> DataModel {
        DataModel::Substituted(each(self.data@))
    }

    fn can_read_lit_from(&self, tok: &Token) -> (r: bool) {
        Token::Placeholder.eq(tok) && self.nonzero()
    }

    fn read_lit(&mut self, tok: &'a Token) -> (r: LitIR<'a>) {
        self.take()
    }

    fn read_data_type(&mut self, tok: &'a Token) -> (r: Datacell) {
        self.take().to_data()
    }

    fn nonzero(&self) -> (r: bool) {
        !self.data.is_empty()
    }
}

/// What a parser state amounts to
pub struct StateView {
    /// All the tokens of the query
    pub tokens: Seq<TokenView>,
    /// How many of them have been consumed
    pub cursor: int,
    /// Whether no parse step has failed so far
    pub okay: bool,
    /// The source of literal values
    pub data: DataModel,
}

impl StateView {
    /// The cursor is within the tokens or just past them
    pub open spec fn wf(self) -> bool {
        0 <= self.cursor <= self.tokens.len()
    }

    /// The number of tokens not yet consumed
    pub open spec fn remaining(self) -> int {
        self.tokens.len() - self.cursor
    }

    /// The token under the cursor
    pub open spec fn current(self) -> TokenView {
        self.tokens[self.cursor]
    }

    /// The token that stands `n` tokens after the cursor
    pub open spec fn ahead(self, n: int) -> TokenView {
        self.tokens[self.cursor + n]
    }

    /// Whether a token stands under the cursor and is `tok`
    pub open spec fn at(self, tok: TokenView) -> bool {
        self.cursor < self.tokens.len() && self.current() == tok
    }

    /// Whether a token stands under the cursor and is an identifier
    pub open spec fn at_ident(self) -> bool {
        self.cursor < self.tokens.len() && self.current() is Ident
    }

    /// Whether a token stands under the cursor and is an identifier that spells the ASCII
    /// text `text`, letters compared without regard to case
    pub open spec fn at_word(self, text: Seq<char>) -> bool {
        self.at_ident() && lowered(self.current()->Ident_0) == ascii(text)
    }

    /// Whether the next three tokens are there and read `ident . ident`
    pub open spec fn at_full_entity(self) -> bool {
        &&& self.remaining() >= 3
        &&& self.ahead(0) is Ident
        &&& self.ahead(1) == TokenView::Symbol(Symbol::SymPeriod)
        &&& self.ahead(2) is Ident
    }

    /// Whether the next three tokens are there and read `ident ( )`
    pub open spec fn at_fn_arity0(self) -> bool {
        &&& self.remaining() >= 3
        &&& self.ahead(0) is Ident
        &&& self.ahead(1) == TokenView::Symbol(Symbol::SymOpenParen)
        &&& self.ahead(2) == TokenView::Symbol(Symbol::SymCloseParen)
    }

    /// Whether `after` is a state that a parse step may leave behind when it begins in
    /// this one: the tokens are the same, the cursor is within them or just past them,
    /// and a state that was poisoned is poisoned still
    pub open spec fn leads_to(self, after: StateView) -> bool {
        &&& after.tokens == self.tokens
        &&& after.wf()
        &&& after.okay ==> self.okay
    }

    /// The state with the cursor moved ahead by `by`
    pub open spec fn advance(self, by: int) -> StateView {
        StateView { cursor: self.cursor + by, ..self }
    }

    /// The state, poisoned if `fuse` holds
    pub open spec fn poison_if(self, fuse: bool) -> StateView {
        StateView { okay: self.okay && !fuse, ..self }
    }

    /// The state after its data source has yielded a value
    pub open spec fn after_read(self) -> StateView {
        StateView { data: self.data.after_read(), ..self }
    }
}

/// Query parse state: the tokens, a cursor into them, a flag that a failed step clears for
/// good, and the source of literal values
#[derive(Debug)]
pub struct State<'a, Qd> {
    c: Cursor<'a>,
    d: Qd,
    f: bool,
}

/// The tokens and the position in them, which never lies past their end
#[derive(Debug)]
struct Cursor<'a> {
    t: &'a [Token<'a>],
    i: usize,
}

impl<'a> Cursor<'a> {
    #[verifier::type_invariant]
    spec fn in_bounds(self) -> bool {
        self.i <= self.t@.len()
    }
}

impl<'a> State<'a, InplaceData> {
    /// A state over the given tokens that reads literals from the tokens themselves
    pub fn new_inplace(tok: &'a [Token<'a>]) -> (s: Self)
        ensures
            s@ == (StateView {
                tokens: views(tok@),
                cursor: 0,
                okay: true,
                data: DataModel::Inline,
            }),
    {
        Self::new(tok, InplaceData::new())
    }
}

impl<'a, Qd: QueryData<'a>> View for State<'a, Qd> {
    type V = StateView;

    closed spec fn view(&self) -> StateView {
        StateView {
            tokens: views(self.c.t@),
            cursor: self.c.i as int,
            okay: self.f,
            data: self.d.model(),
        }
    }
}

impl<'a, Qd: QueryData<'a>> State<'a, Qd> {
    /// Create a new [`State`] instance using the given tokens and data
    pub fn new(t: &'a [Token<'a>], d: Qd) -> (s: Self)
        ensures
            s@ == (StateView { tokens: views(t@), cursor: 0, okay: true, data: d.model() }),
    {
        Self { c: Cursor { t, i: 0 }, f: true, d }
    }

    /// Returns `true` if the state is okay
    pub fn okay(&self) -> (r: bool)
        ensures
            r == self@.okay,
            self@.wf(),
    {
        proof {
            use_type_invariant(&self.c);
        }
        self.f
    }

    /// Poison the state flag
    pub fn poison(&mut self)
        ensures
            final(self)@ == old(self)@.poison_if(true),
            final(self)@.wf(),
    {
        proof {
            use_type_invariant(&self.c);
        }
        self.f = false;
    }

    /// Poison the state flag if the expression is satisfied
    pub fn poison_if(&mut self, fuse: bool)
        ensures
            final(self)@ == old(self)@.poison_if(fuse),
            final(self)@.wf(),
    {
        proof {
            use_type_invariant(&self.c);
        }
        self.f = self.f && !fuse;
    }

    /// Poison the state flag if the expression is not satisfied
    pub fn poison_if_not(&mut self, fuse: bool)
        ensures
            final(self)@ == old(self)@.poison_if(!fuse),
            final(self)@.wf(),
    {
        self.poison_if(!fuse);
    }

    /// Move the cursor ahead by 1
    pub fn cursor_ahead(&mut self)
        requires
            old(self)@.remaining() >= 1,
        ensures
            final(self)@ == old(self)@.advance(1),
            final(self)@.wf(),
    {
        self.cursor_ahead_by(1)
    }

    /// Move the cursor ahead by the given count
    pub fn cursor_ahead_by(&mut self, by: usize)
        requires
            old(self)@.remaining() >= by,
        ensures
            final(self)@ == old(self)@.advance(by as int),
            final(self)@.wf(),
    {
        proof {
            use_type_invariant(&self.c);
            vstd::slice::axiom_spec_len(self.c.t);
        }
        self.c.i += by;
    }

    /// Move the cursor ahead by 1 if the expression is satisfied
    pub fn cursor_ahead_if(&mut self, iff: bool)
        requires
            iff ==> old(self)@.remaining() >= 1,
        ensures
            final(self)@ == old(self)@.advance(
                if iff {
                    1
                } else {
                    0
                },
            ),
            final(self)@.wf(),
    {
        proof {
            use_type_invariant(&self.c);
        }
        self.cursor_ahead_by(
            if iff {
                1
            } else {
                0
            },
        );
    }

    /// Read the cursor
    pub fn read(&self) -> (r: &'a Token<'a>)
        requires
            self@.remaining() >= 1,
        ensures
            r@ == self@.current(),
            self@.wf(),
    {
        proof {
            use_type_invariant(&self.c);
        }
        &self.c.t[self.c.i]
    }

    /// Return a subslice of the tokens using the current state
    pub fn current(&self) -> (r: &'a [Token<'a>])
        ensures
            views(r@) == self@.tokens.subrange(self@.cursor, self@.tokens.len() as int),
            self@.wf(),
    {
        proof {
            use_type_invariant(&self.c);
        }
        let r = &self.c.t[self.c.i..self.c.t.len()];
        assert(views(r@) =~= self@.tokens.subrange(self@.cursor, self@.tokens.len() as int));
        r
    }

    /// Returns a count of the number of consumable tokens remaining
    pub fn remaining(&self) -> (r: usize)
        ensures
            r == self@.remaining(),
            self@.wf(),
    {
        proof {
            use_type_invariant(&self.c);
        }
        self.c.t.len() - self.c.i
    }

    /// Read and forward the cursor
    pub fn fw_read(&mut self) -> (r: &'a Token<'a>)
        requires
            old(self)@.remaining() >= 1,
        ensures
            r@ == old(self)@.current(),
            final(self)@ == old(self)@.advance(1),
            final(self)@.wf(),
    {
        let r = self.read();
        self.cursor_ahead();
        r
    }

    /// Check if the token stream has alteast `many` count of tokens
    pub fn has_remaining(&self, many: usize) -> (r: bool)
        ensures
            r == (self@.remaining() >= many),
            self@.wf(),
    {
        self.remaining() >= many
    }

    /// Returns true if the token stream has been exhausted
    pub fn exhausted(&self) -> (r: bool)
        ensures
            r == (self@.remaining() == 0),
            self@.wf(),
    {
        self.remaining() == 0
    }

    /// Returns true if the token stream has **not** been exhausted
    pub fn not_exhausted(&self) -> (r: bool)
        ensures
            r == (self@.remaining() != 0),
            self@.wf(),
    {
        self.remaining() != 0
    }

    /// Check if the current cursor can read a lit (with context from the data source); rounded
    pub fn can_read_lit_rounded(&self) -> (r: bool)
        ensures
            r == (self@.remaining() >= 1 && self@.data.can_read(self@.current())),
            self@.wf(),
    {
        proof {
            use_type_invariant(&self.c);
        }
        if self.c.i < self.c.t.len() {
            self.d.can_read_lit_from(&self.c.t[self.c.i])
        } else {
            false
        }
    }

    /// Check if a lit can be read using the given token with context from the data source
    pub fn can_read_lit_from(&self, tok: &'a Token<'a>) -> (r: bool)
        ensures
            r == self@.data.can_read(tok@),
            self@.wf(),
    {
        proof {
            use_type_invariant(&self.c);
        }
        self.d.can_read_lit_from(tok)
    }

    /// Read a lit from the cursor and data source
    pub fn read_cursor_lit_unchecked(&mut self) -> (r: LitIR<'a>)
        requires
            old(self)@.remaining() >= 1,
            old(self)@.data.can_read(old(self)@.current()),
        ensures
            r@ == old(self)@.data.read(old(self)@.current()),
            final(self)@ == old(self)@.after_read(),
            final(self)@.wf(),
    {
        let tok = self.read();
        self.read_lit_unchecked_from(tok)
    }

    /// Read a lit from the given token
    pub fn read_lit_unchecked_from(&mut self, tok: &'a Token<'a>) -> (r: LitIR<'a>)
        requires
            old(self)@.data.can_read(tok@),
        ensures
            r@ == old(self)@.data.read(tok@),
            final(self)@ == old(self)@.after_read(),
            final(self)@.wf(),
    {
        proof {
            use_type_invariant(&self.c);
        }
        self.d.read_lit(tok)
    }

    /// Check if the cursor equals the given token; rounded
    pub fn cursor_rounded_eq(&self, tok: Token<'a>) -> (r: bool)
        ensures
            r == self@.at(tok@),
            self@.wf(),
    {
        proof {
            use_type_invariant(&self.c);
        }
        if self.c.i < self.c.t.len() {
            self.c.t[self.c.i] == tok
        } else {
            false
        }
    }

    /// Check if the cursor equals the given token
    pub fn cursor_eq(&self, token: Token) -> (r: bool)
        requires
            self@.remaining() >= 1,
        ensures
            r == (self@.current() == token@),
            self@.wf(),
    {
        proof {
            use_type_invariant(&self.c);
        }
        self.c.t[self.c.i] == token
    }

    /// Read ahead from the cursor by the given positions
    pub fn read_ahead(&self, ahead: usize) -> (r: &'a Token<'a>)
        requires
            self@.remaining() > ahead,
        ensures
            r@ == self@.ahead(ahead as int),
            self@.wf(),
    {
        proof {
            use_type_invariant(&self.c);
            vstd::slice::axiom_spec_len(self.c.t);
        }
        &self.c.t[self.c.i + ahead]
    }

    /// Move the cursor back by 1
    pub fn cursor_back(&mut self)
        requires
            old(self)@.cursor >= 1,
        ensures
            final(self)@ == old(self)@.advance(-1),
            final(self)@.wf(),
    {
        self.cursor_back_by(1);
    }

    /// Move the cursor back by the given count
    pub fn cursor_back_by(&mut self, by: usize)
        requires
            old(self)@.cursor >= by,
        ensures
            final(self)@ == old(self)@.advance(-by),
            final(self)@.wf(),
    {
        proof {
            use_type_invariant(&self.c);
        }
        self.c.i -= by;
    }

    /// Check if the cursor is on an identifier; rounded
    pub fn cursor_has_ident_rounded(&self) -> (r: bool)
        ensures
            r == self@.at_ident(),
            self@.wf(),
    {
        proof {
            use_type_invariant(&self.c);
        }
        if self.c.i < self.c.t.len() {
            self.c.t[self.c.i].is_ident()
        } else {
            false
        }
    }

    /// Check if the cursor is on an identifier that spells `text`, letters compared without
    /// regard to case; rounded
    pub fn cursor_has_word_rounded(&self, text: &str) -> (r: bool)
        requires
            is_ascii(text),
        ensures
            r == self@.at_word(text@),
            self@.wf(),
    {
        proof {
            use_type_invariant(&self.c);
        }
        if self.c.i < self.c.t.len() {
            match &self.c.t[self.c.i] {
                Token::Ident(id) => spells(id, text),
                _ => false,
            }
        } else {
            false
        }
    }

    /// Check if the current token stream matches the signature of an arity(0) fn; rounded
    pub fn cursor_signature_match_fn_arity0_rounded(&self) -> (r: bool)
        ensures
            r == self@.at_fn_arity0(),
            self@.wf(),
    {
        proof {
            use_type_invariant(&self.c);
        }
        if self.has_remaining(3) {
            self.c.t[self.c.i].is_ident() && self.c.t[self.c.i + 1] == Token::Symbol(
                Symbol::SymOpenParen,
            ) && self.c.t[self.c.i + 2] == Token::Symbol(Symbol::SymCloseParen)
        } else {
            false
        }
    }

    /// Check if the current token stream matches the signature of a full entity; rounded
    pub fn cursor_signature_match_entity_full_rounded(&self) -> (r: bool)
        ensures
            r == self@.at_full_entity(),
            self@.wf(),
    {
        proof {
            use_type_invariant(&self.c);
        }
        if self.has_remaining(3) {
            self.c.t[self.c.i].is_ident() && self.c.t[self.c.i + 1] == Token::Symbol(
                Symbol::SymPeriod,
            ) && self.c.t[self.c.i + 2].is_ident()
        } else {
            false
        }
    }

    /// Reads a lit using the given token and the internal data source and return a data type
    pub fn read_lit_into_data_type_unchecked_from(&mut self, tok: &'a Token) -> (r: Datacell)
        requires
            old(self)@.data.can_read(tok@),
        ensures
            r@ == old(self)@.data.read(tok@),
            final(self)@ == old(self)@.after_read(),
            final(self)@.wf(),
    {
        proof {
            use_type_invariant(&self.c);
        }
        self.d.read_data_type(tok)
    }

    /// Loop condition for tt and non-poisoned state only
    pub fn loop_tt(&self) -> (r: bool)
        ensures
            r == (self@.remaining() != 0 && self@.okay),
            self@.wf(),
    {
        self.not_exhausted() && self.okay()
    }

    /// Loop condition for tt, non-poisoned state and a data source that has a value left
    pub fn loop_data_tt(&self) -> (r: bool)
        ensures
            r == (self@.remaining() != 0 && self@.okay && self@.data.nonzero()),
            self@.wf(),
    {
        self.not_exhausted() && self.okay() && self.d.nonzero()
    }

    /// Returns the number of consumed tokens
    pub fn consumed(&self) -> (r: usize)
        ensures
            r == self@.cursor,
            self@.wf(),
    {
        self.c.t.len() - self.remaining()
    }

    /// Returns the position of the cursor
    pub fn cursor(&self) -> (r: usize)
        ensures
            r == self@.cursor,
            self@.wf(),
    {
        proof {
            use_type_invariant(&self.c);
        }
        self.c.i
    }

    /// Returns true if the cursor is an ident
    pub fn cursor_is_ident(&self) -> (r: bool)
        requires
            self@.remaining() >= 1,
        ensures
            r == (self@.current() is Ident),
            self@.wf(),
    {
        self.read().is_ident()
    }
}

/// An [`Entity`] represents the location for a specific structure, such as a model
#[derive(Debug, PartialEq)]
pub enum Entity<'a> {
    /// A model of the space that is currently in use, written `model`
    Single(Ident<'a>),
    /// A model of the named space, written `space.model`
    Full(Ident<'a>, Ident<'a>),
}

/// The mathematical value of an entity
pub enum EntityView {
    Single(Seq<u8>),
    Full(Seq<u8>, Seq<u8>),
}

impl<'a> View for Entity<'a> {
    type V = EntityView;

    open spec fn view(&self) -> EntityView {
        match self {
            Entity::Single(a) => EntityView::Single(a@),
            Entity::Full(a, b) => EntityView::Full(a@, b@),
        }
    }
}

/// Whether the tokens from position `i` on begin with `ident . ident`
pub open spec fn full_entity_at(tokens: Seq<TokenView>, i: int) -> bool {
    &&& 0 <= i
    &&& i + 3 <= tokens.len()
    &&& tokens[i] is Ident
    &&& tokens[i + 1] == TokenView::Symbol(Symbol::SymPeriod)
    &&& tokens[i + 2] is Ident
}

/// Whether the tokens from position `i` on begin with an identifier
pub open spec fn single_entity_at(tokens: Seq<TokenView>, i: int) -> bool {
    0 <= i < tokens.len() && tokens[i] is Ident
}

/// The entity that the tokens from position `i` on begin with, if any, and the number of
/// tokens that it takes up: `space.model` where that is what stands there, else `model`
pub open spec fn entity_at(tokens: Seq<TokenView>, i: int) -> Option<(EntityView, int)> {
    if full_entity_at(tokens, i) {
        Some((EntityView::Full(tokens[i]->Ident_0, tokens[i + 2]->Ident_0), 3))
    } else if single_entity_at(tokens, i) {
        Some((EntityView::Single(tokens[i]->Ident_0), 1))
    } else {
        None
    }
}

impl StateView {
    /// The entity under the cursor, if any, and its length in tokens
    pub open spec fn entity(self) -> Option<(EntityView, int)> {
        entity_at(self.tokens, self.cursor)
    }

    /// The outcome of reading an entity: the entity under the cursor, unless there is none
    /// or the state is poisoned already
    pub open spec fn entity_result(self) -> Result<EntityView, LangError> {
        match self.entity() {
            Some((e, _)) if self.okay => Ok(e),
            _ => Err(LangError::ExpectedEntity),
        }
    }

    /// The state after an attempt to read an entity: past the entity if there is one,
    /// poisoned if there is none
    pub open spec fn after_entity(self) -> StateView {
        match self.entity() {
            Some((_, n)) => self.advance(n),
            None => self.poison_if(true),
        }
    }
}

/// The identifier that a token holds
pub fn ident_of<'a>(tok: &'a Token<'a>) -> (r: Ident<'a>)
    requires
        tok@ is Ident,
    ensures
        r@ == tok@->Ident_0,
{
    match tok {
        Token::Ident(id) => *id,
        _ => vstd::pervasive::unreached(),
    }
}

impl<'a> Entity<'a> {
    /// Parse a full entity from the given slice, which begins with `ident . ident`
    pub fn full_entity_from_slice(sl: &'a [Token<'a>]) -> (r: Self)
        requires
            full_entity_at(views(sl@), 0),
        ensures
            r@ == entity_at(views(sl@), 0)->Some_0.0,
    {
        Entity::Full(ident_of(&sl[0]), ident_of(&sl[2]))
    }

    /// Parse a single entity from the given slice, which begins with an identifier
    pub fn single_entity_from_slice(sl: &'a [Token<'a>]) -> (r: Self)
        requires
            single_entity_at(views(sl@), 0),
        ensures
            r@ == EntityView::Single(sl@[0]@->Ident_0),
    {
        Entity::Single(ident_of(&sl[0]))
    }

    /// Returns true if the given token stream matches the signature of single entity syntax
    ///
    /// This will pass for full and single
    pub fn tokens_with_single(tok: &[Token]) -> (r: bool)
        ensures
            r == single_entity_at(views(tok@), 0),
    {
        !tok.is_empty() && tok[0].is_ident()
    }

    /// Returns true if the given token stream matches the signature of full entity syntax
    pub fn tokens_with_full(tok: &[Token]) -> (r: bool)
        ensures
            r == full_entity_at(views(tok@), 0),
    {
        tok.len() > 2 && tok[0].is_ident() && tok[1] == Token::Symbol(Symbol::SymPeriod)
            && tok[2].is_ident()
    }

    /// Attempt to parse an entity using the given token stream. It also accepts a counter
    /// argument to forward the cursor
    pub fn parse_from_tokens(tok: &'a [Token<'a>], c: &mut usize) -> (r: LangResult<Self>)
        requires
            entity_at(views(tok@), 0) matches Some((_, n)) ==> *old(c) + n <= usize::MAX,
        ensures
            match entity_at(views(tok@), 0) {
                Some((e, n)) => r matches Ok(x) && x@ == e && *final(c) == *old(c) + n,
                None => r == Err::<Self, LangError>(LangError::ExpectedEntity) && *final(c)
                    == *old(c),
            },
    {
        let is_current = Self::tokens_with_single(tok);
        let is_full = Self::tokens_with_full(tok);
        if is_full {
            *c += 3;
            Ok(Self::full_entity_from_slice(tok))
        } else if is_current {
            *c += 1;
            Ok(Self::single_entity_from_slice(tok))
        } else {
            Err(LangError::ExpectedEntity)
        }
    }

    /// Reads the entity under the cursor and moves past it. Where there is none the state
    /// is poisoned and the result is `ExpectedEntity`.
    pub fn attempt_process_entity_result<Qd: QueryData<'a>>(state: &mut State<'a, Qd>) -> (r:
        LangResult<Self>)
        ensures
            final(state)@ == old(state)@.after_entity(),
            final(state)@.wf(),
            agrees(r, old(state)@.entity_result()),
    {
        let mut e: Option<Entity<'a>> = None;
        Self::attempt_process_entity(state, &mut e);
        if state.okay() {
            match e {
                Some(entity) => Ok(entity),
                None => Err(LangError::ExpectedEntity),
            }
        } else {
            Err(LangError::ExpectedEntity)
        }
    }

    /// Reads the entity under the cursor into `d` and moves past it. Where there is none
    /// the state is poisoned and `d` is left as it is. No token needs to be left.
    pub fn attempt_process_entity<Qd: QueryData<'a>>(
        state: &mut State<'a, Qd>,
        d: &mut Option<Entity<'a>>,
    )
        ensures
            final(state)@ == old(state)@.after_entity(),
            final(state)@.wf(),
            match old(state)@.entity() {
                Some((e, _)) => *final(d) matches Some(x) && x@ == e,
                None => *final(d) == *old(d),
            },
    {
        let tok = state.current();
        let is_full = state.cursor_signature_match_entity_full_rounded();
        let is_single = state.cursor_has_ident_rounded();
        if is_full {
            state.cursor_ahead_by(3);
            *d = Some(Entity::full_entity_from_slice(tok));
        } else if is_single {
            state.cursor_ahead();
            *d = Some(Entity::single_entity_from_slice(tok));
        }
        state.poison_if_not(is_full || is_single);
    }

    /// Reads the entity under the cursor into `d` and moves past it, looking at up to three
    /// tokens without checking that they are there: one token must be left, a second one if
    /// the first is an identifier, and a third one if the second is a period.
    pub fn parse_entity<Qd: QueryData<'a>>(state: &mut State<'a, Qd>, d: &mut Option<Entity<'a>>)
        requires
            old(state)@.remaining() >= 1,
            old(state)@.ahead(0) is Ident ==> old(state)@.remaining() >= 2,
            old(state)@.ahead(0) is Ident && old(state)@.ahead(1) == TokenView::Symbol(
                Symbol::SymPeriod,
            ) ==> old(state)@.remaining() >= 3,
        ensures
            final(state)@ == old(state)@.after_entity(),
            final(state)@.wf(),
            match old(state)@.entity() {
                Some((e, _)) => *final(d) matches Some(x) && x@ == e,
                None => *final(d) == *old(d),
            },
    {
        let tok = state.current();
        assert(views(tok@).len() == tok@.len());
        assert(forall|k: int| 0 <= k < tok@.len() ==> views(tok@)[k] == #[trigger] tok@[k]@);
        let is_full = tok[0].is_ident() && tok[1] == Token::Symbol(Symbol::SymPeriod)
            && tok[2].is_ident();
        let is_single = tok[0].is_ident();
        if is_full {
            state.cursor_ahead_by(3);
            *d = Some(Entity::full_entity_from_slice(tok));
        } else if is_single {
            state.cursor_ahead();
            *d = Some(Entity::single_entity_from_slice(tok));
        }
        state.poison_if_not(is_full || is_single);
    }
}

/// The outcome of a parse step: the state that it leaves and what it yields
pub struct Parsed<T> {
    pub state: StateView,
    pub result: Result<T, LangError>,
}

impl<T> Parsed<T> {
    /// The step yields `v` and leaves the state `state`
    pub open spec fn done(state: StateView, v: T) -> Parsed<T> {
        Parsed { state, result: Ok(v) }
    }

    /// The same outcome with the value, if there is one, turned into another by `f`
    pub open spec fn map<U>(self, f: spec_fn(T) -> U) -> Parsed<U> {
        Parsed {
            state: self.state,
            result: match self.result {
                Ok(v) => Ok(f(v)),
                Err(e) => Err(e),
            },
        }
    }

    /// The step fails with `e` in the state `state`, which it leaves poisoned
    pub open spec fn fail(state: StateView, e: LangError) -> Parsed<T> {
        Parsed { state: state.poison_if(true), result: Err(e) }
    }
}

/// A [`Statement`] is a fully BlueQL statement that can be executed by the query engine
#[derive(Debug, PartialEq)]
pub enum Statement<'a> {
    /// DDL query to switch between spaces and models
    Use(Entity<'a>),
    /// DDL query to create a model
    CreateModel(CreateModel<'a>),
    /// DDL query to create a space
    CreateSpace(CreateSpace<'a>),
    /// DDL query to alter a space (properties)
    AlterSpace(AlterSpace<'a>),
    /// DDL query to alter a model (properties, field types, etc)
    AlterModel(AlterModel<'a>),
    /// DDL query to drop a model
    DropModel(DropModel<'a>),
    /// DDL query to drop a space
    DropSpace(DropSpace<'a>),
    /// DDL query to inspect a space (returns a list of models in the space)
    InspectSpace(Ident<'a>),
    /// DDL query to inspect a model (returns the model definition)
    InspectModel(Entity<'a>),
    /// DDL query to inspect all spaces (returns a list of spaces in the database)
    InspectSpaces,
    /// DML insert
    Insert(InsertStatement<'a>),
    /// DML select
    Select(SelectStatement<'a>),
    /// DML update
    Update(UpdateStatement<'a>),
    /// DML delete
    Delete(DeleteStatement<'a>),
}

/// The mathematical value of a statement
pub enum StatementView {
    Use(EntityView),
    CreateModel(CreateModelView),
    CreateSpace(CreateSpaceView),
    AlterSpace(AlterSpaceView),
    AlterModel(AlterModelView),
    DropModel(DropModelView),
    DropSpace(DropSpaceView),
    InspectSpace(Seq<u8>),
    InspectModel(EntityView),
    InspectSpaces,
    Insert(InsertView),
    Select(SelectView),
    Update(UpdateView),
    Delete(DeleteView),
}

impl<'a> View for Statement<'a> {
    type V = StatementView;

    open spec fn view(&self) -> StatementView {
        match self {
            Statement::Use(e) => StatementView::Use(e@),
            Statement::CreateModel(c) => StatementView::CreateModel(c@),
            Statement::CreateSpace(c) => StatementView::CreateSpace(c@),
            Statement::AlterSpace(a) => StatementView::AlterSpace(a@),
            Statement::AlterModel(a) => StatementView::AlterModel(a@),
            Statement::DropModel(d) => StatementView::DropModel(d@),
            Statement::DropSpace(d) => StatementView::DropSpace(d@),
            Statement::InspectSpace(s) => StatementView::InspectSpace(s@),
            Statement::InspectModel(e) => StatementView::InspectModel(e@),
            Statement::InspectSpaces => StatementView::InspectSpaces,
            Statement::Insert(i) => StatementView::Insert(i@),
            Statement::Select(s) => StatementView::Select(s@),
            Statement::Update(u) => StatementView::Update(u@),
            Statement::Delete(d) => StatementView::Delete(d@),
        }
    }
}

/// What follows `create`, of which one token at least is left
pub open spec fn create_at(sv: StateView) -> Parsed<StatementView> {
    let s1 = sv.advance(1);
    if sv.current() == TokenView::Keyword(Keyword::Model) {
        create_model_at(s1).map(|c: CreateModelView| StatementView::CreateModel(c))
    } else if sv.current() == TokenView::Keyword(Keyword::Space) {
        create_space_at(s1).map(|c: CreateSpaceView| StatementView::CreateSpace(c))
    } else {
        Parsed { state: s1, result: Err(LangError::StmtUnknownCreate) }
    }
}

/// What follows `alter`, of which one token at least is left
pub open spec fn alter_at(sv: StateView) -> Parsed<StatementView> {
    let s1 = sv.advance(1);
    if sv.current() == TokenView::Keyword(Keyword::Model) {
        alter_model_at(s1).map(|a: AlterModelView| StatementView::AlterModel(a))
    } else if sv.current() == TokenView::Keyword(Keyword::Space) {
        alter_space_at(s1).map(|a: AlterSpaceView| StatementView::AlterSpace(a))
    } else {
        Parsed { state: s1, result: Err(LangError::StmtUnknownAlter) }
    }
}

/// The data manipulation statement that the keyword `k` opens and whose body begins under
/// the cursor, if `k` opens one
pub open spec fn dml_at(k: Keyword, sv: StateView) -> Option<Parsed<StatementView>> {
    match k {
        Keyword::Insert => Some(insert_at(sv).map(|i: InsertView| StatementView::Insert(i))),
        Keyword::Select => Some(select_at(sv).map(|s: SelectView| StatementView::Select(s))),
        Keyword::Update => Some(update_at(sv).map(|u: UpdateView| StatementView::Update(u))),
        Keyword::Delete => Some(delete_at(sv).map(|d: DeleteView| StatementView::Delete(d))),
        _ => None,
    }
}

/// The statement that begins under the cursor.
///
/// Two tokens at least must be left. The first one selects the statement:
///
/// | first token | then                         | statement                     |
/// |-------------|------------------------------|-------------------------------|
/// | `use`       | entity                       | `Use`                         |
/// | `create`    | `model` or `space`, and body | `CreateModel`, `CreateSpace`  |
/// | `alter`     | `model` or `space`, and body | `AlterModel`, `AlterSpace`    |
/// | `drop`      | two tokens or more           | `DropModel`, `DropSpace`      |
/// | `inspect`   | what is to be inspected      | `InspectModel` and the others |
/// | `insert`    | body                         | `Insert`                      |
/// | `select`    | body                         | `Select`                      |
/// | `update`    | body                         | `Update`                      |
/// | `delete`    | body                         | `Delete`                      |
///
/// `inspect` is an identifier, whatever the case of its letters. Anything else is no
/// statement.
pub open spec fn statement_at(sv: StateView) -> Parsed<StatementView> {
    let head = sv.current();
    let s1 = sv.advance(1);
    if sv.remaining() < 2 {
        Parsed { state: sv, result: Err(LangError::UnexpectedEOS) }
    } else if head == TokenView::Keyword(Keyword::Use) {
        Parsed { state: s1.after_entity(), result: s1.entity_result() }.map(
            |e: EntityView| StatementView::Use(e),
        )
    } else if head == TokenView::Keyword(Keyword::Create) {
        create_at(s1)
    } else if head == TokenView::Keyword(Keyword::Alter) {
        alter_at(s1)
    } else if head == TokenView::Keyword(Keyword::Drop) && s1.remaining() >= 2 {
        drop_at(s1)
    } else if sv.at_word("inspect"@) {
        inspect_at(s1)
    } else if head is Keyword && dml_at(head->Keyword_0, s1) is Some {
        dml_at(head->Keyword_0, s1)->Some_0
    } else {
        Parsed { state: s1, result: Err(LangError::ExpectedStatement) }
    }
}

/// Reading what follows `create` or `alter` keeps the state
pub proof fn lemma_create_alter_keep_state(sv: StateView)
    requires
        sv.wf(),
        sv.remaining() >= 1,
    ensures
        sv.leads_to(create_at(sv).state),
        sv.leads_to(alter_at(sv).state),
{
    lemma_create_keeps_state(sv.advance(1));
    lemma_alter_keeps_state(sv.advance(1));
}

/// Reading the body of the data manipulation statement that `k` opens keeps the state
pub proof fn lemma_dml_at_keeps_state(k: Keyword, sv: StateView)
    requires
        sv.wf(),
    ensures
        dml_at(k, sv) matches Some(p) ==> sv.leads_to(p.state),
{
    lemma_dml_keeps_state(sv);
}

/// Reading a statement leaves the tokens as they are and the cursor within them or just
/// past them, and it never clears the poison of a state
pub proof fn lemma_statement_keeps_state(sv: StateView)
    requires
        sv.wf(),
    ensures
        sv.leads_to(statement_at(sv).state),
{
    let head = sv.current();
    let s1 = sv.advance(1);
    if sv.remaining() < 2 {
    } else if head == TokenView::Keyword(Keyword::Use) {
    } else if head == TokenView::Keyword(Keyword::Create) || head == TokenView::Keyword(
        Keyword::Alter,
    ) {
        lemma_create_alter_keep_state(s1);
    } else if head == TokenView::Keyword(Keyword::Drop) && s1.remaining() >= 2 {
        lemma_drop_keeps_state(s1);
    } else if sv.at_word("inspect"@) {
        lemma_inspect_keeps_state(s1);
    } else if head is Keyword {
        lemma_dml_at_keeps_state(head->Keyword_0, s1);
    }
}

/// The state in which the compilation of the given tokens begins
pub open spec fn initial(tokens: Seq<TokenView>, data: DataModel) -> StateView {
    StateView { tokens, cursor: 0, okay: true, data }
}

/// The statement that the tokens make with the given source of values, or the error in
/// them
pub open spec fn compile_spec(tokens: Seq<TokenView>, data: DataModel) -> Result<
    StatementView,
    LangError,
> {
    statement_at(initial(tokens, data)).result
}

/// The statement that the tokens make with the given values, each of which must be
/// consumed by a placeholder: values that are left over are a parameter count mismatch
pub open spec fn compile_params_spec(tokens: Seq<TokenView>, params: Seq<Value>) -> Result<
    StatementView,
    LangError,
> {
    let p = statement_at(initial(tokens, DataModel::Substituted(params)));
    if p.result is Ok && p.state.data.nonzero() {
        Err(LangError::ParameterCountMismatch)
    } else {
        p.result
    }
}

/// Reads what follows `create`
fn parse_create<'a, Qd: QueryData<'a>>(state: &mut State<'a, Qd>) -> (r: LangResult<
    Statement<'a>,
>)
    requires
        old(state)@.remaining() >= 1,
    ensures
        final(state)@ == create_at(old(state)@).state,
        agrees(r, create_at(old(state)@).result),
        final(state)@.wf(),
{
    match state.fw_read() {
        Token::Keyword(Keyword::Model) => match CreateModel::parse(state) {
            Ok(c) => Ok(Statement::CreateModel(c)),
            Err(e) => Err(e),
        },
        Token::Keyword(Keyword::Space) => match CreateSpace::parse(state) {
            Ok(c) => Ok(Statement::CreateSpace(c)),
            Err(e) => Err(e),
        },
        _ => Err(LangError::StmtUnknownCreate),
    }
}

/// Reads what follows `alter`
fn parse_alter<'a, Qd: QueryData<'a>>(state: &mut State<'a, Qd>) -> (r: LangResult<
    Statement<'a>,
>)
    requires
        old(state)@.remaining() >= 1,
    ensures
        final(state)@ == alter_at(old(state)@).state,
        agrees(r, alter_at(old(state)@).result),
        final(state)@.wf(),
{
    match state.fw_read() {
        Token::Keyword(Keyword::Model) => match AlterModel::parse(state) {
            Ok(a) => Ok(Statement::AlterModel(a)),
            Err(e) => Err(e),
        },
        Token::Keyword(Keyword::Space) => match AlterSpace::parse(state) {
            Ok(a) => Ok(Statement::AlterSpace(a)),
            Err(e) => Err(e),
        },
        _ => Err(LangError::StmtUnknownAlter),
    }
}

/// Reads the body of the data manipulation statement that the keyword `k` opens
fn parse_dml<'a, Qd: QueryData<'a>>(k: Keyword, state: &mut State<'a, Qd>) -> (r: LangResult<
    Statement<'a>,
>)
    requires
        dml_at(k, old(state)@) is Some,
    ensures
        final(state)@ == dml_at(k, old(state)@)->Some_0.state,
        agrees(r, dml_at(k, old(state)@)->Some_0.result),
        final(state)@.wf(),
{
    match k {
        Keyword::Insert => match InsertStatement::parse(state) {
            Ok(i) => Ok(Statement::Insert(i)),
            Err(e) => Err(e),
        },
        Keyword::Select => match SelectStatement::parse(state) {
            Ok(s) => Ok(Statement::Select(s)),
            Err(e) => Err(e),
        },
        Keyword::Update => match UpdateStatement::parse(state) {
            Ok(u) => Ok(Statement::Update(u)),
            Err(e) => Err(e),
        },
        _ => match DeleteStatement::parse(state) {
            Ok(d) => Ok(Statement::Delete(d)),
            Err(e) => Err(e),
        },
    }
}

/// Reads the statement that begins under the cursor
pub fn compile_state<'a, Qd: QueryData<'a>>(state: &mut State<'a, Qd>) -> (r: LangResult<
    Statement<'a>,
>)
    ensures
        final(state)@ == statement_at(old(state)@).state,
        agrees(r, statement_at(old(state)@).result),
        final(state)@.wf(),
{
    proof {
        reveal_strlit("inspect");
    }
    if state.remaining() < 2 {
        return Err(LangError::UnexpectedEOS);
    }
    let inspect = state.cursor_has_word_rounded("inspect");
    match state.fw_read() {
        Token::Keyword(Keyword::Use) => match Entity::attempt_process_entity_result(state) {
            Ok(e) => Ok(Statement::Use(e)),
            Err(e) => Err(e),
        },
        Token::Keyword(Keyword::Create) => parse_create(state),
        Token::Keyword(Keyword::Alter) => parse_alter(state),
        Token::Keyword(Keyword::Drop) if state.remaining() >= 2 => parse_drop(state),
        Token::Keyword(Keyword::Insert) => parse_dml(Keyword::Insert, state),
        Token::Keyword(Keyword::Select) => parse_dml(Keyword::Select, state),
        Token::Keyword(Keyword::Update) => parse_dml(Keyword::Update, state),
        Token::Keyword(Keyword::Delete) => parse_dml(Keyword::Delete, state),
        _ => {
            if inspect {
                parse_inspect(state)
            } else {
                Err(LangError::ExpectedStatement)
            }
        },
    }
}

/// Compiles the tokens into a statement, reading literals from the tokens themselves
pub fn compile_test<'a>(tok: &'a [Token<'a>]) -> (r: LangResult<Statement<'a>>)
    ensures
        agrees(r, compile_spec(views(tok@), DataModel::Inline)),
{
    compile(tok, InplaceData::new())
}

/// Compiles the tokens into a statement, with `d` as the source of values.
///
/// Fewer than two tokens are an `UnexpectedEOS`. Only `drop` and `inspect spaces` ask that
/// the statement be all there is: after any other statement tokens may be left.
pub fn compile<'a, Qd: QueryData<'a>>(tok: &'a [Token<'a>], d: Qd) -> (r: LangResult<
    Statement<'a>,
>)
    ensures
        agrees(r, compile_spec(views(tok@), d.model())),
{
    let mut state = State::new(tok, d);
    compile_state(&mut state)
}

/// Compiles the tokens into a statement, with the values `params` for its placeholders.
/// Each value must be consumed: values that are left over are a
/// `ParameterCountMismatch`, as is a placeholder for which none is left.
pub fn compile_params<'a>(tok: &'a [Token<'a>], params: &'a [LitIR<'a>]) -> (r: LangResult<
    Statement<'a>,
>)
    ensures
        agrees(r, compile_params_spec(views(tok@), each(params@))),
{
    let mut state = State::new(tok, SubstitutedData::new(params));
    match compile_state(&mut state) {
        Ok(s) => {
            if state.can_read_lit_from(&Token::Placeholder) {
                Err(LangError::ParameterCountMismatch)
            } else {
                Ok(s)
            }
        },
        Err(e) => Err(e),
    }
}

} // verus!
