//! Tokens and the lexer.
//!
//! The lexer has two modes. In the insecure mode literals are read from the query text. In
//! the safe mode every literal is rejected: values are supplied apart from the text, and
//! the text marks their places with `?`.
//!
//! Grammar, by the first byte of a token:
//!
//! - a space, a tab or a line feed separates tokens;
//! - a carriage return is the fuzz boundary marker and lexes to `IgnorableComma`;
//! - `?` is a placeholder;
//! - `b'` opens a binary literal and `'` a string literal, both closed by `'`, with `''`
//!   standing for one quote inside;
//! - a letter or `_` opens a word of letters, digits and `_`: a keyword, `true`, `false`
//!   or `null` if it spells one (in any case), else an identifier; a word with a period
//!   right before or after it is an identifier in any case;
//! - a digit opens an unsigned integer: `0x` and hexadecimal digits, or decimal digits;
//! - `-` and a digit open a signed decimal integer;
//! - the rest are symbols.
use vstd::prelude::*;
use vstd::string::*;
use crate::data::{bytes_eq, each, Lit, Value};
use crate::error::{LexError, LexResult};

verus! {

/// The symbols of the language
#[derive(Debug, Clone, Copy, PartialEq, Eq, Structural)]
pub enum Symbol {
    /// `.`
    SymPeriod,
    /// `,`
    SymComma,
    /// `(`
    SymOpenParen,
    /// `)`
    SymCloseParen,
    /// `[`
    SymOpenBracket,
    /// `]`
    SymCloseBracket,
    /// `{`
    SymOpenBrace,
    /// `}`
    SymCloseBrace,
    /// `;`
    SymSemicolon,
    /// `*`
    SymAsterisk,
    /// `=`
    OpEq,
    /// `<`
    OpLt,
    /// `>`
    OpGt,
    /// `<=`
    OpLe,
    /// `>=`
    OpGe,
    /// `!=`
    OpNe,
}

/// The keywords of the language, each spelt as its name, in any case.
///
/// `force`, `inspect` and `spaces` are no keywords: they are identifiers that certain
/// statements look for.
#[derive(Debug, Clone, Copy, PartialEq, Eq, Structural)]
pub enum Keyword {
    Use,
    Create,
    Alter,
    Drop,
    Model,
    Space,
    Insert,
    Into,
    Select,
    From,
    Where,
    Update,
    /// `set`
    SetTo,
    Delete,
    And,
    With,
    Add,
    Remove,
}

/// An identifier: a part of the query text
pub type Ident<'a> = &'a [u8];

/// A part of the query text
pub type Slice<'a> = &'a [u8];

/// A token. An identifier borrows its bytes from the query text; a literal owns its
/// value.
#[derive(Debug)]
pub enum Token<'a> {
    Symbol(Symbol),
    Keyword(Keyword),
    Ident(Ident<'a>),
    Lit(Lit),
    /// `?`: the place of a value that is supplied apart from the query text
    Placeholder,
    /// Stands for no comma or one comma
    IgnorableComma,
}

/// The mathematical value of a token
pub enum TokenView {
    Symbol(Symbol),
    Keyword(Keyword),
    Ident(Seq<u8>),
    Lit(Value),
    Placeholder,
    IgnorableComma,
}

impl<'a> View for Token<'a> {
    type V = TokenView;

    open spec fn view(&self) -> TokenView {
        match self {
            Token::Symbol(s) => TokenView::Symbol(*s),
            Token::Keyword(k) => TokenView::Keyword(*k),
            Token::Ident(i) => TokenView::Ident(i@),
            Token::Lit(l) => TokenView::Lit(l@),
            Token::Placeholder => TokenView::Placeholder,
            Token::IgnorableComma => TokenView::IgnorableComma,
        }
    }
}

/// The values of a run of tokens
pub open spec fn views<'a>(tokens: Seq<Token<'a>>) -> Seq<TokenView> {
    each(tokens)
}

impl<'a> Token<'a> {
    /// Whether the token is an identifier
    pub fn is_ident(&self) -> (r: bool)
        ensures
            r == (self@ is Ident),
    {
        match self {
            Token::Ident(_) => true,
            _ => false,
        }
    }

    /// Whether the token is a literal
    pub fn is_lit(&self) -> (r: bool)
        ensures
            r == (self@ is Lit),
    {
        match self {
            Token::Lit(_) => true,
            _ => false,
        }
    }
}

impl<'a> Clone for Token<'a> {
    fn clone(&self) -> (r: Self)
        ensures
            r@ == self@,
    {
        match self {
            Token::Symbol(s) => Token::Symbol(*s),
            Token::Keyword(k) => Token::Keyword(*k),
            Token::Ident(i) => Token::Ident(*i),
            Token::Lit(l) => Token::Lit(l.to_owned()),
            Token::Placeholder => Token::Placeholder,
            Token::IgnorableComma => Token::IgnorableComma,
        }
    }
}

impl<'a> PartialEq for Token<'a> {
    fn eq(&self, other: &Token<'a>) -> (r: bool) {
        match (self, other) {
            (Token::Symbol(a), Token::Symbol(b)) => *a == *b,
            (Token::Keyword(a), Token::Keyword(b)) => *a == *b,
            (Token::Ident(a), Token::Ident(b)) => bytes_eq(a, b),
            (Token::Lit(a), Token::Lit(b)) => *a == *b,
            (Token::Placeholder, Token::Placeholder) => true,
            (Token::IgnorableComma, Token::IgnorableComma) => true,
            _ => false,
        }
    }
}

impl<'a> vstd::std_specs::cmp::PartialEqSpecImpl for Token<'a> {
    open spec fn obeys_eq_spec() -> bool {
        true
    }

    open spec fn eq_spec(&self, other: &Token<'a>) -> bool {
        self@ == other@
    }
}

/// The classes of bytes that make up runs
#[derive(Debug, Clone, Copy, PartialEq, Eq, Structural)]
pub enum ByteClass {
    /// Letters, digits and `_`
    Word,
    /// Decimal digits
    Digit,
    /// Hexadecimal digits
    HexDigit,
}

/// A space, a tab or a line feed
pub open spec fn is_space(b: u8) -> bool {
    b == ' ' as u8 || b == '\t' as u8 || b == '\n' as u8
}

/// An ASCII letter or `_`
pub open spec fn is_letter(b: u8) -> bool {
    ('a' as u8 <= b <= 'z' as u8) || ('A' as u8 <= b <= 'Z' as u8) || b == '_' as u8
}

/// A decimal digit
pub open spec fn is_digit(b: u8) -> bool {
    '0' as u8 <= b <= '9' as u8
}

/// A hexadecimal digit, in either case
pub open spec fn is_hex_digit(b: u8) -> bool {
    is_digit(b) || ('a' as u8 <= b <= 'f' as u8) || ('A' as u8 <= b <= 'F' as u8)
}

/// Whether the byte `b` is of the class `c`
pub open spec fn in_class(c: ByteClass, b: u8) -> bool {
    match c {
        ByteClass::Word => is_letter(b) || is_digit(b),
        ByteClass::Digit => is_digit(b),
        ByteClass::HexDigit => is_hex_digit(b),
    }
}

/// The end of the longest run of bytes of class `c` that begins at `p`
pub open spec fn run_end(src: Seq<u8>, p: int, c: ByteClass) -> int
    decreases src.len() - p,
{
    if 0 <= p < src.len() && in_class(c, src[p]) {
        run_end(src, p + 1, c)
    } else {
        p
    }
}

/// A run ends within the text, holds bytes of its class only, and cannot be extended
pub proof fn lemma_run_end(src: Seq<u8>, p: int, c: ByteClass)
    requires
        0 <= p <= src.len(),
    ensures
        p <= run_end(src, p, c) <= src.len(),
        forall|k: int| p <= k < run_end(src, p, c) ==> in_class(c, #[trigger] src[k]),
        run_end(src, p, c) < src.len() ==> !in_class(c, src[run_end(src, p, c)]),
    decreases src.len() - p,
{
    if p < src.len() && in_class(c, src[p]) {
        lemma_run_end(src, p + 1, c);
    }
}

/// Tells whether a byte is of a class
fn byte_in_class(c: ByteClass, b: u8) -> (r: bool)
    ensures
        r == in_class(c, b),
{
    let digit = '0' as u8 <= b && b <= '9' as u8;
    match c {
        ByteClass::Word => digit || ('a' as u8 <= b && b <= 'z' as u8) || ('A' as u8 <= b && b
            <= 'Z' as u8) || b == '_' as u8,
        ByteClass::Digit => digit,
        ByteClass::HexDigit => digit || ('a' as u8 <= b && b <= 'f' as u8) || ('A' as u8 <= b
            && b <= 'F' as u8),
    }
}

/// Finds the end of the run of class `c` that begins at `p`
fn scan_run(src: &[u8], p: usize, c: ByteClass) -> (e: usize)
    requires
        p <= src@.len(),
    ensures
        e == run_end(src@, p as int, c),
        p <= e <= src@.len(),
{
    let mut e: usize = p;
    while e < src.len() && byte_in_class(c, src[e])
        invariant
            p <= e <= src@.len(),
            run_end(src@, p as int, c) == run_end(src@, e as int, c),
        decreases src@.len() - e,
    {
        e += 1;
    }
    e
}

/// The lower-case form of an ASCII letter; any other byte stays as it is
pub open spec fn lower(b: u8) -> u8 {
    if 'A' as u8 <= b <= 'Z' as u8 {
        (b + 0x20) as u8
    } else {
        b
    }
}

/// A byte string with its ASCII letters in lower case
pub open spec fn lowered(s: Seq<u8>) -> Seq<u8> {
    Seq::new(s.len(), |i: int| lower(s[i]))
}

/// The bytes of an ASCII text
pub open spec fn ascii(text: Seq<char>) -> Seq<u8> {
    Seq::new(text.len(), |i: int| text[i] as u8)
}

/// Whether `word` spells the ASCII text `text`, letters compared without regard to case.
/// `text` is expected to be in lower case.
pub fn spells(word: &[u8], text: &str) -> (r: bool)
    requires
        is_ascii(text),
    ensures
        r == (lowered(word@) == ascii(text@)),
{
    broadcast use is_ascii_spec_bytes;

    let t = text.as_bytes();
    assert(t@ =~= ascii(text@));
    if word.len() != t.len() {
        return false;
    }
    let mut i: usize = 0;
    while i < word.len()
        invariant
            i <= word@.len(),
            word@.len() == t@.len(),
            t@ == ascii(text@),
            forall|k: int| 0 <= k < i ==> lower(word@[k]) == t@[k],
        decreases word@.len() - i,
    {
        let b = word[i];
        let l = if 'A' as u8 <= b && b <= 'Z' as u8 {
            b + 0x20
        } else {
            b
        };
        if l != t[i] {
            assert(lowered(word@)[i as int] != ascii(text@)[i as int]);
            return false;
        }
        i += 1;
    }
    assert(lowered(word@) =~= ascii(text@));
    true
}

/// What a word of the query text is
#[derive(Debug, Clone, Copy, PartialEq, Eq, Structural)]
pub enum Word {
    Keyword(Keyword),
    True,
    False,
    Null,
    Ident,
}

/// What the word `w`, given in lower case, is
pub open spec fn word_of(w: Seq<u8>) -> Word {
    if w == ascii("use"@) {
        Word::Keyword(Keyword::Use)
    } else if w == ascii("create"@) {
        Word::Keyword(Keyword::Create)
    } else if w == ascii("alter"@) {
        Word::Keyword(Keyword::Alter)
    } else if w == ascii("drop"@) {
        Word::Keyword(Keyword::Drop)
    } else if w == ascii("model"@) {
        Word::Keyword(Keyword::Model)
    } else if w == ascii("space"@) {
        Word::Keyword(Keyword::Space)
    } else if w == ascii("insert"@) {
        Word::Keyword(Keyword::Insert)
    } else if w == ascii("into"@) {
        Word::Keyword(Keyword::Into)
    } else if w == ascii("select"@) {
        Word::Keyword(Keyword::Select)
    } else if w == ascii("from"@) {
        Word::Keyword(Keyword::From)
    } else if w == ascii("where"@) {
        Word::Keyword(Keyword::Where)
    } else if w == ascii("update"@) {
        Word::Keyword(Keyword::Update)
    } else if w == ascii("set"@) {
        Word::Keyword(Keyword::SetTo)
    } else if w == ascii("delete"@) {
        Word::Keyword(Keyword::Delete)
    } else if w == ascii("and"@) {
        Word::Keyword(Keyword::And)
    } else if w == ascii("with"@) {
        Word::Keyword(Keyword::With)
    } else if w == ascii("add"@) {
        Word::Keyword(Keyword::Add)
    } else if w == ascii("remove"@) {
        Word::Keyword(Keyword::Remove)
    } else if w == ascii("true"@) {
        Word::True
    } else if w == ascii("false"@) {
        Word::False
    } else if w == ascii("null"@) {
        Word::Null
    } else {
        Word::Ident
    }
}

/// Tells what a word is, without regard to the case of its letters
pub fn classify(word: &[u8]) -> (r: Word)
    ensures
        r == word_of(lowered(word@)),
{
    proof {
        reveal_strlit("use");
        reveal_strlit("create");
        reveal_strlit("alter");
        reveal_strlit("drop");
        reveal_strlit("model");
        reveal_strlit("space");
        reveal_strlit("insert");
        reveal_strlit("into");
        reveal_strlit("select");
        reveal_strlit("from");
        reveal_strlit("where");
        reveal_strlit("update");
        reveal_strlit("set");
        reveal_strlit("delete");
        reveal_strlit("and");
        reveal_strlit("with");
        reveal_strlit("add");
        reveal_strlit("remove");
        reveal_strlit("true");
        reveal_strlit("false");
        reveal_strlit("null");
    }
    if spells(word, "use") {
        Word::Keyword(Keyword::Use)
    } else if spells(word, "create") {
        Word::Keyword(Keyword::Create)
    } else if spells(word, "alter") {
        Word::Keyword(Keyword::Alter)
    } else if spells(word, "drop") {
        Word::Keyword(Keyword::Drop)
    } else if spells(word, "model") {
        Word::Keyword(Keyword::Model)
    } else if spells(word, "space") {
        Word::Keyword(Keyword::Space)
    } else if spells(word, "insert") {
        Word::Keyword(Keyword::Insert)
    } else if spells(word, "into") {
        Word::Keyword(Keyword::Into)
    } else if spells(word, "select") {
        Word::Keyword(Keyword::Select)
    } else if spells(word, "from") {
        Word::Keyword(Keyword::From)
    } else if spells(word, "where") {
        Word::Keyword(Keyword::Where)
    } else if spells(word, "update") {
        Word::Keyword(Keyword::Update)
    } else if spells(word, "set") {
        Word::Keyword(Keyword::SetTo)
    } else if spells(word, "delete") {
        Word::Keyword(Keyword::Delete)
    } else if spells(word, "and") {
        Word::Keyword(Keyword::And)
    } else if spells(word, "with") {
        Word::Keyword(Keyword::With)
    } else if spells(word, "add") {
        Word::Keyword(Keyword::Add)
    } else if spells(word, "remove") {
        Word::Keyword(Keyword::Remove)
    } else if spells(word, "true") {
        Word::True
    } else if spells(word, "false") {
        Word::False
    } else if spells(word, "null") {
        Word::Null
    } else {
        Word::Ident
    }
}

/// The value of a hexadecimal digit (and so of a decimal one); 0 for any other byte
pub open spec fn digit_of(b: u8) -> nat {
    if is_digit(b) {
        (b - '0' as u8) as nat
    } else if 'a' as u8 <= b <= 'f' as u8 {
        (b - 'a' as u8 + 10) as nat
    } else if 'A' as u8 <= b <= 'F' as u8 {
        (b - 'A' as u8 + 10) as nat
    } else {
        0
    }
}

/// The number that the digits `s` write in the given radix, most significant digit first
pub open spec fn digits_value(s: Seq<u8>, radix: nat) -> nat
    decreases s.len(),
{
    if s.len() == 0 {
        0
    } else {
        digits_value(s.drop_last(), radix) * radix + digit_of(s.last())
    }
}

/// A number is at least the number that any prefix of its digits writes
pub proof fn lemma_digits_value_prefix(s: Seq<u8>, radix: nat, i: int)
    requires
        0 <= i <= s.len(),
        radix >= 1,
    ensures
        digits_value(s.subrange(0, i), radix) <= digits_value(s, radix),
    decreases s.len(),
{
    if i == s.len() {
        assert(s.subrange(0, i) =~= s);
    } else {
        lemma_digits_value_prefix(s.drop_last(), radix, i);
        assert(s.drop_last().subrange(0, i) =~= s.subrange(0, i));
        let v = digits_value(s.drop_last(), radix);
        assert(v * radix >= v) by (nonlinear_arith)
            requires
                radix >= 1,
                v >= 0,
        ;
    }
}

/// Reads the digits `src[from..to]` in the given radix, unless they write more than `max`
fn read_digits(src: &[u8], from: usize, to: usize, radix: u64, max: u64) -> (r: Option<u64>)
    requires
        from <= to <= src@.len(),
        radix == 10 || radix == 16,
        forall|k: int| from <= k < to ==> is_hex_digit(#[trigger] src@[k]),
    ensures
        r == if digits_value(src@.subrange(from as int, to as int), radix as nat) <= max {
            Some(digits_value(src@.subrange(from as int, to as int), radix as nat) as u64)
        } else {
            None
        },
{
    let ghost all = src@.subrange(from as int, to as int);
    let mut acc: u64 = 0;
    let mut i: usize = from;
    assert(all.subrange(0, 0) =~= Seq::<u8>::empty());
    while i < to
        invariant
            from <= i <= to <= src@.len(),
            radix == 10 || radix == 16,
            all == src@.subrange(from as int, to as int),
            forall|k: int| from <= k < to ==> is_hex_digit(#[trigger] src@[k]),
            acc == digits_value(all.subrange(0, i - from), radix as nat),
            acc <= max,
        decreases to - i,
    {
        let b = src[i];
        let d: u64 = if '0' as u8 <= b && b <= '9' as u8 {
            (b - '0' as u8) as u64
        } else if 'a' as u8 <= b && b <= 'f' as u8 {
            (b - 'a' as u8 + 10) as u64
        } else {
            (b - 'A' as u8 + 10) as u64
        };
        assert(d == digit_of(b));
        assert(acc as u128 * radix as u128 <= 0xffff_ffff_ffff_ffff * 16) by (nonlinear_arith)
            requires
                acc <= 0xffff_ffff_ffff_ffff,
                radix <= 16,
        ;
        let next: u128 = acc as u128 * radix as u128 + d as u128;
        proof {
            let pre = all.subrange(0, i + 1 - from);
            assert(pre.drop_last() =~= all.subrange(0, i - from));
            assert(pre.last() == b);
            assert(next == digits_value(pre, radix as nat));
            lemma_digits_value_prefix(all, radix as nat, i + 1 - from);
        }
        if next > max as u128 {
            return None;
        }
        acc = next as u64;
        i += 1;
    }
    assert(all.subrange(0, i - from) =~= all);
    Some(acc)
}

/// Scans the inside of a quoted literal from position `i` on, with the bytes `acc` already
/// read: the bytes up to the closing quote, `''` standing for one quote, and the position
/// after the closing quote; or nothing if the literal is never closed
pub open spec fn quoted(src: Seq<u8>, i: int, acc: Seq<u8>) -> Option<(Seq<u8>, int)>
    decreases src.len() - i,
{
    if i < 0 || i >= src.len() {
        None
    } else if src[i] == '\'' as u8 {
        if i + 1 < src.len() && src[i + 1] == '\'' as u8 {
            quoted(src, i + 2, acc.push('\'' as u8))
        } else {
            Some((acc, i + 1))
        }
    } else {
        quoted(src, i + 1, acc.push(src[i]))
    }
}

/// A quoted literal ends after the position at which its inside begins, and within the
/// text
pub proof fn lemma_quoted_advances(src: Seq<u8>, i: int, acc: Seq<u8>)
    requires
        0 <= i,
    ensures
        quoted(src, i, acc) matches Some((_, n)) ==> i < n <= src.len(),
    decreases src.len() - i,
{
    if i < src.len() {
        if src[i] == '\'' as u8 {
            if i + 1 < src.len() && src[i + 1] == '\'' as u8 {
                lemma_quoted_advances(src, i + 2, acc.push('\'' as u8));
            }
        } else {
            lemma_quoted_advances(src, i + 1, acc.push(src[i]));
        }
    }
}

/// Reads the inside of a quoted literal that begins at `from`
fn read_quoted(src: &[u8], from: usize) -> (r: Option<(Vec<u8>, usize)>)
    requires
        from <= src@.len(),
    ensures
        match quoted(src@, from as int, Seq::empty()) {
            Some((bytes, n)) => r matches Some((v, m)) && v@ == bytes && m == n,
            None => r is None,
        },
{
    let mut acc: Vec<u8> = Vec::new();
    let mut i: usize = from;
    while i < src.len()
        invariant
            from <= i <= src@.len(),
            quoted(src@, from as int, Seq::empty()) == quoted(src@, i as int, acc@),
        decreases src@.len() - i,
    {
        let b = src[i];
        if b == '\'' as u8 {
            if i + 1 < src.len() && src[i + 1] == '\'' as u8 {
                acc.push(b);
                i += 2;
            } else {
                return Some((acc, i + 1));
            }
        } else {
            acc.push(b);
            i += 1;
        }
    }
    None
}

/// What stands at one position of the query text
pub enum Step {
    /// A separator; the next token begins at or after this position
    Skip(int),
    /// A token, and the position after it
    Emit(TokenView, int),
    /// No token
    Fail(LexError),
}

/// Whether the byte at `e`, if there is one, would continue a word
pub open spec fn word_follows(src: Seq<u8>, e: int) -> bool {
    0 <= e < src.len() && in_class(ByteClass::Word, src[e])
}

/// The unsigned integer that begins with the digit at `p`.
///
/// `0x` or `0X` announces hexadecimal digits, of which there must be one at least. The
/// number must fit 64 bits, and no letter, digit or `_` may follow it.
pub open spec fn number_at(src: Seq<u8>, p: int) -> Step {
    if src[p] == '0' as u8 && p + 1 < src.len() && lower(src[p + 1]) == 'x' as u8 {
        let e = run_end(src, p + 2, ByteClass::HexDigit);
        let v = digits_value(src.subrange(p + 2, e), 16);
        if e == p + 2 || word_follows(src, e) || v > u64::MAX {
            Step::Fail(LexError::BadNumber(p as usize))
        } else {
            Step::Emit(TokenView::Lit(Value::UnsignedInt(v as u64)), e)
        }
    } else {
        let e = run_end(src, p, ByteClass::Digit);
        let v = digits_value(src.subrange(p, e), 10);
        if word_follows(src, e) || v > u64::MAX {
            Step::Fail(LexError::BadNumber(p as usize))
        } else {
            Step::Emit(TokenView::Lit(Value::UnsignedInt(v as u64)), e)
        }
    }
}

/// The signed integer that begins with the `-` at `p`, which a digit follows.
///
/// The number must be at least -2^63, and no letter, digit or `_` may follow it.
pub open spec fn negative_at(src: Seq<u8>, p: int) -> Step {
    let e = run_end(src, p + 1, ByteClass::Digit);
    let v = digits_value(src.subrange(p + 1, e), 10);
    if word_follows(src, e) || v > 0x8000_0000_0000_0000 {
        Step::Fail(LexError::BadNumber(p as usize))
    } else {
        Step::Emit(TokenView::Lit(Value::SignedInt((-v) as i64)), e)
    }
}

/// Whether the word `src[p..e]` is a part of a qualified name: a period stands right
/// before it or right after it
pub open spec fn qualified(src: Seq<u8>, p: int, e: int) -> bool {
    (0 < p <= src.len() && src[p - 1] == '.' as u8) || (0 <= e < src.len() && src[e]
        == '.' as u8)
}

/// The word that begins with the letter at `p`.
///
/// A part of a qualified name is an identifier whatever it spells, so that a space or a
/// model may bear the name of a keyword: `space.model` is two identifiers.
pub open spec fn word_at(src: Seq<u8>, p: int, safe: bool) -> Step {
    let e = run_end(src, p, ByteClass::Word);
    let word = src.subrange(p, e);
    let kind = if qualified(src, p, e) {
        Word::Ident
    } else {
        word_of(lowered(word))
    };
    match kind {
        Word::Keyword(k) => Step::Emit(TokenView::Keyword(k), e),
        Word::Ident => Step::Emit(TokenView::Ident(word), e),
        Word::True => if safe {
            Step::Fail(LexError::LiteralNotAllowed(p as usize))
        } else {
            Step::Emit(TokenView::Lit(Value::Bool(true)), e)
        },
        Word::False => if safe {
            Step::Fail(LexError::LiteralNotAllowed(p as usize))
        } else {
            Step::Emit(TokenView::Lit(Value::Bool(false)), e)
        },
        Word::Null => if safe {
            Step::Fail(LexError::LiteralNotAllowed(p as usize))
        } else {
            Step::Emit(TokenView::Lit(Value::Null), e)
        },
    }
}

/// The symbol that begins at `p`
pub open spec fn symbol_at(src: Seq<u8>, p: int) -> Step {
    let b = src[p];
    let eq_follows = p + 1 < src.len() && src[p + 1] == '=' as u8;
    if b == '.' as u8 {
        Step::Emit(TokenView::Symbol(Symbol::SymPeriod), p + 1)
    } else if b == ',' as u8 {
        Step::Emit(TokenView::Symbol(Symbol::SymComma), p + 1)
    } else if b == '(' as u8 {
        Step::Emit(TokenView::Symbol(Symbol::SymOpenParen), p + 1)
    } else if b == ')' as u8 {
        Step::Emit(TokenView::Symbol(Symbol::SymCloseParen), p + 1)
    } else if b == '[' as u8 {
        Step::Emit(TokenView::Symbol(Symbol::SymOpenBracket), p + 1)
    } else if b == ']' as u8 {
        Step::Emit(TokenView::Symbol(Symbol::SymCloseBracket), p + 1)
    } else if b == '{' as u8 {
        Step::Emit(TokenView::Symbol(Symbol::SymOpenBrace), p + 1)
    } else if b == '}' as u8 {
        Step::Emit(TokenView::Symbol(Symbol::SymCloseBrace), p + 1)
    } else if b == ';' as u8 {
        Step::Emit(TokenView::Symbol(Symbol::SymSemicolon), p + 1)
    } else if b == '*' as u8 {
        Step::Emit(TokenView::Symbol(Symbol::SymAsterisk), p + 1)
    } else if b == '=' as u8 {
        Step::Emit(TokenView::Symbol(Symbol::OpEq), p + 1)
    } else if b == '<' as u8 {
        if eq_follows {
            Step::Emit(TokenView::Symbol(Symbol::OpLe), p + 2)
        } else {
            Step::Emit(TokenView::Symbol(Symbol::OpLt), p + 1)
        }
    } else if b == '>' as u8 {
        if eq_follows {
            Step::Emit(TokenView::Symbol(Symbol::OpGe), p + 2)
        } else {
            Step::Emit(TokenView::Symbol(Symbol::OpGt), p + 1)
        }
    } else if b == '!' as u8 {
        if eq_follows {
            Step::Emit(TokenView::Symbol(Symbol::OpNe), p + 2)
        } else {
            Step::Fail(LexError::UnknownToken(p as usize))
        }
    } else {
        Step::Fail(LexError::UnexpectedByte(p as usize))
    }
}

/// What stands at position `p` of the query text `src`, where `0 <= p < src.len()`.
///
/// In the safe mode a literal is rejected where it begins, whether or not it is well
/// formed.
pub open spec fn token_at(src: Seq<u8>, p: int, safe: bool) -> Step {
    let b = src[p];
    let quote_follows = p + 1 < src.len() && src[p + 1] == '\'' as u8;
    let digit_follows = p + 1 < src.len() && is_digit(src[p + 1]);
    if is_space(b) {
        Step::Skip(p + 1)
    } else if b == '\r' as u8 {
        Step::Emit(TokenView::IgnorableComma, p + 1)
    } else if b == '?' as u8 {
        Step::Emit(TokenView::Placeholder, p + 1)
    } else if (b == 'b' as u8 && quote_follows) || b == '\'' as u8 {
        let binary = b == 'b' as u8;
        let inside = if binary {
            p + 2
        } else {
            p + 1
        };
        if safe {
            Step::Fail(LexError::LiteralNotAllowed(p as usize))
        } else {
            match quoted(src, inside, Seq::empty()) {
                Some((bytes, n)) => if binary {
                    Step::Emit(TokenView::Lit(Value::Bin(bytes)), n)
                } else {
                    Step::Emit(TokenView::Lit(Value::Str(bytes)), n)
                },
                None => Step::Fail(LexError::UnterminatedString(p as usize)),
            }
        }
    } else if is_letter(b) {
        word_at(src, p, safe)
    } else if is_digit(b) {
        if safe {
            Step::Fail(LexError::LiteralNotAllowed(p as usize))
        } else {
            number_at(src, p)
        }
    } else if b == '-' as u8 {
        if !digit_follows {
            Step::Fail(LexError::UnknownToken(p as usize))
        } else if safe {
            Step::Fail(LexError::LiteralNotAllowed(p as usize))
        } else {
            negative_at(src, p)
        }
    } else {
        symbol_at(src, p)
    }
}

/// A token is not empty, and ends within the text
pub proof fn lemma_token_advances(src: Seq<u8>, p: int, safe: bool)
    requires
        0 <= p < src.len(),
    ensures
        token_at(src, p, safe) matches Step::Skip(n) ==> p < n <= src.len(),
        token_at(src, p, safe) matches Step::Emit(_, n) ==> p < n <= src.len(),
{
    lemma_run_end(src, p, ByteClass::Word);
    lemma_run_end(src, p, ByteClass::Digit);
    lemma_run_end(src, p + 1, ByteClass::Digit);
    if p + 2 <= src.len() {
        lemma_run_end(src, p + 2, ByteClass::HexDigit);
    }
    lemma_quoted_advances(src, p + 1, Seq::empty());
    lemma_quoted_advances(src, p + 2, Seq::empty());
}

/// The tokens of the text from position `p` on, after the tokens `acc`
pub open spec fn lex_from(src: Seq<u8>, p: int, safe: bool, acc: Seq<TokenView>) -> Result<
    Seq<TokenView>,
    LexError,
>
    decreases src.len() - p,
{
    if p < 0 || p >= src.len() {
        Ok(acc)
    } else {
        proof {
            lemma_token_advances(src, p, safe);
        }
        match token_at(src, p, safe) {
            Step::Skip(n) => lex_from(src, n, safe, acc),
            Step::Emit(t, n) => lex_from(src, n, safe, acc.push(t)),
            Step::Fail(e) => Err(e),
        }
    }
}

/// The tokens of a query text, or the first lexical error in it
pub open spec fn lex_spec(src: Seq<u8>, safe: bool) -> Result<Seq<TokenView>, LexError> {
    lex_from(src, 0, safe, Seq::empty())
}

/// What the safe mode lets through is what the insecure mode makes of it, and is no
/// literal; where it fails, the insecure mode fails alike, unless a literal begins there
pub proof fn lemma_safe_step(src: Seq<u8>, p: int)
    requires
        0 <= p < src.len(),
    ensures
        match token_at(src, p, true) {
            Step::Skip(n) => token_at(src, p, false) == Step::Skip(n),
            Step::Emit(t, n) => token_at(src, p, false) == Step::Emit(t, n) && !(t is Lit),
            Step::Fail(e) => e == LexError::LiteralNotAllowed(p as usize) || token_at(
                src,
                p,
                false,
            ) == Step::Fail(e),
        },
{
}

/// [`lemma_safe_mode`], from any position on
pub proof fn lemma_safe_mode_from(src: Seq<u8>, p: int, acc: Seq<TokenView>)
    requires
        0 <= p,
        forall|i: int| 0 <= i < acc.len() ==> !(#[trigger] acc[i] is Lit),
    ensures
        match lex_from(src, p, true, acc) {
            Ok(tokens) => {
                &&& lex_from(src, p, false, acc) == Ok::<Seq<TokenView>, LexError>(tokens)
                &&& forall|i: int| 0 <= i < tokens.len() ==> !(#[trigger] tokens[i] is Lit)
            },
            Err(e) => e is LiteralNotAllowed || lex_from(src, p, false, acc) == Err::<
                Seq<TokenView>,
                LexError,
            >(e),
        },
    decreases src.len() - p,
{
    if p < src.len() {
        lemma_safe_step(src, p);
        lemma_token_advances(src, p, true);
        match token_at(src, p, true) {
            Step::Skip(n) => lemma_safe_mode_from(src, n, acc),
            Step::Emit(t, n) => lemma_safe_mode_from(src, n, acc.push(t)),
            Step::Fail(_) => {},
        }
    }
}

/// The two modes are one grammar. A text that lexes in the safe mode lexes to the same
/// tokens in the insecure mode, and none of them is a literal. A text that the safe mode
/// rejects for another reason than a literal is rejected by the insecure mode for the
/// same reason.
pub proof fn lemma_safe_mode(src: Seq<u8>)
    ensures
        match lex_spec(src, true) {
            Ok(tokens) => {
                &&& lex_spec(src, false) == Ok::<Seq<TokenView>, LexError>(tokens)
                &&& forall|i: int| 0 <= i < tokens.len() ==> !(#[trigger] tokens[i] is Lit)
            },
            Err(e) => e is LiteralNotAllowed || lex_spec(src, false) == Err::<
                Seq<TokenView>,
                LexError,
            >(e),
        },
{
    lemma_safe_mode_from(src, 0, Seq::empty());
}

/// Whether `r` is what the step `step` calls for
pub open spec fn step_agrees<'a>(r: LexResult<(Option<Token<'a>>, usize)>, step: Step) -> bool {
    match step {
        Step::Skip(n) => r matches Ok((None, m)) && m == n,
        Step::Emit(t, n) => r matches Ok((Some(tok), m)) && tok@ == t && m == n,
        Step::Fail(e) => r == Err::<(Option<Token<'a>>, usize), LexError>(e),
    }
}

/// Reads the unsigned integer that begins at `p`
fn read_number<'a>(src: &'a [u8], p: usize) -> (r: LexResult<(Option<Token<'a>>, usize)>)
    requires
        p < src@.len(),
        is_digit(src@[p as int]),
    ensures
        step_agrees(r, number_at(src@, p as int)),
{
    let hex = src[p] == '0' as u8 && p + 1 < src.len() && (src[p + 1] == 'x' as u8 || src[p + 1]
        == 'X' as u8);
    let (from, e, radix): (usize, usize, u64) = if hex {
        (p + 2, scan_run(src, p + 2, ByteClass::HexDigit), 16)
    } else {
        (p, scan_run(src, p, ByteClass::Digit), 10)
    };
    proof {
        lemma_run_end(src@, from as int, ByteClass::HexDigit);
        lemma_run_end(src@, from as int, ByteClass::Digit);
    }
    if e == from || (e < src.len() && byte_in_class(ByteClass::Word, src[e])) {
        return Err(LexError::BadNumber(p));
    }
    match read_digits(src, from, e, radix, u64::MAX) {
        Some(v) => Ok((Some(Token::Lit(Lit::UnsignedInt(v))), e)),
        None => Err(LexError::BadNumber(p)),
    }
}

/// Reads the signed integer that begins with the `-` at `p`
fn read_negative<'a>(src: &'a [u8], p: usize) -> (r: LexResult<(Option<Token<'a>>, usize)>)
    requires
        p + 1 < src@.len(),
    ensures
        step_agrees(r, negative_at(src@, p as int)),
{
    proof {
        vstd::slice::axiom_spec_len(src);
    }
    let e = scan_run(src, p + 1, ByteClass::Digit);
    proof {
        lemma_run_end(src@, p + 1, ByteClass::Digit);
    }
    if e < src.len() && byte_in_class(ByteClass::Word, src[e]) {
        return Err(LexError::BadNumber(p));
    }
    match read_digits(src, p + 1, e, 10, 0x8000_0000_0000_0000) {
        Some(v) => {
            let n: i64 = if v == 0x8000_0000_0000_0000 {
                i64::MIN
            } else {
                -(v as i64)
            };
            Ok((Some(Token::Lit(Lit::SignedInt(n))), e))
        },
        None => Err(LexError::BadNumber(p)),
    }
}

/// Reads the word that begins at `p`
fn read_word<'a>(src: &'a [u8], p: usize, safe: bool) -> (r: LexResult<
    (Option<Token<'a>>, usize),
>)
    requires
        p < src@.len(),
    ensures
        step_agrees(r, word_at(src@, p as int, safe)),
{
    let e = scan_run(src, p, ByteClass::Word);
    let word = &src[p..e];
    let qualified = (p > 0 && src[p - 1] == '.' as u8) || (e < src.len() && src[e]
        == '.' as u8);
    let kind = if qualified {
        Word::Ident
    } else {
        classify(word)
    };
    match kind {
        Word::Keyword(k) => Ok((Some(Token::Keyword(k)), e)),
        Word::Ident => Ok((Some(Token::Ident(word)), e)),
        Word::True => if safe {
            Err(LexError::LiteralNotAllowed(p))
        } else {
            Ok((Some(Token::Lit(Lit::Bool(true))), e))
        },
        Word::False => if safe {
            Err(LexError::LiteralNotAllowed(p))
        } else {
            Ok((Some(Token::Lit(Lit::Bool(false))), e))
        },
        Word::Null => if safe {
            Err(LexError::LiteralNotAllowed(p))
        } else {
            Ok((Some(Token::Lit(Lit::Null)), e))
        },
    }
}

/// Reads the symbol that begins at `p`
fn read_symbol<'a>(src: &'a [u8], p: usize) -> (r: LexResult<(Option<Token<'a>>, usize)>)
    requires
        p < src@.len(),
    ensures
        step_agrees(r, symbol_at(src@, p as int)),
{
    let b = src[p];
    let eq_follows = p + 1 < src.len() && src[p + 1] == '=' as u8;
    let (sym, len): (Symbol, usize) = if b == '.' as u8 {
        (Symbol::SymPeriod, 1)
    } else if b == ',' as u8 {
        (Symbol::SymComma, 1)
    } else if b == '(' as u8 {
        (Symbol::SymOpenParen, 1)
    } else if b == ')' as u8 {
        (Symbol::SymCloseParen, 1)
    } else if b == '[' as u8 {
        (Symbol::SymOpenBracket, 1)
    } else if b == ']' as u8 {
        (Symbol::SymCloseBracket, 1)
    } else if b == '{' as u8 {
        (Symbol::SymOpenBrace, 1)
    } else if b == '}' as u8 {
        (Symbol::SymCloseBrace, 1)
    } else if b == ';' as u8 {
        (Symbol::SymSemicolon, 1)
    } else if b == '*' as u8 {
        (Symbol::SymAsterisk, 1)
    } else if b == '=' as u8 {
        (Symbol::OpEq, 1)
    } else if b == '<' as u8 {
        if eq_follows {
            (Symbol::OpLe, 2)
        } else {
            (Symbol::OpLt, 1)
        }
    } else if b == '>' as u8 {
        if eq_follows {
            (Symbol::OpGe, 2)
        } else {
            (Symbol::OpGt, 1)
        }
    } else if b == '!' as u8 {
        if eq_follows {
            (Symbol::OpNe, 2)
        } else {
            return Err(LexError::UnknownToken(p));
        }
    } else {
        return Err(LexError::UnexpectedByte(p));
    };
    Ok((Some(Token::Symbol(sym)), p + len))
}

/// Reads what stands at position `p`: a separator, a token, or nothing that the grammar
/// knows
pub fn next_token<'a>(src: &'a [u8], p: usize, safe: bool) -> (r: LexResult<
    (Option<Token<'a>>, usize),
>)
    requires
        p < src@.len(),
    ensures
        step_agrees(r, token_at(src@, p as int, safe)),
{
    let b = src[p];
    let quote_follows = p + 1 < src.len() && src[p + 1] == '\'' as u8;
    if b == ' ' as u8 || b == '\t' as u8 || b == '\n' as u8 {
        Ok((None, p + 1))
    } else if b == '\r' as u8 {
        Ok((Some(Token::IgnorableComma), p + 1))
    } else if b == '?' as u8 {
        Ok((Some(Token::Placeholder), p + 1))
    } else if (b == 'b' as u8 && quote_follows) || b == '\'' as u8 {
        if safe {
            return Err(LexError::LiteralNotAllowed(p));
        }
        let binary = b == 'b' as u8;
        let inside = if binary {
            p + 2
        } else {
            p + 1
        };
        match read_quoted(src, inside) {
            Some((bytes, n)) => if binary {
                Ok((Some(Token::Lit(Lit::Bin(bytes))), n))
            } else {
                Ok((Some(Token::Lit(Lit::Str(bytes))), n))
            },
            None => Err(LexError::UnterminatedString(p)),
        }
    } else if byte_in_class(ByteClass::Word, b) && !byte_in_class(ByteClass::Digit, b) {
        read_word(src, p, safe)
    } else if byte_in_class(ByteClass::Digit, b) {
        if safe {
            Err(LexError::LiteralNotAllowed(p))
        } else {
            read_number(src, p)
        }
    } else if b == '-' as u8 {
        if !(p + 1 < src.len() && byte_in_class(ByteClass::Digit, src[p + 1])) {
            Err(LexError::UnknownToken(p))
        } else if safe {
            Err(LexError::LiteralNotAllowed(p))
        } else {
            read_negative(src, p)
        }
    } else {
        read_symbol(src, p)
    }
}

/// Whether `r` is what `expected` calls for
pub open spec fn lex_agrees<'a>(
    r: LexResult<Vec<Token<'a>>>,
    expected: Result<Seq<TokenView>, LexError>,
) -> bool {
    match expected {
        Ok(tokens) => r matches Ok(v) && views(v@) == tokens,
        Err(e) => r matches Err(x) && x == e,
    }
}

/// Lexes a query text, in the safe mode or in the insecure one
pub fn lex<'a>(src: &'a [u8], safe: bool) -> (r: LexResult<Vec<Token<'a>>>)
    ensures
        lex_agrees(r, lex_spec(src@, safe)),
{
    let mut tokens: Vec<Token<'a>> = Vec::new();
    let mut p: usize = 0;
    assert(views(tokens@) =~= Seq::<TokenView>::empty());
    while p < src.len()
        invariant
            p <= src@.len(),
            lex_spec(src@, safe) == lex_from(src@, p as int, safe, views(tokens@)),
        decreases src@.len() - p,
    {
        proof {
            lemma_token_advances(src@, p as int, safe);
        }
        let ghost before = tokens@;
        match next_token(src, p, safe) {
            Ok((Some(tok), n)) => {
                tokens.push(tok);
                assert(views(tokens@) =~= views(before).push(tok@));
                p = n;
            },
            Ok((None, n)) => {
                p = n;
            },
            Err(e) => {
                return Err(e);
            },
        }
    }
    Ok(tokens)
}

/// Lexes a query text that may hold literals
pub fn lex_insecure<'a>(src: &'a [u8]) -> (r: LexResult<Vec<Token<'a>>>)
    ensures
        lex_agrees(r, lex_spec(src@, false)),
{
    lex(src, false)
}

/// Lexes a query text whose values are supplied apart from it: every literal in the text
/// is rejected with `LiteralNotAllowed`
pub fn lex_secure<'a>(src: &'a [u8]) -> (r: LexResult<Vec<Token<'a>>>)
    ensures
        lex_agrees(r, lex_spec(src@, true)),
{
    lex(src, true)
}

} // verus!
