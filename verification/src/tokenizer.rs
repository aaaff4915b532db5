//! A naive tokenizer for interactive input.
//!
//! The input line is split on spaces. A run that begins with a single or a double quote
//! extends to the matching quote and is passed on without the quotes. An argument may not
//! begin with an ASCII digit.
use vstd::prelude::*;
use skytable::types::RawString;
use skytable::Query;

verus! {

/// The ways in which an input line can be rejected
#[derive(Debug)]
pub enum TokenizerError {
    /// A quote was opened and never closed; holds the text after the opening quote
    QuoteMismatch(String),
    /// An argument begins with a digit; holds the text up to and including that digit
    BadExpression(String),
}

/// `format!` with three texts in a row: the result is the three texts joined.
#[verifier::external_body]
fn join3(a: &str, b: &str, c: &str) -> (s: String)
    ensures
        s@ == a@ + b@ + c@,
{
    format!("{}{}{}", a, b, c)
}

impl TokenizerError {
    /// The error in words: what went wrong, and the text near which it did
    pub fn message(&self) -> (s: String)
        ensures
            s@ == match self {
                TokenizerError::QuoteMismatch(expr) => "mismatched quotes near end of: `"@
                    + expr@ + "`"@,
                TokenizerError::BadExpression(expr) => "bad expression near end of: `"@
                    + expr@ + "`"@,
            },
    {
        match self {
            TokenizerError::QuoteMismatch(expr) => join3(
                "mismatched quotes near end of: `",
                expr.as_str(),
                "`",
            ),
            TokenizerError::BadExpression(expr) => join3(
                "bad expression near end of: `",
                expr.as_str(),
                "`",
            ),
        }
    }
}

/// What scanning an input line amounts to, in terms of positions in the line
pub enum Scan {
    /// Every byte was consumed; these are the arguments in order
    Done(Seq<Seq<u8>>),
    /// An argument begins with a digit; the offending prefix has this length
    BadExpression(int),
    /// A quote is never closed; the quoted text begins at this position
    QuoteMismatch(int),
}

/// The position of the first occurrence of `byte` in `inp` at or after `from`, or the
/// length of `inp` if there is none
pub open spec fn first_at(inp: Seq<u8>, from: int, byte: u8) -> int
    decreases inp.len() - from,
{
    if from < 0 || from >= inp.len() {
        inp.len() as int
    } else if inp[from] == byte {
        from
    } else {
        first_at(inp, from + 1, byte)
    }
}

/// An ASCII digit
pub open spec fn is_digit(b: u8) -> bool {
    '0' as u8 <= b <= '9' as u8
}

/// A single or a double quote
pub open spec fn is_quote(b: u8) -> bool {
    b == '\'' as u8 || b == '"' as u8
}

/// Scans `inp` from position `p` on, with the arguments `acc` already collected.
///
/// - a digit at the start of an argument ends the scan with `BadExpression`;
/// - a quote opens a run that ends before the next occurrence of the same quote, and the
///   scan goes on right after that quote; without one the scan ends with `QuoteMismatch`;
/// - a space is skipped;
/// - any other byte opens a run that extends to the next space (or the end of the line),
///   and that space is consumed with it.
pub open spec fn scan_from(inp: Seq<u8>, p: int, acc: Seq<Seq<u8>>) -> Scan
    decreases inp.len() - p,
{
    if p < 0 || p >= inp.len() {
        Scan::Done(acc)
    } else if is_digit(inp[p]) {
        Scan::BadExpression(p + 1)
    } else if is_quote(inp[p]) {
        let q = first_at(inp, p + 1, inp[p]);
        proof {
            lemma_first_at_bounds(inp, p + 1, inp[p]);
        }
        if q < inp.len() {
            scan_from(inp, q + 1, acc.push(inp.subrange(p + 1, q)))
        } else {
            Scan::QuoteMismatch(p + 1)
        }
    } else if inp[p] == ' ' as u8 {
        scan_from(inp, p + 1, acc)
    } else {
        let e = first_at(inp, p, ' ' as u8);
        proof {
            lemma_first_at_bounds(inp, p, ' ' as u8);
        }
        if e < inp.len() {
            scan_from(inp, e + 1, acc.push(inp.subrange(p, e)))
        } else {
            Scan::Done(acc.push(inp.subrange(p, e)))
        }
    }
}

/// The scan of a whole line
pub open spec fn scan(inp: Seq<u8>) -> Scan {
    scan_from(inp, 0, Seq::empty())
}

/// `first_at` finds the first occurrence: it lies between `from` and the end, the byte
/// stands there unless it is the end, and the byte stands nowhere before it
pub proof fn lemma_first_at_bounds(inp: Seq<u8>, from: int, byte: u8)
    requires
        0 <= from <= inp.len(),
    ensures
        from <= first_at(inp, from, byte) <= inp.len(),
        first_at(inp, from, byte) < inp.len() ==> inp[first_at(inp, from, byte)] == byte,
        forall|k: int| from <= k < first_at(inp, from, byte) ==> inp[k] != byte,
    decreases inp.len() - from,
{
    if from < inp.len() && inp[from] != byte {
        lemma_first_at_bounds(inp, from + 1, byte);
    }
}

/// A query that is built one argument at a time
pub trait SequentialQuery: Sized {
    /// The arguments pushed so far, in order
    spec fn items(&self) -> Seq<Seq<u8>>;

    /// Appends one argument
    fn push(&mut self, input: &[u8])
        ensures
            final(self).items() == old(self).items().push(input@),
    ;

    /// A query without arguments
    fn new() -> (q: Self)
        ensures
            q.items() == Seq::<Seq<u8>>::empty(),
    ;
}

impl SequentialQuery for Vec<Vec<u8>> {
    open spec fn items(&self) -> Seq<Seq<u8>> {
        Seq::new(self@.len(), |i: int| self@[i]@)
    }

    fn push(&mut self, input: &[u8]) {
        let arg = vstd::slice::slice_to_vec(input);
        Vec::push(self, arg);
        assert(self.items() =~= old(self).items().push(input@));
    }

    fn new() -> (q: Self) {
        let q: Vec<Vec<u8>> = Vec::new();
        assert(q.items() =~= Seq::<Seq<u8>>::empty());
        q
    }
}

/// `skytable::Query`: a query for the server, built of arguments. What it holds is spoken
/// of through [`query_args`].
#[verifier::external_type_specification]
#[verifier::external_body]
pub struct ExQuery(Query);

/// The arguments that a [`Query`] holds, in the order in which they were added
pub uninterp spec fn query_args(q: Query) -> Seq<Seq<u8>>;

/// `Query::new`: the new query holds no argument.
#[verifier::external_body]
fn query_new() -> (q: Query)
    ensures
        query_args(q) == Seq::<Seq<u8>>::empty(),
{
    Query::new()
}

/// `Query::push` with a `RawString`: the bytes become the query's last argument, and the
/// arguments before it stay as they are. The bytes may be empty: the query takes an empty
/// argument like any other.
#[verifier::external_body]
fn query_push(q: &mut Query, arg: &[u8])
    ensures
        query_args(*final(q)) == query_args(*old(q)).push(arg@),
{
    q.push(RawString::from(arg.to_owned()))
}

impl SequentialQuery for Query {
    open spec fn items(&self) -> Seq<Seq<u8>> {
        query_args(*self)
    }

    fn push(&mut self, input: &[u8]) {
        query_push(self, input)
    }

    fn new() -> (q: Self) {
        query_new()
    }
}

/// The text that `String::from_utf8_lossy` makes of a byte string
pub uninterp spec fn utf8_lossy(bytes: Seq<u8>) -> Seq<char>;

/// `String::from_utf8_lossy`: the result is a function of the bytes alone, here called
/// [`utf8_lossy`]. Nothing more is claimed of it.
#[verifier::external_body]
fn string_from_utf8_lossy(bytes: &[u8]) -> (s: String)
    ensures
        s@ == utf8_lossy(bytes@),
{
    String::from_utf8_lossy(bytes).into_owned()
}

/// Finds the first occurrence of `byte` at or after `from`
fn find_byte(inp: &[u8], from: usize, byte: u8) -> (q: usize)
    requires
        from <= inp@.len(),
    ensures
        q == first_at(inp@, from as int, byte),
        from <= q <= inp@.len(),
{
    let mut q: usize = from;
    while q < inp.len() && inp[q] != byte
        invariant
            from <= q <= inp@.len(),
            first_at(inp@, from as int, byte) == first_at(inp@, q as int, byte),
        decreases inp@.len() - q,
    {
        q += 1;
    }
    q
}

/// Whether `r` is what the scan `s` of `inp` calls for
pub open spec fn agrees<T: SequentialQuery>(
    r: Result<T, TokenizerError>,
    inp: Seq<u8>,
    s: Scan,
) -> bool {
    match s {
        Scan::Done(items) => r matches Ok(q) && q.items() == items,
        Scan::BadExpression(n) => r matches Err(TokenizerError::BadExpression(text)) && text@
            == utf8_lossy(inp.subrange(0, n)),
        Scan::QuoteMismatch(n) => r matches Err(TokenizerError::QuoteMismatch(text)) && text@
            == utf8_lossy(inp.subrange(n, inp.len() as int)),
    }
}

/// Splits an input line into the arguments of a query.
///
/// The result is the one that [`scan`] describes: the query holding the arguments in
/// order, or the error with the text near which the line went wrong.
pub fn get_query<T: SequentialQuery>(inp: &[u8]) -> (r: Result<T, TokenizerError>)
    requires
        inp@.len() > 0,
    ensures
        agrees(r, inp@, scan(inp@)),
{
    let mut query = T::new();
    let mut pos: usize = 0;
    while pos < inp.len()
        invariant
            pos <= inp@.len(),
            scan(inp@) == scan_from(inp@, pos as int, query.items()),
        decreases inp@.len() - pos,
    {
        let tok = inp[pos];
        if '0' as u8 <= tok && tok <= '9' as u8 {
            let text = string_from_utf8_lossy(&inp[0..pos + 1]);
            return Err(TokenizerError::BadExpression(text));
        } else if tok == '\'' as u8 || tok == '"' as u8 {
            // a quoted run: find where it ends
            let q = find_byte(inp, pos + 1, tok);
            if q < inp.len() {
                query.push(&inp[pos + 1..q]);
                pos = q + 1;
            } else {
                let text = string_from_utf8_lossy(&inp[pos + 1..inp.len()]);
                return Err(TokenizerError::QuoteMismatch(text));
            }
        } else if tok == ' ' as u8 {
            pos += 1;
        } else {
            // a plain run: it extends to the next space
            let e = find_byte(inp, pos, ' ' as u8);
            query.push(&inp[pos..e]);
            if e < inp.len() {
                pos = e + 1;
            } else {
                return Ok(query);
            }
        }
    }
    Ok(query)
}

} // verus!
