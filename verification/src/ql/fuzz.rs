//! A very basic fuzzer for the comma rules of the grammar.
//!
//! A query text marks the places where the grammar takes one comma (`,`) and those where it
//! takes a comma or none (the carriage return, which lexes to `IgnorableComma`). The fuzzer
//! puts a random number of commas at each of these places and hands the tokens to a
//! function under test, with the verdict that they should get.
use vstd::prelude::*;
use rand::rngs::ThreadRng;
use rand::Rng;
use crate::error::LexError;
use crate::ql::lex::{lex_insecure, lex_spec, views, Symbol, Token, TokenView};

verus! {

/// `rand::rngs::ThreadRng`: a random number generator, of whose state nothing is known
/// here.
#[verifier::external_type_specification]
#[verifier::external_body]
pub struct ExThreadRng(ThreadRng);

/// `rand::thread_rng`: the random number generator of this thread. Nothing is claimed of
/// it.
#[verifier::external_body]
fn thread_rng() -> ThreadRng {
    rand::thread_rng()
}

/// `Rng::gen_range` over `min..max`: the number drawn is at least `min` and less than
/// `max`. An empty range is left out, on which `gen_range` panics.
#[verifier::external_body]
fn random_number(min: usize, max: usize, rng: &mut ThreadRng) -> (r: usize)
    requires
        min < max,
    ensures
        min <= r < max,
{
    rng.gen_range(min..max)
}

/// Whether commas are put in the place of the token
pub open spec fn is_fuzz_target(t: TokenView) -> bool {
    t == TokenView::Symbol(Symbol::SymComma) || t == TokenView::IgnorableComma
}

/// The number of tokens in whose place commas are put
pub open spec fn fuzz_amount(tokens: Seq<TokenView>) -> nat
    decreases tokens.len(),
{
    if tokens.len() == 0 {
        0
    } else if is_fuzz_target(tokens.last()) {
        fuzz_amount(tokens.drop_last()) + 1
    } else {
        fuzz_amount(tokens.drop_last())
    }
}

/// A run of `n` commas
pub open spec fn commas(n: nat) -> Seq<TokenView> {
    Seq::new(n, |i: int| TokenView::Symbol(Symbol::SymComma))
}

/// The tokens with `counts[k]` commas in the place of the `k`-th fuzz target, for each
/// `k`. There are as many counts as targets.
pub open spec fn injected(tokens: Seq<TokenView>, counts: Seq<usize>) -> Seq<TokenView>
    decreases tokens.len(),
{
    if tokens.len() == 0 {
        Seq::empty()
    } else if is_fuzz_target(tokens.last()) {
        injected(tokens.drop_last(), counts.drop_last()) + commas(counts.last() as nat)
    } else {
        injected(tokens.drop_last(), counts).push(tokens.last())
    }
}

/// Whether the tokens should still be accepted with `counts[k]` commas in the place of
/// the `k`-th fuzz target: one comma for each `,`, and one or none for each
/// `IgnorableComma`
pub open spec fn should_pass(tokens: Seq<TokenView>, counts: Seq<usize>) -> bool
    decreases tokens.len(),
{
    if tokens.len() == 0 {
        true
    } else if tokens.last() == TokenView::IgnorableComma {
        should_pass(tokens.drop_last(), counts.drop_last()) && counts.last() <= 1
    } else if tokens.last() == TokenView::Symbol(Symbol::SymComma) {
        should_pass(tokens.drop_last(), counts.drop_last()) && counts.last() == 1
    } else {
        should_pass(tokens.drop_last(), counts)
    }
}

/// Counts the tokens in whose place commas are put
pub fn count_fuzz_targets(tokens: &[Token]) -> (n: usize)
    ensures
        n == fuzz_amount(views(tokens@)),
{
    let mut n: usize = 0;
    let mut i: usize = 0;
    assert(views(tokens@).take(0) =~= Seq::empty());
    while i < tokens.len()
        invariant
            i <= tokens@.len(),
            n <= i,
            n == fuzz_amount(views(tokens@).take(i as int)),
        decreases tokens@.len() - i,
    {
        assert(views(tokens@).take(i + 1).drop_last() =~= views(tokens@).take(i as int));
        match &tokens[i] {
            Token::Symbol(Symbol::SymComma) => {
                n += 1;
            },
            Token::IgnorableComma => {
                n += 1;
            },
            _ => {},
        }
        i += 1;
    }
    assert(views(tokens@).take(i as int) =~= views(tokens@));
    n
}

/// Appends `count` commas to `new_src`
pub fn inject<'a>(new_src: &mut Vec<Token<'a>>, count: usize) -> (added: usize)
    ensures
        added == count,
        views(final(new_src)@) == views(old(new_src)@) + commas(count as nat),
{
    let mut k: usize = 0;
    assert(views(new_src@) =~= views(old(new_src)@) + commas(0));
    while k < count
        invariant
            k <= count,
            views(new_src@) == views(old(new_src)@) + commas(k as nat),
        decreases count - k,
    {
        let ghost before = views(new_src@);
        new_src.push(Token::Symbol(Symbol::SymComma));
        assert(views(new_src@) =~= before.push(TokenView::Symbol(Symbol::SymComma)));
        assert(views(new_src@) =~= views(old(new_src)@) + commas((k + 1) as nat));
        k += 1;
    }
    k
}

/// Puts `counts[k]` commas in the place of the `k`-th fuzz target of `src_tokens`, for
/// each `k`, and tells whether the tokens should still be accepted
pub fn fuzz_round<'a>(src_tokens: &[Token<'a>], counts: &[usize]) -> (r: (Vec<Token<'a>>, bool))
    requires
        counts@.len() == fuzz_amount(views(src_tokens@)),
    ensures
        views(r.0@) == injected(views(src_tokens@), counts@),
        r.1 == should_pass(views(src_tokens@), counts@),
{
    let ghost all = views(src_tokens@);
    let mut new_src: Vec<Token<'a>> = Vec::new();
    let mut pass = true;
    let mut i: usize = 0;
    let mut k: usize = 0;
    assert(all.take(0) =~= Seq::empty());
    assert(counts@.take(0) =~= Seq::empty());
    assert(views(new_src@) =~= Seq::empty());
    while i < src_tokens.len()
        invariant
            i <= src_tokens@.len(),
            all == views(src_tokens@),
            counts@.len() == fuzz_amount(all),
            k == fuzz_amount(all.take(i as int)),
            k <= counts@.len(),
            views(new_src@) == injected(all.take(i as int), counts@.take(k as int)),
            pass == should_pass(all.take(i as int), counts@.take(k as int)),
        decreases src_tokens@.len() - i,
    {
        proof {
            assert(all.take(i + 1).drop_last() =~= all.take(i as int));
            assert(all.take(i + 1).last() == src_tokens@[i as int]@);
            lemma_fuzz_amount_prefix(all, i + 1);
            if is_fuzz_target(all[i as int]) {
                assert(counts@.take(k + 1).drop_last() =~= counts@.take(k as int));
            }
        }
        let ghost before = views(new_src@);
        match &src_tokens[i] {
            Token::IgnorableComma => {
                let added = inject(&mut new_src, counts[k]);
                pass = pass && added <= 1;
                k += 1;
            },
            Token::Symbol(Symbol::SymComma) => {
                let added = inject(&mut new_src, counts[k]);
                pass = pass && added == 1;
                k += 1;
            },
            tok => {
                new_src.push(tok.clone());
                assert(views(new_src@) =~= before.push(all[i as int]));
            },
        }
        i += 1;
    }
    assert(all.take(i as int) =~= all);
    assert(counts@.take(k as int) =~= counts@);
    (new_src, pass)
}

/// A prefix of the tokens holds no more fuzz targets than all of them
pub proof fn lemma_fuzz_amount_prefix(tokens: Seq<TokenView>, i: int)
    requires
        0 <= i <= tokens.len(),
    ensures
        fuzz_amount(tokens.take(i)) <= fuzz_amount(tokens),
    decreases tokens.len(),
{
    if i == tokens.len() {
        assert(tokens.take(i) =~= tokens);
    } else {
        lemma_fuzz_amount_prefix(tokens.drop_last(), i);
        assert(tokens.drop_last().take(i) =~= tokens.take(i));
    }
}

/// How a fuzz run can fail
#[derive(Debug)]
pub enum FuzzError<'a> {
    /// The query text does not lex
    Lex(LexError),
    /// The function under test accepted these tokens, which it should have refused
    UnexpectedPass(Vec<Token<'a>>),
}

/// The number below which the count of commas for a place is drawn
pub const MAX_COMMAS: usize = 5;

/// One round of a fuzz run
pub struct Round<'a> {
    /// The number of commas drawn for each fuzz target
    pub counts: Seq<usize>,
    /// The tokens handed to the function under test
    pub stream: Seq<Token<'a>>,
    /// What the function under test returned
    pub accepted: bool,
}

impl<'a> Round<'a> {
    /// Whether this is a round on `tokens` with the function `fuzzverify`: there is a
    /// count below [`MAX_COMMAS`] for each fuzz target, the stream is what the counts
    /// make of `tokens`, and `accepted` is what the function returns for the stream and
    /// the verdict that the counts call for
    pub open spec fn is_round_of<F: Fn(bool, &[Token<'a>]) -> bool>(
        self,
        tokens: Seq<TokenView>,
        fuzzverify: F,
    ) -> bool {
        &&& self.counts.len() == fuzz_amount(tokens)
        &&& forall|k: int| 0 <= k < self.counts.len() ==> self.counts[k] < MAX_COMMAS
        &&& views(self.stream) == injected(tokens, self.counts)
        &&& exists|given: &[Token<'a>]|
            given@ == self.stream && #[trigger] call_ensures(
                fuzzverify,
                (should_pass(tokens, self.counts), given),
                self.accepted,
            )
    }

    /// Whether the round tells against the function under test: the function accepted
    /// tokens that should be refused
    pub open spec fn refutes(self, tokens: Seq<TokenView>) -> bool {
        self.accepted && !should_pass(tokens, self.counts)
    }
}

/// Whether `r` is what the round `round` comes to: its tokens if it tells against the
/// function under test, and nothing otherwise
pub open spec fn round_result<'a>(
    tokens: Seq<TokenView>,
    round: Round<'a>,
    r: Option<Vec<Token<'a>>>,
) -> bool {
    match r {
        Some(stream) => round.refutes(tokens) && stream@ == round.stream,
        None => !round.refutes(tokens),
    }
}

/// Whether `r` is what a fuzz run on `tokens` that consists of the rounds `rounds` comes
/// to. Each of them is a round on `tokens`. With `n` fuzz targets in `tokens`,
///
/// - a run that succeeds has `n * n * n` rounds, none of which tells against the function
///   under test;
/// - a run that fails has at most as many; its last round is the only one that tells
///   against the function, and its tokens are handed out.
pub open spec fn run_result<'a, F: Fn(bool, &[Token<'a>]) -> bool>(
    tokens: Seq<TokenView>,
    fuzzverify: F,
    rounds: Seq<Round<'a>>,
    r: Result<(), FuzzError<'a>>,
) -> bool {
    let n = fuzz_amount(tokens);
    &&& forall|i: int|
        0 <= i < rounds.len() ==> (#[trigger] rounds[i]).is_round_of(tokens, fuzzverify)
    &&& match r {
        Ok(()) => {
            &&& rounds.len() == n * n * n
            &&& forall|i: int| 0 <= i < rounds.len() ==> !(#[trigger] rounds[i]).refutes(tokens)
        },
        Err(FuzzError::Lex(_)) => false,
        Err(FuzzError::UnexpectedPass(stream)) => {
            &&& 0 < rounds.len() <= n * n * n
            &&& forall|i: int|
                0 <= i < rounds.len() - 1 ==> !(#[trigger] rounds[i]).refutes(tokens)
            &&& rounds.last().refutes(tokens)
            &&& stream@ == rounds.last().stream
        },
    }
}

/// Runs one round: draws a count of commas below [`MAX_COMMAS`] for each fuzz target,
/// puts the commas in, and asks the function under test. The result is the tokens of the
/// round if the function accepted what it should have refused.
fn run_round<'a, F: Fn(bool, &[Token<'a>]) -> bool>(
    src_tokens: &[Token<'a>],
    amount: usize,
    rng: &mut ThreadRng,
    fuzzverify: &F,
) -> (r: Option<Vec<Token<'a>>>)
    requires
        amount == fuzz_amount(views(src_tokens@)),
        forall|should: bool, given: &[Token<'a>]| call_requires(*fuzzverify, (should, given)),
    ensures
        exists|round: Round<'a>|
            #[trigger] round.is_round_of(views(src_tokens@), *fuzzverify) && round_result(
                views(src_tokens@),
                round,
                r,
            ),
{
    let mut counts: Vec<usize> = Vec::new();
    while counts.len() < amount
        invariant
            counts@.len() <= amount,
            forall|k: int| 0 <= k < counts@.len() ==> counts@[k] < MAX_COMMAS,
        decreases amount - counts@.len(),
    {
        counts.push(random_number(0, MAX_COMMAS, rng));
    }
    let (new_src, pass) = fuzz_round(src_tokens, counts.as_slice());
    let given = new_src.as_slice();
    let accepted = fuzzverify(pass, given);
    let ghost round = Round { counts: counts@, stream: new_src@, accepted };
    assert(given@ == round.stream && call_ensures(
        *fuzzverify,
        (should_pass(views(src_tokens@), round.counts), given),
        round.accepted,
    ));
    assert(round.is_round_of(views(src_tokens@), *fuzzverify));
    if accepted && !pass {
        Some(new_src)
    } else {
        None
    }
}

/// Fuzzes the comma rules on the given query text.
///
/// The text is lexed in the insecure mode. With `n` fuzz targets in it, `n * n * n`
/// rounds are run; each puts a random number of commas, below [`MAX_COMMAS`], in the
/// place of each target, and hands the tokens to `fuzzverify` together with the verdict
/// that they should get. The run ends at the first round in which `fuzzverify` returns
/// `true` for tokens that should be refused, and hands these tokens out. Without a fuzz
/// target no round is run.
pub fn fuzz_tokens<'a, F: Fn(bool, &[Token<'a>]) -> bool>(src: &'a [u8], fuzzverify: F) -> (r:
    Result<(), FuzzError<'a>>)
    requires
        forall|should: bool, given: &[Token<'a>]| call_requires(fuzzverify, (should, given)),
    ensures
        match lex_spec(src@, false) {
            Err(e) => r matches Err(FuzzError::Lex(x)) && x == e,
            Ok(tokens) => {
                &&& exists|rounds: Seq<Round<'a>>|
                    #[trigger] run_result(tokens, fuzzverify, rounds, r)
                &&& fuzz_amount(tokens) == 0 ==> r is Ok
            },
        },
{
    let src_tokens = match lex_insecure(src) {
        Ok(t) => t,
        Err(e) => {
            return Err(FuzzError::Lex(e));
        },
    };
    let mut rng = thread_rng();
    let amount = count_fuzz_targets(src_tokens.as_slice());
    let ghost tokens = views(src_tokens@);
    let ghost n = amount as int;
    let ghost mut rounds: Seq<Round<'a>> = Seq::empty();
    let mut a: usize = 0;
    while a < amount
        invariant
            a <= amount,
            n == amount,
            tokens == views(src_tokens@),
            amount == fuzz_amount(tokens),
            lex_spec(src@, false) == Ok::<Seq<TokenView>, LexError>(tokens),
            forall|should: bool, given: &[Token<'a>]|
                call_requires(fuzzverify, (should, given)),
            rounds.len() == a * n * n,
            forall|i: int|
                0 <= i < rounds.len() ==> (#[trigger] rounds[i]).is_round_of(
                    tokens,
                    fuzzverify,
                ) && !rounds[i].refutes(tokens),
        decreases amount - a,
    {
        let mut b: usize = 0;
        while b < amount
            invariant
                a < amount,
                b <= amount,
                n == amount,
                tokens == views(src_tokens@),
                amount == fuzz_amount(tokens),
                lex_spec(src@, false) == Ok::<Seq<TokenView>, LexError>(tokens),
                forall|should: bool, given: &[Token<'a>]|
                    call_requires(fuzzverify, (should, given)),
                rounds.len() == a * n * n + b * n,
                forall|i: int|
                    0 <= i < rounds.len() ==> (#[trigger] rounds[i]).is_round_of(
                        tokens,
                        fuzzverify,
                    ) && !rounds[i].refutes(tokens),
            decreases amount - b,
        {
            let mut c: usize = 0;
            while c < amount
                invariant
                    a < amount,
                    b < amount,
                    c <= amount,
                    n == amount,
                    tokens == views(src_tokens@),
                    amount == fuzz_amount(tokens),
                    lex_spec(src@, false) == Ok::<Seq<TokenView>, LexError>(tokens),
                    forall|should: bool, given: &[Token<'a>]|
                        call_requires(fuzzverify, (should, given)),
                    rounds.len() == a * n * n + b * n + c,
                    forall|i: int|
                        0 <= i < rounds.len() ==> (#[trigger] rounds[i]).is_round_of(
                            tokens,
                            fuzzverify,
                        ) && !rounds[i].refutes(tokens),
                decreases amount - c,
            {
                let found = run_round(src_tokens.as_slice(), amount, &mut rng, &fuzzverify);
                proof {
                    let round = choose|round: Round<'a>|
                        #[trigger] round.is_round_of(tokens, fuzzverify) && round_result(
                            tokens,
                            round,
                            found,
                        );
                    rounds = rounds.push(round);
                    lemma_rounds_bound(a as int, b as int, c as int, n);
                }
                match found {
                    Some(stream) => {
                        let r = Err(FuzzError::UnexpectedPass(stream));
                        assert(run_result(tokens, fuzzverify, rounds, r));
                        return r;
                    },
                    None => {},
                }
                c += 1;
            }
            assert(a * n * n + b * n + n == a * n * n + (b + 1) * n) by (nonlinear_arith);
            b += 1;
        }
        assert(a * n * n + n * n == (a + 1) * n * n) by (nonlinear_arith);
        a += 1;
    }
    assert(n * n * n == a * n * n);
    assert(run_result(tokens, fuzzverify, rounds, Ok::<(), FuzzError<'a>>(())));
    assert(n == 0 ==> n * n * n == 0);
    Ok(())
}

/// The round with the coordinates `a`, `b` and `c`, each below `n`, is one of `n * n * n`
proof fn lemma_rounds_bound(a: int, b: int, c: int, n: int)
    requires
        0 <= a < n,
        0 <= b < n,
        0 <= c < n,
    ensures
        a * n * n + b * n + c + 1 <= n * n * n,
{
    assert(a * n * n + b * n + c + 1 <= n * n * n) by (nonlinear_arith)
        requires
            0 <= a <= n - 1,
            0 <= b <= n - 1,
            0 <= c <= n - 1,
    {
        assert(a * n * n <= (n - 1) * n * n);
        assert(b * n <= (n - 1) * n);
    }
}

} // verus!
