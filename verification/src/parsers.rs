//! Parser combinators over character sequences. Every parser carries four
//! spec functions: whether it succeeds on an input, the remainder and the
//! parsed value (as a deep view) when it does, and the failing remainder it
//! reports when it does not. The executable parsers work on a shared
//! character buffer and a position.
use vstd::prelude::*;
use vstd::std_specs::iter::IteratorSpec;

verus! {

/// A parse failure, carrying the text that remained at the point the
/// parser gave up.
#[derive(Clone, Debug, PartialEq, Eq)]
pub enum ParsingError {
    FailedWith(String),
}

/// Successful parses return the remaining text and the value.
pub type ParseResult<T> = Result<(String, T), ParsingError>;

/// The characters of a string, in order.
pub(crate) fn chars_of(s: &str) -> (v: Vec<char>)
    ensures
        v@ == s@,
{
    broadcast use vstd::string::axiom_spec_iter;

    let mut it = s.chars();
    let mut v: Vec<char> = Vec::new();
    loop
        invariant
            it.obeys_prophetic_iter_laws(),
            v@ + it.remaining() == s@,
            it.decrease() is Some,
        ensures
            v@ == s@,
        decreases it.decrease()->0,
    {
        match it.next() {
            Some(c) => {
                v.push(c);
                proof {
                    assert(v@ =~= v@.drop_last().push(c));
                }
            },
            None => {
                proof {
                    assert(v@ =~= s@);
                }
                break ;
            },
        }
    }
    v
}

/// Relies on `str` equality through `PartialEq`: true exactly when the two
/// strings hold the same characters.
#[verifier::external_body]
pub(crate) fn str_eq(a: &str, b: &str) -> (r: bool)
    ensures
        r == (a@ == b@),
{
    a == b
}

/// An owned copy of a borrowed string, through `str::to_owned`.
pub(crate) fn str_to_owned(a: &str) -> (r: String)
    ensures
        r@ == a@,
{
    a.to_owned()
}

/// Relies on `String::push`: appends exactly the one character.
#[verifier::external_body]
pub(crate) fn push_char(s: &mut String, c: char)
    ensures
        final(s)@ == old(s)@.push(c),
{
    s.push(c);
}

/// The characters of the buffer between `from` and `to`, as a fresh string.
pub(crate) fn string_range(chars: &Vec<char>, from: usize, to: usize) -> (s: String)
    requires
        from <= to <= chars@.len(),
    ensures
        s@ == chars@.subrange(from as int, to as int),
{
    let mut s = String::new();
    let mut k = from;
    while k < to
        invariant
            from <= k <= to <= chars@.len(),
            s@ == chars@.subrange(from as int, k as int),
        decreases to - k,
    {
        push_char(&mut s, chars[k]);
        proof {
            assert(chars@.subrange(from as int, k as int).push(chars@[k as int]) =~= chars@.subrange(
                from as int,
                k + 1,
            ));
        }
        k = k + 1;
    }
    s
}

/// The suffix of the buffer from `pos` on, as a fresh string.
pub(crate) fn string_from(chars: &Vec<char>, pos: usize) -> (s: String)
    requires
        pos <= chars@.len(),
    ensures
        s@ == chars@.skip(pos as int),
{
    let n = chars.len();
    let s = string_range(chars, pos, n);
    proof {
        assert(chars@.subrange(pos as int, chars@.len() as int) =~= chars@.skip(pos as int));
    }
    s
}

/// A parser with an exact functional description: `ok` says on which inputs
/// it succeeds, `rest` and `value` what it leaves and produces then, and
/// `err` which remainder it reports otherwise.
pub trait Parser<Output: DeepView>: Sized {
    /// Does the parser accept this input?
    spec fn ok(&self, input: Seq<char>) -> bool;

    /// The remaining input after a successful parse.
    spec fn rest(&self, input: Seq<char>) -> Seq<char>;

    /// The remaining input reported with a failure.
    spec fn err(&self, input: Seq<char>) -> Seq<char>;

    /// The deep view of the parsed value of a successful parse.
    spec fn value(&self, input: Seq<char>) -> Output::V;

    /// Run on a character buffer from `pos`: the new position and value,
    /// or the position of the failure.
    fn parse_chars(&self, chars: &Vec<char>, pos: usize) -> (r: Result<(usize, Output), usize>)
        requires
            pos <= chars@.len(),
        ensures
            ({
                let input = chars@.skip(pos as int);
                match r {
                    Ok(p) => self.ok(input) && pos <= p.0 <= chars@.len() && chars@.skip(p.0 as int)
                        == self.rest(input) && p.1.deep_view() == self.value(input),
                    Err(e) => !self.ok(input) && pos <= e <= chars@.len() && chars@.skip(e as int)
                        == self.err(input),
                }
            }),
    ;

    /// Run on a string; the remainder comes back as a fresh string and a
    /// failure reports the remaining text.
    fn parse(&self, input: &str) -> (r: ParseResult<Output>)
        ensures
            self.ok(input@) ==> (r matches Ok(p) && p.0@ == self.rest(input@) && p.1.deep_view()
                == self.value(input@)),
            !self.ok(input@) ==> (r matches Err(e) && (e matches ParsingError::FailedWith(s) && s@
                == self.err(input@))),
    {
        let chars = chars_of(input);
        proof {
            assert(chars@.skip(0) =~= input@);
        }
        match self.parse_chars(&chars, 0) {
            Ok((npos, v)) => Ok((string_from(&chars, npos), v)),
            Err(epos) => Err(ParsingError::FailedWith(string_from(&chars, epos))),
        }
    }
}

/// The single-character parser: takes the first character off the input.
pub struct AnyChar {}

impl Parser<char> for AnyChar {
    open spec fn ok(&self, input: Seq<char>) -> bool {
        input.len() > 0
    }

    open spec fn rest(&self, input: Seq<char>) -> Seq<char> {
        input.skip(1)
    }

    open spec fn err(&self, input: Seq<char>) -> Seq<char> {
        input
    }

    open spec fn value(&self, input: Seq<char>) -> char {
        input[0]
    }

    fn parse_chars(&self, chars: &Vec<char>, pos: usize) -> (r: Result<(usize, char), usize>) {
        if pos < chars.len() {
            proof {
                assert(chars@.skip(pos + 1) =~= chars@.skip(pos as int).skip(1));
            }
            Ok((pos + 1, chars[pos]))
        } else {
            Err(pos)
        }
    }
}

/// Take any one character; fails only on empty input.
pub fn any_char(input: &str) -> (r: ParseResult<char>)
    ensures
        input@.len() > 0 ==> (r matches Ok(p) && p.0@ == input@.skip(1) && p.1 == input@[0]),
        input@.len() == 0 ==> (r matches Err(e) && (e matches ParsingError::FailedWith(s) && s@
            == input@)),
{
    let p = AnyChar {  };
    p.parse(input)
}

/// Expect a fixed literal and produce nothing.
pub struct MatchLiteral {
    pub expected: &'static str,
}

impl Parser<()> for MatchLiteral {
    open spec fn ok(&self, input: Seq<char>) -> bool {
        input.len() >= self.expected@.len() && input.subrange(0, self.expected@.len() as int)
            == self.expected@
    }

    open spec fn rest(&self, input: Seq<char>) -> Seq<char> {
        input.skip(self.expected@.len() as int)
    }

    open spec fn err(&self, input: Seq<char>) -> Seq<char> {
        input
    }

    open spec fn value(&self, input: Seq<char>) -> () {
        ()
    }

    fn parse_chars(&self, chars: &Vec<char>, pos: usize) -> (r: Result<(usize, ()), usize>) {
        let e = chars_of(self.expected);
        let n = e.len();
        let clen = chars.len();
        if clen - pos < n {
            proof {
                assert(chars@.skip(pos as int).len() < self.expected@.len());
                assert(!self.ok(chars@.skip(pos as int)));
            }
            return Err(pos);
        }
        let mut k: usize = 0;
        while k < n
            invariant
                k <= n == e@.len(),
                pos + n <= clen == chars@.len(),
                e@ == self.expected@,
                forall|i: int| 0 <= i < k ==> chars@[pos + i] == e@[i],
            decreases n - k,
        {
            if chars[pos + k] != e[k] {
                proof {
                    assert(chars@.skip(pos as int).subrange(0, e@.len() as int)[k as int] != e@[k
                        as int]);
                    if self.ok(chars@.skip(pos as int)) {
                        assert(chars@.skip(pos as int).subrange(0, self.expected@.len() as int)
                            == self.expected@);
                        assert(chars@.skip(pos as int).subrange(0, e@.len() as int)[k as int]
                            == e@[k as int]);
                    }
                }
                return Err(pos);
            }
            k = k + 1;
        }
        proof {
            assert(chars@.skip(pos as int).subrange(0, e@.len() as int) =~= e@);
            assert(chars@.skip(pos + n) =~= chars@.skip(pos as int).skip(e@.len() as int));
        }
        Ok((pos + n, ()))
    }
}

/// The literal `expected`, producing `()`.
pub fn match_literal(expected: &'static str) -> (p: MatchLiteral)
    ensures
        p.expected == expected,
{
    MatchLiteral { expected }
}

/// Two parsers in sequence, producing the pair of their values.
pub struct PairParser<P1, P2> {
    pub first: P1,
    pub second: P2,
}

impl<R1: DeepView, R2: DeepView, P1: Parser<R1>, P2: Parser<R2>> Parser<(R1, R2)> for PairParser<
    P1,
    P2,
> {
    open spec fn ok(&self, input: Seq<char>) -> bool {
        self.first.ok(input) && self.second.ok(self.first.rest(input))
    }

    open spec fn rest(&self, input: Seq<char>) -> Seq<char> {
        self.second.rest(self.first.rest(input))
    }

    open spec fn err(&self, input: Seq<char>) -> Seq<char> {
        if !self.first.ok(input) {
            self.first.err(input)
        } else {
            self.second.err(self.first.rest(input))
        }
    }

    open spec fn value(&self, input: Seq<char>) -> (R1::V, R2::V) {
        (self.first.value(input), self.second.value(self.first.rest(input)))
    }

    fn parse_chars(&self, chars: &Vec<char>, pos: usize) -> (r: Result<(usize, (R1, R2)), usize>) {
        match self.first.parse_chars(chars, pos) {
            Err(e) => Err(e),
            Ok((m, v1)) => match self.second.parse_chars(chars, m) {
                Err(e) => Err(e),
                Ok((n, v2)) => Ok((n, (v1, v2))),
            },
        }
    }
}

/// `parser1` then `parser2`, yielding both values.
pub fn pair<R1: DeepView, R2: DeepView, P1: Parser<R1>, P2: Parser<R2>>(parser1: P1, parser2: P2) -> (p:
    PairParser<P1, P2>)
    ensures
        p.first == parser1,
        p.second == parser2,
{
    PairParser { first: parser1, second: parser2 }
}

/// A total function from parsed values to transformed values, described
/// exactly at the view level.
pub trait MapFn<A: DeepView, B: DeepView>: Sized {
    /// What the function does, on deep views.
    spec fn map_view(&self, a: A::V) -> B::V;

    fn call(&self, a: A) -> (b: B)
        ensures
            b.deep_view() == self.map_view(a.deep_view()),
    ;
}

/// A parser whose value is passed through a function.
pub struct MapParser<P, F, A> {
    pub parser: P,
    pub f: F,
    pub marker: core::marker::PhantomData<A>,
}

impl<A: DeepView, B: DeepView, P: Parser<A>, F: MapFn<A, B>> Parser<B> for MapParser<P, F, A> {
    open spec fn ok(&self, input: Seq<char>) -> bool {
        self.parser.ok(input)
    }

    open spec fn rest(&self, input: Seq<char>) -> Seq<char> {
        self.parser.rest(input)
    }

    open spec fn err(&self, input: Seq<char>) -> Seq<char> {
        self.parser.err(input)
    }

    open spec fn value(&self, input: Seq<char>) -> B::V {
        self.f.map_view(self.parser.value(input))
    }

    fn parse_chars(&self, chars: &Vec<char>, pos: usize) -> (r: Result<(usize, B), usize>) {
        match self.parser.parse_chars(chars, pos) {
            Err(e) => Err(e),
            Ok((m, v)) => Ok((m, self.f.call(v))),
        }
    }
}

/// Transform the value of `parser` with `f`.
pub fn map<A: DeepView, B: DeepView, P: Parser<A>, F: MapFn<A, B>>(parser: P, f: F) -> (p:
    MapParser<P, F, A>)
    ensures
        p.parser == parser,
        p.f == f,
{
    MapParser { parser, f, marker: core::marker::PhantomData }
}

/// Keep the left value of a pair.
pub struct TakeLeft {}

impl<R1: DeepView, R2: DeepView> MapFn<(R1, R2), R1> for TakeLeft {
    open spec fn map_view(&self, a: (R1::V, R2::V)) -> R1::V {
        a.0
    }

    fn call(&self, a: (R1, R2)) -> (b: R1) {
        a.0
    }
}

/// Keep the right value of a pair.
pub struct TakeRight {}

impl<R1: DeepView, R2: DeepView> MapFn<(R1, R2), R2> for TakeRight {
    open spec fn map_view(&self, a: (R1::V, R2::V)) -> R2::V {
        a.1
    }

    fn call(&self, a: (R1, R2)) -> (b: R2) {
        a.1
    }
}

/// Both parsers in sequence, keeping only the first value.
pub fn left<R1: DeepView, R2: DeepView, P1: Parser<R1>, P2: Parser<R2>>(parser1: P1, parser2: P2) -> (p:
    MapParser<PairParser<P1, P2>, TakeLeft, (R1, R2)>)
    ensures
        p.parser.first == parser1,
        p.parser.second == parser2,
{
    map(pair(parser1, parser2), TakeLeft {  })
}

/// Both parsers in sequence, keeping only the second value.
pub fn right<R1: DeepView, R2: DeepView, P1: Parser<R1>, P2: Parser<R2>>(parser1: P1, parser2: P2) -> (p:
    MapParser<PairParser<P1, P2>, TakeRight, (R1, R2)>)
    ensures
        p.parser.first == parser1,
        p.parser.second == parser2,
{
    map(pair(parser1, parser2), TakeRight {  })
}

/// A decidable predicate on parsed values, described at the view level.
pub trait PredFn<T: DeepView>: Sized {
    /// The predicate, on deep views.
    spec fn pred_view(&self, t: T::V) -> bool;

    fn call(&self, t: &T) -> (b: bool)
        ensures
            b == self.pred_view(t.deep_view()),
    ;
}

/// A parser that succeeds only when its value satisfies a predicate.
pub struct PredParser<P, F> {
    pub parser: P,
    pub predicate: F,
}

impl<R: DeepView, P: Parser<R>, F: PredFn<R>> Parser<R> for PredParser<P, F> {
    open spec fn ok(&self, input: Seq<char>) -> bool {
        self.parser.ok(input) && self.predicate.pred_view(self.parser.value(input))
    }

    open spec fn rest(&self, input: Seq<char>) -> Seq<char> {
        self.parser.rest(input)
    }

    open spec fn err(&self, input: Seq<char>) -> Seq<char> {
        input
    }

    open spec fn value(&self, input: Seq<char>) -> R::V {
        self.parser.value(input)
    }

    fn parse_chars(&self, chars: &Vec<char>, pos: usize) -> (r: Result<(usize, R), usize>) {
        match self.parser.parse_chars(chars, pos) {
            Err(_) => Err(pos),
            Ok((m, v)) => {
                if self.predicate.call(&v) {
                    Ok((m, v))
                } else {
                    Err(pos)
                }
            },
        }
    }
}

/// Accept the value of `parser` only when `predicate` holds of it.
pub fn pred<R: DeepView, P: Parser<R>, F: PredFn<R>>(parser: P, predicate: F) -> (p: PredParser<
    P,
    F,
>)
    ensures
        p.parser == parser,
        p.predicate == predicate,
{
    PredParser { parser, predicate }
}

/// How many repetitions a repeated parser makes on this input, counting
/// only runs that consume: a successful parse that consumes nothing ends
/// the repetition.
pub open spec fn star_count<R: DeepView, P: Parser<R>>(p: P, input: Seq<char>) -> nat
    decreases input.len(),
{
    if !p.ok(input) || p.rest(input).len() >= input.len() {
        0
    } else {
        1 + star_count(p, p.rest(input))
    }
}

/// The remainder after repeating `p` as often as it consumes.
pub open spec fn star_rest<R: DeepView, P: Parser<R>>(p: P, input: Seq<char>) -> Seq<char>
    decreases input.len(),
{
    if !p.ok(input) || p.rest(input).len() >= input.len() {
        input
    } else {
        star_rest(p, p.rest(input))
    }
}

/// The values collected by repeating `p` as often as it consumes.
pub open spec fn star_values<R: DeepView, P: Parser<R>>(p: P, input: Seq<char>) -> Seq<R::V>
    decreases input.len(),
{
    if !p.ok(input) || p.rest(input).len() >= input.len() {
        Seq::empty()
    } else {
        seq![p.value(input)] + star_values(p, p.rest(input))
    }
}

/// Zero or more repetitions of a parser; never fails.
pub struct ZeroOrMore<P> {
    pub parser: P,
}

impl<R: DeepView, P: Parser<R>> Parser<Vec<R>> for ZeroOrMore<P> {
    open spec fn ok(&self, input: Seq<char>) -> bool {
        true
    }

    open spec fn rest(&self, input: Seq<char>) -> Seq<char> {
        star_rest(self.parser, input)
    }

    open spec fn err(&self, input: Seq<char>) -> Seq<char> {
        input
    }

    open spec fn value(&self, input: Seq<char>) -> Seq<R::V> {
        star_values(self.parser, input)
    }

    fn parse_chars(&self, chars: &Vec<char>, pos: usize) -> (r: Result<(usize, Vec<R>), usize>) {
        let mut acc: Vec<R> = Vec::new();
        let mut cur = pos;
        loop
            invariant
                pos <= cur <= chars@.len(),
                star_rest(self.parser, chars@.skip(pos as int)) == star_rest(
                    self.parser,
                    chars@.skip(cur as int),
                ),
                star_values(self.parser, chars@.skip(pos as int)) =~= acc.deep_view()
                    + star_values(self.parser, chars@.skip(cur as int)),
            ensures
                pos <= cur <= chars@.len(),
                chars@.skip(cur as int) == star_rest(self.parser, chars@.skip(pos as int)),
                acc.deep_view() =~= star_values(self.parser, chars@.skip(pos as int)),
            decreases chars@.len() - cur,
        {
            match self.parser.parse_chars(chars, cur) {
                Err(_) => {
                    break ;
                },
                Ok((m, v)) => {
                    if m <= cur {
                        proof {
                            assert(chars@.skip(m as int).len() >= chars@.skip(cur as int).len());
                        }
                        break ;
                    }
                    acc.push(v);
                    cur = m;
                },
            }
        }
        Ok((cur, acc))
    }
}

/// Zero or more repetitions of `parser`.
pub fn zero_or_more<R: DeepView, P: Parser<R>>(parser: P) -> (p: ZeroOrMore<P>)
    ensures
        p.parser == parser,
{
    ZeroOrMore { parser }
}

/// One or more repetitions of a parser; fails when the first run fails.
pub struct OneOrMore<P> {
    pub parser: P,
}

impl<R: DeepView, P: Parser<R>> Parser<Vec<R>> for OneOrMore<P> {
    open spec fn ok(&self, input: Seq<char>) -> bool {
        self.parser.ok(input)
    }

    open spec fn rest(&self, input: Seq<char>) -> Seq<char> {
        if self.parser.rest(input).len() >= input.len() {
            self.parser.rest(input)
        } else {
            star_rest(self.parser, self.parser.rest(input))
        }
    }

    open spec fn err(&self, input: Seq<char>) -> Seq<char> {
        input
    }

    open spec fn value(&self, input: Seq<char>) -> Seq<R::V> {
        if self.parser.rest(input).len() >= input.len() {
            seq![self.parser.value(input)]
        } else {
            seq![self.parser.value(input)] + star_values(self.parser, self.parser.rest(input))
        }
    }

    fn parse_chars(&self, chars: &Vec<char>, pos: usize) -> (r: Result<(usize, Vec<R>), usize>) {
        match self.parser.parse_chars(chars, pos) {
            Err(_) => Err(pos),
            Ok((m, v)) => {
                let mut acc: Vec<R> = Vec::new();
                acc.push(v);
                if m <= pos {
                    proof {
                        assert(chars@.skip(m as int).len() >= chars@.skip(pos as int).len());
                        assert(acc.deep_view() =~= seq![v.deep_view()]);
                    }
                    return Ok((m, acc));
                }
                let mut cur = m;
                proof {
                    assert(chars@.skip(m as int).len() < chars@.skip(pos as int).len());
                }
                loop
                    invariant
                        m <= cur <= chars@.len(),
                        star_rest(self.parser, chars@.skip(m as int)) == star_rest(
                            self.parser,
                            chars@.skip(cur as int),
                        ),
                        star_values(self.parser, chars@.skip(m as int)) =~= acc.deep_view().skip(1)
                            + star_values(self.parser, chars@.skip(cur as int)),
                        acc.deep_view().len() >= 1,
                        acc.deep_view()[0] == v.deep_view(),
                    ensures
                        m <= cur <= chars@.len(),
                        chars@.skip(cur as int) == star_rest(self.parser, chars@.skip(m as int)),
                        acc.deep_view().skip(1) =~= star_values(self.parser, chars@.skip(m as int)),
                        acc.deep_view().len() >= 1,
                        acc.deep_view()[0] == v.deep_view(),
                    decreases chars@.len() - cur,
                {
                    match self.parser.parse_chars(chars, cur) {
                        Err(_) => {
                            break ;
                        },
                        Ok((m2, v2)) => {
                            if m2 <= cur {
                                proof {
                                    assert(chars@.skip(m2 as int).len() >= chars@.skip(
                                        cur as int,
                                    ).len());
                                }
                                break ;
                            }
                            acc.push(v2);
                            cur = m2;
                        },
                    }
                }
                proof {
                    assert(acc.deep_view() =~= seq![v.deep_view()] + star_values(
                        self.parser,
                        chars@.skip(m as int),
                    ));
                }
                Ok((cur, acc))
            },
        }
    }
}

/// One or more repetitions of `parser`.
pub fn one_or_more<R: DeepView, P: Parser<R>>(parser: P) -> (p: OneOrMore<P>)
    ensures
        p.parser == parser,
{
    OneOrMore { parser }
}

/// The first parser, or the second on the same input if the first fails.
pub struct EitherParser<P1, P2> {
    pub first: P1,
    pub second: P2,
}

impl<R: DeepView, P1: Parser<R>, P2: Parser<R>> Parser<R> for EitherParser<P1, P2> {
    open spec fn ok(&self, input: Seq<char>) -> bool {
        self.first.ok(input) || self.second.ok(input)
    }

    open spec fn rest(&self, input: Seq<char>) -> Seq<char> {
        if self.first.ok(input) {
            self.first.rest(input)
        } else {
            self.second.rest(input)
        }
    }

    open spec fn err(&self, input: Seq<char>) -> Seq<char> {
        self.second.err(input)
    }

    open spec fn value(&self, input: Seq<char>) -> R::V {
        if self.first.ok(input) {
            self.first.value(input)
        } else {
            self.second.value(input)
        }
    }

    fn parse_chars(&self, chars: &Vec<char>, pos: usize) -> (r: Result<(usize, R), usize>) {
        match self.first.parse_chars(chars, pos) {
            Ok(p) => Ok(p),
            Err(_) => self.second.parse_chars(chars, pos),
        }
    }
}

/// Try `parser1`; on failure, try `parser2` on the same input.
pub fn either<R: DeepView, P1: Parser<R>, P2: Parser<R>>(parser1: P1, parser2: P2) -> (p:
    EitherParser<P1, P2>)
    ensures
        p.first == parser1,
        p.second == parser2,
{
    EitherParser { first: parser1, second: parser2 }
}

/// A function from a parsed value to the next parser to run, described at
/// the view level: the produced parser's whole behaviour is a function of
/// the value's view.
pub trait AndThenFn<A: DeepView, R2: DeepView, NextP: Parser<R2>>: Sized {
    /// Whether the produced parser accepts `input`.
    spec fn next_ok(&self, a: A::V, input: Seq<char>) -> bool;

    /// Its remainder on success.
    spec fn next_rest(&self, a: A::V, input: Seq<char>) -> Seq<char>;

    /// Its reported remainder on failure.
    spec fn next_err(&self, a: A::V, input: Seq<char>) -> Seq<char>;

    /// Its value on success.
    spec fn next_value(&self, a: A::V, input: Seq<char>) -> R2::V;

    fn call(&self, a: A) -> (p: NextP)
        ensures
            forall|input: Seq<char>|
                (#[trigger] p.ok(input)) == self.next_ok(a.deep_view(), input) && p.rest(input)
                    == self.next_rest(a.deep_view(), input) && p.err(input) == self.next_err(
                    a.deep_view(),
                    input,
                ) && p.value(input) == self.next_value(a.deep_view(), input),
    ;
}

/// Run a parser, then run the parser built from its value.
pub struct AndThenParser<P, F, A, NextP> {
    pub parser: P,
    pub f: F,
    pub marker: core::marker::PhantomData<(A, NextP)>,
}

impl<
    A: DeepView,
    R2: DeepView,
    NextP: Parser<R2>,
    P: Parser<A>,
    F: AndThenFn<A, R2, NextP>,
> Parser<R2> for AndThenParser<P, F, A, NextP> {
    open spec fn ok(&self, input: Seq<char>) -> bool {
        self.parser.ok(input) && self.f.next_ok(
            self.parser.value(input),
            self.parser.rest(input),
        )
    }

    open spec fn rest(&self, input: Seq<char>) -> Seq<char> {
        self.f.next_rest(self.parser.value(input), self.parser.rest(input))
    }

    open spec fn err(&self, input: Seq<char>) -> Seq<char> {
        if !self.parser.ok(input) {
            self.parser.err(input)
        } else {
            self.f.next_err(self.parser.value(input), self.parser.rest(input))
        }
    }

    open spec fn value(&self, input: Seq<char>) -> R2::V {
        self.f.next_value(self.parser.value(input), self.parser.rest(input))
    }

    fn parse_chars(&self, chars: &Vec<char>, pos: usize) -> (r: Result<(usize, R2), usize>) {
        match self.parser.parse_chars(chars, pos) {
            Err(e) => Err(e),
            Ok((m, v)) => {
                let next = self.f.call(v);
                next.parse_chars(chars, m)
            },
        }
    }
}

/// Run `parser`, then the parser `f` builds from its value.
pub fn and_then<
    A: DeepView,
    R2: DeepView,
    NextP: Parser<R2>,
    P: Parser<A>,
    F: AndThenFn<A, R2, NextP>,
>(parser: P, f: F) -> (p: AndThenParser<P, F, A, NextP>)
    ensures
        p.parser == parser,
        p.f == f,
{
    AndThenParser { parser, f, marker: core::marker::PhantomData }
}

/// A parser in a box; the behaviour is the boxed parser's.
pub struct BoxedParser<P> {
    pub boxed: Box<P>,
}

impl<P> BoxedParser<P> {
    pub fn new<R: DeepView>(parser: P) -> (p: BoxedParser<P>) where P: Parser<R>
        ensures
            p.boxed == parser,
    {
        BoxedParser { boxed: Box::new(parser) }
    }
}

impl<R: DeepView, P: Parser<R>> Parser<R> for BoxedParser<P> {
    open spec fn ok(&self, input: Seq<char>) -> bool {
        self.boxed.ok(input)
    }

    open spec fn rest(&self, input: Seq<char>) -> Seq<char> {
        self.boxed.rest(input)
    }

    open spec fn err(&self, input: Seq<char>) -> Seq<char> {
        self.boxed.err(input)
    }

    open spec fn value(&self, input: Seq<char>) -> R::V {
        self.boxed.value(input)
    }

    fn parse_chars(&self, chars: &Vec<char>, pos: usize) -> (r: Result<(usize, R), usize>) {
        (&*self.boxed).parse_chars(chars, pos)
    }
}

/// ASCII whitespace.
pub struct IsWhitespace {}

impl PredFn<char> for IsWhitespace {
    open spec fn pred_view(&self, c: char) -> bool {
        c == ' ' || c == '\t' || c == '\n' || c == '\r'
    }

    fn call(&self, t: &char) -> (b: bool) {
        let c = *t;
        c == ' ' || c == '\t' || c == '\n' || c == '\r'
    }
}

/// One ASCII whitespace character.
pub fn whitespace_char() -> (p: PredParser<AnyChar, IsWhitespace>)
    ensures
        p == (PredParser { parser: AnyChar {  }, predicate: IsWhitespace {  } }),
{
    pred(AnyChar {  }, IsWhitespace {  })
}

/// Any amount of whitespace, possibly none.
pub fn whitespace0() -> (p: ZeroOrMore<PredParser<AnyChar, IsWhitespace>>)
    ensures
        p == (ZeroOrMore { parser: PredParser { parser: AnyChar {  }, predicate: IsWhitespace {  } } }),
{
    zero_or_more(whitespace_char())
}

/// At least one whitespace character.
pub fn whitespace1() -> (p: OneOrMore<PredParser<AnyChar, IsWhitespace>>)
    ensures
        p == (OneOrMore { parser: PredParser { parser: AnyChar {  }, predicate: IsWhitespace {  } } }),
{
    one_or_more(whitespace_char())
}

/// A parser surrounded by optional whitespace.
pub fn trim<R: DeepView, P: Parser<R>>(parser: P) -> (p: MapParser<
    PairParser<
        ZeroOrMore<PredParser<AnyChar, IsWhitespace>>,
        MapParser<
            PairParser<P, ZeroOrMore<PredParser<AnyChar, IsWhitespace>>>,
            TakeLeft,
            (R, Vec<char>),
        >,
    >,
    TakeRight,
    (Vec<char>, R),
>)
    ensures
        p.parser.second.parser.first == parser,
{
    right(whitespace0(), left(parser, whitespace0()))
}

/// Everything but a double quote.
pub struct NotQuote {}

impl PredFn<char> for NotQuote {
    open spec fn pred_view(&self, c: char) -> bool {
        c != '"'
    }

    fn call(&self, t: &char) -> (b: bool) {
        *t != '"'
    }
}

/// Characters collected into a string.
pub struct CollectString {}

impl MapFn<Vec<char>, String> for CollectString {
    open spec fn map_view(&self, a: Seq<char>) -> Seq<char> {
        a
    }

    fn call(&self, a: Vec<char>) -> (b: String) {
        proof {
            assert(a.deep_view().len() == a@.len());
            assert forall|i: int| 0 <= i < a@.len() implies a.deep_view()[i] == a@[i] by {}
            assert(a.deep_view() =~= a@);
        }
        let mut s = String::new();
        let mut k: usize = 0;
        while k < a.len()
            invariant
                k <= a@.len(),
                s@ == a@.subrange(0, k as int),
            decreases a@.len() - k,
        {
            push_char(&mut s, a[k]);
            proof {
                assert(a@.subrange(0, k as int).push(a@[k as int]) =~= a@.subrange(0, k + 1));
            }
            k = k + 1;
        }
        proof {
            assert(a@.subrange(0, a@.len() as int) =~= a@);
        }
        s
    }
}

/// A string between double quotes; the quotes are consumed and dropped.
pub fn string_in_quotes() -> (p: MapParser<
    MapParser<
        PairParser<
            MatchLiteral,
            MapParser<
                PairParser<ZeroOrMore<PredParser<AnyChar, NotQuote>>, MatchLiteral>,
                TakeLeft,
                (Vec<char>, ()),
            >,
        >,
        TakeRight,
        ((), Vec<char>),
    >,
    CollectString,
    Vec<char>,
>)
    ensures
        p.parser.parser.first.expected@ == "\""@,
        p.parser.parser.second.parser.second.expected@ == "\""@,
{
    let between_dquotes = zero_or_more(pred(AnyChar {  }, NotQuote {  }));
    let string_with_quotes = right(match_literal("\""), left(between_dquotes, match_literal("\"")));
    map(string_with_quotes, CollectString {  })
}

/// A digit or minus sign, the characters an integer array entry is made of.
pub struct IsIntChar {}

impl PredFn<char> for IsIntChar {
    open spec fn pred_view(&self, c: char) -> bool {
        ('0' <= c && c <= '9') || c == '-'
    }

    fn call(&self, t: &char) -> (b: bool) {
        ('0' <= *t && *t <= '9') || *t == '-'
    }
}

/// The unsigned number a digit string denotes, most significant first;
/// anything unparseable (a sign, or a value past the 32-bit range) is zero.
pub open spec fn u32_of_chars(s: Seq<char>, acc: int) -> int
    decreases s.len(),
{
    if acc > u32::MAX || acc < 0 {
        0
    } else if s.len() == 0 {
        acc
    } else if '0' <= s[0] <= '9' {
        u32_of_chars(s.skip(1), acc * 10 + (s[0] as int - '0' as int))
    } else {
        0
    }
}

/// Digit characters turned into a number; malformed or overflowing entries
/// come out as zero rather than stopping the array parse.
pub struct ParseU32 {}

impl MapFn<Vec<char>, u32> for ParseU32 {
    open spec fn map_view(&self, a: Seq<char>) -> u32 {
        u32_of_chars(a, 0) as u32
    }

    fn call(&self, a: Vec<char>) -> (b: u32) {
        let mut acc: u64 = 0;
        let mut k: usize = 0;
        let n = a.len();
        proof {
            assert(a@.skip(0) =~= a@);
            assert(a.deep_view().len() == a@.len());
            assert forall|i: int| 0 <= i < a@.len() implies a.deep_view()[i] == a@[i] by {}
            assert(a.deep_view() =~= a@);
        }
        while k < n
            invariant
                k <= n == a@.len(),
                acc <= u32::MAX,
                a.deep_view() == a@,
                u32_of_chars(a@, 0) == u32_of_chars(a@.skip(k as int), acc as int),
            decreases n - k,
        {
            let c = a[k];
            if '0' <= c && c <= '9' {
                let d = (c as u32) - ('0' as u32);
                let next = acc * 10 + (d as u64);
                proof {
                    assert(a@.skip(k as int)[0] == c);
                    assert(a@.skip(k as int).skip(1) =~= a@.skip(k + 1));
                    assert(u32_of_chars(a@.skip(k as int), acc as int) == u32_of_chars(
                        a@.skip(k + 1),
                        acc as int * 10 + (c as int - '0' as int),
                    ));
                    assert(next as int == acc as int * 10 + (c as int - '0' as int));
                }
                if next > u32::MAX as u64 {
                    proof {
                        assert(u32_of_chars(a@.skip(k + 1), next as int) == 0);
                        assert(u32_of_chars(a@, 0) == 0);
                        assert(self.map_view(a.deep_view()) == 0);
                    }
                    return 0;
                }
                acc = next;
            } else {
                proof {
                    assert(a@.skip(k as int)[0] == c);
                    assert(u32_of_chars(a@.skip(k as int), acc as int) == 0);
                }
                return 0;
            }
            k = k + 1;
        }
        proof {
            assert(a@.skip(n as int).len() == 0);
            assert(u32_of_chars(a@.skip(n as int), acc as int) == acc as int);
        }
        acc as u32
    }
}

/// Whitespace-separated unsigned integers.
pub fn array_u32() -> (p: ZeroOrMore<
    MapParser<
        MapParser<
            PairParser<
                OneOrMore<PredParser<AnyChar, IsIntChar>>,
                ZeroOrMore<PredParser<AnyChar, IsWhitespace>>,
            >,
            TakeLeft,
            (Vec<char>, Vec<char>),
        >,
        ParseU32,
        Vec<char>,
    >,
>)
    ensures
        true,
{
    let number_str = one_or_more(pred(AnyChar {  }, IsIntChar {  }));
    let number = map(left(number_str, whitespace0()), ParseU32 {  });
    zero_or_more(number)
}

} // verus!
